//! Rendering of one entry: the long-format fields and the styled name.

use vstd::prelude::*;
use crate::config::{EntryMeta, Flags, ListError};
use crate::format::{
    date_text, octal_seq, octal_string, permission_seq, permission_string, render_date,
    render_file_size, size_seq, OFFSET_BIAS,
};
use crate::style::{plain_style, Hue, StringData, Style};
use crate::text::{decimal_seq, decimal_string, ends_with, has_suffix, pad_right, push_char, push_padded, str_equal};

verus! {

/// Relies on users' `get_user_by_uid` and `User::name`: the account name of
/// `uid` in the system's user database, where there is one in UTF-8.
#[verifier::external_body]
fn user_name(uid: u32) -> (r: Option<String>) {
    match users::get_user_by_uid(uid) {
        Some(u) => match u.name().to_str() {
            Some(n) => Some(n.to_string()),
            None => None,
        },
        None => None,
    }
}

/// The two spaces after each long-format field.
pub open spec fn sep() -> Seq<char> {
    seq![' ', ' ']
}

/// A field and its separator when `on`, nothing otherwise.
pub open spec fn field(on: bool, s: Seq<char>) -> Seq<char> {
    if on { s + sep() } else { Seq::empty() }
}

/// What stands in the size column of a non-file.
pub open spec fn size_dash_seq() -> Seq<char> {
    "-      "@
}

/// What stands in the block column of a non-file.
pub open spec fn dash_seq() -> Seq<char> {
    "-     "@
}

/// The owner column: the name padded to eight, or the placeholder.
pub open spec fn owner_seq(owner: Option<Seq<char>>) -> Seq<char> {
    match owner {
        Some(n) => pad_right(n, 8),
        None => "unknown "@,
    }
}

/// The long-format prefix of an entry, in plain form, given the owner name
/// and timestamp text that were found for it.
pub open spec fn long_seq(m: EntryMeta, f: Flags, owner: Option<Seq<char>>, stamp: Seq<char>) -> Seq<char> {
    field(f.inode, pad_right(decimal_seq(m.ino as nat), 9))
        + field(!f.no_perms, permission_seq(m.mode & 0o777, m.is_dir))
        + field(f.octal_perms, octal_seq(m.mode))
        + field(f.show_links, pad_right(decimal_seq(m.nlink as nat), 4))
        + field(!f.no_size, if m.is_file { pad_right(size_seq(m.size as nat, f), 7) } else { size_dash_seq() })
        + field(f.blocks, if m.is_file { pad_right(decimal_seq(m.blocks as nat), 6) } else { dash_seq() })
        + field(!f.no_user, owner_seq(owner))
        + field(!f.no_time, pad_right(stamp, 13))
}

/// A colour without emphasis.
pub open spec fn tint(h: Hue) -> Style {
    Style { hue: h, bold: false, underline: false }
}

/// The separator as a plain piece.
pub open spec fn sep_span() -> (Seq<char>, Style) {
    (sep(), plain_style())
}

/// A field in `style` and its separator when `on`, nothing otherwise.
pub open spec fn field_spans(on: bool, text: Seq<char>, style: Style) -> Seq<(Seq<char>, Style)> {
    if on { seq![(text, style), sep_span()] } else { Seq::empty() }
}

/// The colour of one character of a permission string.
pub open spec fn perm_style_spec(c: char) -> Style {
    if c == 'd' { tint(Hue::BrightBlue) }
    else if c == 'r' { tint(Hue::BrightYellow) }
    else if c == 'w' { tint(Hue::BrightRed) }
    else if c == 'x' { tint(Hue::BrightGreen) }
    else { plain_style() }
}

/// A permission string as one piece per character, each in its colour.
pub open spec fn perm_spans(p: Seq<char>) -> Seq<(Seq<char>, Style)> {
    Seq::new(p.len(), |i: int| (seq![p[i]], perm_style_spec(p[i])))
}

/// The long-format prefix as styled pieces.
pub open spec fn long_spans(m: EntryMeta, f: Flags, owner: Option<Seq<char>>, stamp: Seq<char>)
    -> Seq<(Seq<char>, Style)>
{
    field_spans(f.inode, pad_right(decimal_seq(m.ino as nat), 9), tint(Hue::BrightPurple))
        + (if !f.no_perms {
            perm_spans(permission_seq(m.mode & 0o777, m.is_dir)).push(sep_span())
        } else {
            Seq::empty()
        })
        + (if f.octal_perms {
            seq![("["@, plain_style()), (octal_seq(m.mode).subrange(1, 4), tint(Hue::BrightBlue)),
                ("]"@, plain_style()), sep_span()]
        } else {
            Seq::empty()
        })
        + field_spans(f.show_links, pad_right(decimal_seq(m.nlink as nat), 4), tint(Hue::BrightRed))
        + field_spans(!f.no_size,
            if m.is_file { pad_right(size_seq(m.size as nat, f), 7) } else { size_dash_seq() },
            if m.is_file { tint(Hue::BrightGreen) } else { plain_style() })
        + field_spans(f.blocks,
            if m.is_file { pad_right(decimal_seq(m.blocks as nat), 6) } else { dash_seq() },
            if m.is_file { tint(Hue::BrightBlue) } else { plain_style() })
        + field_spans(!f.no_user, owner_seq(owner), tint(Hue::BrightYellow))
        + field_spans(!f.no_time, pad_right(stamp, 13), tint(Hue::BrightBlue))
}

/// Appends a field in `style` and its separator.
fn push_field(d: &mut StringData, text: &str, style: Style)
    requires
        old(d).wf(),
    ensures
        final(d).wf(),
        final(d).raw_string@ == old(d).raw_string@ + (text@ + sep()),
        final(d).spans@ == old(d).spans@ + seq![(text@, style), sep_span()],
{
    d.push_styled(text, style);
    d.push_plain("  ");
    proof { reveal_strlit("  "); }
    assert("  "@ =~= sep());
    assert(d.raw_string@ =~= old(d).raw_string@ + (text@ + sep()));
    assert(d.spans@ =~= old(d).spans@ + seq![(text@, style), sep_span()]);
}

/// The colour of one character of a permission string.
fn perm_style(c: char) -> (r: Style)
    ensures
        r == perm_style_spec(c),
{
    if c == 'd' { Style::hue(Hue::BrightBlue) }
    else if c == 'r' { Style::hue(Hue::BrightYellow) }
    else if c == 'w' { Style::hue(Hue::BrightRed) }
    else if c == 'x' { Style::hue(Hue::BrightGreen) }
    else { Style::hue(Hue::Plain) }
}

/// Appends the permission string of `mode`, each letter in its colour.
fn push_permissions(d: &mut StringData, mode: u32, is_dir: bool)
    requires
        old(d).wf(),
    ensures
        final(d).wf(),
        final(d).raw_string@ == old(d).raw_string@ + (permission_seq(mode, is_dir) + sep()),
        final(d).spans@ == old(d).spans@ + perm_spans(permission_seq(mode, is_dir)).push(sep_span()),
{
    let p = permission_string(mode, is_dir);
    let n = p.as_str().unicode_len();
    let mut i: usize = 0;
    while i < n
        invariant
            n == p@.len(),
            i <= n,
            d.wf(),
            d.raw_string@ == old(d).raw_string@ + p@.subrange(0, i as int),
            d.spans@ == old(d).spans@ + perm_spans(p@).subrange(0, i as int),
        decreases n - i,
    {
        let c = p.as_str().get_char(i);
        let mut one = String::new();
        push_char(&mut one, c);
        assert(one@ =~= seq![c]);
        d.push_styled(one.as_str(), perm_style(c));
        assert(p@.subrange(0, i + 1) =~= p@.subrange(0, i as int) + one@);
        assert(perm_spans(p@).subrange(0, i + 1) =~= perm_spans(p@).subrange(0, i as int).push((seq![c], perm_style_spec(c))));
        i = i + 1;
    }
    assert(p@.subrange(0, n as int) =~= p@);
    assert(perm_spans(p@).subrange(0, n as int) =~= perm_spans(p@));
    d.push_plain("  ");
    proof { reveal_strlit("  "); }
    assert("  "@ =~= sep());
    assert(d.raw_string@ =~= old(d).raw_string@ + (permission_seq(mode, is_dir) + sep()));
    assert(d.spans@ =~= old(d).spans@ + perm_spans(permission_seq(mode, is_dir)).push(sep_span()));
}

/// Appends the inode column when it is asked for.
fn push_inode(d: &mut StringData, meta: &EntryMeta, flags: &Flags)
    requires
        old(d).wf(),
    ensures
        final(d).wf(),
        final(d).raw_string@ == old(d).raw_string@ + field(flags.inode, pad_right(decimal_seq(meta.ino as nat), 9)),
        final(d).spans@ == old(d).spans@
            + field_spans(flags.inode, pad_right(decimal_seq(meta.ino as nat), 9), tint(Hue::BrightPurple)),
{
    if flags.inode {
        let mut s = String::new();
        push_padded(&mut s, decimal_string(meta.ino).as_str(), 9);
        push_field(d, s.as_str(), Style::hue(Hue::BrightPurple));
    } else {
        assert(d.raw_string@ =~= old(d).raw_string@ + Seq::<char>::empty());
        assert(d.spans@ =~= old(d).spans@ + Seq::<(Seq<char>, Style)>::empty());
    }
}

/// Appends the permission column unless it is suppressed.
fn push_perm_column(d: &mut StringData, meta: &EntryMeta, flags: &Flags)
    requires
        old(d).wf(),
    ensures
        final(d).wf(),
        final(d).raw_string@ == old(d).raw_string@ + field(!flags.no_perms, permission_seq(meta.mode & 0o777, meta.is_dir)),
        final(d).spans@ == old(d).spans@ + (if !flags.no_perms {
            perm_spans(permission_seq(meta.mode & 0o777, meta.is_dir)).push(sep_span())
        } else {
            Seq::empty()
        }),
{
    if !flags.no_perms {
        push_permissions(d, meta.mode & 0o777, meta.is_dir);
    } else {
        assert(d.raw_string@ =~= old(d).raw_string@ + Seq::<char>::empty());
        assert(d.spans@ =~= old(d).spans@ + Seq::<(Seq<char>, Style)>::empty());
    }
}

/// Appends the octal column when it is asked for.
fn push_octal(d: &mut StringData, meta: &EntryMeta, flags: &Flags)
    requires
        old(d).wf(),
    ensures
        final(d).wf(),
        final(d).raw_string@ == old(d).raw_string@ + field(flags.octal_perms, octal_seq(meta.mode)),
        final(d).spans@ == old(d).spans@ + (if flags.octal_perms {
            seq![("["@, plain_style()), (octal_seq(meta.mode).subrange(1, 4), tint(Hue::BrightBlue)),
                ("]"@, plain_style()), sep_span()]
        } else {
            Seq::empty()
        }),
{
    if flags.octal_perms {
        let o = octal_string(meta.mode);
        d.push_plain("[");
        d.push_styled(o.as_str().substring_char(1, 4), Style::hue(Hue::BrightBlue));
        d.push_plain("]");
        d.push_plain("  ");
        proof { reveal_strlit("["); reveal_strlit("]"); reveal_strlit("  "); }
        assert("  "@ =~= sep());
        assert(d.raw_string@ =~= old(d).raw_string@ + field(flags.octal_perms, octal_seq(meta.mode)));
        assert(d.spans@ =~= old(d).spans@ + seq![("["@, plain_style()), (octal_seq(meta.mode).subrange(1, 4), tint(Hue::BrightBlue)),
                ("]"@, plain_style()), sep_span()]);
    } else {
        assert(d.raw_string@ =~= old(d).raw_string@ + Seq::<char>::empty());
        assert(d.spans@ =~= old(d).spans@ + Seq::<(Seq<char>, Style)>::empty());
    }
}

/// Appends the link-count column when it is asked for.
fn push_links(d: &mut StringData, meta: &EntryMeta, flags: &Flags)
    requires
        old(d).wf(),
    ensures
        final(d).wf(),
        final(d).raw_string@ == old(d).raw_string@ + field(flags.show_links, pad_right(decimal_seq(meta.nlink as nat), 4)),
        final(d).spans@ == old(d).spans@
            + field_spans(flags.show_links, pad_right(decimal_seq(meta.nlink as nat), 4), tint(Hue::BrightRed)),
{
    if flags.show_links {
        let mut s = String::new();
        push_padded(&mut s, decimal_string(meta.nlink).as_str(), 4);
        push_field(d, s.as_str(), Style::hue(Hue::BrightRed));
    } else {
        assert(d.raw_string@ =~= old(d).raw_string@ + Seq::<char>::empty());
        assert(d.spans@ =~= old(d).spans@ + Seq::<(Seq<char>, Style)>::empty());
    }
}

/// Appends the size column unless it is suppressed.
fn push_size(d: &mut StringData, meta: &EntryMeta, flags: &Flags)
    requires
        old(d).wf(),
    ensures
        final(d).wf(),
        final(d).raw_string@ == old(d).raw_string@ + field(!flags.no_size,
            if meta.is_file { pad_right(size_seq(meta.size as nat, *flags), 7) } else { size_dash_seq() }),
        final(d).spans@ == old(d).spans@ + field_spans(!flags.no_size,
            if meta.is_file { pad_right(size_seq(meta.size as nat, *flags), 7) } else { size_dash_seq() },
            if meta.is_file { tint(Hue::BrightGreen) } else { plain_style() }),
{
    if !flags.no_size {
        if meta.is_file {
            let mut s = String::new();
            push_padded(&mut s, render_file_size(meta.size, flags).as_str(), 7);
            push_field(d, s.as_str(), Style::hue(Hue::BrightGreen));
        } else {
            push_field(d, "-      ", Style::hue(Hue::Plain));
        }
    } else {
        assert(d.raw_string@ =~= old(d).raw_string@ + Seq::<char>::empty());
        assert(d.spans@ =~= old(d).spans@ + Seq::<(Seq<char>, Style)>::empty());
    }
}

/// Appends the block-count column when it is asked for.
fn push_blocks(d: &mut StringData, meta: &EntryMeta, flags: &Flags)
    requires
        old(d).wf(),
    ensures
        final(d).wf(),
        final(d).raw_string@ == old(d).raw_string@ + field(flags.blocks,
            if meta.is_file { pad_right(decimal_seq(meta.blocks as nat), 6) } else { dash_seq() }),
        final(d).spans@ == old(d).spans@ + field_spans(flags.blocks,
            if meta.is_file { pad_right(decimal_seq(meta.blocks as nat), 6) } else { dash_seq() },
            if meta.is_file { tint(Hue::BrightBlue) } else { plain_style() }),
{
    if flags.blocks {
        if meta.is_file {
            let mut s = String::new();
            push_padded(&mut s, decimal_string(meta.blocks).as_str(), 6);
            push_field(d, s.as_str(), Style::hue(Hue::BrightBlue));
        } else {
            push_field(d, "-     ", Style::hue(Hue::Plain));
        }
    } else {
        assert(d.raw_string@ =~= old(d).raw_string@ + Seq::<char>::empty());
        assert(d.spans@ =~= old(d).spans@ + Seq::<(Seq<char>, Style)>::empty());
    }
}

/// Appends the owner column unless it is suppressed.
fn push_owner(d: &mut StringData, owner: &Option<String>, flags: &Flags)
    requires
        old(d).wf(),
    ensures
        final(d).wf(),
        final(d).raw_string@ == old(d).raw_string@ + field(!flags.no_user,
            owner_seq(match owner { Some(o) => Some(o@), None => None })),
        final(d).spans@ == old(d).spans@ + field_spans(!flags.no_user,
            owner_seq(match owner { Some(o) => Some(o@), None => None }), tint(Hue::BrightYellow)),
{
    if !flags.no_user {
        match owner {
            Some(o) => {
                let mut s = String::new();
                push_padded(&mut s, o.as_str(), 8);
                push_field(d, s.as_str(), Style::hue(Hue::BrightYellow));
            },
            None => {
                push_field(d, "unknown ", Style::hue(Hue::BrightYellow));
            },
        }
    } else {
        assert(d.raw_string@ =~= old(d).raw_string@ + Seq::<char>::empty());
        assert(d.spans@ =~= old(d).spans@ + Seq::<(Seq<char>, Style)>::empty());
    }
}

/// Appends the timestamp column unless it is suppressed.
fn push_stamp(d: &mut StringData, stamp: &str, flags: &Flags)
    requires
        old(d).wf(),
    ensures
        final(d).wf(),
        final(d).raw_string@ == old(d).raw_string@ + field(!flags.no_time, pad_right(stamp@, 13)),
        final(d).spans@ == old(d).spans@ + field_spans(!flags.no_time, pad_right(stamp@, 13), tint(Hue::BrightBlue)),
{
    if !flags.no_time {
        let mut s = String::new();
        push_padded(&mut s, stamp, 13);
        push_field(d, s.as_str(), Style::hue(Hue::BrightBlue));
    } else {
        assert(d.raw_string@ =~= old(d).raw_string@ + Seq::<char>::empty());
        assert(d.spans@ =~= old(d).spans@ + Seq::<(Seq<char>, Style)>::empty());
    }
}

/// Renders the long-format prefix from metadata, the owner name found for it
/// and its timestamp text.
pub fn render_long_with(meta: &EntryMeta, flags: &Flags, owner: &Option<String>, stamp: &str) -> (r: StringData)
    ensures
        r.wf(),
        r.raw_string@ == long_seq(*meta, *flags, match owner { Some(o) => Some(o@), None => None }, stamp@),
        r.spans@ == long_spans(*meta, *flags, match owner { Some(o) => Some(o@), None => None }, stamp@),
{
    let mut d = StringData::new();
    push_inode(&mut d, meta, flags);
    push_perm_column(&mut d, meta, flags);
    push_octal(&mut d, meta, flags);
    push_links(&mut d, meta, flags);
    push_size(&mut d, meta, flags);
    push_blocks(&mut d, meta, flags);
    push_owner(&mut d, owner, flags);
    push_stamp(&mut d, stamp, flags);
    assert(d.raw_string@ =~= long_seq(*meta, *flags, match owner { Some(o) => Some(o@), None => None }, stamp@));
    assert(d.spans@ =~= long_spans(*meta, *flags, match owner { Some(o) => Some(o@), None => None }, stamp@));
    d
}

/// The long-format prefix, plain and as styled pieces, for some owner name
/// and some timestamp text that the machine gave for `dt` at `now`.
pub open spec fn is_long_rendering(
    s: Seq<char>,
    sp: Seq<(Seq<char>, Style)>,
    m: EntryMeta,
    f: Flags,
    now: i64,
) -> bool {
    exists|owner: Option<Seq<char>>, stamp: Seq<char>|
        s == long_seq(m, f, owner, stamp) && sp == long_spans(m, f, owner, stamp)
        && (!f.no_time ==> exists|off: int|
            -86400 + OFFSET_BIAS < off < 86400 + OFFSET_BIAS
            && date_text(m.mtime as int, now as int, off) == Some(stamp))
}

/// Renders the long-format prefix, looking up the owner's name and the local
/// time zone; `now` is the current time in seconds since the epoch.
pub fn render_long(meta: &EntryMeta, flags: &Flags, now: i64) -> (r: Result<StringData, ListError>)
    ensures
        r matches Ok(d) ==> d.wf() && is_long_rendering(d.raw_string@, d.spans@, *meta, *flags, now),
        r matches Err(e) ==> !flags.no_time && e == ListError::TimestampOutOfRange(meta.mtime),
{
    let owner = if flags.no_user { None } else { user_name(meta.uid) };
    let stamp = if flags.no_time {
        String::new()
    } else {
        match render_date(meta.mtime, now) {
            Some(s) => s,
            None => return Err(ListError::TimestampOutOfRange(meta.mtime)),
        }
    };
    let d = render_long_with(meta, flags, &owner, stamp.as_str());
    let ghost ow = match owner { Some(o) => Some(o@), None => None };
    assert(d.raw_string@ == long_seq(*meta, *flags, ow, stamp@));
    assert(d.spans@ == long_spans(*meta, *flags, ow, stamp@));
    Ok(d)
}

/// Names shown as documents: `.md` and `.toml` files, `.gitignore` and makefiles.
pub open spec fn is_doc_name(n: Seq<char>) -> bool {
    has_suffix(n, ".md"@) || has_suffix(n, ".toml"@) || n == ".gitignore"@ || n == "makefile"@
        || n == "Makefile"@
}

/// Names shown as media: image extensions.
pub open spec fn is_media_name(n: Seq<char>) -> bool {
    has_suffix(n, ".png"@) || has_suffix(n, ".bmp"@) || has_suffix(n, ".jpg"@) || has_suffix(n, ".jpeg"@)
        || has_suffix(n, ".svg"@)
}

/// Whether any execute bit (owner, group or other) is set.
pub open spec fn is_executable(mode: u32) -> bool {
    mode & 0o111 != 0
}

/// The style of a file's name; execute colouring wins over the others.
pub open spec fn name_style_spec(n: Seq<char>, mode: u32) -> Style {
    Style {
        hue: if is_executable(mode) {
            Hue::BrightGreen
        } else if is_media_name(n) {
            Hue::BrightPurple
        } else if is_doc_name(n) {
            Hue::BrightYellow
        } else {
            Hue::Plain
        },
        bold: false,
        underline: is_doc_name(n),
    }
}

/// Chooses the style of a file's name.
pub fn name_style(name: &str, mode: u32) -> (r: Style)
    ensures
        r == name_style_spec(name@, mode),
{
    let doc = ends_with(name, ".md") || ends_with(name, ".toml") || str_equal(name, ".gitignore")
        || str_equal(name, "makefile") || str_equal(name, "Makefile");
    let media = ends_with(name, ".png") || ends_with(name, ".bmp") || ends_with(name, ".jpg")
        || ends_with(name, ".jpeg") || ends_with(name, ".svg");
    let hue = if mode & 0o111 != 0 {
        Hue::BrightGreen
    } else if media {
        Hue::BrightPurple
    } else if doc {
        Hue::BrightYellow
    } else {
        Hue::Plain
    };
    Style { hue, bold: false, underline: doc }
}

/// A file's name in plain form: a `*` follows the name of an executable.
pub open spec fn file_name_seq(n: Seq<char>, mode: u32) -> Seq<char> {
    if is_executable(mode) { n.push('*') } else { n }
}

/// A file's name as styled pieces: the name in its style, then an unstyled
/// `*` for an executable.
pub open spec fn file_name_spans(n: Seq<char>, mode: u32) -> Seq<(Seq<char>, Style)> {
    seq![(n, name_style_spec(n, mode))]
        + if is_executable(mode) { seq![("*"@, plain_style())] } else { Seq::empty() }
}

/// A directory's name in plain form: a `/` follows it.
pub open spec fn dir_name_seq(n: Seq<char>) -> Seq<char> {
    n.push('/')
}

/// The style of a directory's name.
pub open spec fn dir_style() -> Style {
    Style { hue: Hue::BrightBlue, bold: true, underline: false }
}

/// A directory's name as styled pieces: the name in the directory style, then `/`.
pub open spec fn dir_name_spans(n: Seq<char>) -> Seq<(Seq<char>, Style)> {
    seq![(n, dir_style()), ("/"@, plain_style())]
}

/// Information to be stored about each file.
#[derive(Debug)]
pub struct File {
    /// File name
    pub name: String,
    /// File path
    pub path_str: String,
    /// What the filesystem reported of it
    pub meta: EntryMeta,
}

/// Information to be stored about each directory.
#[derive(Debug)]
pub struct Directory {
    /// Directory name
    pub name: String,
    /// Directory path
    pub path_str: String,
    /// What the filesystem reported of it
    pub meta: EntryMeta,
}

/// A rendering: the long prefix when asked for, then the name, in plain
/// form and as styled pieces.
pub open spec fn is_entry_rendering(
    d: StringData,
    m: EntryMeta,
    f: Flags,
    now: i64,
    name_seq: Seq<char>,
    name_spans: Seq<(Seq<char>, Style)>,
) -> bool {
    &&& d.wf()
    &&& if f.long {
        exists|p: Seq<char>, ps: Seq<(Seq<char>, Style)>|
            is_long_rendering(p, ps, m, f, now) && d.raw_string@ == p + name_seq && d.spans@ == ps + name_spans
    } else {
        d.raw_string@ == name_seq && d.spans@ == name_spans
    }
}

/// Puts the long prefix, when asked for, in front of a rendered name.
fn with_long_prefix(name: StringData, meta: &EntryMeta, flags: &Flags, now: i64) -> (r: Result<StringData, ListError>)
    requires
        name.wf(),
    ensures
        r matches Ok(d) ==> is_entry_rendering(d, *meta, *flags, now, name.raw_string@, name.spans@),
        r matches Err(e) ==> flags.long && !flags.no_time && e == ListError::TimestampOutOfRange(meta.mtime),
{
    if flags.long {
        let mut long = render_long(meta, flags, now)?;
        long.push_data(&name);
        Ok(long)
    } else {
        Ok(name)
    }
}

impl File {
    /// A file entry.
    pub fn new(name: String, path_str: String, meta: EntryMeta) -> (r: File)
        ensures
            r.name == name && r.path_str == path_str && r.meta == meta,
    {
        File { name, path_str, meta }
    }

    /// Renders the file: the long prefix when asked for, then its styled name.
    pub fn render(&self, flags: &Flags, now: i64) -> (r: Result<StringData, ListError>)
        ensures
            r matches Ok(d) ==> is_entry_rendering(d, self.meta, *flags, now,
                file_name_seq(self.name@, self.meta.mode), file_name_spans(self.name@, self.meta.mode)),
            r matches Err(e) ==> flags.long && !flags.no_time
                && e == ListError::TimestampOutOfRange(self.meta.mtime),
    {
        let mut d = StringData::new();
        d.push_styled(self.name.as_str(), name_style(self.name.as_str(), self.meta.mode));
        if self.meta.mode & 0o111 != 0 {
            d.push_plain("*");
            proof { reveal_strlit("*"); }
        }
        assert(d.raw_string@ =~= file_name_seq(self.name@, self.meta.mode));
        assert(d.spans@ =~= file_name_spans(self.name@, self.meta.mode));
        with_long_prefix(d, &self.meta, flags, now)
    }
}

impl Directory {
    /// A directory entry.
    pub fn new(name: String, path_str: String, meta: EntryMeta) -> (r: Directory)
        ensures
            r.name == name && r.path_str == path_str && r.meta == meta,
    {
        Directory { name, path_str, meta }
    }

    /// Renders the directory: the long prefix when asked for, then its name
    /// in the directory style and a `/`.
    pub fn render(&self, flags: &Flags, now: i64) -> (r: Result<StringData, ListError>)
        ensures
            r matches Ok(d) ==> is_entry_rendering(d, self.meta, *flags, now,
                dir_name_seq(self.name@), dir_name_spans(self.name@)),
            r matches Err(e) ==> flags.long && !flags.no_time
                && e == ListError::TimestampOutOfRange(self.meta.mtime),
    {
        let mut d = StringData::new();
        d.push_styled(self.name.as_str(), Style { hue: Hue::BrightBlue, bold: true, underline: false });
        d.push_plain("/");
        proof { reveal_strlit("/"); }
        assert(d.raw_string@ =~= dir_name_seq(self.name@));
        assert(d.spans@ =~= dir_name_spans(self.name@));
        with_long_prefix(d, &self.meta, flags, now)
    }
}

} // verus!
