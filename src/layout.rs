//! The listing as a whole: hidden-entry filtering, the header row and the grid.

use vstd::prelude::*;
use crate::config::{Flags, ListError};
use crate::entry::{dir_name_seq, dir_name_spans, file_name_seq, file_name_spans, is_entry_rendering, Directory, File};
use crate::style::{plain_style, Hue, StringData, Style};
use crate::text::{has_prefix, push_char, spaces, starts_with};

verus! {

/// The width of a line that the grid fills.
pub const LINE_WIDTH: usize = 80;

/// Whether an entry of this name is listed: hidden names (starting with `.`)
/// only when hidden entries are asked for.
pub open spec fn shown(name: Seq<char>, f: Flags) -> bool {
    f.all || !has_prefix(name, "."@)
}

/// Decides whether an entry of this name is listed.
pub fn is_shown(name: &str, flags: &Flags) -> (r: bool)
    ensures
        r == shown(name@, *flags),
{
    flags.all || !starts_with(name, ".")
}

/// An entry named `.git` is listed exactly when hidden entries are asked
/// for, whatever the other flags say.
pub proof fn lemma_git_hidden(f: Flags)
    ensures
        shown(".git"@, f) <==> f.all,
{
    reveal_strlit(".git");
    reveal_strlit(".");
    assert(".git"@.subrange(0, 1) =~= "."@);
}

/// The number of entries on a line for entries at most `max` wide.
pub open spec fn column_count(max: nat) -> nat {
    if max == 0 || max > LINE_WIDTH { 1 } else { LINE_WIDTH as nat / max }
}

/// Entries of the widest width fill at most a line: the columns times the
/// widest width stay within the line width, and there is always a column.
pub proof fn lemma_columns_fit(max: nat)
    requires
        1 <= max <= LINE_WIDTH,
    ensures
        column_count(max) >= 1,
        column_count(max) * max <= LINE_WIDTH,
{
    assert((80nat / max) * max <= 80nat) by (nonlinear_arith) requires 1 <= max <= 80;
    assert(80nat / max >= 1) by (nonlinear_arith) requires 1 <= max <= 80;
}

/// The widest of the rendered entries; zero when there are none.
pub open spec fn max_len(items: Seq<StringData>) -> nat
    decreases items.len(),
{
    if items.len() == 0 {
        0
    } else {
        let m = max_len(items.drop_last());
        let w = items.last().length as nat;
        if w > m { w } else { m }
    }
}

/// Each entry padded to `max + 2`, with a line break after every `cols`-th
/// entry, or after each in one-per-line mode.
pub open spec fn grid_seq(items: Seq<StringData>, max: nat, cols: nat, one: bool) -> Seq<char>
    decreases items.len(),
{
    if items.len() == 0 {
        Seq::empty()
    } else {
        let d = items.last();
        grid_seq(items.drop_last(), max, cols, one) + d.colored_string@ + spaces((max - d.length + 2) as nat)
            + if one || items.len() % cols == 0 { seq!['\n'] } else { Seq::empty() }
    }
}

/// The grid of all entries, with a final line break in grid mode.
pub open spec fn layout_seq(items: Seq<StringData>, one: bool) -> Seq<char> {
    let max = max_len(items);
    grid_seq(items, max, column_count(max), one) + if one { Seq::empty() } else { seq!['\n'] }
}

proof fn lemma_max_len_bound(items: Seq<StringData>, j: int)
    requires
        0 <= j < items.len(),
    ensures
        items[j].length <= max_len(items),
    decreases items.len(),
{
    if j < items.len() - 1 {
        lemma_max_len_bound(items.drop_last(), j);
    }
}

/// The widths of entries `a` up to (not including) `b`, summed.
pub open spec fn width_sum(items: Seq<StringData>, a: int, b: int) -> int
    decreases b - a,
{
    if b <= a { 0 } else { width_sum(items, a, b - 1) + items[b - 1].length }
}

proof fn lemma_width_sum_bound(items: Seq<StringData>, a: int, b: int, max: nat)
    requires
        0 <= a <= b <= items.len(),
        forall|j: int| 0 <= j < items.len() ==> #[trigger] items[j].length <= max,
    ensures
        width_sum(items, a, b) <= (b - a) * max,
    decreases b - a,
{
    if b > a {
        lemma_width_sum_bound(items, a, b - 1, max);
        assert((b - 1 - a) * max + max == (b - a) * max) by (nonlinear_arith);
    }
}

/// In grid mode, row `row` holds the entries from `row` times the column
/// count up to the next multiple (or the end); when every entry fits a line,
/// their widths sum to at most the line width.
pub proof fn lemma_grid_row_width(items: Seq<StringData>, row: nat)
    requires
        1 <= max_len(items) <= LINE_WIDTH,
    ensures
        ({
            let c = column_count(max_len(items));
            let a = row * c;
            let b: int = if a + c < items.len() { (a + c) as int } else { items.len() as int };
            a <= items.len() ==> width_sum(items, a as int, b) <= LINE_WIDTH
        }),
{
    let max = max_len(items);
    let c = column_count(max);
    let a = row * c;
    let b: int = if a + c < items.len() { (a + c) as int } else { items.len() as int };
    lemma_columns_fit(max);
    if a <= items.len() {
        assert forall|j: int| 0 <= j < items.len() implies #[trigger] items[j].length <= max by {
            lemma_max_len_bound(items, j);
        }
        lemma_width_sum_bound(items, a as int, b, max);
        assert((b - a) * max <= c * max) by (nonlinear_arith) requires b - a <= c;
    }
}

/// Appends `n` spaces.
fn push_spaces(out: &mut String, n: usize)
    ensures
        final(out)@ == old(out)@ + spaces(n as nat),
{
    let mut k: usize = 0;
    while k < n
        invariant
            k <= n,
            out@ == old(out)@ + spaces(k as nat),
        decreases n - k,
    {
        push_char(out, ' ');
        assert(spaces((k + 1) as nat) =~= spaces(k as nat).push(' '));
        k = k + 1;
    }
}

/// Arranges rendered entries in a grid bounded by the line width, or one per line.
pub fn layout(items: &Vec<StringData>, one_per_line: bool) -> (r: String)
    ensures
        r@ == layout_seq(items@, one_per_line),
{
    let n = items.len();
    let mut max: usize = 0;
    let mut i: usize = 0;
    while i < n
        invariant
            n == items@.len(),
            i <= n,
            max == max_len(items@.subrange(0, i as int)),
        decreases n - i,
    {
        assert(items@.subrange(0, i + 1).drop_last() =~= items@.subrange(0, i as int));
        if items[i].length > max {
            max = items[i].length;
        }
        i = i + 1;
    }
    assert(items@.subrange(0, n as int) =~= items@);
    let cols: usize = if max == 0 || max > LINE_WIDTH { 1 } else { LINE_WIDTH / max };
    proof {
        if max != 0 && max <= LINE_WIDTH {
            lemma_columns_fit(max as nat);
        }
    }
    let mut out = String::new();
    let mut i: usize = 0;
    while i < n
        invariant
            n == items@.len(),
            i <= n,
            max == max_len(items@),
            cols == column_count(max as nat),
            cols >= 1,
            out@ == grid_seq(items@.subrange(0, i as int), max as nat, cols as nat, one_per_line),
        decreases n - i,
    {
        proof { lemma_max_len_bound(items@, i as int); }
        assert(items@.subrange(0, i + 1).drop_last() =~= items@.subrange(0, i as int));
        let d = &items[i];
        out.append(d.colored_string.as_str());
        push_spaces(&mut out, max - d.length);
        push_char(&mut out, ' ');
        push_char(&mut out, ' ');
        assert(spaces((max - d.length) as nat).push(' ').push(' ') =~= spaces((max - d.length + 2) as nat));
        if one_per_line || (i + 1) % cols == 0 {
            push_char(&mut out, '\n');
        }
        i = i + 1;
        assert(out@ =~= grid_seq(items@.subrange(0, i as int), max as nat, cols as nat, one_per_line));
    }
    assert(items@.subrange(0, n as int) =~= items@);
    if !one_per_line {
        push_char(&mut out, '\n');
    }
    assert(out@ =~= layout_seq(items@, one_per_line));
    out
}

/// The header row in plain form: the names of the active columns, each
/// padded to its column, then `Name`.
pub open spec fn header_seq(f: Flags) -> Seq<char> {
    (if f.inode { "inode"@ + spaces(6) } else { Seq::empty() })
        + (if !f.no_perms { "Permissions"@ + spaces(1) } else { Seq::empty() })
        + (if f.octal_perms { "Octal"@ + spaces(2) } else { Seq::empty() })
        + (if f.show_links { "Link"@ + spaces(2) } else { Seq::empty() })
        + (if !f.no_size { "Size"@ + spaces(5) } else { Seq::empty() })
        + (if f.blocks { "Blocks"@ + spaces(2) } else { Seq::empty() })
        + (if !f.no_user { "User"@ + spaces(6) } else { Seq::empty() })
        + (if !f.no_time { "Modified"@ + spaces(7) } else { Seq::empty() })
        + "Name"@
}

/// The style of a header label.
pub open spec fn label_style() -> Style {
    Style { hue: Hue::White, bold: false, underline: true }
}

/// A header label and its padding as styled pieces when `on`.
pub open spec fn label_spans(on: bool, label: Seq<char>, pad: nat) -> Seq<(Seq<char>, Style)> {
    if on { seq![(label, label_style()), (spaces(pad), plain_style())] } else { Seq::empty() }
}

/// The header row as styled pieces.
pub open spec fn header_spans(f: Flags) -> Seq<(Seq<char>, Style)> {
    label_spans(f.inode, "inode"@, 6) + label_spans(!f.no_perms, "Permissions"@, 1)
        + label_spans(f.octal_perms, "Octal"@, 2) + label_spans(f.show_links, "Link"@, 2)
        + label_spans(!f.no_size, "Size"@, 5) + label_spans(f.blocks, "Blocks"@, 2)
        + label_spans(!f.no_user, "User"@, 6) + label_spans(!f.no_time, "Modified"@, 7)
        + label_spans(true, "Name"@, 0)
}

/// Appends a header label, underlined, and its padding when `on`.
fn push_label(d: &mut StringData, on: bool, label: &str, pad: usize)
    requires
        old(d).wf(),
    ensures
        final(d).wf(),
        final(d).raw_string@ == old(d).raw_string@ + if on { label@ + spaces(pad as nat) } else { Seq::empty() },
        final(d).spans@ == old(d).spans@ + label_spans(on, label@, pad as nat),
{
    if on {
        d.push_styled(label, Style { hue: Hue::White, bold: false, underline: true });
        let mut s = String::new();
        push_spaces(&mut s, pad);
        assert(s@ =~= spaces(pad as nat));
        d.push_plain(s.as_str());
        assert(d.raw_string@ =~= old(d).raw_string@ + (label@ + spaces(pad as nat)));
        assert(d.spans@ =~= old(d).spans@ + label_spans(on, label@, pad as nat));
    } else {
        assert(d.raw_string@ =~= old(d).raw_string@ + Seq::<char>::empty());
        assert(d.spans@ =~= old(d).spans@ + Seq::<(Seq<char>, Style)>::empty());
    }
}

/// Renders the header row of the long format.
pub fn header(flags: &Flags) -> (r: StringData)
    ensures
        r.wf(),
        r.raw_string@ == header_seq(*flags),
        r.spans@ == header_spans(*flags),
{
    let mut d = StringData::new();
    push_label(&mut d, flags.inode, "inode", 6);
    push_label(&mut d, !flags.no_perms, "Permissions", 1);
    push_label(&mut d, flags.octal_perms, "Octal", 2);
    push_label(&mut d, flags.show_links, "Link", 2);
    push_label(&mut d, !flags.no_size, "Size", 5);
    push_label(&mut d, flags.blocks, "Blocks", 2);
    push_label(&mut d, !flags.no_user, "User", 6);
    push_label(&mut d, !flags.no_time, "Modified", 7);
    push_label(&mut d, true, "Name", 0);
    assert(spaces(0) =~= Seq::<char>::empty());
    assert(d.raw_string@ =~= header_seq(*flags));
    assert(d.spans@ =~= header_spans(*flags));
    d
}

/// The files that are listed, in order.
pub open spec fn shown_files(s: Seq<File>, f: Flags) -> Seq<File>
    decreases s.len(),
{
    if s.len() == 0 {
        Seq::empty()
    } else {
        let r = shown_files(s.drop_last(), f);
        if shown(s.last().name@, f) { r.push(s.last()) } else { r }
    }
}

/// The directories that are listed, in order.
pub open spec fn shown_dirs(s: Seq<Directory>, f: Flags) -> Seq<Directory>
    decreases s.len(),
{
    if s.len() == 0 {
        Seq::empty()
    } else {
        let r = shown_dirs(s.drop_last(), f);
        if shown(s.last().name@, f) { r.push(s.last()) } else { r }
    }
}

/// A file or directory named `.git` is among the listed entries exactly when
/// hidden entries are asked for, whatever the other flags say.
pub proof fn lemma_git_listing(x: File, y: Directory, f: Flags)
    requires
        x.name@ == ".git"@,
        y.name@ == ".git"@,
    ensures
        shown_files(seq![x], f).len() == if f.all { 1nat } else { 0nat },
        shown_dirs(seq![y], f).len() == if f.all { 1nat } else { 0nat },
{
    lemma_git_hidden(f);
    assert(seq![x].drop_last() =~= Seq::<File>::empty());
    assert(seq![y].drop_last() =~= Seq::<Directory>::empty());
    assert(seq![x].last() == x);
    assert(seq![y].last() == y);
    reveal_with_fuel(shown_files, 2);
    reveal_with_fuel(shown_dirs, 2);
}

/// `d` is a rendering of file `x`.
pub open spec fn file_rendered(d: StringData, x: File, f: Flags, now: i64) -> bool {
    is_entry_rendering(d, x.meta, f, now, file_name_seq(x.name@, x.meta.mode), file_name_spans(x.name@, x.meta.mode))
}

/// `d` is a rendering of directory `x`.
pub open spec fn dir_rendered(d: StringData, x: Directory, f: Flags, now: i64) -> bool {
    is_entry_rendering(d, x.meta, f, now, dir_name_seq(x.name@), dir_name_spans(x.name@))
}

/// `items` renders the listed files, then the listed directories, in order.
pub open spec fn renders_listing(items: Seq<StringData>, files: Seq<File>, dirs: Seq<Directory>, f: Flags, now: i64) -> bool {
    let sf = shown_files(files, f);
    let sd = shown_dirs(dirs, f);
    &&& items.len() == sf.len() + sd.len()
    &&& forall|k: int| 0 <= k < sf.len() ==> file_rendered(#[trigger] items[k], sf[k], f, now)
    &&& forall|k: int| 0 <= k < sd.len() ==> dir_rendered(#[trigger] items[sf.len() + k], sd[k], f, now)
}

proof fn lemma_shown_files_prefix(s: Seq<File>, f: Flags, i: int)
    requires
        0 <= i <= s.len(),
    ensures
        shown_files(s.subrange(0, i), f).len() <= shown_files(s, f).len(),
    decreases s.len(),
{
    if i < s.len() {
        assert(s.drop_last().subrange(0, i) =~= s.subrange(0, i));
        lemma_shown_files_prefix(s.drop_last(), f, i);
    } else {
        assert(s.subrange(0, i) =~= s);
    }
}

proof fn lemma_shown_dirs_prefix(s: Seq<Directory>, f: Flags, i: int)
    requires
        0 <= i <= s.len(),
    ensures
        shown_dirs(s.subrange(0, i), f).len() <= shown_dirs(s, f).len(),
    decreases s.len(),
{
    if i < s.len() {
        assert(s.drop_last().subrange(0, i) =~= s.subrange(0, i));
        lemma_shown_dirs_prefix(s.drop_last(), f, i);
    } else {
        assert(s.subrange(0, i) =~= s);
    }
}

/// Stores the discovered files and folders to be displayed.
#[derive(Debug)]
pub struct Display {
    /// Files to display
    pub files: Vec<File>,
    /// Directories to display
    pub directories: Vec<Directory>,
}

impl Display {
    /// An empty listing.
    pub fn new() -> (r: Display)
        ensures
            r.files@.len() == 0,
            r.directories@.len() == 0,
    {
        Display { files: Vec::new(), directories: Vec::new() }
    }

    /// Renders the listed files, then the listed directories.
    fn render_all(&self, flags: &Flags, now: i64) -> (r: Result<Vec<StringData>, ListError>)
        ensures
            r matches Ok(items) ==> renders_listing(items@, self.files@, self.directories@, *flags, now),
            r matches Err(e) ==> flags.long && !flags.no_time && e is TimestampOutOfRange
                && shown_files(self.files@, *flags).len() + shown_dirs(self.directories@, *flags).len() > 0,
    {
        let mut out: Vec<StringData> = Vec::new();
        let nf = self.files.len();
        let mut i: usize = 0;
        while i < nf
            invariant
                nf == self.files@.len(),
                i <= nf,
                out@.len() == shown_files(self.files@.subrange(0, i as int), *flags).len(),
                forall|k: int| 0 <= k < out@.len() ==> file_rendered(#[trigger] out@[k],
                    shown_files(self.files@.subrange(0, i as int), *flags)[k], *flags, now),
            decreases nf - i,
        {
            assert(self.files@.subrange(0, i + 1).drop_last() =~= self.files@.subrange(0, i as int));
            assert(self.files@.subrange(0, i + 1).last() == self.files@[i as int]);
            let x = &self.files[i];
            if is_shown(x.name.as_str(), flags) {
                let d = match x.render(flags, now) {
                    Ok(d) => d,
                    Err(e) => {
                        proof { lemma_shown_files_prefix(self.files@, *flags, i + 1); }
                        return Err(e);
                    },
                };
                out.push(d);
            }
            i = i + 1;
        }
        assert(self.files@.subrange(0, nf as int) =~= self.files@);
        let ghost sf = shown_files(self.files@, *flags);
        let nd = self.directories.len();
        let mut i: usize = 0;
        while i < nd
            invariant
                nd == self.directories@.len(),
                i <= nd,
                sf == shown_files(self.files@, *flags),
                out@.len() == sf.len() + shown_dirs(self.directories@.subrange(0, i as int), *flags).len(),
                forall|k: int| 0 <= k < sf.len() ==> file_rendered(#[trigger] out@[k], sf[k], *flags, now),
                forall|k: int| 0 <= k < shown_dirs(self.directories@.subrange(0, i as int), *flags).len()
                    ==> dir_rendered(#[trigger] out@[sf.len() + k],
                    shown_dirs(self.directories@.subrange(0, i as int), *flags)[k], *flags, now),
            decreases nd - i,
        {
            assert(self.directories@.subrange(0, i + 1).drop_last() =~= self.directories@.subrange(0, i as int));
            assert(self.directories@.subrange(0, i + 1).last() == self.directories@[i as int]);
            let x = &self.directories[i];
            if is_shown(x.name.as_str(), flags) {
                let d = match x.render(flags, now) {
                    Ok(d) => d,
                    Err(e) => {
                        proof { lemma_shown_dirs_prefix(self.directories@, *flags, i + 1); }
                        return Err(e);
                    },
                };
                out.push(d);
            }
            i = i + 1;
        }
        assert(self.directories@.subrange(0, nd as int) =~= self.directories@);
        Ok(out)
    }

    /// Writes the listing: the header row when the long format asks for it,
    /// then the grid of the listed files and directories.
    pub fn display(&self, flags: &Flags, now: i64) -> (r: Result<String, ListError>)
        ensures
            r matches Ok(s) ==> exists|h: Seq<char>, items: Seq<StringData>|
                s@ == h + layout_seq(items, flags.one_per_line)
                && (flags.long && flags.headers ==> exists|hd: StringData|
                    hd.wf() && hd.spans@ == header_spans(*flags) && h == hd.colored_string@.push('\n'))
                && (!(flags.long && flags.headers) ==> h.len() == 0)
                && renders_listing(items, self.files@, self.directories@, *flags, now),
            r matches Err(e) ==> flags.long && !flags.no_time && e is TimestampOutOfRange,
            shown_files(self.files@, *flags).len() + shown_dirs(self.directories@, *flags).len() == 0 ==> r is Ok,
    {
        let items = self.render_all(flags, now)?;
        let mut out = String::new();
        if flags.long && flags.headers {
            let h = header(flags);
            out.append(h.colored_string.as_str());
            push_char(&mut out, '\n');
            assert(out@ =~= h.colored_string@.push('\n'));
        }
        let ghost h = out@;
        let grid = layout(&items, flags.one_per_line);
        out.append(grid.as_str());
        assert(out@ == h + layout_seq(items@, flags.one_per_line));
        Ok(out)
    }
}

} // verus!
