//! The run as a whole: flags from the command line, and the decisions of the
//! directory walk, which records what it finds for the listing.

use vstd::prelude::*;
use crate::config::{EntryMeta, Flags, ListError, Mode};
use crate::layout::Display;
use crate::entry::{Directory, File};
use crate::text::{has_prefix, has_suffix, push_char, starts_with, str_equal};

verus! {

/// The character views of a list of strings.
pub open spec fn views(v: Seq<String>) -> Seq<Seq<char>> {
    v.map_values(|s: String| s@)
}

/// `-` followed by each character of `a` but `-`.
pub open spec fn dash_each(a: Seq<char>) -> Seq<Seq<char>>
    decreases a.len(),
{
    if a.len() == 0 {
        Seq::empty()
    } else {
        let r = dash_each(a.drop_last());
        if a.last() != '-' { r.push(seq!['-', a.last()]) } else { r }
    }
}

/// Whether an argument bundles short options (`-la`).
pub open spec fn is_bundle(a: Seq<char>) -> bool {
    !has_prefix(a, "--"@) && has_prefix(a, "-"@) && a.len() > 2
}

/// An argument as single options: a bundle split into one option per letter.
pub open spec fn expand_arg(a: Seq<char>) -> Seq<Seq<char>> {
    if is_bundle(a) { dash_each(a) } else { seq![a] }
}

/// All arguments with bundles split.
pub open spec fn expand_args(args: Seq<Seq<char>>) -> Seq<Seq<char>>
    decreases args.len(),
{
    if args.len() == 0 {
        Seq::empty()
    } else {
        expand_args(args.drop_last()) + expand_arg(args.last())
    }
}

/// Whether `e` holds `a` or `b`.
pub open spec fn has_either(e: Seq<Seq<char>>, a: Seq<char>, b: Seq<char>) -> bool {
    e.contains(a) || e.contains(b)
}

/// The operands: everything from the first argument that does not start with `-`.
pub open spec fn operands(e: Seq<Seq<char>>, started: bool) -> Seq<Seq<char>>
    decreases e.len(),
{
    if e.len() == 0 {
        Seq::empty()
    } else {
        let now = started || !has_prefix(e[0], "-"@);
        (if now { seq![e[0]] } else { Seq::empty() }) + operands(e.subrange(1, e.len() as int), now)
    }
}

/// The paths to list: the operands after the program name, or the current directory.
pub open spec fn targets_of(e: Seq<Seq<char>>) -> Seq<Seq<char>> {
    let ops = if e.len() == 0 { Seq::empty() } else { operands(e.subrange(1, e.len() as int), false) };
    if ops.len() == 0 { seq!["./"@] } else { ops }
}

/// The flags that the expanded arguments `e` set.
pub open spec fn flags_of(f: Flags, e: Seq<Seq<char>>) -> bool {
    &&& views(f.files@) == targets_of(e)
    &&& f.recursive == has_either(e, "-R"@, "--recursive"@)
    &&& f.all == has_either(e, "-a"@, "--all"@)
    &&& f.long == has_either(e, "-l"@, "--long"@)
    &&& f.one_per_line == has_either(e, "-l"@, "-1"@)
    &&& f.only_dirs == has_either(e, "-D"@, "--only-dirs"@)
    &&& f.binary_sizes == has_either(e, "-b"@, "--binary"@)
    &&& f.byte_sizes == has_either(e, "-B"@, "--bytes"@)
    &&& f.headers == has_either(e, "-h"@, "--header"@)
    &&& f.show_links == has_either(e, "-H"@, "--links"@)
    &&& f.inode == has_either(e, "-i"@, "--inode"@)
    &&& f.blocks == has_either(e, "-S"@, "--blocks"@)
    &&& f.no_perms == e.contains("--no-permissions"@)
    &&& f.no_size == e.contains("--no-filesize"@)
    &&& f.no_user == e.contains("--no-user"@)
    &&& f.no_time == e.contains("--no-time"@)
    &&& f.octal_perms == has_either(e, "-O"@, "--octal"@)
}

/// The mode that the expanded arguments ask for.
pub open spec fn mode_of(e: Seq<Seq<char>>) -> Mode {
    if e.contains("--help"@) {
        Mode::Help
    } else if e.contains("--version"@) {
        Mode::Version
    } else {
        Mode::List
    }
}

/// Whether `args` holds `a`.
fn has_arg(args: &Vec<String>, a: &str) -> (r: bool)
    ensures
        r == views(args@).contains(a@),
{
    let n = args.len();
    let mut i: usize = 0;
    while i < n
        invariant
            n == args@.len(),
            i <= n,
            forall|j: int| 0 <= j < i ==> args@[j]@ != a@,
        decreases n - i,
    {
        if str_equal(args[i].as_str(), a) {
            assert(views(args@)[i as int] == a@);
            return true;
        }
        i = i + 1;
    }
    assert forall|j: int| 0 <= j < views(args@).len() implies views(args@)[j] != a@ by {
        assert(views(args@)[j] == args@[j]@);
    }
    false
}

/// Whether `args` holds `a` or `b`.
fn has_either_arg(args: &Vec<String>, a: &str, b: &str) -> (r: bool)
    ensures
        r == has_either(views(args@), a@, b@),
{
    has_arg(args, a) || has_arg(args, b)
}

/// Appends the single options of one argument.
fn expand_one(out: &mut Vec<String>, arg: &str)
    ensures
        views(final(out)@) == views(old(out)@) + expand_arg(arg@),
{
    proof { reveal_strlit("--"); reveal_strlit("-"); }
    if !starts_with(arg, "--") && starts_with(arg, "-") && arg.unicode_len() > 2 {
        let n = arg.unicode_len();
        let mut j: usize = 0;
        while j < n
            invariant
                n == arg@.len(),
                j <= n,
                views(out@) == views(old(out)@) + dash_each(arg@.subrange(0, j as int)),
            decreases n - j,
        {
            assert(arg@.subrange(0, j + 1).drop_last() =~= arg@.subrange(0, j as int));
            let c = arg.get_char(j);
            if c != '-' {
                let mut s = String::new();
                push_char(&mut s, '-');
                push_char(&mut s, c);
                assert(s@ =~= seq!['-', c]);
                let ghost before = out@;
                out.push(s);
                assert(views(out@) =~= views(before).push(seq!['-', c]));
            }
            j = j + 1;
            assert(views(out@) =~= views(old(out)@) + dash_each(arg@.subrange(0, j as int)));
        }
        assert(arg@.subrange(0, n as int) =~= arg@);
    } else {
        let ghost before = out@;
        out.push(arg.to_owned());
        assert(views(out@) =~= views(before).push(arg@));
        assert(views(out@) =~= views(old(out)@) + expand_arg(arg@));
    }
}

/// The operands after the program name.
fn collect_operands(e: &Vec<String>) -> (r: Vec<String>)
    ensures
        views(r@) == (if e@.len() == 0 { Seq::empty() } else {
            operands(views(e@).subrange(1, e@.len() as int), false) }),
{
    let mut out: Vec<String> = Vec::new();
    let n = e.len();
    if n == 0 {
        assert(views(out@) =~= Seq::<Seq<char>>::empty());
        return out;
    }
    let ghost all = views(e@).subrange(1, n as int);
    let mut started = false;
    let mut i: usize = 1;
    while i < n
        invariant
            n == e@.len(),
            1 <= i <= n,
            all == views(e@).subrange(1, n as int),
            views(out@) + operands(views(e@).subrange(i as int, n as int), started) == operands(all, false),
        decreases n - i,
    {
        let ghost rest = views(e@).subrange(i as int, n as int);
        assert(rest[0] == e@[i as int]@);
        assert(rest.subrange(1, rest.len() as int) =~= views(e@).subrange(i + 1, n as int));
        if !starts_with(e[i].as_str(), "-") {
            started = true;
        }
        proof { reveal_strlit("-"); }
        if started {
            let ghost before = out@;
            out.push(e[i].clone());
            assert(views(out@) =~= views(before).push(e@[i as int]@));
        }
        i = i + 1;
        assert(views(out@) + operands(views(e@).subrange(i as int, n as int), started) =~= operands(all, false));
    }
    assert(views(e@).subrange(n as int, n as int) =~= Seq::<Seq<char>>::empty());
    assert(views(out@) =~= operands(all, false));
    out
}

/// What the walk does with an entry that it meets.
#[derive(Debug, Clone, Copy, PartialEq, Eq, Structural)]
pub enum PathKind {
    /// Nothing at that path
    Missing,
    /// A directory
    Dir,
    /// A regular file
    File,
    /// Something that is neither
    Other,
}

/// What to do with a child of a directory being walked.
#[derive(Debug, Clone, Copy, PartialEq, Eq, Structural)]
pub enum ChildStep {
    /// Walk the subdirectory
    Descend,
    /// Record the subdirectory without entering it
    RecordDir,
    /// Record the file
    RecordFile,
    /// Stop the listing: the path is neither a file nor a directory
    Fail,
}

/// Stores what a run needs: the arguments, the flags, the mode and the
/// listing being built.
#[derive(Debug)]
pub struct Utility {
    /// Arguments with bundles split
    pub raw_args: Vec<String>,
    /// Flags generated from the command line arguments
    pub flags: Flags,
    /// Mode to run in
    pub mode: Mode,
    /// What was found, to be displayed
    pub display: Display,
}

impl Utility {
    /// Reads the flags, targets and mode from the command line arguments,
    /// the program name first.
    pub fn new(arguments: Vec<String>) -> (r: Utility)
        ensures
            views(r.raw_args@) == expand_args(views(arguments@)),
            flags_of(r.flags, expand_args(views(arguments@))),
            r.mode == mode_of(expand_args(views(arguments@))),
            r.display.files@.len() == 0,
            r.display.directories@.len() == 0,
    {
        let mut new_args: Vec<String> = Vec::new();
        let n = arguments.len();
        let mut i: usize = 0;
        while i < n
            invariant
                n == arguments@.len(),
                i <= n,
                views(new_args@) == expand_args(views(arguments@).subrange(0, i as int)),
            decreases n - i,
        {
            assert(views(arguments@).subrange(0, i + 1).drop_last() =~= views(arguments@).subrange(0, i as int));
            assert(views(arguments@).subrange(0, i + 1).last() == arguments@[i as int]@);
            expand_one(&mut new_args, arguments[i].as_str());
            i = i + 1;
        }
        assert(views(arguments@).subrange(0, n as int) =~= views(arguments@));
        let mut files = collect_operands(&new_args);
        if files.len() == 0 {
            files.push("./".to_owned());
            assert(views(files@) =~= seq!["./"@]);
        }
        let flags = Flags {
            files,
            recursive: has_either_arg(&new_args, "-R", "--recursive"),
            all: has_either_arg(&new_args, "-a", "--all"),
            long: has_either_arg(&new_args, "-l", "--long"),
            one_per_line: has_either_arg(&new_args, "-l", "-1"),
            only_dirs: has_either_arg(&new_args, "-D", "--only-dirs"),
            binary_sizes: has_either_arg(&new_args, "-b", "--binary"),
            byte_sizes: has_either_arg(&new_args, "-B", "--bytes"),
            headers: has_either_arg(&new_args, "-h", "--header"),
            show_links: has_either_arg(&new_args, "-H", "--links"),
            inode: has_either_arg(&new_args, "-i", "--inode"),
            blocks: has_either_arg(&new_args, "-S", "--blocks"),
            no_perms: has_arg(&new_args, "--no-permissions"),
            no_size: has_arg(&new_args, "--no-filesize"),
            no_user: has_arg(&new_args, "--no-user"),
            no_time: has_arg(&new_args, "--no-time"),
            octal_perms: has_either_arg(&new_args, "-O", "--octal"),
        };
        let mode = if has_arg(&new_args, "--help") {
            Mode::Help
        } else if has_arg(&new_args, "--version") {
            Mode::Version
        } else {
            Mode::List
        };
        Utility { raw_args: new_args, flags, mode, display: Display::new() }
    }

    /// The flags read from the arguments.
    pub fn flags(&self) -> (r: &Flags)
        ensures
            r == &self.flags,
    {
        &self.flags
    }

    /// The mode read from the arguments.
    pub fn mode(&self) -> (r: Mode)
        ensures
            r == self.mode,
    {
        self.mode
    }

    /// Records a file met by the walk, unless only directories are listed.
    pub fn _handle_file(&mut self, name: String, path_str: String, meta: EntryMeta)
        ensures
            final(self).flags == old(self).flags,
            final(self).display.directories == old(self).display.directories,
            old(self).flags.only_dirs ==> final(self).display.files == old(self).display.files,
            !old(self).flags.only_dirs ==> final(self).display.files@
                == old(self).display.files@.push(File { name, path_str, meta }),
    {
        if !self.flags.only_dirs {
            self.display.files.push(File::new(name, path_str, meta));
        }
    }

    /// Records a directory met by the walk, named by the last part of its path.
    pub fn _display_dir(&mut self, path_str: String, meta: EntryMeta)
        ensures
            final(self).flags == old(self).flags,
            final(self).display.files == old(self).display.files,
            final(self).display.directories@.len() == old(self).display.directories@.len() + 1,
            final(self).display.directories@.drop_last() == old(self).display.directories@,
            final(self).display.directories@.last().name@ == dir_name_of(path_str@),
            final(self).display.directories@.last().path_str == path_str,
            final(self).display.directories@.last().meta == meta,
    {
        let name = dir_name(path_str.as_str());
        let ghost before = self.display.directories@;
        self.display.directories.push(Directory::new(name, path_str, meta));
        assert(self.display.directories@.drop_last() =~= before);
    }
}

/// The part of `p` after its last `/`.
pub open spec fn last_segment(p: Seq<char>) -> Seq<char>
    decreases p.len(),
{
    if p.len() == 0 || p.last() == '/' {
        Seq::empty()
    } else {
        last_segment(p.drop_last()).push(p.last())
    }
}

/// The name shown for a directory: the last part of its path, with one
/// trailing `/` removed first.
pub open spec fn dir_name_of(p: Seq<char>) -> Seq<char> {
    last_segment(if has_suffix(p, "/"@) { p.drop_last() } else { p })
}

/// Names a directory by the last part of its path.
pub fn dir_name(path: &str) -> (r: String)
    ensures
        r@ == dir_name_of(path@),
{
    proof { reveal_strlit("/"); }
    let n = path.unicode_len();
    let end: usize = if crate::text::ends_with(path, "/") { n - 1 } else { n };
    assert(path@.subrange(0, end as int) =~= if has_suffix(path@, "/"@) { path@.drop_last() } else { path@ });
    let mut start: usize = end;
    while start > 0 && path.get_char(start - 1) != '/'
        invariant
            end <= n,
            n == path@.len(),
            start <= end,
            last_segment(path@.subrange(0, end as int))
                == last_segment(path@.subrange(0, start as int)) + path@.subrange(start as int, end as int),
        decreases start,
    {
        let ghost s = path@.subrange(0, start as int);
        assert(s.drop_last() =~= path@.subrange(0, start - 1));
        assert(path@.subrange(start - 1, end as int) =~= seq![s.last()] + path@.subrange(start as int, end as int));
        start = start - 1;
    }
    assert(last_segment(path@.subrange(0, start as int)) =~= Seq::<char>::empty());
    let r = path.substring_char(start, end).to_owned();
    assert(r@ =~= dir_name_of(path@));
    r
}

/// What the walk does with a child of kind `kind`.
pub open spec fn child_step_spec(kind: PathKind, recursive: bool) -> ChildStep {
    match kind {
        PathKind::Dir => if recursive { ChildStep::Descend } else { ChildStep::RecordDir },
        PathKind::File => ChildStep::RecordFile,
        _ => ChildStep::Fail,
    }
}

/// Decides what the walk does with a child: a subdirectory is walked when
/// the listing is recursive and recorded otherwise; a file is recorded;
/// anything else stops the listing.
pub fn child_step(kind: PathKind, flags: &Flags) -> (r: ChildStep)
    ensures
        r == child_step_spec(kind, flags.recursive),
{
    match kind {
        PathKind::Dir => if flags.recursive { ChildStep::Descend } else { ChildStep::RecordDir },
        PathKind::File => ChildStep::RecordFile,
        _ => ChildStep::Fail,
    }
}

/// The requested targets sorted into files and directories, keeping their
/// order; or the kind and path of the first that is missing or neither.
pub open spec fn sort_targets(ts: Seq<Seq<char>>, ks: Seq<PathKind>)
    -> Result<(Seq<Seq<char>>, Seq<Seq<char>>), (PathKind, Seq<char>)>
    decreases ts.len(),
{
    if ts.len() == 0 || ks.len() == 0 {
        Ok((Seq::empty(), Seq::empty()))
    } else {
        match sort_targets(ts.drop_last(), ks.drop_last()) {
            Err(e) => Err(e),
            Ok((fs, ds)) => match ks.last() {
                PathKind::File => Ok((fs.push(ts.last()), ds)),
                PathKind::Dir => Ok((fs, ds.push(ts.last()))),
                k => Err((k, ts.last())),
            },
        }
    }
}

proof fn lemma_sort_err_extends(ts: Seq<Seq<char>>, ks: Seq<PathKind>, i: int)
    requires
        ts.len() == ks.len(),
        0 <= i <= ts.len(),
        sort_targets(ts.subrange(0, i), ks.subrange(0, i)) is Err,
    ensures
        sort_targets(ts, ks) == sort_targets(ts.subrange(0, i), ks.subrange(0, i)),
    decreases ts.len(),
{
    if i == ts.len() {
        assert(ts.subrange(0, i) =~= ts);
        assert(ks.subrange(0, i) =~= ks);
    } else {
        assert(ts.drop_last().subrange(0, i) =~= ts.subrange(0, i));
        assert(ks.drop_last().subrange(0, i) =~= ks.subrange(0, i));
        lemma_sort_err_extends(ts.drop_last(), ks.drop_last(), i);
    }
}

proof fn lemma_sort_ok_prefix(ts: Seq<Seq<char>>, ks: Seq<PathKind>, j: int)
    requires
        ts.len() == ks.len(),
        0 <= j <= ts.len(),
        forall|i: int| 0 <= i < j ==> (#[trigger] ks[i] == PathKind::File || ks[i] == PathKind::Dir),
    ensures
        sort_targets(ts.subrange(0, j), ks.subrange(0, j)) is Ok,
    decreases j,
{
    if j > 0 {
        assert(ts.subrange(0, j).drop_last() =~= ts.subrange(0, j - 1));
        assert(ks.subrange(0, j).drop_last() =~= ks.subrange(0, j - 1));
        lemma_sort_ok_prefix(ts, ks, j - 1);
    }
}

/// When target `j` is missing and every earlier target is a file or a
/// directory, the run stops with that target as the missing path, whatever
/// follows it.
pub proof fn lemma_first_missing(ts: Seq<Seq<char>>, ks: Seq<PathKind>, j: int)
    requires
        ts.len() == ks.len(),
        0 <= j < ts.len(),
        ks[j] == PathKind::Missing,
        forall|i: int| 0 <= i < j ==> (#[trigger] ks[i] == PathKind::File || ks[i] == PathKind::Dir),
    ensures
        sort_targets(ts, ks) == Err::<(Seq<Seq<char>>, Seq<Seq<char>>), _>((PathKind::Missing, ts[j])),
{
    lemma_sort_ok_prefix(ts, ks, j);
    assert(ts.subrange(0, j + 1).drop_last() =~= ts.subrange(0, j));
    assert(ks.subrange(0, j + 1).drop_last() =~= ks.subrange(0, j));
    assert(ks.subrange(0, j + 1).last() == ks[j]);
    assert(ts.subrange(0, j + 1).last() == ts[j]);
    lemma_sort_err_extends(ts, ks, j + 1);
}

/// Sorts the requested targets, whose kinds were probed in the same order,
/// into files and directories; the first missing target stops the run with
/// `PathNotFound`, the first that is neither file nor directory with
/// `UnclassifiablePath`, before anything is listed.
pub fn classify_targets(targets: &Vec<String>, kinds: &Vec<PathKind>)
    -> (r: Result<(Vec<String>, Vec<String>), ListError>)
    requires
        targets@.len() == kinds@.len(),
    ensures
        r matches Ok((fs, ds)) ==> sort_targets(views(targets@), kinds@) == Ok::<_, (PathKind, Seq<char>)>((views(fs@), views(ds@))),
        r matches Err(ListError::PathNotFound(p)) ==> sort_targets(views(targets@), kinds@) == Err::<(Seq<Seq<char>>, Seq<Seq<char>>), _>((PathKind::Missing, p@)),
        r matches Err(ListError::UnclassifiablePath(p)) ==> sort_targets(views(targets@), kinds@) == Err::<(Seq<Seq<char>>, Seq<Seq<char>>), _>((PathKind::Other, p@)),
        r is Err ==> r matches Err(ListError::PathNotFound(_)) || r matches Err(ListError::UnclassifiablePath(_)),
{
    let mut fs: Vec<String> = Vec::new();
    let mut ds: Vec<String> = Vec::new();
    let n = targets.len();
    let mut i: usize = 0;
    assert(views(fs@) =~= Seq::<Seq<char>>::empty());
    assert(views(targets@).subrange(0, 0) =~= Seq::<Seq<char>>::empty());
    while i < n
        invariant
            n == targets@.len(),
            n == kinds@.len(),
            i <= n,
            sort_targets(views(targets@).subrange(0, i as int), kinds@.subrange(0, i as int))
                == Ok::<_, (PathKind, Seq<char>)>((views(fs@), views(ds@))),
        decreases n - i,
    {
        assert(views(targets@).subrange(0, i + 1).drop_last() =~= views(targets@).subrange(0, i as int));
        assert(kinds@.subrange(0, i + 1).drop_last() =~= kinds@.subrange(0, i as int));
        assert(views(targets@).subrange(0, i + 1).last() == targets@[i as int]@);
        let ghost (bf, bd) = (fs@, ds@);
        match kinds[i] {
            PathKind::File => {
                fs.push(targets[i].clone());
                assert(views(fs@) =~= views(bf).push(targets@[i as int]@));
            },
            PathKind::Dir => {
                ds.push(targets[i].clone());
                assert(views(ds@) =~= views(bd).push(targets@[i as int]@));
            },
            PathKind::Missing => {
                proof { lemma_sort_err_extends(views(targets@), kinds@, i + 1); }
                return Err(ListError::PathNotFound(targets[i].clone()));
            },
            PathKind::Other => {
                proof { lemma_sort_err_extends(views(targets@), kinds@, i + 1); }
                return Err(ListError::UnclassifiablePath(targets[i].clone()));
            },
        }
        i = i + 1;
    }
    assert(views(targets@).subrange(0, n as int) =~= views(targets@));
    assert(kinds@.subrange(0, n as int) =~= kinds@);
    Ok((fs, ds))
}

} // verus!
