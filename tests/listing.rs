use custom_ls::config::{EntryMeta, Flags, ListError, Mode};
use custom_ls::entry::{Directory, File};
use custom_ls::layout::{header, is_shown, layout, Display};
use custom_ls::style::StringData;
use custom_ls::utility::{child_step, classify_targets, dir_name, ChildStep, PathKind, Utility};

fn args(a: &[&str]) -> Vec<String> {
    let mut v = vec![String::from("ls")];
    for s in a {
        v.push(s.to_string());
    }
    v
}

fn flags_for(a: &[&str]) -> Flags {
    Utility::new(args(a)).flags().clone()
}

fn meta(mode: u32, size: u64, is_dir: bool) -> EntryMeta {
    EntryMeta { size, is_dir, is_file: !is_dir, mode, uid: 0, mtime: 0, ino: 1, nlink: 1, blocks: 0 }
}

fn plain(s: &str) -> StringData {
    let mut d = StringData::new();
    d.push_plain(s);
    d
}

#[test]
fn directory_with_file_and_subdirectory() {
    let f = flags_for(&[]);
    let mut disp = Display::new();
    disp.files.push(File::new(String::from("a.txt"), String::from("./a.txt"), meta(0o100644, 10, false)));
    disp.directories.push(Directory::new(String::from("b"), String::from("./b"), meta(0o40755, 4096, true)));
    let out = disp.display(&f, 0).unwrap();
    assert!(out.contains("a.txt"));
    assert!(out.contains("b/"));
    assert!(!out.contains("a.txt*"));
    assert!(out.ends_with('\n'));
}

#[test]
fn hidden_git_entry() {
    let mut disp = Display::new();
    disp.directories.push(Directory::new(String::from(".git"), String::from("./.git"), meta(0o755, 0, true)));
    disp.files.push(File::new(String::from("x"), String::from("./x"), meta(0o644, 0, false)));
    let hidden = disp.display(&flags_for(&["-1"]), 0).unwrap();
    assert!(!hidden.contains(".git"));
    assert!(hidden.contains('x'));
    let shown = disp.display(&flags_for(&["-a", "-1", "-R"]), 0).unwrap();
    assert!(shown.contains(".git/"));
    assert!(!is_shown(".git", &flags_for(&["-l", "-R", "-D"])));
    assert!(is_shown(".git", &flags_for(&["--all"])));
}

#[test]
fn grid_of_equal_widths_fits_line() {
    let items: Vec<StringData> = (0..20).map(|_| plain("abcdefghij")).collect();
    let out = layout(&items, false);
    let lines: Vec<&str> = out.split('\n').collect();
    // 80 / 10 = 8 per line: 8, 8, 4, then the final break
    assert_eq!(lines.len(), 4);
    assert_eq!(lines[0].trim_end().split_whitespace().count(), 8);
    let per_line = lines[0].split_whitespace().count();
    assert!(per_line * 10 <= 80);
    assert_eq!(lines[2].trim_end().split_whitespace().count(), 4);
    assert_eq!(lines[3], "");
}

#[test]
fn grid_padding_and_one_per_line() {
    let items = vec![plain("a"), plain("bcd")];
    assert_eq!(layout(&items, false), "a    bcd  \n");
    assert_eq!(layout(&items, true), "a    \nbcd  \n");
    assert_eq!(layout(&Vec::new(), false), "\n");
    assert_eq!(layout(&Vec::new(), true), "");
}

#[test]
fn wide_entries_one_per_row() {
    let w = "x".repeat(90);
    let items = vec![plain(&w), plain(&w)];
    let out = layout(&items, false);
    assert_eq!(out.matches('\n').count(), 3);
}

#[test]
fn header_row() {
    assert_eq!(header(&flags_for(&["-l", "-h"])).raw(), "Permissions Size     User      Modified       Name");
    assert_eq!(
        header(&flags_for(&["-l", "-h", "-i", "-O", "-H", "-S"])).raw(),
        "inode      Permissions Octal  Link  Size     Blocks  User      Modified       Name"
    );
    let mut disp = Display::new();
    disp.files.push(File::new(String::from("a"), String::from("a"), meta(0o644, 1, false)));
    let out = disp
        .display(&flags_for(&["-l", "-h", "--no-user", "--no-time", "--no-permissions", "--no-filesize"]), 0)
        .unwrap();
    let first = out.lines().next().unwrap();
    assert!(first.contains("Name"));
    assert!(!first.contains("Size"));
    assert_eq!(out.lines().count(), 2);
}

#[test]
fn missing_target_is_reported_first() {
    let targets = vec![String::from("here"), String::from("gone"), String::from("dev")];
    let kinds = vec![PathKind::File, PathKind::Missing, PathKind::Other];
    assert_eq!(classify_targets(&targets, &kinds), Err(ListError::PathNotFound(String::from("gone"))));
    let kinds = vec![PathKind::Dir, PathKind::Other, PathKind::Missing];
    assert_eq!(classify_targets(&targets, &kinds), Err(ListError::UnclassifiablePath(String::from("gone"))));
    let kinds = vec![PathKind::Dir, PathKind::File, PathKind::Dir];
    let (fs, ds) = classify_targets(&targets, &kinds).unwrap();
    assert_eq!(fs, vec![String::from("gone")]);
    assert_eq!(ds, vec![String::from("here"), String::from("dev")]);
}

#[test]
fn walk_steps() {
    let f = flags_for(&[]);
    let r = flags_for(&["-R"]);
    assert_eq!(child_step(PathKind::Dir, &f), ChildStep::RecordDir);
    assert_eq!(child_step(PathKind::Dir, &r), ChildStep::Descend);
    assert_eq!(child_step(PathKind::File, &r), ChildStep::RecordFile);
    assert_eq!(child_step(PathKind::Other, &f), ChildStep::Fail);
}

#[test]
fn directory_names() {
    assert_eq!(dir_name("a/b/"), "b");
    assert_eq!(dir_name("a/b"), "b");
    assert_eq!(dir_name("./"), ".");
    assert_eq!(dir_name("top"), "top");
    assert_eq!(dir_name("/"), "");
}

#[test]
fn arguments_to_flags() {
    let u = Utility::new(args(&["-laR", "dir", "-b", "other"]));
    let f = u.flags();
    assert!(f.all && f.long && f.recursive && f.one_per_line && f.binary_sizes);
    assert!(!f.byte_sizes && !f.only_dirs && !f.no_user);
    assert_eq!(f.files, vec![String::from("dir"), String::from("-b"), String::from("other")]);
    assert_eq!(u.mode(), Mode::List);
    assert_eq!(u.raw_args.len(), 7);

    let d = Utility::new(args(&["--no-user", "-1"]));
    assert!(d.flags().no_user && d.flags().one_per_line && !d.flags().long);
    assert_eq!(d.flags().files, vec![String::from("./")]);
    assert_eq!(Utility::new(args(&["--help"])).mode(), Mode::Help);
    assert_eq!(Utility::new(args(&["--version"])).mode(), Mode::Version);
    assert_eq!(Utility::new(Vec::new()).flags().files, vec![String::from("./")]);
}

#[test]
fn recording_entries() {
    let mut u = Utility::new(args(&["-D"]));
    u._handle_file(String::from("a"), String::from("./a"), meta(0o644, 1, false));
    assert_eq!(u.display.files.len(), 0);
    u._display_dir(String::from("./sub/"), meta(0o755, 1, true));
    assert_eq!(u.display.directories[0].name, "sub");
    let mut v = Utility::new(args(&[]));
    v._handle_file(String::from("a"), String::from("./a"), meta(0o644, 1, false));
    assert_eq!(v.display.files.len(), 1);
}

#[test]
fn empty_listing_succeeds() {
    let disp = Display::new();
    assert_eq!(disp.display(&flags_for(&["-l"]), i64::MAX).unwrap(), "");
    assert_eq!(disp.display(&flags_for(&[]), 0).unwrap(), "\n");
    let mut hidden = Display::new();
    hidden.directories.push(Directory::new(String::from("."), String::from("./"), meta(0o755, 0, true)));
    let mut m = meta(0o644, 0, false);
    m.mtime = i64::MAX;
    hidden.files.push(File::new(String::from(".secret"), String::from("./.secret"), m));
    assert_eq!(hidden.display(&flags_for(&["-l"]), 0).unwrap(), "");
}
