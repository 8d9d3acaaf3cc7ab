use custom_ls::config::{EntryMeta, Flags, ListError};
use custom_ls::entry::{name_style, render_long, render_long_with, Directory, File};
use custom_ls::format::{
    Permissions,
    octal_string, permission_string, render_date, render_date_at, render_date_in_zone, render_file_size, stamp_pattern,
};
use custom_ls::style::{Hue, StringData, Style};
use custom_ls::text::{decimal_string, digit_char, ends_with, push_padded, starts_with, str_equal};
use custom_ls::utility::Utility;

fn flags_for(args: &[&str]) -> Flags {
    let mut v = vec![String::from("ls")];
    for a in args {
        v.push(a.to_string());
    }
    Utility::new(v).flags().clone()
}

fn meta(mode: u32, size: u64, is_dir: bool) -> EntryMeta {
    EntryMeta {
        size,
        is_dir,
        is_file: !is_dir,
        mode,
        uid: 0,
        mtime: 0,
        ino: 42,
        nlink: 3,
        blocks: 8,
    }
}

#[test]
fn permissions_of_mode_755() {
    assert_eq!(permission_string(0o755, false), ".rwxr-xr-x");
    assert_eq!(permission_string(0o644, true), "drw-r--r--");
    assert_eq!(permission_string(0, false), ".---------");
}

#[test]
fn permissions_ignore_high_bits() {
    let m: u32 = 0o100644;
    assert_eq!(permission_string(m & 0o777, false), permission_string(0o644, false));
    assert_eq!(permission_string(m, false), ".rw-r--r--");
}

#[test]
fn long_format_shows_permission_string() {
    let f = flags_for(&["-l", "--no-user", "--no-time", "--no-filesize"]);
    let d = render_long_with(&meta(0o100755, 10, false), &f, &None, "");
    assert_eq!(d.raw(), ".rwxr-xr-x  ");
    assert_eq!(d.len(), 12);
}

#[test]
fn octal_permissions() {
    assert_eq!(octal_string(0o755), "[755]");
    assert_eq!(octal_string(0o40700), "[700]");
    assert_eq!(octal_string(0o7), "[007]");
}

#[test]
fn size_2048_binary_and_bytes() {
    assert_eq!(render_file_size(2048, &flags_for(&["-b"])), "2K");
    assert_eq!(render_file_size(2048, &flags_for(&["-B"])), "2048");
    assert_eq!(render_file_size(2048, &flags_for(&["-b", "-B"])), "2048");
    assert_eq!(render_file_size(2048, &flags_for(&[])), "2048");
}

#[test]
fn size_binary_thresholds() {
    let b = flags_for(&["-b"]);
    assert_eq!(render_file_size(0, &b), "0");
    assert_eq!(render_file_size(1024, &b), "1024");
    assert_eq!(render_file_size(1536, &b), "1.5K");
    assert_eq!(render_file_size(1100, &b), "1K");
    assert_eq!(render_file_size(1126, &b), "1K");
    assert_eq!(render_file_size(1127, &b), "1.1K");
    assert_eq!(render_file_size(1048576, &b), "1024K");
    assert_eq!(render_file_size(1048577, &b), "1M");
    assert_eq!(render_file_size(5 * 1073741824 + 1, &b), "5G");
    assert_eq!(render_file_size(u64::MAX, &b), "15.9E");
}

#[test]
fn size_binary_whole_part_below_1024() {
    let b = flags_for(&["-b"]);
    for s in [1025u64, 500_000, 1048575, 3_000_000_000, (1u64 << 50) + (1u64 << 45), 7u64 << 60] {
        let r = render_file_size(s, &b);
        let unit = r.chars().last().unwrap();
        assert!("KMGTPE".contains(unit));
        let whole: f64 = r[..r.len() - 1].parse().unwrap();
        assert!(whole < 1024.0);
    }
}

#[test]
fn decimal_digits() {
    assert_eq!(decimal_string(0), "0");
    assert_eq!(decimal_string(10), "10");
    assert_eq!(decimal_string(u64::MAX), u64::MAX.to_string());
    assert_eq!(digit_char(7), '7');
}

#[test]
fn text_helpers() {
    let mut s = String::from("ab");
    push_padded(&mut s, "cd", 5);
    assert_eq!(s, "abcd   ");
    let mut t = String::new();
    push_padded(&mut t, "toolong", 3);
    assert_eq!(t, "toolong");
    assert!(ends_with("notes.md", ".md"));
    assert!(!ends_with("md", ".md"));
    assert!(starts_with(".git", "."));
    assert!(str_equal("x", "x"));
    assert!(!str_equal("x", "y"));
}

#[test]
fn date_forms_around_year_boundary() {
    // 1970-12-31 23:00 UTC and 1971-01-01 01:00 UTC
    let late_1970: i64 = 364 * 86400 + 23 * 3600;
    let early_1971: i64 = 365 * 86400 + 3600;
    assert_eq!(render_date_at(late_1970, late_1970 + 60, 0).unwrap(), "31 Dec 23:00");
    assert_eq!(render_date_at(late_1970, early_1971, 0).unwrap(), "31 Dec  1970");
    assert_eq!(render_date_at(early_1971, early_1971, 0).unwrap(), " 1 Jan 01:00");
    // shifted by two hours both fall in 1971
    assert_eq!(render_date_at(late_1970, early_1971, 7200).unwrap(), " 1 Jan 01:00");
}

#[test]
fn date_out_of_range() {
    assert!(render_date_at(i64::MAX, 0, 0).is_none());
    assert!(render_date_at(0, i64::MAX, 1).is_none());
}

#[test]
fn pattern_choice() {
    assert_eq!(stamp_pattern(2023, 2024), "%e %b  %Y");
    assert_eq!(stamp_pattern(2024, 2024), "%e %b %R");
}

#[test]
fn long_fields_in_order() {
    let f = flags_for(&["-l", "-i", "-O", "-H", "-S", "-b"]);
    let d = render_long_with(&meta(0o644, 2048, false), &f, &Some(String::from("alice")), " 1 Jan 00:00");
    assert_eq!(
        d.raw(),
        "42         .rw-r--r--  [644]  3     2K       8       alice      1 Jan 00:00   "
    );
    assert_eq!(d.len(), d.raw().chars().count());
    let dir = render_long_with(&meta(0o755, 4096, true), &f, &None, " 1 Jan 00:00");
    assert_eq!(
        dir.raw(),
        "42         drwxr-xr-x  [755]  3     -        -       unknown    1 Jan 00:00   "
    );
}

#[test]
fn timestamp_error_in_long_format() {
    let f = flags_for(&["-l"]);
    let mut m = meta(0o644, 1, false);
    m.mtime = i64::MAX;
    match render_long(&m, &f, 0) {
        Err(ListError::TimestampOutOfRange(t)) => assert_eq!(t, i64::MAX),
        _ => panic!("expected a timestamp error"),
    }
}

#[test]
fn owner_lookup_gives_a_column() {
    let f = flags_for(&["-l", "--no-time", "--no-permissions", "--no-filesize"]);
    let d = render_long(&meta(0o644, 1, false), &f, 0).unwrap();
    assert!(d.raw().len() >= 10);
    assert!(d.raw().ends_with("  "));
}

#[test]
fn name_styles() {
    assert_eq!(name_style("README.md", 0o644), Style { hue: Hue::BrightYellow, bold: false, underline: true });
    assert_eq!(name_style("Makefile", 0o644).underline, true);
    assert_eq!(name_style("a.png", 0o644).hue, Hue::BrightPurple);
    assert_eq!(name_style("run.md", 0o755), Style { hue: Hue::BrightGreen, bold: false, underline: true });
    assert_eq!(name_style("a.txt", 0o644).hue, Hue::Plain);
}

#[test]
fn file_and_directory_names() {
    let f = flags_for(&[]);
    let a = File::new(String::from("a.txt"), String::from("./a.txt"), meta(0o644, 10, false));
    assert_eq!(a.render(&f, 0).unwrap().raw(), "a.txt");
    let x = File::new(String::from("run"), String::from("./run"), meta(0o755, 10, false));
    assert_eq!(x.render(&f, 0).unwrap().raw(), "run*");
    let b = Directory::new(String::from("b"), String::from("./b"), meta(0o755, 4096, true));
    let rb = b.render(&f, 0).unwrap();
    assert_eq!(rb.raw(), "b/");
    assert!(rb.colored().contains('b'));
    assert_eq!(rb.len(), 2);
}

#[test]
fn styled_text_keeps_plain_form() {
    let mut d = StringData::new();
    d.push_styled("abc", Style::hue(Hue::BrightRed));
    d.push_plain("de");
    assert_eq!(d.raw(), "abcde");
    assert_eq!(d.len(), 5);
    assert!(d.colored().contains("abc"));
    assert!(d.colored().ends_with("de"));
}

#[test]
fn date_in_local_zone() {
    let s = render_date(0, 0).unwrap();
    assert_eq!(s.chars().count(), 12);
    assert!(s.contains("Jan") || s.contains("Dec"));
    assert!(s.contains(':'));
}

#[test]
fn permission_classes() {
    let p = Permissions::from_bits(0o640, 0o400, 0o200, 0o100);
    assert_eq!(p, Permissions { read: true, write: true, execute: false });
    let mut s = String::from(".");
    p.push_triplet(&mut s);
    assert_eq!(s, ".rw-");
    let g = Permissions::from_bits(0o640, 0o040, 0o020, 0o010);
    assert_eq!(g, Permissions { read: true, write: false, execute: false });
}

#[test]
fn byte_size_field_has_fixed_width() {
    let f = flags_for(&["-l", "-B", "--no-user", "--no-time", "--no-permissions"]);
    let d = render_long_with(&meta(0o644, 12345, false), &f, &None, "");
    assert_eq!(d.raw(), "12345    ");
    assert_eq!(d.len(), 9);
    let small = render_long_with(&meta(0o644, 7, false), &f, &None, "");
    assert_eq!(small.raw(), "7        ");
    let dir = render_long_with(&meta(0o755, 4096, true), &f, &None, "");
    assert_eq!(dir.raw(), "-        ");
    assert!(dir.colored().contains("-      "));
    let b = flags_for(&["-l", "-b", "--no-user", "--no-time", "--no-permissions"]);
    let widest = render_long_with(&meta(0o644, 1048575, false), &b, &None, "");
    assert_eq!(widest.raw(), "1023.9K  ");
    let narrow = render_long_with(&meta(0o644, 2048, false), &b, &None, "");
    assert_eq!(narrow.len(), widest.len());
}

#[test]
fn styled_names() {
    let f = flags_for(&[]);
    let a = File::new(String::from("a.txt"), String::from("./a.txt"), meta(0o644, 10, false));
    assert_eq!(a.render(&f, 0).unwrap().colored(), "a.txt");
    let b = Directory::new(String::from("b"), String::from("./b"), meta(0o755, 4096, true));
    let rb = b.render(&f, 0).unwrap();
    let c = rb.colored();
    assert!(c == "b/" || c == "\x1b[1;94mb\x1b[0m/");
    let x = File::new(String::from("run"), String::from("./run"), meta(0o755, 10, false));
    let rx = x.render(&f, 0).unwrap();
    let cx = rx.colored();
    assert!(cx == "run*" || cx == "\x1b[92mrun\x1b[0m*");
    let l = x.render(&flags_for(&["-l", "--no-user", "--no-time", "--no-filesize"]), 0).unwrap();
    assert_eq!(l.raw(), ".rwxr-xr-x  run*");
    assert!(l.colored().ends_with('*'));
}

#[test]
fn bias_moves_year_boundary() {
    let now: i64 = 1767222000 + 30 * 86400;
    assert_eq!(render_date_in_zone(1767222000, now, 0).unwrap(), " 1 Jan 00:00");
    assert_eq!(render_date_in_zone(1767221999, now, 0).unwrap(), "31 Dec  2025");
    // two hours west: 2025-12-31 22:00 local, against a 2026 clock
    assert_eq!(render_date_in_zone(1767222000, now, -7200).unwrap(), "31 Dec  2025");
    assert!(render_date_in_zone(i64::MAX, now, 0).is_none());
}
