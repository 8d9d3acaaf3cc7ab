//! Field formatters: permission bits, octal mode, file sizes and timestamps.

use chrono::{Datelike, Offset, TimeZone};
use vstd::prelude::*;
use vstd::arithmetic::div_mod::{lemma_div_is_ordered, lemma_div_by_multiple};
use crate::config::Flags;
use crate::text::{digit_of, decimal_seq, digit_char, push_char, push_decimal};

verus! {

/// `c` where `bit` is set in `mode`, `-` where it is clear.
pub open spec fn perm_char(mode: u32, bit: u32, c: char) -> char {
    if mode & bit != 0 { c } else { '-' }
}

/// The three read/write/execute triplets (owner, group, other) of `mode`.
pub open spec fn triads(mode: u32) -> Seq<char> {
    seq![
        perm_char(mode, 0b100000000, 'r'), perm_char(mode, 0b010000000, 'w'),
        perm_char(mode, 0b001000000, 'x'), perm_char(mode, 0b000100000, 'r'),
        perm_char(mode, 0b000010000, 'w'), perm_char(mode, 0b000001000, 'x'),
        perm_char(mode, 0b000000100, 'r'), perm_char(mode, 0b000000010, 'w'),
        perm_char(mode, 0b000000001, 'x'),
    ]
}

/// The type flag (`d` for a directory, `.` otherwise) followed by the triplets.
pub open spec fn permission_seq(mode: u32, is_dir: bool) -> Seq<char> {
    seq![if is_dir { 'd' } else { '.' }] + triads(mode)
}

/// The read, write and execute permissions of one class of users.
#[derive(Debug, Clone, Copy, PartialEq, Eq, Structural)]
pub struct Permissions {
    pub read: bool,
    pub write: bool,
    pub execute: bool,
}

impl Permissions {
    /// The class's triplet: each letter where the permission is granted, `-` elsewhere.
    pub open spec fn triplet(&self) -> Seq<char> {
        seq![
            if self.read { 'r' } else { '-' },
            if self.write { 'w' } else { '-' },
            if self.execute { 'x' } else { '-' },
        ]
    }

    /// Reads one class's permissions from the given bits of `mode`.
    pub fn from_bits(mode: u32, read_bit: u32, write_bit: u32, execute_bit: u32) -> (r: Permissions)
        ensures
            r.read == (mode & read_bit != 0),
            r.write == (mode & write_bit != 0),
            r.execute == (mode & execute_bit != 0),
    {
        Permissions {
            read: mode & read_bit != 0,
            write: mode & write_bit != 0,
            execute: mode & execute_bit != 0,
        }
    }

    /// Appends the class's triplet.
    pub fn push_triplet(&self, s: &mut String)
        ensures
            final(s)@ == old(s)@ + self.triplet(),
    {
        push_char(s, if self.read { 'r' } else { '-' });
        push_char(s, if self.write { 'w' } else { '-' });
        push_char(s, if self.execute { 'x' } else { '-' });
        assert(s@ =~= old(s)@ + self.triplet());
    }
}

/// Formats the permission bits of `mode`, with the type flag first.
pub fn permission_string(mode: u32, is_dir: bool) -> (r: String)
    ensures
        r@ == permission_seq(mode, is_dir),
{
    let user = Permissions::from_bits(mode, 0b100000000, 0b010000000, 0b001000000);
    let group = Permissions::from_bits(mode, 0b000100000, 0b000010000, 0b000001000);
    let other = Permissions::from_bits(mode, 0b000000100, 0b000000010, 0b000000001);
    let mut s = String::new();
    push_char(&mut s, if is_dir { 'd' } else { '.' });
    user.push_triplet(&mut s);
    group.push_triplet(&mut s);
    other.push_triplet(&mut s);
    assert(s@ =~= permission_seq(mode, is_dir));
    s
}

/// The triplets read only the low nine bits of a mode.
pub proof fn lemma_triads_low_bits(mode: u32)
    ensures
        triads(mode).len() == 9,
        triads(mode & 0o777) == triads(mode),
        permission_seq(mode & 0o777, false) == permission_seq(mode, false),
        permission_seq(mode & 0o777, true) == permission_seq(mode, true),
{
    assert((mode & 0o777) & 256 == mode & 256) by (bit_vector);
    assert((mode & 0o777) & 128 == mode & 128) by (bit_vector);
    assert((mode & 0o777) & 64 == mode & 64) by (bit_vector);
    assert((mode & 0o777) & 32 == mode & 32) by (bit_vector);
    assert((mode & 0o777) & 16 == mode & 16) by (bit_vector);
    assert((mode & 0o777) & 8 == mode & 8) by (bit_vector);
    assert((mode & 0o777) & 4 == mode & 4) by (bit_vector);
    assert((mode & 0o777) & 2 == mode & 2) by (bit_vector);
    assert((mode & 0o777) & 1 == mode & 1) by (bit_vector);
    assert(triads(mode & 0o777) =~= triads(mode));
}

/// Position `i` of the triplets is decided by bit `8 - i` of the mode alone:
/// its letter (`r`, `w`, `x` in turn) where the bit is set, `-` where it is clear.
pub proof fn lemma_triad_positions(mode: u32)
    ensures
        forall|i: int| 0 <= i < 9 ==> #[trigger] triads(mode)[i] == (if mode & (256u32 >> (i as u32)) != 0 {
            seq!['r', 'w', 'x'][i % 3]
        } else {
            '-'
        }),
{
    assert(256u32 >> 0u32 == 256 && 256u32 >> 1u32 == 128 && 256u32 >> 2u32 == 64 && 256u32 >> 3u32 == 32
        && 256u32 >> 4u32 == 16 && 256u32 >> 5u32 == 8 && 256u32 >> 6u32 == 4 && 256u32 >> 7u32 == 2
        && 256u32 >> 8u32 == 1) by (bit_vector);
    assert forall|i: int| 0 <= i < 9 implies #[trigger] triads(mode)[i] == (if mode & (256u32 >> (i as u32)) != 0 {
        seq!['r', 'w', 'x'][i % 3]
    } else {
        '-'
    }) by {
        if i == 0 { } else if i == 1 { } else if i == 2 { } else if i == 3 { } else if i == 4 { }
        else if i == 5 { } else if i == 6 { } else if i == 7 { } else { }
    }
}

/// The low nine bits of `mode` as three octal digits in brackets.
pub open spec fn octal_seq(mode: u32) -> Seq<char> {
    let m = (mode % 512) as nat;
    seq!['[', digit_of(m / 64), digit_of((m / 8) % 8), digit_of(m % 8), ']']
}

/// Formats the low nine bits of `mode` in octal, zero-padded and bracketed.
pub fn octal_string(mode: u32) -> (r: String)
    ensures
        r@ == octal_seq(mode),
{
    let m = mode % 512;
    let mut s = String::new();
    push_char(&mut s, '[');
    push_char(&mut s, digit_char((m / 64) as u64));
    push_char(&mut s, digit_char(((m / 8) % 8) as u64));
    push_char(&mut s, digit_char((m % 8) as u64));
    push_char(&mut s, ']');
    assert(s@ =~= octal_seq(mode));
    s
}

/// `1024` to the power `n`.
pub open spec fn pow1024(n: nat) -> nat
    decreases n,
{
    if n == 0 { 1 } else { 1024 * pow1024((n - 1) as nat) }
}

/// The largest `n` up to six with `size > 1024^n`; zero when there is none.
pub open spec fn unit_index(size: nat) -> nat {
    if size > pow1024(6) { 6 }
    else if size > pow1024(5) { 5 }
    else if size > pow1024(4) { 4 }
    else if size > pow1024(3) { 3 }
    else if size > pow1024(2) { 2 }
    else if size > pow1024(1) { 1 }
    else { 0 }
}

/// The suffix letter of unit `n`.
pub open spec fn unit_letter(n: nat) -> char {
    if n == 1 { 'K' }
    else if n == 2 { 'M' }
    else if n == 3 { 'G' }
    else if n == 4 { 'T' }
    else if n == 5 { 'P' }
    else { 'E' }
}

/// `floor(10 * size / 1024^n)`: the size in unit `n`, truncated to tenths.
pub open spec fn tenths(size: nat, n: nat) -> nat {
    (size * 10) / pow1024(n)
}

/// A size with a binary prefix: the bare integer below the first threshold,
/// else the value truncated to one decimal (no decimal when it is whole) and
/// the unit letter.
pub open spec fn binary_size_seq(size: nat) -> Seq<char> {
    let n = unit_index(size);
    if n == 0 {
        decimal_seq(size)
    } else {
        let t = tenths(size, n);
        decimal_seq(t / 10) + (if t % 10 == 0 { Seq::empty() } else { seq!['.', digit_of(t % 10)] })
            + seq![unit_letter(n)]
    }
}

/// A size as the flags ask: the bytes unless only binary sizes are asked for.
pub open spec fn size_seq(size: nat, flags: Flags) -> Seq<char> {
    if flags.byte_sizes || !flags.binary_sizes {
        decimal_seq(size)
    } else {
        binary_size_seq(size)
    }
}

proof fn lemma_pow1024_values()
    ensures
        pow1024(1) == 1024,
        pow1024(2) == 1048576,
        pow1024(3) == 1073741824,
        pow1024(4) == 1099511627776,
        pow1024(5) == 1125899906842624,
        pow1024(6) == 1152921504606846976,
{
    reveal_with_fuel(pow1024, 7);
}

/// Formats a file size in bytes or with a binary prefix.
pub fn render_file_size(size: u64, flags: &Flags) -> (r: String)
    ensures
        r@ == size_seq(size as nat, *flags),
{
    proof { lemma_pow1024_values(); }
    let mut s = String::new();
    if flags.byte_sizes || !flags.binary_sizes {
        push_decimal(&mut s, size);
        assert(s@ =~= size_seq(size as nat, *flags));
        return s;
    }
    let (p, unit): (u64, char) =
        if size > 1152921504606846976 { (1152921504606846976, 'E') }
        else if size > 1125899906842624 { (1125899906842624, 'P') }
        else if size > 1099511627776 { (1099511627776, 'T') }
        else if size > 1073741824 { (1073741824, 'G') }
        else if size > 1048576 { (1048576, 'M') }
        else if size > 1024 { (1024, 'K') }
        else { (1, ' ') };
    if p == 1 {
        push_decimal(&mut s, size);
        assert(s@ =~= size_seq(size as nat, *flags));
        return s;
    }
    let ghost n = unit_index(size as nat);
    assert(p as nat == pow1024(n) && unit == unit_letter(n));
    proof { lemma_tenths_bound(size as nat, n); }
    let t: u64 = (((size as u128) * 10) / (p as u128)) as u64;
    assert(t as nat == tenths(size as nat, n));
    push_decimal(&mut s, t / 10);
    if t % 10 != 0 {
        push_char(&mut s, '.');
        push_char(&mut s, digit_char(t % 10));
    }
    push_char(&mut s, unit);
    assert(s@ =~= size_seq(size as nat, *flags));
    s
}

/// With a unit selected, the size is at most 1024 of that unit.
proof fn lemma_tenths_bound(size: nat, n: nat)
    requires
        n == unit_index(size),
        n >= 1,
        size < 0x1_0000_0000_0000_0000,
    ensures
        size > pow1024(n),
        tenths(size, n) <= 10240,
        size * 10 < 10240 * pow1024(n) ==> tenths(size, n) < 10240,
{
    lemma_pow1024_values();
    let p = pow1024(n);
    assert(size <= 1024 * p);
    lemma_div_is_ordered((size * 10) as int, (10240 * p) as int, p as int);
    lemma_div_by_multiple(10240, p as int);
    if size * 10 < 10240 * p {
        lemma_div_is_ordered((size * 10) as int, (10240 * p - 1) as int, p as int);
        assert((10240 * p - 1) as int == 10239 * p + (p - 1));
        vstd::arithmetic::div_mod::lemma_fundamental_div_mod_converse(
            (10240 * p - 1) as int, p as int, 10239, (p - 1) as int);
    }
}

proof fn lemma_decimal_len(n: nat)
    ensures
        decimal_seq(n).len() >= 1,
        n < 10 ==> decimal_seq(n).len() == 1,
        n < 100 ==> decimal_seq(n).len() <= 2,
        n < 1000 ==> decimal_seq(n).len() <= 3,
        n < 10000 ==> decimal_seq(n).len() <= 4,
    decreases n,
{
    if n >= 10 {
        lemma_decimal_len(n / 10);
    }
}

/// A binary-prefixed size is at most seven characters wide, the width of the
/// size column.
pub proof fn lemma_binary_size_width(size: u64)
    ensures
        binary_size_seq(size as nat).len() <= 7,
{
    let n = unit_index(size as nat);
    lemma_pow1024_values();
    if n == 0 {
        lemma_decimal_len(size as nat);
    } else {
        lemma_tenths_bound(size as nat, n);
        lemma_decimal_len(tenths(size as nat, n) / 10);
    }
}

/// For every size: a binary-prefixed rendering with a unit names a size above
/// that unit's threshold, whose whole part is at most 1024 and below 1024
/// unless the size is exactly 1024 of that unit; a byte rendering is the
/// decimal digits of the size.
pub proof fn lemma_size_rendering(size: u64)
    ensures
        unit_index(size as nat) >= 1 ==> {
            let n = unit_index(size as nat);
            &&& size > pow1024(n)
            &&& tenths(size as nat, n) / 10 <= 1024
            &&& size != 1024 * pow1024(n) ==> tenths(size as nat, n) / 10 < 1024
        },
        forall|f: Flags| f.byte_sizes ==> size_seq(size as nat, f) == decimal_seq(size as nat),
{
    let n = unit_index(size as nat);
    if n >= 1 {
        lemma_pow1024_values();
        lemma_tenths_bound(size as nat, n);
    }
}

/// The calendar year of a UTC timestamp in seconds, as chrono reckons it;
/// `None` outside chrono's range.
pub uninterp spec fn year_of(secs: int) -> Option<i32>;

/// The text chrono formats for a UTC timestamp in seconds under `pattern`.
pub uninterp spec fn stamp_text(secs: int, pattern: Seq<char>) -> Seq<char>;

/// Day, month and year: the form for timestamps of another year.
pub open spec fn year_pattern() -> Seq<char> {
    "%e %b  %Y"@
}

/// Day, month and time of day: the form for timestamps of the current year.
pub open spec fn clock_pattern() -> Seq<char> {
    "%e %b %R"@
}

/// Relies on chrono's `DateTime::from_timestamp` and `Datelike::year`: the
/// year of a timestamp, `None` where chrono's range ends.
#[verifier::external_body]
fn year_at(secs: i64) -> (r: Option<i32>)
    ensures
        r == year_of(secs as int),
{
    match chrono::DateTime::from_timestamp(secs, 0) {
        Some(d) => Some(d.naive_utc().year()),
        None => None,
    }
}

/// Relies on chrono's `DateTime::from_timestamp` and `NaiveDateTime::format`:
/// the timestamp formatted under one of the two patterns; `None` exactly where
/// the year is unknown, both coming from the same conversion.
#[verifier::external_body]
fn stamp_at(secs: i64, pattern: &str) -> (r: Option<String>)
    requires
        pattern@ == year_pattern() || pattern@ == clock_pattern(),
    ensures
        r is Some <==> year_of(secs as int) is Some,
        r matches Some(s) ==> s@ == stamp_text(secs as int, pattern@),
{
    match chrono::DateTime::from_timestamp(secs, 0) {
        Some(d) => Some(d.naive_utc().format(pattern).to_string()),
        None => None,
    }
}

/// Relies on chrono's `Local` time zone and `FixedOffset::local_minus_utc`: the
/// offset from UTC in seconds that the machine's zone gives at the epoch.
/// The epoch is within chrono's range, so `timestamp_opt` gives a single time,
/// and chrono keeps an offset strictly within a day.
#[verifier::external_body]
fn local_offset_at_epoch() -> (r: Option<i32>)
    ensures
        r is Some,
        r matches Some(v) ==> -86400 < v < 86400,
{
    match chrono::Local.timestamp_opt(0, 0).earliest() {
        Some(d) => Some(d.offset().fix().local_minus_utc()),
        None => None,
    }
}

/// The pattern for a timestamp of year `year` when the current year is `current_year`.
pub open spec fn pattern_for(current_year: i32, year: i32) -> Seq<char> {
    if current_year != year { year_pattern() } else { clock_pattern() }
}

/// Chooses the year form when the years differ and the time-of-day form otherwise.
pub fn stamp_pattern(current_year: i32, year: i32) -> (r: &'static str)
    ensures
        r@ == pattern_for(current_year, year),
        current_year != year ==> r@ == year_pattern(),
        current_year == year ==> r@ == clock_pattern(),
{
    if current_year != year { "%e %b  %Y" } else { "%e %b %R" }
}

/// The text for modification time `dt` seen at time `now`, both shifted by
/// `offset`; `None` where a shifted time leaves the range of `i64` or chrono's.
pub open spec fn date_text(dt: int, now: int, offset: int) -> Option<Seq<char>> {
    let t = dt + offset;
    let c = now + offset;
    if t < i64::MIN || t > i64::MAX || c < i64::MIN || c > i64::MAX {
        None
    } else {
        match (year_of(c), year_of(t)) {
            (Some(yc), Some(yt)) => Some(stamp_text(t, pattern_for(yc, yt))),
            _ => None,
        }
    }
}

/// Formats modification time `dt` against the current time `now`, both in
/// seconds since the epoch, in the zone `offset` seconds east of UTC.
pub fn render_date_at(dt: i64, now: i64, offset: i64) -> (r: Option<String>)
    ensures
        r matches Some(s) ==> date_text(dt as int, now as int, offset as int) == Some(s@),
        r is None ==> date_text(dt as int, now as int, offset as int) is None,
{
    let t = match dt.checked_add(offset) {
        Some(v) => v,
        None => return None,
    };
    let c = match now.checked_add(offset) {
        Some(v) => v,
        None => return None,
    };
    let yc = match year_at(c) {
        Some(y) => y,
        None => return None,
    };
    let yt = match year_at(t) {
        Some(y) => y,
        None => return None,
    };
    stamp_at(t, stamp_pattern(yc, yt))
}

/// For a fixed current time, a timestamp is rendered in the year form when
/// its shifted year differs from the shifted current year, and in the
/// time-of-day form when the two agree.
pub proof fn lemma_stamp_form(dt: int, now: int, offset: int)
    requires
        i64::MIN <= dt + offset <= i64::MAX,
        i64::MIN <= now + offset <= i64::MAX,
        year_of(now + offset) is Some,
        year_of(dt + offset) is Some,
    ensures
        year_of(now + offset) != year_of(dt + offset)
            ==> date_text(dt, now, offset) == Some(stamp_text(dt + offset, year_pattern())),
        year_of(now + offset) == year_of(dt + offset)
            ==> date_text(dt, now, offset) == Some(stamp_text(dt + offset, clock_pattern())),
{
}

/// The fixed bias, in seconds, added to the zone's offset.
pub const OFFSET_BIAS: i64 = 3600;

/// Formats modification time `dt` against the current time `now` in the zone
/// `zone` seconds east of UTC, shifted by the fixed bias.
pub fn render_date_in_zone(dt: i64, now: i64, zone: i32) -> (r: Option<String>)
    requires
        -86400 < zone < 86400,
    ensures
        r matches Some(s) ==> date_text(dt as int, now as int, zone + OFFSET_BIAS) == Some(s@),
        r is None ==> date_text(dt as int, now as int, zone + OFFSET_BIAS) is None,
{
    render_date_at(dt, now, zone as i64 + OFFSET_BIAS)
}

/// Formats modification time `dt` against the current time `now` in the
/// machine's zone, shifted by the fixed bias.
pub fn render_date(dt: i64, now: i64) -> (r: Option<String>)
    ensures
        r matches Some(s) ==> exists|off: int|
            -86400 + OFFSET_BIAS < off < 86400 + OFFSET_BIAS
            && date_text(dt as int, now as int, off) == Some(s@),
        r is None ==> exists|off: int|
            -86400 + OFFSET_BIAS < off < 86400 + OFFSET_BIAS
            && date_text(dt as int, now as int, off) is None,
{
    let zone = match local_offset_at_epoch() {
        Some(v) => v,
        None => return None,
    };
    let r = render_date_in_zone(dt, now, zone);
    let ghost off = zone + OFFSET_BIAS;
    assert(r matches Some(s) ==> date_text(dt as int, now as int, off) == Some(s@));
    assert(r is None ==> date_text(dt as int, now as int, off) is None);
    r
}

} // verus!
