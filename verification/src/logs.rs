//! Log text: escaping, entry layout, file naming, size rollover and expiry.

use vstd::prelude::*;
use crate::encoding::{decimal, decimal_chars, hex_upper, hex_upper_exec, parse_u32, parse_u32_range};
use crate::template::{f2, fill};
use crate::text::{
    chars_of, extend, is_control, is_control_char, lemma_split_any_nonempty, split_any, split_exec, str_eq, string_from_chars,
    views_of,
};

verus! {

// ==================== escaping ====================

/// How one character is written into a log line: CR, LF and TAB as `\r`,
/// `\n`, `\t`; every other control character (U+0000..U+001F and
/// U+007F..U+009F) as `\xHH` (upper-case hex); everything else unchanged.
pub open spec fn escape_char(c: char) -> Seq<char> {
    let u = c as u32;
    if c == '\r' {
        seq!['\\', 'r']
    } else if c == '\n' {
        seq!['\\', 'n']
    } else if c == '\t' {
        seq!['\\', 't']
    } else if is_control(c) {
        seq!['\\', 'x', hex_upper((u / 16) as nat), hex_upper((u % 16) as nat)]
    } else {
        seq![c]
    }
}

/// The escaped form of a text, character by character.
pub open spec fn escaped(s: Seq<char>) -> Seq<char>
    decreases s.len(),
{
    if s.len() == 0 {
        Seq::empty()
    } else {
        escaped(s.drop_last()) + escape_char(s.last())
    }
}

/// Rewrites control characters as visible escapes so that a message cannot
/// forge log lines.
pub fn escape_invisible(s: &str) -> (r: String)
    ensures
        r@ == escaped(s@),
{
    let mut out: Vec<char> = Vec::new();
    for c in it: s.chars()
        invariant
            it.seq() == s@,
            out@ == escaped(it.seq().take(it.index() as int)),
    {
        let ghost pre = it.seq().take(it.index() as int);
        let u = c as u32;
        if c == '\r' {
            out.push('\\');
            out.push('r');
        } else if c == '\n' {
            out.push('\\');
            out.push('n');
        } else if c == '\t' {
            out.push('\\');
            out.push('t');
        } else if is_control_char(c) {
            out.push('\\');
            out.push('x');
            out.push(hex_upper_exec(u / 16));
            out.push(hex_upper_exec(u % 16));
        } else {
            out.push(c);
        }
        proof {
            let post = it.seq().take(it.index() + 1);
            assert(post.drop_last() =~= pre);
            assert(out@ =~= escaped(pre) + escape_char(c));
        }
    }
    assert(s@.take(s@.len() as int) =~= s@);
    string_from_chars(&out)
}

/// Escaped text holds no control character (so no line break either): one
/// message stays one visible log line.
pub proof fn lemma_escaped_has_no_control_char(s: Seq<char>)
    ensures
        forall|i: int| 0 <= i < escaped(s).len() ==> !is_control(#[trigger] escaped(s)[i]),
    decreases s.len(),
{
    if s.len() > 0 {
        lemma_escaped_has_no_control_char(s.drop_last());
        let a = escaped(s.drop_last());
        let b = escape_char(s.last());
        assert forall|i: int| 0 <= i < b.len() implies !is_control(#[trigger] b[i]) by {
            let u = s.last() as u32;
            if !(s.last() == '\r' || s.last() == '\n' || s.last() == '\t') && is_control(s.last()) {
                assert(u <= 0x9f);
                let hi = (u / 16) as nat;
                let lo = (u % 16) as nat;
                assert(hi < 10);
                assert(hex_upper(hi) as u32 == 0x30 + hi);
                if lo < 10 {
                    assert(hex_upper(lo) as u32 == 0x30 + lo);
                } else {
                    assert(hex_upper(lo) as u32 == 0x41 + lo - 10);
                }
            }
        }
        assert forall|i: int| 0 <= i < escaped(s).len() implies !is_control(#[trigger] escaped(s)[i]) by {
            if i < a.len() {
                assert(escaped(s)[i] == a[i]);
            } else {
                assert(escaped(s)[i] == b[i - a.len()]);
            }
        }
    }
}

// ==================== entries and files ====================

/// Text written for a message on a channel: child output (`out`, `err`)
/// verbatim, everything else escaped.
pub open spec fn entry_text_of(channel: Seq<char>, message: Seq<char>) -> Seq<char> {
    if channel == "out"@ || channel == "err"@ {
        message
    } else {
        escaped(message)
    }
}

/// The message text of a log entry on `channel`.
pub fn log_entry_text(channel: &str, message: &str) -> (r: String)
    ensures
        r@ == entry_text_of(channel@, message@),
{
    if str_eq(channel, "out") || str_eq(channel, "err") {
        message.to_owned()
    } else {
        escape_invisible(message)
    }
}

/// One log line: `[<time>] [<channel>] <text>` and CR LF.
pub open spec fn entry_line_of(time: Seq<char>, channel: Seq<char>, text: Seq<char>) -> Seq<char> {
    seq!['['] + time + "] ["@ + channel + "] "@ + text + seq!['\r', '\n']
}

/// Formats one log line.
pub fn log_entry_line(time: &str, channel: &str, text: &str) -> (r: String)
    ensures
        r@ == entry_line_of(time@, channel@, text@),
{
    let mut v: Vec<char> = Vec::new();
    v.push('[');
    extend(&mut v, &chars_of(time));
    extend(&mut v, &chars_of("] ["));
    extend(&mut v, &chars_of(channel));
    extend(&mut v, &chars_of("] "));
    extend(&mut v, &chars_of(text));
    v.push('\r');
    v.push('\n');
    assert(v@ =~= entry_line_of(time@, channel@, text@));
    string_from_chars(&v)
}

/// Daily log file name: `<date>.err.log` for child stderr when stderr is
/// split off, `<date>.log` otherwise.
pub open spec fn log_file_name_of(date: Seq<char>, channel: Seq<char>, split_out_err: bool) -> Seq<
    char,
> {
    if split_out_err && channel == "err"@ {
        date + ".err.log"@
    } else {
        date + ".log"@
    }
}

/// The file an entry on `channel` goes to on day `date` (`yyyy-MM-dd`).
pub fn log_file_name(date: &str, channel: &str, split_out_err: bool) -> (r: String)
    ensures
        r@ == log_file_name_of(date@, channel@, split_out_err),
{
    let mut v = chars_of(date);
    if split_out_err && str_eq(channel, "err") {
        extend(&mut v, &chars_of(".err.log"));
    } else {
        extend(&mut v, &chars_of(".log"));
    }
    string_from_chars(&v)
}

/// Whether a log file of `len` bytes must be rolled over: rollover is on
/// (positive size limit and backup count) and the file has reached the limit
/// of `max_size_mb` MiB (the product taken modulo 2^64, as the release build
/// computes it).
pub open spec fn needs_roll_of(len: u64, max_size_mb: i64, backup_count: i32) -> bool {
    max_size_mb > 0 && backup_count > 0 && len >= (max_size_mb as u64).wrapping_mul(1048576)
}

/// Whether the log file must be rolled over before the next write.
pub fn needs_roll(len: u64, max_size_mb: i64, backup_count: i32) -> (r: bool)
    ensures
        r == needs_roll_of(len, max_size_mb, backup_count),
{
    if max_size_mb <= 0 || backup_count <= 0 {
        return false;
    }
    let limit = (max_size_mb as u64).wrapping_mul(1048576);
    len >= limit
}

/// Rollover by size: with rollover off (no positive size limit or backup
/// count) a log never rolls; with it on, and a limit of `max_size_mb` MiB
/// that a `u64` can count in bytes, a log rolls exactly when it holds at
/// least `max_size_mb * 1024 * 1024` bytes, so a smaller one never rolls.
pub proof fn lemma_rolls_at_size_limit(len: u64, max_size_mb: i64, backup_count: i32)
    ensures
        max_size_mb <= 0 || backup_count <= 0 ==> !needs_roll_of(len, max_size_mb, backup_count),
        max_size_mb > 0 && backup_count > 0 && max_size_mb * 1024 * 1024 <= u64::MAX ==> (needs_roll_of(
            len,
            max_size_mb,
            backup_count,
        ) <==> len >= max_size_mb * 1024 * 1024),
{
    if max_size_mb > 0 && backup_count > 0 && max_size_mb * 1024 * 1024 <= u64::MAX {
        assert((max_size_mb as u64) * 1048576 == max_size_mb * 1024 * 1024);
    }
}

/// The name of backup `i` of a log file: `<file>.<i>`.
pub open spec fn backup_name_of(file: Seq<char>, i: nat) -> Seq<char> {
    file + seq!['.'] + decimal(i)
}

/// The name of backup `i` of a log file.
pub fn backup_name(file: &str, i: u64) -> (r: String)
    ensures
        r@ == backup_name_of(file@, i as nat),
{
    let mut v = chars_of(file);
    v.push('.');
    extend(&mut v, &decimal_chars(i));
    string_from_chars(&v)
}

/// Move `k` of a rollover that keeps `count` backups, as (source,
/// destination); the oldest backup (`count`) is deleted first, then backups
/// `count-1` .. `1` each move one number up, and the log itself becomes
/// backup `1`. A move happens when its source exists, replacing its
/// destination.
pub open spec fn roll_move_of(file: Seq<char>, count: nat, k: nat) -> (Seq<char>, Seq<char>) {
    if k + 1 < count {
        (backup_name_of(file, (count - 1 - k) as nat), backup_name_of(file, (count - k) as nat))
    } else {
        (file, backup_name_of(file, 1))
    }
}

/// Move `k` of the rollover of `file` with `count` backups.
pub fn roll_move(file: &str, count: i32, k: i32) -> (r: (String, String))
    requires
        0 <= k < count,
    ensures
        (r.0@, r.1@) == roll_move_of(file@, count as nat, k as nat),
{
    if k + 1 < count {
        let src = backup_name(file, (count - 1 - k) as u64);
        let dst = backup_name(file, (count - k) as u64);
        (src, dst)
    } else {
        (file.to_owned(), backup_name(file, 1))
    }
}

/// A rollover never overwrites a backup before it has moved on: the first
/// move goes to the oldest backup's name (deleted beforehand), every later
/// move goes to the name the move before it has just vacated, and the last
/// move takes the log itself.
pub proof fn lemma_roll_chain(file: Seq<char>, count: nat, k: nat)
    requires
        k < count,
    ensures
        k == 0 ==> roll_move_of(file, count, k).1 == backup_name_of(file, count),
        k > 0 ==> roll_move_of(file, count, k).1 == roll_move_of(file, count, (k - 1) as nat).0,
        k + 1 == count ==> roll_move_of(file, count, k).0 == file,
{
}

// ==================== expiry ====================

/// Number of bytes that UTF-8 uses for `c`.
pub open spec fn utf8_width(c: char) -> int {
    let u = c as u32;
    if u < 0x80 {
        1
    } else if u < 0x800 {
        2
    } else if u < 0x10000 {
        3
    } else {
        4
    }
}

/// The leading characters of `s` that take exactly `n` bytes in UTF-8, if
/// such a prefix exists (`str::get(..n)`).
pub open spec fn byte_prefix(s: Seq<char>, n: int) -> Option<Seq<char>>
    decreases s.len(),
{
    if n == 0 {
        Some(Seq::empty())
    } else if n < 0 || s.len() == 0 || utf8_width(s[0]) > n {
        None
    } else {
        match byte_prefix(s.drop_first(), n - utf8_width(s[0])) {
            Some(p) => Some(seq![s[0]] + p),
            None => None,
        }
    }
}

/// The extension of a file name, as `Path::extension` gives it: the text
/// after the last `.`, unless there is no `.`, the only `.` leads the name,
/// or the name is `..`.
pub open spec fn extension_of(name: Seq<char>) -> Option<Seq<char>> {
    let ps = split_any(name, seq!['.']);
    if name == seq!['.', '.'] || ps.len() < 2 || (ps.len() == 2 && ps[0].len() == 0) {
        None
    } else {
        Some(ps.last())
    }
}

/// Whether a file name belongs to a daily log, its stderr split or a rolled
/// backup: its extension is `log` or a `u32` number.
pub open spec fn is_log_file_name(name: Seq<char>) -> bool {
    match extension_of(name) {
        Some(e) => e == "log"@ || parse_u32(e, 10) is Some,
        None => false,
    }
}

/// The part of a log file name that holds its date: its first 10 bytes when
/// they end on a character boundary, else the whole name.
pub open spec fn date_part_of(name: Seq<char>) -> Seq<char> {
    match byte_prefix(name, 10) {
        Some(p) => p,
        None => name,
    }
}

/// The calendar date (year, month, day) that `chrono::NaiveDate::parse_from_str`
/// reads from `s` with format `fmt`, if it reads one.
pub uninterp spec fn parsed_date(s: Seq<char>, fmt: Seq<char>) -> Option<(i32, u32, u32)>;

/// `chrono::NaiveDate::parse_from_str`, giving the date as (year, month, day).
/// Which strings it accepts for a format is chrono's parser and is not restated.
#[verifier::external_body]
fn parse_date(s: &str, fmt: &str) -> (r: Option<(i32, u32, u32)>)
    ensures
        r == parsed_date(s@, fmt@),
{
    match chrono::NaiveDate::parse_from_str(s, fmt) {
        Ok(d) => Some(
            (chrono::Datelike::year(&d), chrono::Datelike::month(&d), chrono::Datelike::day(&d)),
        ),
        Err(_) => None,
    }
}

/// Calendar order of (year, month, day) dates.
pub open spec fn date_before(a: (i32, u32, u32), b: (i32, u32, u32)) -> bool {
    ||| a.0 < b.0
    ||| a.0 == b.0 && a.1 < b.1
    ||| a.0 == b.0 && a.1 == b.1 && a.2 < b.2
}

fn date_before_exec(a: (i32, u32, u32), b: (i32, u32, u32)) -> (r: bool)
    ensures
        r == date_before(a, b),
{
    a.0 < b.0 || (a.0 == b.0 && a.1 < b.1) || (a.0 == b.0 && a.1 == b.1 && a.2 < b.2)
}

/// Whether a log file must be removed: its name is a log name whose date part
/// reads (as `%Y-%m-%d`) as a date before `cutoff`.
pub open spec fn is_expired_log_of(name: Seq<char>, cutoff: (i32, u32, u32)) -> bool {
    is_log_file_name(name) && match parsed_date(date_part_of(name), "%Y-%m-%d"@) {
        Some(d) => date_before(d, cutoff),
        None => false,
    }
}

/// Expiry follows the calendar: for dates with a month in 1..=12 and a day
/// in 1..=31, a log name dated `d` has expired against `cutoff` exactly when
/// `d` comes earlier, counting days as year * 512 + month * 32 + day (a
/// count that grows with every later day, month or year); a log of a later
/// month or year than the cutoff is kept whatever its day.
pub proof fn lemma_expiry_is_calendar_order(name: Seq<char>, d: (i32, u32, u32), cutoff: (i32, u32, u32))
    requires
        is_log_file_name(name),
        parsed_date(date_part_of(name), "%Y-%m-%d"@) == Some(d),
        1 <= d.1 <= 12,
        1 <= d.2 <= 31,
        1 <= cutoff.1 <= 12,
        1 <= cutoff.2 <= 31,
    ensures
        is_expired_log_of(name, cutoff) <==> d.0 * 512 + d.1 * 32 + d.2 < cutoff.0 * 512 + cutoff.1 * 32
            + cutoff.2,
        d.0 == cutoff.0 && d.1 > cutoff.1 ==> !is_expired_log_of(name, cutoff),
        d.0 > cutoff.0 ==> !is_expired_log_of(name, cutoff),
{
}

/// Whether the date in a parsed log name is before the cutoff.
pub fn expired_by_date(parsed: Option<(i32, u32, u32)>, cutoff: (i32, u32, u32)) -> (r: bool)
    ensures
        r == match parsed {
            Some(d) => date_before(d, cutoff),
            None => false,
        },
{
    match parsed {
        Some(d) => date_before_exec(d, cutoff),
        None => false,
    }
}

fn date_part_end(v: &Vec<char>) -> (r: usize)
    ensures
        r <= v.len(),
        v@.take(r as int) == date_part_of(v@),
{
    let mut bytes: usize = 0;
    let mut i: usize = 0;
    proof {
        assert(v@.skip(0) =~= v@);
        match byte_prefix(v@, 10) {
            Some(p) => {
                assert(v@.take(0) + p =~= p);
            },
            None => {},
        }
    }
    while i < v.len() && bytes < 10
        invariant
            i <= v.len(),
            bytes <= 10,
            byte_prefix(v@, 10) == (match byte_prefix(v@.skip(i as int), 10 - bytes) {
                Some(p) => Some(v@.take(i as int) + p),
                None => None::<Seq<char>>,
            }),
        decreases v.len() - i,
    {
        let u = v[i] as u32;
        let w: usize = if u < 0x80 {
            1
        } else if u < 0x800 {
            2
        } else if u < 0x10000 {
            3
        } else {
            4
        };
        let ghost rest = v@.skip(i as int);
        assert(rest[0] == v@[i as int]);
        assert(rest.drop_first() =~= v@.skip(i + 1));
        assert(v@.take(i + 1) =~= v@.take(i as int) + seq![v@[i as int]]);
        if w > 10 - bytes {
            assert(v@.take(v@.len() as int) =~= v@);
            return v.len();
        }
        proof {
            match byte_prefix(v@.skip(i + 1), 10 - bytes - w) {
                Some(p) => {
                    assert(v@.take(i as int) + (seq![v@[i as int]] + p) =~= v@.take(i + 1) + p);
                },
                None => {},
            }
        }
        bytes = bytes + w;
        i += 1;
    }
    if bytes == 10 {
        assert(v@.take(i as int) + Seq::<char>::empty() =~= v@.take(i as int));
        i
    } else {
        assert(v@.skip(i as int).len() == 0);
        assert(v@.take(v@.len() as int) =~= v@);
        v.len()
    }
}

fn is_log_name_chars(v: &Vec<char>) -> (r: bool)
    ensures
        r == is_log_file_name(v@),
{
    let dot = vec!['.'];
    assert(dot@ =~= seq!['.']);
    let ps = split_exec(v, &dot);
    proof {
        lemma_split_any_nonempty(v@, seq!['.']);
    }
    let ghost vs = views_of(ps@);
    assert(vs.len() == ps@.len());
    if v.len() == 2 && v[0] == '.' && v[1] == '.' {
        assert(v@ =~= seq!['.', '.']);
        return false;
    }
    assert(v@ != seq!['.', '.']) by {
        if v@ == seq!['.', '.'] {
            assert(v@[0] == '.' && v@[1] == '.');
        }
    }
    if ps.len() < 2 {
        return false;
    }
    assert(vs[0] == ps@[0]@);
    if ps.len() == 2 && ps[0].len() == 0 {
        return false;
    }
    let e = &ps[ps.len() - 1];
    assert(vs[vs.len() - 1] == e@);
    assert(e@.subrange(0, e@.len() as int) =~= e@);
    chars_eq_str(e, "log") || parse_u32_range(e, 0, e.len(), 10).is_some()
}

fn chars_eq_str(v: &Vec<char>, s: &str) -> (r: bool)
    ensures
        r == (v@ == s@),
{
    crate::text::chars_eq(v, &chars_of(s))
}

/// Whether a file in a log directory is an expired log (name checks, then the
/// date through `chrono`).
pub fn is_expired_log(file_name: &str, cutoff: (i32, u32, u32)) -> (r: bool)
    ensures
        r == is_expired_log_of(file_name@, cutoff),
{
    let v = chars_of(file_name);
    if !is_log_name_chars(&v) {
        return false;
    }
    let end = date_part_end(&v);
    let part = string_from_chars(&crate::text::sub_vec(&v, 0, end));
    assert(v@.subrange(0, end as int) =~= v@.take(end as int));
    let parsed = parse_date(part.as_str(), "%Y-%m-%d");
    expired_by_date(parsed, cutoff)
}

// ==================== retention ====================

/// Days a log is kept.
pub const LOG_RETENTION_DAYS: u32 = 30;

/// The calendar date that chrono computes `days` days before `date` (year,
/// month, day): `NaiveDate::from_ymd_opt`, then `checked_sub_signed` with
/// `TimeDelta::try_days`; none when `date` is no calendar date or the result
/// is outside chrono's range.
pub uninterp spec fn date_minus_days(date: (i32, u32, u32), days: u32) -> Option<(i32, u32, u32)>;

/// Subtracts days from a calendar date with chrono. Calendar arithmetic
/// (month lengths, leap years) is chrono's and is not restated.
#[verifier::external_body]
fn minus_days(date: (i32, u32, u32), days: u32) -> (r: Option<(i32, u32, u32)>)
    ensures
        r == date_minus_days(date, days),
{
    let d = match chrono::NaiveDate::from_ymd_opt(date.0, date.1, date.2) {
        Some(d) => d,
        None => return None,
    };
    let delta = match chrono::TimeDelta::try_days(days as i64) {
        Some(t) => t,
        None => return None,
    };
    match d.checked_sub_signed(delta) {
        Some(c) => Some((chrono::Datelike::year(&c), chrono::Datelike::month(&c), chrono::Datelike::day(&c))),
        None => None,
    }
}

/// The date before which logs have expired: thirty days before `today`.
pub fn retention_cutoff(today: (i32, u32, u32)) -> (r: Option<(i32, u32, u32)>)
    ensures
        r == date_minus_days(today, LOG_RETENTION_DAYS),
{
    minus_days(today, LOG_RETENTION_DAYS)
}

/// The line printed after expired logs were deleted, when any were.
pub open spec fn cleanup_message_of(deleted: nat) -> Option<Seq<char>> {
    if deleted > 0 {
        Some(
            fill(
                "  Log cleanup: removed {0} expired log file(s) (>{1}d)"@,
                seq![decimal(deleted), decimal(LOG_RETENTION_DAYS as nat)],
                2,
            ),
        )
    } else {
        None
    }
}

/// The log cleanup line for `deleted` removed files.
pub fn cleanup_message(deleted: u64) -> (r: Option<String>)
    ensures
        crate::config::opt_view(r) == cleanup_message_of(deleted as nat),
{
    if deleted == 0 {
        return None;
    }
    let n = string_from_chars(&decimal_chars(deleted));
    let d = string_from_chars(&decimal_chars(LOG_RETENTION_DAYS as u64));
    Some(f2("  Log cleanup: removed {0} expired log file(s) (>{1}d)", n.as_str(), d.as_str()))
}

} // verus!
