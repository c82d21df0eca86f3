//! Text that Windows hands back as UTF-16 buffers: lossy decoding, the part
//! before the first NUL, registry strings and the window station's name.

use vstd::prelude::*;
use crate::text::{eq_ignore_ascii_case, str_eq_ignore_ascii_case, string_from_chars};

verus! {

/// `char::from_u32`: the character with code point `u`; none for surrogate
/// code points and for values above U+10FFFF.
#[verifier::external_body]
fn char_from_u32(u: u32) -> (r: Option<char>)
    ensures
        r == (if u < 0xD800 || (0xE000 <= u && u <= 0x10FFFF) {
            Some(u as char)
        } else {
            None
        }),
{
    char::from_u32(u)
}

/// A leading surrogate.
pub open spec fn is_high_surrogate(u: u16) -> bool {
    0xD800 <= u < 0xDC00
}

/// A trailing surrogate.
pub open spec fn is_low_surrogate(u: u16) -> bool {
    0xDC00 <= u < 0xE000
}

/// The character a surrogate pair encodes.
pub open spec fn pair_char(h: u16, l: u16) -> char {
    ((0x10000 + (h - 0xD800) * 1024 + (l - 0xDC00)) as u32) as char
}

/// `String::from_utf16_lossy`: surrogate pairs become the character they
/// encode, an unpaired surrogate becomes U+FFFD, every other unit the
/// character with its value.
pub open spec fn decode_lossy(u: Seq<u16>) -> Seq<char>
    decreases u.len(),
{
    if u.len() == 0 {
        Seq::empty()
    } else if u.len() >= 2 && is_high_surrogate(u[0]) && is_low_surrogate(u[1]) {
        seq![pair_char(u[0], u[1])] + decode_lossy(u.skip(2))
    } else if is_high_surrogate(u[0]) || is_low_surrogate(u[0]) {
        seq!['\u{FFFD}'] + decode_lossy(u.skip(1))
    } else {
        seq![(u[0] as u32) as char] + decode_lossy(u.skip(1))
    }
}

/// Decodes a UTF-16 buffer, replacing unpaired surrogates by U+FFFD.
pub fn decode_utf16_lossy(u: &Vec<u16>) -> (r: Vec<char>)
    ensures
        r@ == decode_lossy(u@),
{
    let mut out: Vec<char> = Vec::new();
    let mut i: usize = 0;
    assert(u@.skip(0) =~= u@);
    while i < u.len()
        invariant
            i <= u.len(),
            out@ + decode_lossy(u@.skip(i as int)) == decode_lossy(u@),
        decreases u.len() - i,
    {
        let ghost rest = u@.skip(i as int);
        let a = u[i];
        assert(rest[0] == a);
        if i + 1 < u.len() && 0xD800 <= a && a < 0xDC00 && 0xDC00 <= u[i + 1] && u[i + 1] < 0xE000 {
            let b = u[i + 1];
            assert(rest[1] == b);
            let cp: u32 = 0x10000 + ((a - 0xD800) as u32) * 1024 + ((b - 0xDC00) as u32);
            let c = match char_from_u32(cp) {
                Some(c) => c,
                None => '\u{FFFD}',
            };
            assert(c == pair_char(a, b));
            let ghost before = out@;
            out.push(c);
            assert(rest.skip(2) =~= u@.skip(i + 2));
            assert(out@ + decode_lossy(u@.skip(i + 2)) =~= before + (seq![pair_char(a, b)]
                + decode_lossy(rest.skip(2))));
            i += 2;
        } else {
            let c = if 0xD800 <= a && a < 0xE000 {
                '\u{FFFD}'
            } else {
                match char_from_u32(a as u32) {
                    Some(c) => c,
                    None => '\u{FFFD}',
                }
            };
            let ghost before = out@;
            out.push(c);
            assert(rest.skip(1) =~= u@.skip(i + 1));
            assert(out@ + decode_lossy(u@.skip(i + 1)) =~= before + (seq![c] + decode_lossy(
                rest.skip(1),
            )));
            i += 1;
        }
    }
    assert(u@.skip(i as int) =~= Seq::<u16>::empty());
    assert(out@ + Seq::<char>::empty() =~= out@);
    out
}

/// The text before the first NUL (all of it when there is none).
pub open spec fn before_nul(s: Seq<char>) -> Seq<char>
    decreases s.len(),
{
    if s.len() == 0 || s[0] == '\0' {
        Seq::empty()
    } else {
        seq![s[0]] + before_nul(s.drop_first())
    }
}

fn before_nul_exec(v: &Vec<char>) -> (r: Vec<char>)
    ensures
        r@ == before_nul(v@),
{
    let mut out: Vec<char> = Vec::new();
    let mut i: usize = 0;
    assert(v@.skip(0) =~= v@);
    while i < v.len() && v[i] != '\0'
        invariant
            i <= v.len(),
            out@ + before_nul(v@.skip(i as int)) == before_nul(v@),
        decreases v.len() - i,
    {
        let ghost rest = v@.skip(i as int);
        assert(rest[0] == v@[i as int]);
        assert(rest.drop_first() =~= v@.skip(i + 1));
        let ghost before = out@;
        out.push(v[i]);
        assert(out@ + before_nul(v@.skip(i + 1)) =~= before + (seq![v@[i as int]] + before_nul(
            rest.drop_first(),
        )));
        i += 1;
    }
    proof {
        let rest = v@.skip(i as int);
        if i < v.len() {
            assert(rest[0] == v@[i as int]);
        }
        assert(before_nul(rest) == Seq::<char>::empty());
        assert(out@ + Seq::<char>::empty() =~= out@);
    }
    out
}

/// A registry string value as read: the decoded buffer up to its first NUL;
/// none when that is empty.
pub open spec fn reg_string_of(buf: Seq<u16>) -> Option<Seq<char>> {
    let s = before_nul(decode_lossy(buf));
    if s.len() == 0 {
        None
    } else {
        Some(s)
    }
}

/// The string in a registry value's buffer, if it is not empty.
pub fn reg_string(buf: &Vec<u16>) -> (r: Option<String>)
    ensures
        match r {
            Some(s) => reg_string_of(buf@) == Some(s@),
            None => reg_string_of(buf@) is None,
        },
{
    let s = before_nul_exec(&decode_utf16_lossy(buf));
    if s.len() == 0 {
        None
    } else {
        Some(string_from_chars(&s))
    }
}

/// Whether the process runs in the interactive window station: the name in
/// the buffer (up to its first NUL) is `WinSta0` in any ASCII case.
pub open spec fn is_interactive_station_of(name: Seq<u16>) -> bool {
    eq_ignore_ascii_case(before_nul(decode_lossy(name)), "winsta0"@)
}

/// Judges the window station name the system returned.
pub fn is_interactive_station(name: &Vec<u16>) -> (r: bool)
    ensures
        r == is_interactive_station_of(name@),
{
    let s = string_from_chars(&before_nul_exec(&decode_utf16_lossy(name)));
    str_eq_ignore_ascii_case(s.as_str(), "winsta0")
}

} // verus!
