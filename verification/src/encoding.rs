//! Numbers written in text (parsing and decimal/hex forms) and UTF-16.

use vstd::prelude::*;

verus! {

// ==================== digits ====================

/// Value of `c` as a digit in the given radix (10 or 16), as `char::to_digit`.
pub open spec fn digit_value(c: char, radix: nat) -> Option<nat> {
    if '0' <= c <= '9' {
        let d = (c as u32 - '0' as u32) as nat;
        if d < radix {
            Some(d)
        } else {
            None
        }
    } else if radix == 16 && 'a' <= c <= 'f' {
        Some((c as u32 - 'a' as u32 + 10) as nat)
    } else if radix == 16 && 'A' <= c <= 'F' {
        Some((c as u32 - 'A' as u32 + 10) as nat)
    } else {
        None
    }
}

pub open spec fn all_digits(s: Seq<char>, radix: nat) -> bool {
    forall|i: int| 0 <= i < s.len() ==> (#[trigger] digit_value(s[i], radix)) is Some
}

/// The number that the digits `s` denote.
pub open spec fn digits_value(s: Seq<char>, radix: nat) -> nat
    decreases s.len(),
{
    if s.len() == 0 {
        0
    } else {
        match digit_value(s.last(), radix) {
            Some(d) => digits_value(s.drop_last(), radix) * radix + d,
            None => 0,
        }
    }
}

/// `u32::from_str_radix` (and `str::parse::<u32>` for radix 10): an optional
/// `+`, then one or more digits, denoting a number that fits in a `u32`.
pub open spec fn parse_u32(s: Seq<char>, radix: nat) -> Option<u32> {
    let d = if s.len() > 0 && s[0] == '+' {
        s.drop_first()
    } else {
        s
    };
    if d.len() > 0 && all_digits(d, radix) && digits_value(d, radix) <= u32::MAX {
        Some(digits_value(d, radix) as u32)
    } else {
        None
    }
}

proof fn lemma_digits_value_grows(s: Seq<char>, radix: nat, k: int)
    requires
        radix >= 1,
        0 <= k <= s.len(),
        all_digits(s, radix),
    ensures
        digits_value(s.take(k), radix) <= digits_value(s, radix),
    decreases s.len(),
{
    if k < s.len() {
        let t = s.drop_last();
        assert forall|i: int| 0 <= i < t.len() implies (#[trigger] digit_value(t[i], radix)) is Some by {
            assert(t[i] == s[i]);
        }
        lemma_digits_value_grows(t, radix, k);
        assert(t.take(k) =~= s.take(k));
        assert(digit_value(s.last(), radix) is Some);
        let a = digits_value(t, radix);
        assert(a * radix >= a) by (nonlinear_arith)
            requires
                radix >= 1,
        ;
    } else {
        assert(s.take(k) =~= s);
    }
}

pub fn digit_of(c: char, radix: u32) -> (r: Option<u32>)
    requires
        radix == 10 || radix == 16,
    ensures
        match r {
            Some(d) => digit_value(c, radix as nat) == Some(d as nat) && d < radix,
            None => digit_value(c, radix as nat) is None,
        },
{
    if '0' <= c && c <= '9' {
        let d = (c as u32) - ('0' as u32);
        if d < radix {
            Some(d)
        } else {
            None
        }
    } else if radix == 16 && 'a' <= c && c <= 'f' {
        Some((c as u32) - ('a' as u32) + 10)
    } else if radix == 16 && 'A' <= c && c <= 'F' {
        Some((c as u32) - ('A' as u32) + 10)
    } else {
        None
    }
}

/// Parses `v[lo..hi]` as `u32::from_str_radix` does.
pub fn parse_u32_range(v: &Vec<char>, lo: usize, hi: usize, radix: u32) -> (r: Option<u32>)
    requires
        lo <= hi <= v.len(),
        radix == 10 || radix == 16,
    ensures
        r == parse_u32(v@.subrange(lo as int, hi as int), radix as nat),
{
    let ghost s = v@.subrange(lo as int, hi as int);
    let mut start = lo;
    if lo < hi && v[lo] == '+' {
        start = lo + 1;
    }
    let ghost d = v@.subrange(start as int, hi as int);
    assert(d =~= (if s.len() > 0 && s[0] == '+' {
        s.drop_first()
    } else {
        s
    }));
    if start == hi {
        return None;
    }
    let mut acc: u64 = 0;
    let mut i = start;
    while i < hi
        invariant
            lo <= start <= i <= hi <= v.len(),
            s == v@.subrange(lo as int, hi as int),
            d == v@.subrange(start as int, hi as int),
            d == (if s.len() > 0 && s[0] == '+' {
                s.drop_first()
            } else {
                s
            }),
            d.len() > 0,
            radix == 10 || radix == 16,
            all_digits(d.take(i - start), radix as nat),
            acc as nat == digits_value(d.take(i - start), radix as nat),
            acc <= u32::MAX,
        decreases hi - i,
    {
        let k = i - start;
        let ghost t = d.take(k + 1);
        assert(t.drop_last() =~= d.take(k as int));
        assert(t.last() == v@[i as int]);
        match digit_of(v[i], radix) {
            None => {
                assert(d[k as int] == v@[i as int]);
                assert(!all_digits(d, radix as nat));
                return None;
            },
            Some(dg) => {
                assert(acc * (radix as u64) <= 0xffff_ffffu64 * 16) by (nonlinear_arith)
                    requires
                        acc <= 0xffff_ffffu64,
                        radix <= 16,
                ;
                let next = acc * (radix as u64) + (dg as u64);
                assert forall|j: int| 0 <= j < t.len() implies (#[trigger] digit_value(
                    t[j],
                    radix as nat,
                )) is Some by {
                    if j < k {
                        assert(t[j] == d.take(k as int)[j]);
                    }
                }
                if next > 0xffff_ffffu64 {
                    proof {
                        if all_digits(d, radix as nat) {
                            lemma_digits_value_grows(d, radix as nat, k + 1);
                        }
                    }
                    return None;
                }
                acc = next;
            },
        }
        i += 1;
    }
    assert(d.take(hi - start) =~= d);
    Some(acc as u32)
}

// ==================== decimal and hexadecimal forms ====================

pub open spec fn digit_char(d: nat) -> char {
    ('0' as u32 + d) as char
}

/// Decimal form of `n`, as `Display` writes it.
pub open spec fn decimal(n: nat) -> Seq<char>
    decreases n,
{
    if n < 10 {
        seq![digit_char(n)]
    } else {
        decimal(n / 10).push(digit_char(n % 10))
    }
}

/// Upper-case hexadecimal digit of `d < 16`.
pub open spec fn hex_upper(d: nat) -> char {
    if d < 10 {
        ('0' as u32 + d) as char
    } else {
        ('A' as u32 + d - 10) as char
    }
}

/// Lower-case hexadecimal digit of `d < 16`.
pub open spec fn hex_lower(d: nat) -> char {
    if d < 10 {
        ('0' as u32 + d) as char
    } else {
        ('a' as u32 + d - 10) as char
    }
}

/// Two lower-case hex digits of a byte, as `{:02x}` writes them.
pub open spec fn hex2_lower(b: u8) -> Seq<char> {
    seq![hex_lower((b / 16) as nat), hex_lower((b % 16) as nat)]
}

/// Lower-case hex form of a byte sequence.
pub open spec fn hex_lower_bytes(bs: Seq<u8>) -> Seq<char>
    decreases bs.len(),
{
    if bs.len() == 0 {
        Seq::empty()
    } else {
        hex_lower_bytes(bs.drop_last()) + hex2_lower(bs.last())
    }
}

pub fn digit_char_exec(d: u64) -> (c: char)
    requires
        d < 10,
    ensures
        c == digit_char(d as nat),
{
    let b: u8 = (d as u8) + 48;
    b as char
}

pub fn hex_upper_exec(d: u32) -> (c: char)
    requires
        d < 16,
    ensures
        c == hex_upper(d as nat),
{
    if d < 10 {
        let b: u8 = (d as u8) + 48;
        b as char
    } else {
        let b: u8 = (d as u8) + 55;
        b as char
    }
}

pub fn hex_lower_exec(d: u8) -> (c: char)
    requires
        d < 16,
    ensures
        c == hex_lower(d as nat),
{
    if d < 10 {
        let b: u8 = d + 48;
        b as char
    } else {
        let b: u8 = d + 87;
        b as char
    }
}

/// Decimal digits of `n`.
pub fn decimal_chars(n: u64) -> (r: Vec<char>)
    ensures
        r@ == decimal(n as nat),
    decreases n,
{
    if n < 10 {
        let mut v = Vec::new();
        v.push(digit_char_exec(n));
        assert(v@ =~= seq![digit_char(n as nat)]);
        v
    } else {
        let mut v = decimal_chars(n / 10);
        v.push(digit_char_exec(n % 10));
        v
    }
}

/// Decimal form of a signed number: a `-` before the magnitude when negative.
pub open spec fn signed_decimal(n: int) -> Seq<char> {
    if n < 0 {
        seq!['-'] + decimal((-n) as nat)
    } else {
        decimal(n as nat)
    }
}

/// Decimal digits of a signed 32-bit number, as `i32::to_string` writes them.
pub fn signed_decimal_chars(n: i32) -> (r: Vec<char>)
    ensures
        r@ == signed_decimal(n as int),
{
    if n < 0 {
        let m: i64 = -(n as i64);
        let mut r: Vec<char> = Vec::new();
        r.push('-');
        let d = decimal_chars(m as u64);
        let ghost before = r@;
        let mut i: usize = 0;
        while i < d.len()
            invariant
                i <= d.len(),
                r@ == before + d@.take(i as int),
            decreases d.len() - i,
        {
            r.push(d[i]);
            assert(d@.take(i + 1) =~= d@.take(i as int).push(d@[i as int]));
            i += 1;
        }
        assert(d@.take(d.len() as int) =~= d@);
        r
    } else {
        decimal_chars(n as u64)
    }
}

/// Lower-case hex form of a byte sequence.
pub fn hex_lower_of(bs: &Vec<u8>) -> (r: Vec<char>)
    ensures
        r@ == hex_lower_bytes(bs@),
{
    let mut r: Vec<char> = Vec::new();
    let mut i: usize = 0;
    assert(bs@.take(0) =~= Seq::<u8>::empty());
    while i < bs.len()
        invariant
            i <= bs.len(),
            r@ == hex_lower_bytes(bs@.take(i as int)),
        decreases bs.len() - i,
    {
        let b = bs[i];
        r.push(hex_lower_exec(b / 16));
        r.push(hex_lower_exec(b % 16));
        assert(bs@.take(i + 1).drop_last() =~= bs@.take(i as int));
        assert(r@ =~= hex_lower_bytes(bs@.take(i as int)) + hex2_lower(b));
        i += 1;
    }
    assert(bs@.take(bs.len() as int) =~= bs@);
    r
}

// ==================== UTF-16 ====================

/// Number of UTF-16 code units that encode `c`.
pub open spec fn utf16_width(c: char) -> nat {
    if (c as u32) >= 0x10000 {
        2
    } else {
        1
    }
}

/// `str::encode_utf16().count()`.
pub open spec fn utf16_len(s: Seq<char>) -> nat
    decreases s.len(),
{
    if s.len() == 0 {
        0
    } else {
        utf16_len(s.drop_last()) + utf16_width(s.last())
    }
}

/// The UTF-16 code units of one character.
pub open spec fn utf16_units(c: char) -> Seq<u16> {
    let u = c as u32;
    if u < 0x10000 {
        seq![u as u16]
    } else {
        let v = (u - 0x10000) as nat;
        seq![(0xD800 + v / 0x400) as u16, (0xDC00 + v % 0x400) as u16]
    }
}

/// `str::encode_utf16()`.
pub open spec fn utf16_encode(s: Seq<char>) -> Seq<u16>
    decreases s.len(),
{
    if s.len() == 0 {
        Seq::empty()
    } else {
        utf16_encode(s.drop_last()) + utf16_units(s.last())
    }
}

proof fn lemma_utf16_len_grows(s: Seq<char>, k: int)
    requires
        0 <= k <= s.len(),
    ensures
        utf16_len(s.take(k)) <= utf16_len(s),
    decreases s.len(),
{
    if k < s.len() {
        lemma_utf16_len_grows(s.drop_last(), k);
        assert(s.drop_last().take(k) =~= s.take(k));
    } else {
        assert(s.take(k) =~= s);
    }
}

/// Whether `s` encodes to at most `limit` UTF-16 code units.
pub fn utf16_len_at_most(v: &Vec<char>, limit: usize) -> (r: bool)
    requires
        limit < usize::MAX - 1,
    ensures
        r == (utf16_len(v@) <= limit),
{
    let mut n: usize = 0;
    let mut i: usize = 0;
    assert(v@.take(0) =~= Seq::<char>::empty());
    while i < v.len()
        invariant
            i <= v.len(),
            limit < usize::MAX - 1,
            n as nat == utf16_len(v@.take(i as int)),
            n <= limit,
        decreases v.len() - i,
    {
        assert(v@.take(i + 1).drop_last() =~= v@.take(i as int));
        if (v[i] as u32) >= 0x10000 {
            if n + 2 > limit {
                proof {
                    lemma_utf16_len_grows(v@, i + 1);
                }
                return false;
            }
            n = n + 2;
        } else {
            if n + 1 > limit {
                proof {
                    lemma_utf16_len_grows(v@, i + 1);
                }
                return false;
            }
            n = n + 1;
        }
        i += 1;
    }
    assert(v@.take(v.len() as int) =~= v@);
    true
}

/// `s.encode_utf16()` followed by a terminating zero unit.
pub fn to_wide(s: &str) -> (r: Vec<u16>)
    ensures
        r@ == utf16_encode(s@).push(0u16),
{
    let mut r: Vec<u16> = Vec::new();
    let ghost mut seen: Seq<char> = Seq::empty();
    for c in it: s.chars()
        invariant
            it.seq() == s@,
            r@ == utf16_encode(it.seq().take(it.index() as int)),
    {
        let ghost pre = it.seq().take(it.index() as int);
        let u = c as u32;
        if u < 0x10000 {
            r.push(u as u16);
        } else {
            let v = u - 0x10000;
            r.push((0xD800 + v / 0x400) as u16);
            r.push((0xDC00 + v % 0x400) as u16);
        }
        proof {
            let post = it.seq().take(it.index() + 1);
            assert(post.drop_last() =~= pre);
            assert(r@ =~= utf16_encode(pre) + utf16_units(c));
        }
    }
    assert(s@.take(s@.len() as int) =~= s@);
    r.push(0u16);
    r
}

} // verus!
