//! Dotted version numbers (`1.2.3.4`) and their ordering.

use vstd::prelude::*;
use crate::encoding::{
    all_digits, decimal, decimal_chars, digit_value, digits_value, parse_u32, parse_u32_range,
};
use crate::text::{
    chars_of, extend, lemma_split_append, lemma_split_no_delim, split_any, split_exec,
    string_from_chars, views_of,
};

verus! {

/// The numeric components of the pieces, skipping pieces that are not a `u32`.
pub open spec fn parsed_parts(ps: Seq<Seq<char>>) -> Seq<u32>
    decreases ps.len(),
{
    if ps.len() == 0 {
        Seq::empty()
    } else {
        let r = parsed_parts(ps.drop_last());
        match parse_u32(ps.last(), 10) {
            Some(x) => r.push(x),
            None => r,
        }
    }
}

/// The numeric components of a version string: its `.`-separated pieces that
/// parse as `u32`, in order.
pub open spec fn version_parts(s: Seq<char>) -> Seq<u32> {
    parsed_parts(split_any(s, seq!['.']))
}

/// Component `i`, or 0 past the end.
pub open spec fn part_at(v: Seq<u32>, i: int) -> int {
    if 0 <= i < v.len() {
        v[i] as int
    } else {
        0
    }
}

/// Compares components from position `i` on, missing components counting as 0:
/// 1 when `a` is greater at the first difference, -1 when smaller, 0 when none.
pub open spec fn order_from(a: Seq<u32>, b: Seq<u32>, i: int) -> int
    decreases (if a.len() > b.len() {
        a.len()
    } else {
        b.len()
    }) - i,
{
    if i < 0 || (i >= a.len() && i >= b.len()) {
        0
    } else if part_at(a, i) > part_at(b, i) {
        1
    } else if part_at(a, i) < part_at(b, i) {
        -1
    } else {
        order_from(a, b, i + 1)
    }
}

/// The ordering of two version strings.
pub open spec fn version_order(a: Seq<char>, b: Seq<char>) -> int {
    order_from(version_parts(a), version_parts(b), 0)
}

fn parse_parts(s: &str) -> (r: Vec<u32>)
    ensures
        r@ == version_parts(s@),
{
    let v = chars_of(s);
    let dot = vec!['.'];
    assert(dot@ =~= seq!['.']);
    let pieces = split_exec(&v, &dot);
    let ghost ps = views_of(pieces@);
    let mut r: Vec<u32> = Vec::new();
    let mut i: usize = 0;
    assert(ps.take(0) =~= Seq::<Seq<char>>::empty());
    while i < pieces.len()
        invariant
            i <= pieces.len(),
            ps == views_of(pieces@),
            ps.len() == pieces@.len(),
            r@ == parsed_parts(ps.take(i as int)),
        decreases pieces.len() - i,
    {
        let p = &pieces[i];
        assert(ps[i as int] == p@);
        assert(ps.take(i + 1).drop_last() =~= ps.take(i as int));
        assert(p@.subrange(0, p@.len() as int) =~= p@);
        match parse_u32_range(p, 0, p.len(), 10) {
            Some(x) => r.push(x),
            None => {},
        }
        i += 1;
    }
    assert(ps.take(pieces.len() as int) =~= ps);
    r
}

/// Compares two dotted version strings component by component (missing or
/// unparsable components do not count; missing trailing ones are 0):
/// 1 if `a` is newer, -1 if older, 0 if equal.
pub fn compare_versions(a: &str, b: &str) -> (r: i32)
    ensures
        r == version_order(a@, b@),
{
    let va = parse_parts(a);
    let vb = parse_parts(b);
    let n = if va.len() > vb.len() {
        va.len()
    } else {
        vb.len()
    };
    let mut i: usize = 0;
    while i < n
        invariant
            i <= n,
            va@ == version_parts(a@),
            vb@ == version_parts(b@),
            n == (if va@.len() > vb@.len() {
                va@.len()
            } else {
                vb@.len()
            }),
            order_from(va@, vb@, 0) == order_from(va@, vb@, i as int),
        decreases n - i,
    {
        let na = if i < va.len() {
            va[i]
        } else {
            0
        };
        let nb = if i < vb.len() {
            vb[i]
        } else {
            0
        };
        if na > nb {
            return 1;
        }
        if na < nb {
            return -1;
        }
        i += 1;
    }
    0
}

// ==================== laws ====================

proof fn lemma_order_past_end(a: Seq<u32>, b: Seq<u32>, i: int)
    requires
        i >= a.len(),
        i >= b.len(),
    ensures
        order_from(a, b, i) == 0,
{
}

proof fn lemma_order_unfold(a: Seq<u32>, b: Seq<u32>, i: int)
    requires
        i >= 0,
    ensures
        order_from(a, b, i) == (if part_at(a, i) > part_at(b, i) {
            1
        } else if part_at(a, i) < part_at(b, i) {
            -1
        } else {
            order_from(a, b, i + 1)
        }),
{
}

proof fn lemma_order_antisym_from(a: Seq<u32>, b: Seq<u32>, i: int)
    requires
        i >= 0,
    ensures
        order_from(a, b, i) == -order_from(b, a, i),
        -1 <= order_from(a, b, i) <= 1,
    decreases (if a.len() > b.len() {
        a.len()
    } else {
        b.len()
    }) - i,
{
    if i >= a.len() && i >= b.len() {
    } else {
        lemma_order_antisym_from(a, b, i + 1);
    }
}

proof fn lemma_order_trans_from(a: Seq<u32>, b: Seq<u32>, c: Seq<u32>, i: int)
    requires
        i >= 0,
        order_from(a, b, i) <= 0,
        order_from(b, c, i) <= 0,
    ensures
        order_from(a, c, i) <= 0,
        order_from(a, b, i) == 0 && order_from(b, c, i) == 0 ==> order_from(a, c, i)
            == 0,
    decreases (a.len() + b.len() + c.len()) - i,
{
    lemma_order_unfold(a, b, i);
    lemma_order_unfold(b, c, i);
    lemma_order_unfold(a, c, i);
    if i >= a.len() && i >= b.len() && i >= c.len() {
        lemma_order_past_end(a, c, i);
    } else if part_at(a, i) == part_at(b, i) && part_at(b, i) == part_at(c, i) {
        lemma_order_trans_from(a, b, c, i + 1);
    }
}

/// Swapping the arguments negates the ordering, and the ordering is -1, 0 or 1.
pub proof fn lemma_compare_versions_antisymmetric(a: Seq<char>, b: Seq<char>)
    ensures
        version_order(a, b) == -version_order(b, a),
        -1 <= version_order(a, b) <= 1,
{
    lemma_order_antisym_from(version_parts(a), version_parts(b), 0);
}

/// Every version is equal to itself.
pub proof fn lemma_compare_versions_reflexive(a: Seq<char>)
    ensures
        version_order(a, a) == 0,
{
    lemma_order_antisym_from(version_parts(a), version_parts(a), 0);
}

/// The ordering is transitive: not newer than a version that is not newer than
/// a third means not newer than the third, and equality chains.
pub proof fn lemma_compare_versions_transitive(a: Seq<char>, b: Seq<char>, c: Seq<char>)
    requires
        version_order(a, b) <= 0,
        version_order(b, c) <= 0,
    ensures
        version_order(a, c) <= 0,
        version_order(a, b) == 0 && version_order(b, c) == 0 ==> version_order(a, c) == 0,
{
    lemma_order_trans_from(version_parts(a), version_parts(b), version_parts(c), 0);
}

/// Components that are missing count as zero: appending a zero component
/// leaves the ordering against any other version unchanged.
pub proof fn lemma_trailing_zero_component(a: Seq<u32>, b: Seq<u32>)
    ensures
        order_from(a.push(0u32), b, 0) == order_from(a, b, 0),
{
    lemma_zero_pad_from(a, b, 0);
}

proof fn lemma_zero_pad_from(a: Seq<u32>, b: Seq<u32>, i: int)
    requires
        i >= 0,
    ensures
        order_from(a.push(0u32), b, i) == order_from(a, b, i),
    decreases a.len() + 1 + b.len() - i,
{
    let a2 = a.push(0u32);
    assert(part_at(a2, i) == part_at(a, i));
    lemma_order_unfold(a2, b, i);
    lemma_order_unfold(a, b, i);
    if i >= a2.len() && i >= b.len() {
        lemma_order_past_end(a, b, i);
    } else if i >= a.len() && i >= b.len() {
        lemma_order_past_end(a, b, i);
        lemma_order_past_end(a2, b, i + 1);
    } else {
        lemma_zero_pad_from(a, b, i + 1);
    }
}

// ==================== file versions ====================

/// The version of a file as its fixed version information gives it: the
/// high and low 16 bits of the most significant and of the least
/// significant 32 bits, in decimal, joined with `.`.
pub open spec fn file_version_of(ms: u32, ls: u32) -> Seq<char> {
    decimal((ms / 65536) as nat) + seq!['.'] + decimal((ms % 65536) as nat) + seq!['.'] + decimal(
        (ls / 65536) as nat,
    ) + seq!['.'] + decimal((ls % 65536) as nat)
}

/// The version text of a file's fixed version information.
pub fn file_version_string(ms: u32, ls: u32) -> (r: String)
    ensures
        r@ == file_version_of(ms, ls),
{
    let major = (ms >> 16u32) & 0xFFFFu32;
    let minor = ms & 0xFFFFu32;
    let build = (ls >> 16u32) & 0xFFFFu32;
    let revision = ls & 0xFFFFu32;
    assert(major == ms / 65536 && minor == ms % 65536) by (bit_vector)
        requires
            major == (ms >> 16u32) & 0xFFFFu32,
            minor == ms & 0xFFFFu32,
    ;
    assert(build == ls / 65536 && revision == ls % 65536) by (bit_vector)
        requires
            build == (ls >> 16u32) & 0xFFFFu32,
            revision == ls & 0xFFFFu32,
    ;
    let mut v = decimal_chars(major as u64);
    v.push('.');
    extend(&mut v, &decimal_chars(minor as u64));
    v.push('.');
    extend(&mut v, &decimal_chars(build as u64));
    v.push('.');
    extend(&mut v, &decimal_chars(revision as u64));
    assert(v@ =~= file_version_of(ms, ls));
    string_from_chars(&v)
}

proof fn lemma_decimal_parses(n: nat)
    ensures
        decimal(n).len() > 0,
        all_digits(decimal(n), 10),
        digits_value(decimal(n), 10) == n,
        decimal(n)[0] != '+',
        !decimal(n).contains('.'),
    decreases n,
{
    if n < 10 {
        assert(digit_value(decimal(n)[0], 10) == Some(n));
        assert(decimal(n).drop_last() =~= Seq::<char>::empty());
        assert(digits_value(decimal(n), 10) == digits_value(Seq::<char>::empty(), 10) * 10 + n);
    } else {
        lemma_decimal_parses(n / 10);
        let d = decimal(n / 10);
        let e = decimal(n);
        assert(e.drop_last() =~= d);
        assert(digit_value(e.last(), 10) == Some(n % 10));
        assert forall|i: int| 0 <= i < e.len() implies (#[trigger] digit_value(e[i], 10)) is Some by {
            if i < d.len() {
                assert(e[i] == d[i]);
            }
        }
        assert((n / 10) * 10 + n % 10 == n) by (nonlinear_arith);
        assert(digits_value(e, 10) == digits_value(d, 10) * 10 + n % 10);
        assert(e[0] == d[0]);
        if e.contains('.') {
            let k = choose|k: int| 0 <= k < e.len() && e[k] == '.';
            if k < d.len() {
                assert(e[k] == d[k]);
            }
        }
    }
}

proof fn lemma_parse_decimal(n: nat)
    requires
        n <= u32::MAX,
    ensures
        parse_u32(decimal(n), 10) == Some(n as u32),
{
    lemma_decimal_parses(n);
}

/// The components a file version text parses to.
pub open spec fn file_version_parts(ms: u32, ls: u32) -> Seq<u32> {
    seq![(ms / 65536) as u32, (ms % 65536) as u32, (ls / 65536) as u32, (ls % 65536) as u32]
}

proof fn lemma_file_version_parts(ms: u32, ls: u32)
    ensures
        version_parts(file_version_of(ms, ls)) == file_version_parts(ms, ls),
{
    let a = decimal((ms / 65536) as nat);
    let b = decimal((ms % 65536) as nat);
    let c = decimal((ls / 65536) as nat);
    let d = decimal((ls % 65536) as nat);
    lemma_decimal_parses((ms / 65536) as nat);
    lemma_decimal_parses((ms % 65536) as nat);
    lemma_decimal_parses((ls / 65536) as nat);
    lemma_decimal_parses((ls % 65536) as nat);
    lemma_split_no_delim(a, '.');
    lemma_split_append(a, '.', b);
    lemma_split_append(a + seq!['.'] + b, '.', c);
    lemma_split_append(a + seq!['.'] + b + seq!['.'] + c, '.', d);
    let ps = split_any(file_version_of(ms, ls), seq!['.']);
    assert(ps =~= seq![a, b, c, d]);
    lemma_parse_decimal((ms / 65536) as nat);
    lemma_parse_decimal((ms % 65536) as nat);
    lemma_parse_decimal((ls / 65536) as nat);
    lemma_parse_decimal((ls % 65536) as nat);
    assert(ps.drop_last().drop_last().drop_last().drop_last() =~= Seq::<Seq<char>>::empty());
    assert(ps.drop_last().drop_last().drop_last() =~= seq![a]);
    assert(ps.drop_last().drop_last() =~= seq![a, b]);
    assert(ps.drop_last() =~= seq![a, b, c]);
    assert(seq![a].drop_last() =~= Seq::<Seq<char>>::empty());
    assert(seq![a, b].drop_last() =~= seq![a]);
    assert(seq![a, b, c].drop_last() =~= seq![a, b]);
    assert(parsed_parts(Seq::<Seq<char>>::empty()) =~= Seq::<u32>::empty());
    assert(seq![a].last() == a);
    assert(parsed_parts(seq![a]) =~= seq![(ms / 65536) as u32]);
    assert(parsed_parts(seq![a, b]) =~= seq![(ms / 65536) as u32, (ms % 65536) as u32]);
    assert(parsed_parts(seq![a, b, c]) =~= seq![
        (ms / 65536) as u32,
        (ms % 65536) as u32,
        (ls / 65536) as u32,
    ]);
}

/// The packed 64-bit file version.
pub open spec fn packed_version(ms: u32, ls: u32) -> int {
    ms as int * 4294967296 + ls as int
}

/// The updater compares host versions as the files' packed 64-bit versions:
/// comparing the version texts of two files gives 1, 0 or -1 as the first
/// packed version is greater than, equal to or less than the second.
pub proof fn lemma_file_versions_order_as_packed(ms1: u32, ls1: u32, ms2: u32, ls2: u32)
    ensures
        version_order(file_version_of(ms1, ls1), file_version_of(ms2, ls2)) == (if packed_version(
            ms1,
            ls1,
        ) > packed_version(ms2, ls2) {
            1int
        } else if packed_version(ms1, ls1) < packed_version(ms2, ls2) {
            -1int
        } else {
            0int
        }),
{
    lemma_file_version_parts(ms1, ls1);
    lemma_file_version_parts(ms2, ls2);
    let a = file_version_parts(ms1, ls1);
    let b = file_version_parts(ms2, ls2);
    lemma_order_unfold(a, b, 0);
    lemma_order_unfold(a, b, 1);
    lemma_order_unfold(a, b, 2);
    lemma_order_unfold(a, b, 3);
    lemma_order_past_end(a, b, 4);
    let (a0, a1, a2, a3) = (ms1 / 65536, ms1 % 65536, ls1 / 65536, ls1 % 65536);
    let (b0, b1, b2, b3) = (ms2 / 65536, ms2 % 65536, ls2 / 65536, ls2 % 65536);
    assert(ms1 == a0 * 65536 + a1) by (nonlinear_arith)
        requires
            a0 == ms1 / 65536,
            a1 == ms1 % 65536,
    ;
    assert(ls1 == a2 * 65536 + a3) by (nonlinear_arith)
        requires
            a2 == ls1 / 65536,
            a3 == ls1 % 65536,
    ;
    assert(ms2 == b0 * 65536 + b1) by (nonlinear_arith)
        requires
            b0 == ms2 / 65536,
            b1 == ms2 % 65536,
    ;
    assert(ls2 == b2 * 65536 + b3) by (nonlinear_arith)
        requires
            b2 == ls2 / 65536,
            b3 == ls2 % 65536,
    ;
    assert(a1 < 65536 && a3 < 65536 && b1 < 65536 && b3 < 65536 && a2 < 65536 && b2 < 65536);
    assert(ms1 < ms2 <==> (a0 < b0 || (a0 == b0 && a1 < b1))) by (nonlinear_arith)
        requires
            ms1 == a0 * 65536 + a1,
            ms2 == b0 * 65536 + b1,
            a1 < 65536,
            b1 < 65536,
            a1 >= 0,
            b1 >= 0,
    ;
    assert(ms1 > ms2 <==> (a0 > b0 || (a0 == b0 && a1 > b1))) by (nonlinear_arith)
        requires
            ms1 == a0 * 65536 + a1,
            ms2 == b0 * 65536 + b1,
            a1 < 65536,
            b1 < 65536,
            a1 >= 0,
            b1 >= 0,
    ;
    assert(ls1 < ls2 <==> (a2 < b2 || (a2 == b2 && a3 < b3))) by (nonlinear_arith)
        requires
            ls1 == a2 * 65536 + a3,
            ls2 == b2 * 65536 + b3,
            a3 < 65536,
            b3 < 65536,
            a3 >= 0,
            b3 >= 0,
    ;
    assert(ls1 > ls2 <==> (a2 > b2 || (a2 == b2 && a3 > b3))) by (nonlinear_arith)
        requires
            ls1 == a2 * 65536 + a3,
            ls2 == b2 * 65536 + b3,
            a3 < 65536,
            b3 < 65536,
            a3 >= 0,
            b3 >= 0,
    ;
    assert(packed_version(ms1, ls1) < packed_version(ms2, ls2) <==> (ms1 < ms2 || (ms1 == ms2 && ls1
        < ls2))) by (nonlinear_arith)
        requires
            ls1 < 4294967296,
            ls2 < 4294967296,
            ls1 >= 0,
            ls2 >= 0,
    ;
    assert(packed_version(ms1, ls1) > packed_version(ms2, ls2) <==> (ms1 > ms2 || (ms1 == ms2 && ls1
        > ls2))) by (nonlinear_arith)
        requires
            ls1 < 4294967296,
            ls2 < 4294967296,
            ls1 >= 0,
            ls2 >= 0,
    ;
}

} // verus!
