//! Positional message templates: `{0}`, `{1}`, ... replaced by arguments.

use vstd::prelude::*;
use crate::encoding::{decimal, decimal_chars};
use crate::text::{chars_of, extend, matches_at, matches_at_exec, string_from_chars};

verus! {

/// `str::replace` with a non-empty pattern: every non-overlapping occurrence
/// of `pat`, found from left to right, is replaced by `rep`.
pub open spec fn replace_all(s: Seq<char>, pat: Seq<char>, rep: Seq<char>) -> Seq<char>
    recommends
        pat.len() > 0,
    decreases s.len(),
{
    if pat.len() == 0 || s.len() < pat.len() {
        s
    } else if s.take(pat.len() as int) =~= pat {
        rep + replace_all(s.skip(pat.len() as int), pat, rep)
    } else {
        seq![s[0]] + replace_all(s.drop_first(), pat, rep)
    }
}

/// The placeholder `{i}`.
pub open spec fn placeholder(i: nat) -> Seq<char> {
    seq!['{'] + decimal(i) + seq!['}']
}

/// The template after replacing `{0}` .. `{k-1}`, in that order, by the first `k` arguments.
pub open spec fn fill(template: Seq<char>, args: Seq<Seq<char>>, k: nat) -> Seq<char>
    decreases k,
{
    if k == 0 {
        template
    } else {
        replace_all(fill(template, args, (k - 1) as nat), placeholder((k - 1) as nat), args[k - 1])
    }
}

/// The views of a slice of string slices.
pub open spec fn str_views(args: Seq<&str>) -> Seq<Seq<char>> {
    args.map_values(|a: &str| a@)
}

proof fn lemma_decimal_nonempty(n: nat)
    ensures
        decimal(n).len() > 0,
    decreases n,
{
    if n >= 10 {
        lemma_decimal_nonempty(n / 10);
    }
}

/// `s` with every occurrence of `pat` replaced by `rep`.
pub fn replace_exec(s: &Vec<char>, pat: &Vec<char>, rep: &Vec<char>) -> (r: Vec<char>)
    requires
        pat.len() > 0,
    ensures
        r@ == replace_all(s@, pat@, rep@),
{
    let mut out: Vec<char> = Vec::new();
    let mut i: usize = 0;
    assert(s@.skip(0) =~= s@);
    while i < s.len()
        invariant
            pat.len() > 0,
            i <= s.len(),
            out@ + replace_all(s@.skip(i as int), pat@, rep@) == replace_all(s@, pat@, rep@),
        decreases s.len() - i,
    {
        let ghost rest = s@.skip(i as int);
        if matches_at_exec(s, pat, i) {
            assert(rest.take(pat.len() as int) =~= s@.subrange(i as int, i + pat.len()));
            assert(rest.skip(pat.len() as int) =~= s@.skip(i + pat.len()));
            let ghost before = out@;
            extend(&mut out, rep);
            assert(out@ + replace_all(s@.skip(i + pat.len()), pat@, rep@) =~= before + (rep@
                + replace_all(rest.skip(pat.len() as int), pat@, rep@)));
            i = i + pat.len();
        } else {
            let ghost before = out@;
            out.push(s[i]);
            assert(rest.drop_first() =~= s@.skip(i + 1));
            proof {
                if rest.len() >= pat@.len() {
                    assert(rest.take(pat@.len() as int) =~= s@.subrange(i as int, i + pat@.len()));
                } else {
                    assert(replace_all(rest, pat@, rep@) == rest);
                    assert(replace_all(rest.drop_first(), pat@, rep@) == rest.drop_first());
                }
            }
            assert(out@ + replace_all(s@.skip(i + 1), pat@, rep@) =~= before + (seq![rest[0]]
                + replace_all(rest.drop_first(), pat@, rep@)));
            i = i + 1;
        }
    }
    assert(s@.skip(i as int) =~= Seq::<char>::empty());
    assert(out@ + Seq::<char>::empty() =~= out@);
    out
}

/// The placeholder `{i}` as characters.
pub fn placeholder_chars(i: usize) -> (r: Vec<char>)
    ensures
        r@ == placeholder(i as nat),
{
    let mut r: Vec<char> = Vec::new();
    r.push('{');
    let d = decimal_chars(i as u64);
    extend(&mut r, &d);
    r.push('}');
    assert(r@ =~= placeholder(i as nat));
    r
}

/// Fills a template: `{0}`, `{1}`, ... are replaced in turn by `args[0]`, `args[1]`, ...
/// (each replacement applies to the text produced by the previous ones).
pub fn f(template: &str, args: &[&str]) -> (r: String)
    ensures
        r@ == fill(template@, str_views(args@), args@.len() as nat),
{
    let mut cur = chars_of(template);
    let mut k: usize = 0;
    while k < args.len()
        invariant
            k <= args@.len(),
            cur@ == fill(template@, str_views(args@), k as nat),
        decreases args.len() - k,
    {
        let pat = placeholder_chars(k);
        proof {
            lemma_decimal_nonempty(k as nat);
        }
        let rep = chars_of(args[k]);
        assert(str_views(args@)[k as int] == args@[k as int]@);
        cur = replace_exec(&cur, &pat, &rep);
        k += 1;
    }
    string_from_chars(&cur)
}

/// A template with one argument.
pub fn f1(template: &str, a: &str) -> (r: String)
    ensures
        r@ == fill(template@, seq![a@], 1),
{
    let args: [&str; 1] = [a];
    assert(str_views(args@) =~= seq![a@]);
    f(template, &args)
}

/// A template with two arguments.
pub fn f2(template: &str, a: &str, b: &str) -> (r: String)
    ensures
        r@ == fill(template@, seq![a@, b@], 2),
{
    let args: [&str; 2] = [a, b];
    assert(str_views(args@) =~= seq![a@, b@]);
    f(template, &args)
}

} // verus!
