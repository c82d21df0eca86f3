//! The end of a Windows path as `std::path` sees it: where its body starts,
//! its last component, `Path::parent` and `Path::with_extension`, computed
//! on the text itself.

use vstd::prelude::*;
use crate::paths::{
    has_physical_root, has_physical_root_exec, has_prefix, has_root, has_root_exec, is_component,
    is_sep_exec, is_sep_of, is_verbatim, is_verbatim_exec, prefix_len, prefix_len_exec,
};
use crate::text::{chars_of, extend, split_any, split_exec, string_from_chars, sub_vec, views_of};

verus! {

/// Whether a relative path without a root starts with a `.` component,
/// which `std::path` keeps as the current directory.
pub open spec fn include_cur_dir(s: Seq<char>) -> bool {
    let t = s.skip(prefix_len(s));
    !has_root(s) && t.len() >= 1 && t[0] == '.' && (t.len() == 1 || is_sep_of(
        t[1],
        is_verbatim(s),
    ))
}

/// Where the body of a path starts: after its prefix, its root separator
/// and a leading `.` component.
pub open spec fn body_start(s: Seq<char>) -> int {
    prefix_len(s) + (if has_physical_root(s) {
        1int
    } else {
        0int
    }) + (if include_cur_dir(s) {
        1int
    } else {
        0int
    })
}

/// The index of the last separator in `s[lo..end)`.
pub open spec fn last_sep(s: Seq<char>, lo: int, end: int, verbatim: bool) -> Option<int>
    decreases end - lo,
{
    if end <= lo {
        None
    } else if is_sep_of(s[end - 1], verbatim) {
        Some(end - 1)
    } else {
        last_sep(s, lo, end - 1, verbatim)
    }
}

/// Where the last piece of `s[lo..end)` starts.
pub open spec fn piece_start(s: Seq<char>, lo: int, end: int, verbatim: bool) -> int {
    match last_sep(s, lo, end, verbatim) {
        Some(i) => i + 1,
        None => lo,
    }
}

/// Where `s[..end)` ends once its last piece and the separator before it are gone.
pub open spec fn piece_cut(s: Seq<char>, lo: int, end: int, verbatim: bool) -> int {
    match last_sep(s, lo, end, verbatim) {
        Some(i) => i,
        None => lo,
    }
}

pub proof fn lemma_last_sep(s: Seq<char>, lo: int, end: int, verbatim: bool)
    ensures
        match last_sep(s, lo, end, verbatim) {
            Some(i) => lo <= i < end && is_sep_of(s[i], verbatim) && forall|j: int|
                i < j < end ==> !is_sep_of(#[trigger] s[j], verbatim),
            None => forall|j: int| lo <= j < end ==> !is_sep_of(#[trigger] s[j], verbatim),
        },
    decreases end - lo,
{
    if end > lo && !is_sep_of(s[end - 1], verbatim) {
        lemma_last_sep(s, lo, end - 1, verbatim);
    }
}

/// The end of `s[..end)` once the trailing pieces that are no components
/// (empty ones, and `.` outside verbatim paths) are dropped, never reaching
/// into the part before the body.
pub open spec fn trimmed_end(s: Seq<char>, end: int) -> int
    decreases end,
{
    let lo = body_start(s);
    let v = is_verbatim(s);
    if end <= lo || lo < 0 {
        end
    } else if is_component(s.subrange(piece_start(s, lo, end, v), end), v) {
        end
    } else {
        proof {
            lemma_last_sep(s, lo, end, v);
        }
        trimmed_end(s, piece_cut(s, lo, end, v))
    }
}

/// `Path::parent`: the path without its last component and the separators
/// before it; `None` for a path that is only a prefix or a root, or empty.
pub open spec fn parent_of(s: Seq<char>) -> Option<Seq<char>> {
    let lo = body_start(s);
    let v = is_verbatim(s);
    let e = trimmed_end(s, s.len() as int);
    if e > lo {
        Some(s.take(trimmed_end(s, piece_cut(s, lo, e, v))))
    } else if !has_prefix(s) && !has_physical_root(s) && include_cur_dir(s) {
        Some(Seq::empty())
    } else {
        None
    }
}

/// Where the file name of a path stands in its text, when it has one.
pub open spec fn file_piece(s: Seq<char>) -> Option<(int, int)> {
    let lo = body_start(s);
    let v = is_verbatim(s);
    let e = trimmed_end(s, s.len() as int);
    let st = piece_start(s, lo, e, v);
    if e > lo && s.subrange(st, e) != seq!['.'] && s.subrange(st, e) != seq!['.', '.'] {
        Some((st, e))
    } else {
        None
    }
}

/// Length of the stem of a file name: all of it when it has no `.` but a
/// leading one, else the text before its last `.`.
pub open spec fn stem_len(n: Seq<char>) -> int {
    let ps = split_any(n, seq!['.']);
    if ps.len() < 2 || (ps.len() == 2 && ps[0].len() == 0) {
        n.len() as int
    } else {
        n.len() - ps.last().len() - 1
    }
}

/// `Path::with_extension`: the path cut right after the stem of its file
/// name, then `.` and the extension (nothing when the extension is empty);
/// unchanged when the path has no file name.
pub open spec fn with_extension_of(s: Seq<char>, ext: Seq<char>) -> Seq<char> {
    match file_piece(s) {
        Some((st, e)) => s.take(st + stem_len(s.subrange(st, e))) + (if ext.len() > 0 {
            seq!['.'] + ext
        } else {
            Seq::empty()
        }),
        None => s,
    }
}

proof fn lemma_body_start(s: Seq<char>)
    ensures
        0 <= prefix_len(s) <= body_start(s) <= s.len(),
{
    crate::paths::lemma_prefix_len_bounds(s);
    if has_physical_root(s) && include_cur_dir(s) {
        assert(!has_root(s));
    }
}

proof fn lemma_trimmed_end(s: Seq<char>, end: int)
    requires
        body_start(s) <= end <= s.len(),
    ensures
        body_start(s) <= trimmed_end(s, end) <= end,
        trimmed_end(s, end) > body_start(s) ==> is_component(
            s.subrange(
                piece_start(s, body_start(s), trimmed_end(s, end), is_verbatim(s)),
                trimmed_end(s, end),
            ),
            is_verbatim(s),
        ),
    decreases end,
{
    lemma_body_start(s);
    let lo = body_start(s);
    let v = is_verbatim(s);
    if end > lo && !is_component(s.subrange(piece_start(s, lo, end, v), end), v) {
        lemma_last_sep(s, lo, end, v);
        lemma_trimmed_end(s, piece_cut(s, lo, end, v));
    }
}

fn include_cur_dir_exec(v: &Vec<char>, p: usize) -> (r: bool)
    requires
        p == prefix_len(v@),
        p <= v.len(),
    ensures
        r == include_cur_dir(v@),
{
    let verbatim = is_verbatim_exec(v);
    let ghost t = v@.skip(p as int);
    if has_root_exec(v, p) {
        return false;
    }
    if p < v.len() && v[p] == '.' {
        assert(t[0] == v@[p as int]);
        if p + 1 == v.len() {
            true
        } else {
            assert(t[1] == v@[p + 1]);
            is_sep_exec(v[p + 1], verbatim)
        }
    } else {
        assert(p < v.len() ==> t[0] == v@[p as int]);
        false
    }
}

/// Where the body of `v` starts.
pub fn body_start_exec(v: &Vec<char>) -> (r: usize)
    ensures
        r == body_start(v@),
        r <= v.len(),
{
    proof {
        lemma_body_start(v@);
    }
    let p = prefix_len_exec(v);
    let root: usize = if has_physical_root_exec(v, p) {
        1
    } else {
        0
    };
    let cur: usize = if include_cur_dir_exec(v, p) {
        1
    } else {
        0
    };
    p + root + cur
}

fn last_sep_exec(v: &Vec<char>, lo: usize, end: usize, verbatim: bool) -> (r: Option<usize>)
    requires
        lo <= end <= v.len(),
    ensures
        match r {
            Some(i) => last_sep(v@, lo as int, end as int, verbatim) == Some(i as int),
            None => last_sep(v@, lo as int, end as int, verbatim) is None,
        },
{
    let mut e = end;
    while e > lo && !is_sep_exec(v[e - 1], verbatim)
        invariant
            lo <= e <= end <= v.len(),
            last_sep(v@, lo as int, end as int, verbatim) == last_sep(
                v@,
                lo as int,
                e as int,
                verbatim,
            ),
        decreases e,
    {
        e -= 1;
    }
    if e > lo {
        Some(e - 1)
    } else {
        None
    }
}

fn is_component_range(v: &Vec<char>, a: usize, b: usize, verbatim: bool) -> (r: bool)
    requires
        a <= b <= v.len(),
    ensures
        r == is_component(v@.subrange(a as int, b as int), verbatim),
{
    let ghost p = v@.subrange(a as int, b as int);
    if b == a {
        return false;
    }
    if verbatim {
        return true;
    }
    let dot = b == a + 1 && v[a] == '.';
    assert(dot ==> p =~= seq!['.']);
    assert(p == seq!['.'] ==> p[0] == v@[a as int]);
    !dot
}

fn trimmed_end_exec(v: &Vec<char>, lo: usize, end: usize) -> (r: usize)
    requires
        lo == body_start(v@),
        lo <= end <= v.len(),
    ensures
        r == trimmed_end(v@, end as int),
        lo <= r <= end,
{
    let verbatim = is_verbatim_exec(v);
    let mut e = end;
    proof {
        lemma_trimmed_end(v@, end as int);
    }
    loop
        invariant
            lo == body_start(v@),
            verbatim == is_verbatim(v@),
            lo <= e <= end <= v.len(),
            trimmed_end(v@, e as int) == trimmed_end(v@, end as int),
        decreases e,
    {
        if e <= lo {
            return e;
        }
        let sep = last_sep_exec(v, lo, e, verbatim);
        proof {
            lemma_last_sep(v@, lo as int, e as int, verbatim);
        }
        let (st, cut) = match sep {
            Some(i) => (i + 1, i),
            None => (lo, lo),
        };
        if is_component_range(v, st, e, verbatim) {
            return e;
        }
        e = cut;
    }
}

/// `Path::parent` of `path`.
pub fn parent(path: &str) -> (r: Option<String>)
    ensures
        match r {
            Some(p) => parent_of(path@) == Some(p@),
            None => parent_of(path@) is None,
        },
{
    let v = chars_of(path);
    let lo = body_start_exec(&v);
    let verbatim = is_verbatim_exec(&v);
    let e = trimmed_end_exec(&v, lo, v.len());
    if e > lo {
        let sep = last_sep_exec(&v, lo, e, verbatim);
        proof {
            lemma_last_sep(v@, lo as int, e as int, verbatim);
        }
        let cut = match sep {
            Some(i) => i,
            None => lo,
        };
        let t = trimmed_end_exec(&v, lo, cut);
        let r = sub_vec(&v, 0, t);
        assert(r@ =~= v@.take(t as int));
        Some(string_from_chars(&r))
    } else {
        let p = prefix_len_exec(&v);
        if p == 0 && !has_physical_root_exec(&v, p) && include_cur_dir_exec(&v, p) {
            let r: Vec<char> = Vec::new();
            assert(r@ =~= Seq::<char>::empty());
            Some(string_from_chars(&r))
        } else {
            None
        }
    }
}

fn stem_len_exec(v: &Vec<char>, a: usize, b: usize) -> (r: usize)
    requires
        a <= b <= v.len(),
    ensures
        r == stem_len(v@.subrange(a as int, b as int)),
        r <= b - a,
{
    let n = sub_vec(v, a, b);
    let dot = vec!['.'];
    assert(dot@ =~= seq!['.']);
    let ps = split_exec(&n, &dot);
    let ghost vs = views_of(ps@);
    proof {
        lemma_split_last(n@, seq!['.']);
    }
    if ps.len() < 2 {
        return n.len();
    }
    assert(vs[0] == ps@[0]@);
    if ps.len() == 2 && ps[0].len() == 0 {
        return n.len();
    }
    assert(vs[vs.len() - 1] == ps@[ps@.len() - 1]@);
    n.len() - ps[ps.len() - 1].len() - 1
}

proof fn lemma_split_last(s: Seq<char>, d: Seq<char>)
    ensures
        split_any(s, d).len() >= 1,
        split_any(s, d).len() >= 2 ==> split_any(s, d).last().len() < s.len(),
        split_any(s, d).last().len() <= s.len(),
    decreases s.len(),
{
    if s.len() > 0 {
        lemma_split_last(s.drop_last(), d);
    }
}

/// `Path::with_extension` of `path` with the extension `ext`.
pub fn with_extension(path: &str, ext: &str) -> (r: String)
    ensures
        r@ == with_extension_of(path@, ext@),
{
    let v = chars_of(path);
    let lo = body_start_exec(&v);
    let verbatim = is_verbatim_exec(&v);
    let e = trimmed_end_exec(&v, lo, v.len());
    let sep = last_sep_exec(&v, lo, e, verbatim);
    proof {
        lemma_last_sep(v@, lo as int, e as int, verbatim);
    }
    let st = match sep {
        Some(i) => i + 1,
        None => lo,
    };
    let ghost piece = v@.subrange(st as int, e as int);
    let one_dot = e > st && e - st == 1 && v[st] == '.';
    let two_dots = e > st && e - st == 2 && v[st] == '.' && v[st + 1] == '.';
    assert(one_dot ==> piece =~= seq!['.']);
    assert(piece == seq!['.'] ==> piece[0] == v@[st as int]);
    assert(two_dots ==> piece =~= seq!['.', '.']);
    assert(piece == seq!['.', '.'] ==> piece[0] == v@[st as int] && piece[1] == v@[st + 1]);
    if e > lo && !one_dot && !two_dots {
        let k = stem_len_exec(&v, st, e);
        let mut r = sub_vec(&v, 0, st + k);
        assert(r@ =~= v@.take(st + k));
        let x = chars_of(ext);
        if x.len() > 0 {
            let ghost before = r@;
            r.push('.');
            extend(&mut r, &x);
            assert(r@ =~= before + (seq!['.'] + ext@));
        } else {
            assert(r@ =~= v@.take(st + k) + Seq::<char>::empty());
        }
        string_from_chars(&r)
    } else {
        string_from_chars(&v)
    }
}

} // verus!
