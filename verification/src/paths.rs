//! Windows paths as text: prefixes (`C:`, `\\server\share`, `\\?\...`,
//! `\\.\...`), roots, components, joining and file names, following the rules
//! of `std::path` on Windows, and the paths this program derives from them.

use vstd::prelude::*;
use crate::text::{
    chars_eq, chars_of, eq_ignore_ascii_case, extend, extend_range, lowercased,
    range_eq_ignore_ascii_case, split_any, split_exec, starts_with, string_from_chars, sub_vec,
    to_lowercase, views_of,
};

verus! {

// ==================== characters ====================

/// A path separator (`\` or `/`; verbatim paths only take `\`).
pub open spec fn is_sep_of(c: char, verbatim: bool) -> bool {
    c == '\\' || (!verbatim && c == '/')
}

pub open spec fn is_sep(c: char) -> bool {
    is_sep_of(c, false)
}

pub open spec fn is_ascii_alpha(c: char) -> bool {
    ('a' <= c <= 'z') || ('A' <= c <= 'Z')
}

pub(crate) fn is_sep_exec(c: char, verbatim: bool) -> (r: bool)
    ensures
        r == is_sep_of(c, verbatim),
{
    c == '\\' || (!verbatim && c == '/')
}

fn is_alpha_exec(c: char) -> (r: bool)
    ensures
        r == is_ascii_alpha(c),
{
    ('a' <= c && c <= 'z') || ('A' <= c && c <= 'Z')
}

// ==================== prefixes ====================

/// Length of the leading component of `s`: the characters before the first separator.
pub open spec fn comp_len(s: Seq<char>, verbatim: bool) -> int
    decreases s.len(),
{
    if s.len() == 0 || is_sep_of(s[0], verbatim) {
        0
    } else {
        1 + comp_len(s.drop_first(), verbatim)
    }
}

proof fn lemma_comp_len(s: Seq<char>, verbatim: bool)
    ensures
        0 <= comp_len(s, verbatim) <= s.len(),
        forall|j: int| 0 <= j < comp_len(s, verbatim) ==> !is_sep_of(#[trigger] s[j], verbatim),
        comp_len(s, verbatim) < s.len() ==> is_sep_of(s[comp_len(s, verbatim)], verbatim),
    decreases s.len(),
{
    if s.len() > 0 && !is_sep_of(s[0], verbatim) {
        lemma_comp_len(s.drop_first(), verbatim);
        assert forall|j: int| 0 <= j < comp_len(s, verbatim) implies !is_sep_of(
            #[trigger] s[j],
            verbatim,
        ) by {
            if j > 0 {
                assert(s[j] == s.drop_first()[j - 1]);
            }
        }
    }
}

/// Whether `s` starts with the verbatim marker `\\?\`.
pub open spec fn is_verbatim(s: Seq<char>) -> bool {
    s.len() >= 4 && s[0] == '\\' && s[1] == '\\' && s[2] == '?' && s[3] == '\\'
}

/// Whether `s` starts with a drive, `X:`.
pub open spec fn is_drive(s: Seq<char>) -> bool {
    s.len() >= 2 && is_ascii_alpha(s[0]) && s[1] == ':'
}

/// Length of two components `a\b` at the start of `s` (as the prefix
/// counts them: the second and its separator only when not empty).
pub open spec fn two_comps_len(s: Seq<char>, verbatim: bool) -> int {
    let a = comp_len(s, verbatim);
    if a < s.len() {
        let b = comp_len(s.skip(a + 1), verbatim);
        a + (if b > 0 {
            1 + b
        } else {
            0
        })
    } else {
        a
    }
}

/// Length of the Windows path prefix of `s` (0 when it has none):
/// `\\?\UNC\server\share`, `\\?\C:`, `\\?\name`, `\\.\device`,
/// `\\server\share` (both parts non-empty), or `C:`.
pub open spec fn prefix_len(s: Seq<char>) -> int {
    if s.len() >= 2 && is_sep(s[0]) && is_sep(s[1]) {
        if is_verbatim(s) {
            let t = s.skip(4);
            if t.len() >= 4 && t[0] == 'U' && t[1] == 'N' && t[2] == 'C' && is_sep(t[3]) {
                8 + two_comps_len(s.skip(8), true)
            } else if t.len() >= 3 && is_ascii_alpha(t[0]) && t[1] == ':' && t[2] == '\\' {
                6
            } else {
                4 + comp_len(t, true)
            }
        } else if s.len() >= 4 && s[2] == '.' && is_sep(s[3]) {
            4 + comp_len(s.skip(4), false)
        } else {
            let u = s.skip(2);
            let a = comp_len(u, false);
            if a > 0 && a < u.len() && comp_len(u.skip(a + 1), false) > 0 {
                2 + a + 1 + comp_len(u.skip(a + 1), false)
            } else {
                0
            }
        }
    } else if is_drive(s) {
        2
    } else {
        0
    }
}

pub open spec fn has_prefix(s: Seq<char>) -> bool {
    prefix_len(s) > 0
}

/// A separator right after the prefix.
pub open spec fn has_physical_root(s: Seq<char>) -> bool {
    prefix_len(s) < s.len() && is_sep(s[prefix_len(s)])
}

/// Whether the path has a root: a separator after its prefix, or a prefix
/// other than a drive (which brings a root with it).
pub open spec fn has_root(s: Seq<char>) -> bool {
    has_physical_root(s) || (has_prefix(s) && !is_drive(s))
}

/// `Path::is_absolute` on Windows: a prefix and a root.
pub open spec fn is_absolute(s: Seq<char>) -> bool {
    has_prefix(s) && has_root(s)
}

pub(crate) proof fn lemma_prefix_len_bounds(s: Seq<char>)
    ensures
        0 <= prefix_len(s) <= s.len(),
{
    lemma_comp_len(s.skip(4), true);
    lemma_comp_len(s.skip(4), false);
    lemma_comp_len(s.skip(2), false);
    lemma_comp_len(s.skip(8), true);
    let u = s.skip(2);
    let a = comp_len(u, false);
    if 0 <= a < u.len() {
        lemma_comp_len(u.skip(a + 1), false);
    }
    let w = s.skip(8);
    let b = comp_len(w, true);
    if 0 <= b < w.len() {
        lemma_comp_len(w.skip(b + 1), true);
    }
}

fn comp_len_exec(v: &Vec<char>, from: usize, verbatim: bool) -> (r: usize)
    requires
        from <= v.len(),
    ensures
        from + r <= v.len(),
        r == comp_len(v@.skip(from as int), verbatim),
{
    let mut i = from;
    while i < v.len() && !is_sep_exec(v[i], verbatim)
        invariant
            from <= i <= v.len(),
            comp_len(v@.skip(from as int), verbatim) == (i - from) + comp_len(
                v@.skip(i as int),
                verbatim,
            ),
        decreases v.len() - i,
    {
        assert(v@.skip(i as int).drop_first() =~= v@.skip(i + 1));
        i += 1;
    }
    i - from
}

fn two_comps_len_exec(v: &Vec<char>, from: usize, verbatim: bool) -> (r: usize)
    requires
        from <= v.len(),
    ensures
        from + r <= v.len(),
        r == two_comps_len(v@.skip(from as int), verbatim),
{
    let a = comp_len_exec(v, from, verbatim);
    if from + a < v.len() {
        let b = comp_len_exec(v, from + a + 1, verbatim);
        assert(v@.skip(from as int).skip(a + 1) =~= v@.skip(from + a + 1));
        if b > 0 {
            a + 1 + b
        } else {
            a
        }
    } else {
        a
    }
}

/// Length of the Windows prefix of `v`.
pub fn prefix_len_exec(v: &Vec<char>) -> (r: usize)
    ensures
        r == prefix_len(v@),
        r <= v.len(),
{
    proof {
        lemma_prefix_len_bounds(v@);
    }
    let n = v.len();
    if n >= 2 && is_sep_exec(v[0], false) && is_sep_exec(v[1], false) {
        if n >= 4 && v[0] == '\\' && v[1] == '\\' && v[2] == '?' && v[3] == '\\' {
            let ghost t = v@.skip(4);
            if n >= 8 && v[4] == 'U' && v[5] == 'N' && v[6] == 'C' && is_sep_exec(v[7], false) {
                assert(v@.skip(8) =~= v@.skip(8));
                8 + two_comps_len_exec(v, 8, true)
            } else if n >= 7 && is_alpha_exec(v[4]) && v[5] == ':' && v[6] == '\\' {
                6
            } else {
                4 + comp_len_exec(v, 4, true)
            }
        } else if n >= 4 && v[2] == '.' && is_sep_exec(v[3], false) {
            4 + comp_len_exec(v, 4, false)
        } else {
            let a = comp_len_exec(v, 2, false);
            if a > 0 && 2 + a < n {
                let b = comp_len_exec(v, 2 + a + 1, false);
                assert(v@.skip(2).skip(a + 1) =~= v@.skip(2 + a + 1));
                if b > 0 {
                    2 + a + 1 + b
                } else {
                    0
                }
            } else {
                0
            }
        }
    } else if n >= 2 && is_alpha_exec(v[0]) && v[1] == ':' {
        2
    } else {
        0
    }
}

pub(crate) fn is_verbatim_exec(v: &Vec<char>) -> (r: bool)
    ensures
        r == is_verbatim(v@),
{
    v.len() >= 4 && v[0] == '\\' && v[1] == '\\' && v[2] == '?' && v[3] == '\\'
}

fn is_drive_exec(v: &Vec<char>) -> (r: bool)
    ensures
        r == is_drive(v@),
{
    v.len() >= 2 && is_alpha_exec(v[0]) && v[1] == ':'
}

pub(crate) fn has_physical_root_exec(v: &Vec<char>, p: usize) -> (r: bool)
    requires
        p == prefix_len(v@),
    ensures
        r == has_physical_root(v@),
{
    p < v.len() && is_sep_exec(v[p], false)
}

pub(crate) fn has_root_exec(v: &Vec<char>, p: usize) -> (r: bool)
    requires
        p == prefix_len(v@),
    ensures
        r == has_root(v@),
{
    has_physical_root_exec(v, p) || (p > 0 && !is_drive_exec(v))
}

// ==================== components ====================

/// The text after the prefix and its root separator.
pub open spec fn body_of(s: Seq<char>) -> Seq<char> {
    s.skip(prefix_len(s) + (if has_physical_root(s) {
        1int
    } else {
        0int
    }))
}

/// Whether a piece between separators is a component: not empty, and not
/// `.` outside verbatim paths (where `.` is normalized away).
pub open spec fn is_component(p: Seq<char>, verbatim: bool) -> bool {
    p.len() > 0 && (verbatim || p != seq!['.'])
}

/// The components of a body: its pieces between separators that are components.
pub open spec fn comps_of_pieces(ps: Seq<Seq<char>>, verbatim: bool) -> Seq<Seq<char>>
    decreases ps.len(),
{
    if ps.len() == 0 {
        Seq::empty()
    } else {
        let r = comps_of_pieces(ps.drop_last(), verbatim);
        if is_component(ps.last(), verbatim) {
            r.push(ps.last())
        } else {
            r
        }
    }
}

/// The separators of a path's body.
pub open spec fn seps_of(verbatim: bool) -> Seq<char> {
    if verbatim {
        seq!['\\']
    } else {
        seq!['\\', '/']
    }
}

/// The components after prefix and root (`.` kept only in verbatim paths,
/// `..` always kept).
pub open spec fn components_of(s: Seq<char>) -> Seq<Seq<char>> {
    comps_of_pieces(split_any(body_of(s), seps_of(is_verbatim(s))), is_verbatim(s))
}

/// `Path::file_name`: the last component when it is an ordinary name (not
/// `.` or `..`).
pub open spec fn file_name_of(s: Seq<char>) -> Option<Seq<char>> {
    let cs = components_of(s);
    if cs.len() == 0 || cs.last() == seq!['.'] || cs.last() == seq!['.', '.'] {
        None
    } else {
        Some(cs.last())
    }
}

fn seps_exec(verbatim: bool) -> (r: Vec<char>)
    ensures
        r@ == seps_of(verbatim),
{
    let mut r = Vec::new();
    r.push('\\');
    if !verbatim {
        r.push('/');
    }
    assert(r@ =~= seps_of(verbatim));
    r
}

fn is_dot(v: &Vec<char>) -> (r: bool)
    ensures
        r == (v@ == seq!['.']),
{
    let r = v.len() == 1 && v[0] == '.';
    assert(r ==> v@ =~= seq!['.']);
    assert(v@ == seq!['.'] ==> v@[0] == '.');
    r
}

fn is_dot_dot(v: &Vec<char>) -> (r: bool)
    ensures
        r == (v@ == seq!['.', '.']),
{
    let r = v.len() == 2 && v[0] == '.' && v[1] == '.';
    assert(r ==> v@ =~= seq!['.', '.']);
    assert(v@ == seq!['.', '.'] ==> v@[0] == '.' && v@[1] == '.');
    r
}

/// The components of `v`.
pub fn components_exec(v: &Vec<char>) -> (r: Vec<Vec<char>>)
    ensures
        views_of(r@) == components_of(v@),
{
    let p = prefix_len_exec(v);
    let root = has_physical_root_exec(v, p);
    let start = if root {
        p + 1
    } else {
        p
    };
    let verbatim = is_verbatim_exec(v);
    let body = sub_vec(v, start, v.len());
    assert(body@ =~= body_of(v@));
    let pieces = split_exec(&body, &seps_exec(verbatim));
    let ghost ps = views_of(pieces@);
    let mut r: Vec<Vec<char>> = Vec::new();
    let mut i: usize = 0;
    assert(ps.take(0) =~= Seq::<Seq<char>>::empty());
    assert(views_of(r@) =~= Seq::<Seq<char>>::empty());
    while i < pieces.len()
        invariant
            i <= pieces.len(),
            ps == views_of(pieces@),
            ps.len() == pieces@.len(),
            views_of(r@) == comps_of_pieces(ps.take(i as int), verbatim),
        decreases pieces.len() - i,
    {
        let piece = &pieces[i];
        assert(ps[i as int] == piece@);
        assert(ps.take(i + 1).drop_last() =~= ps.take(i as int));
        if piece.len() > 0 && (verbatim || !is_dot(piece)) {
            let ghost before = views_of(r@);
            r.push(sub_vec(piece, 0, piece.len()));
            assert(piece@.subrange(0, piece@.len() as int) =~= piece@);
            assert(views_of(r@) =~= before.push(piece@));
        }
        i += 1;
    }
    assert(ps.take(pieces.len() as int) =~= ps);
    r
}

/// The file name of `v`, if it has one.
pub fn file_name_exec(v: &Vec<char>) -> (r: Option<Vec<char>>)
    ensures
        match r {
            Some(n) => file_name_of(v@) == Some(n@),
            None => file_name_of(v@) is None,
        },
{
    let cs = components_exec(v);
    if cs.len() == 0 {
        return None;
    }
    let last = &cs[cs.len() - 1];
    assert(views_of(cs@)[cs@.len() - 1] == last@);
    if is_dot(last) || is_dot_dot(last) {
        return None;
    }
    Some(sub_vec(last, 0, last.len()))
}

// ==================== joining ====================

/// Applies components pushed onto a verbatim path: `..` removes a preceding
/// ordinary component (if any), everything else is appended.
pub open spec fn apply_comps(base: Seq<Seq<char>>, cs: Seq<Seq<char>>) -> Seq<Seq<char>>
    decreases cs.len(),
{
    if cs.len() == 0 {
        base
    } else {
        let b1 = if cs[0] == seq!['.', '.'] {
            if base.len() > 0 && base.last() != seq!['.'] && base.last() != seq!['.', '.'] {
                base.drop_last()
            } else {
                base
            }
        } else {
            base.push(cs[0])
        };
        apply_comps(b1, cs.drop_first())
    }
}

/// The separator-joined components.
pub open spec fn join_comps(cs: Seq<Seq<char>>) -> Seq<char> {
    crate::text::join(cs, seq!['\\'])
}

/// `PathBuf::push` of a path without prefix onto a verbatim path: the path is
/// rebuilt from the prefix, the root and the components, normalized.
pub open spec fn verbatim_join(base: Seq<char>, other: Seq<char>) -> Seq<char> {
    let root = has_physical_root(base) || has_physical_root(other);
    let start = if has_physical_root(other) {
        Seq::<Seq<char>>::empty()
    } else {
        components_of(base)
    };
    let cs = apply_comps(start, components_of(other));
    let pre = base.take(prefix_len(base));
    if root {
        pre + seq!['\\'] + join_comps(cs)
    } else if cs.len() == 0 {
        pre
    } else {
        pre + seq!['\\'] + join_comps(cs)
    }
}

/// `Path::join` on Windows: an absolute or prefixed path replaces the base; a
/// relative path pushed onto a verbatim base is normalized into it; a rooted
/// path keeps only the base's prefix; a relative path is appended after a `\`
/// unless the base is empty, ends in a separator, or is a bare drive `X:`.
pub open spec fn join_of(base: Seq<char>, other: Seq<char>) -> Seq<char> {
    let need_sep = base.len() > 0 && !is_sep(base.last()) && !(prefix_len(base) == base.len()
        && is_drive(base) && prefix_len(base) > 0);
    if is_absolute(other) || has_prefix(other) {
        other
    } else if is_verbatim(base) && other.len() > 0 {
        verbatim_join(base, other)
    } else if has_root(other) {
        base.take(prefix_len(base)) + other
    } else if need_sep {
        base + seq!['\\'] + other
    } else {
        base + other
    }
}

fn join_comps_exec(cs: &Vec<Vec<char>>) -> (r: Vec<char>)
    ensures
        r@ == join_comps(views_of(cs@)),
{
    let sep = vec!['\\'];
    assert(sep@ =~= seq!['\\']);
    crate::text::join_exec(cs, &sep)
}

fn verbatim_join_exec(b: &Vec<char>, o: &Vec<char>) -> (r: Vec<char>)
    ensures
        r@ == verbatim_join(b@, o@),
{
    let pb = prefix_len_exec(b);
    let po = prefix_len_exec(o);
    let o_root = has_physical_root_exec(o, po);
    let root = has_physical_root_exec(b, pb) || o_root;
    let mut cs: Vec<Vec<char>> = if o_root {
        Vec::new()
    } else {
        components_exec(b)
    };
    assert(views_of(cs@) == (if has_physical_root(o@) {
        Seq::<Seq<char>>::empty()
    } else {
        components_of(b@)
    })) by {
        if o_root {
            assert(views_of(cs@) =~= Seq::<Seq<char>>::empty());
        }
    }
    let oc = components_exec(o);
    let ghost ocs = views_of(oc@);
    let mut i: usize = 0;
    assert(ocs.skip(0) =~= ocs);
    while i < oc.len()
        invariant
            i <= oc.len(),
            ocs == views_of(oc@),
            ocs.len() == oc@.len(),
            apply_comps(views_of(cs@), ocs.skip(i as int)) == apply_comps(
                (if has_physical_root(o@) {
                    Seq::<Seq<char>>::empty()
                } else {
                    components_of(b@)
                }),
                ocs,
            ),
        decreases oc.len() - i,
    {
        let c = &oc[i];
        assert(ocs[i as int] == c@);
        assert(ocs.skip(i as int).drop_first() =~= ocs.skip(i + 1));
        assert(ocs.skip(i as int)[0] == c@);
        let ghost before = views_of(cs@);
        if is_dot_dot(c) {
            if cs.len() > 0 {
                let n = cs.len();
                assert(before.last() == cs@[n - 1]@);
                if !is_dot(&cs[n - 1]) && !is_dot_dot(&cs[n - 1]) {
                    cs.pop();
                    assert(views_of(cs@) =~= before.drop_last());
                }
            }
        } else {
            cs.push(sub_vec(c, 0, c.len()));
            assert(c@.subrange(0, c@.len() as int) =~= c@);
            assert(views_of(cs@) =~= before.push(c@));
        }
        i += 1;
    }
    assert(ocs.skip(oc.len() as int) =~= Seq::<Seq<char>>::empty());
    let mut r = sub_vec(b, 0, pb);
    assert(b@.subrange(0, pb as int) =~= b@.take(pb as int));
    if root || cs.len() > 0 {
        r.push('\\');
        let j = join_comps_exec(&cs);
        extend(&mut r, &j);
    }
    r
}

/// `base.join(other)` with Windows path rules.
pub fn join_exec(b: &Vec<char>, o: &Vec<char>) -> (r: Vec<char>)
    ensures
        r@ == join_of(b@, o@),
{
    let pb = prefix_len_exec(b);
    let po = prefix_len_exec(o);
    let need_sep = b.len() > 0 && !is_sep_exec(b[b.len() - 1], false) && !(pb == b.len()
        && is_drive_exec(b) && pb > 0);
    if po > 0 {
        return sub_vec(o, 0, o.len());
    }
    if is_verbatim_exec(b) && o.len() > 0 {
        return verbatim_join_exec(b, o);
    }
    if has_root_exec(o, po) {
        let mut r = sub_vec(b, 0, pb);
        assert(b@.subrange(0, pb as int) =~= b@.take(pb as int));
        extend(&mut r, o);
        return r;
    }
    let mut r = sub_vec(b, 0, b.len());
    assert(b@.subrange(0, b@.len() as int) =~= b@);
    if need_sep {
        r.push('\\');
    }
    extend(&mut r, o);
    r
}

/// `Path::new(base).join(other)` rendered as text.
pub fn path_join(base: &str, other: &str) -> (r: String)
    ensures
        r@ == join_of(base@, other@),
{
    string_from_chars(&join_exec(&chars_of(base), &chars_of(other)))
}


// ==================== names ====================

/// `Path::file_stem`: the file name without its extension (the text before
/// its last `.`, unless the only `.` leads the name or there is none).
pub open spec fn file_stem_of(s: Seq<char>) -> Option<Seq<char>> {
    match file_name_of(s) {
        None => None,
        Some(n) => {
            let ps = split_any(n, seq!['.']);
            if ps.len() < 2 || (ps.len() == 2 && ps[0].len() == 0) {
                Some(n)
            } else {
                Some(n.take(n.len() - ps.last().len() - 1))
            }
        },
    }
}

proof fn lemma_split_last_len(s: Seq<char>, d: Seq<char>)
    ensures
        split_any(s, d).len() >= 1,
        split_any(s, d).last().len() <= s.len(),
        split_any(s, d).len() >= 2 ==> split_any(s, d).last().len() < s.len(),
    decreases s.len(),
{
    if s.len() > 0 {
        lemma_split_last_len(s.drop_last(), d);
    }
}

/// The file stem of `v`, if it has a file name.
pub fn file_stem_exec(v: &Vec<char>) -> (r: Option<Vec<char>>)
    ensures
        match r {
            Some(n) => file_stem_of(v@) == Some(n@),
            None => file_stem_of(v@) is None,
        },
{
    let n = match file_name_exec(v) {
        None => {
            return None;
        },
        Some(n) => n,
    };
    let dot = vec!['.'];
    assert(dot@ =~= seq!['.']);
    let ps = split_exec(&n, &dot);
    let ghost vs = views_of(ps@);
    proof {
        lemma_split_last_len(n@, seq!['.']);
    }
    if ps.len() < 2 {
        return Some(n);
    }
    assert(vs[0] == ps@[0]@);
    if ps.len() == 2 && ps[0].len() == 0 {
        return Some(n);
    }
    let last_len = ps[ps.len() - 1].len();
    assert(vs[vs.len() - 1] == ps@[ps@.len() - 1]@);
    let r = sub_vec(&n, 0, n.len() - last_len - 1);
    assert(n@.subrange(0, n.len() - last_len - 1) =~= n@.take(n.len() - last_len - 1));
    Some(r)
}

/// Drops every leading and trailing `"` (`str::trim_matches('"')`).
pub open spec fn strip_quotes_of(s: Seq<char>) -> Seq<char>
    decreases s.len(),
{
    if s.len() > 0 && s[0] == '"' {
        strip_quotes_of(s.drop_first())
    } else if s.len() > 0 && s.last() == '"' {
        strip_quotes_of(s.drop_last())
    } else {
        s
    }
}

/// A path with the quotes around it removed.
pub fn strip_quotes(s: &str) -> (r: String)
    ensures
        r@ == strip_quotes_of(s@),
{
    let v = chars_of(s);
    let mut a: usize = 0;
    let mut b: usize = v.len();
    assert(v@.subrange(0, v@.len() as int) =~= v@);
    while a < b && (v[a] == '"' || v[b - 1] == '"')
        invariant
            a <= b <= v.len(),
            strip_quotes_of(v@) == strip_quotes_of(v@.subrange(a as int, b as int)),
        decreases b - a,
    {
        let ghost t = v@.subrange(a as int, b as int);
        if v[a] == '"' {
            assert(t[0] == v@[a as int]);
            assert(t.drop_first() =~= v@.subrange(a + 1, b as int));
            a += 1;
        } else {
            assert(t[0] == v@[a as int]);
            assert(t.last() == v@[b - 1]);
            assert(t.drop_last() =~= v@.subrange(a as int, b - 1));
            b -= 1;
        }
    }
    assert(v@.subrange(0, v@.len() as int) =~= v@);
    string_from_chars(&sub_vec(&v, a, b))
}

/// Removes the `\\?\` verbatim marker that canonicalizing adds to a path.
pub open spec fn strip_verbatim_prefix_of(s: Seq<char>) -> Seq<char> {
    if starts_with(s, seq!['\\', '\\', '?', '\\']) {
        s.skip(4)
    } else {
        s
    }
}

/// The path without a leading `\\?\`.
pub fn strip_verbatim_prefix(path: &str) -> (r: String)
    ensures
        r@ == strip_verbatim_prefix_of(path@),
{
    let v = chars_of(path);
    if is_verbatim_exec(&v) {
        assert(v@.take(4) =~= seq!['\\', '\\', '?', '\\']);
        assert(v@.subrange(4, v@.len() as int) =~= v@.skip(4));
        string_from_chars(&sub_vec(&v, 4, v.len()))
    } else {
        assert(!starts_with(v@, seq!['\\', '\\', '?', '\\'])) by {
            if starts_with(v@, seq!['\\', '\\', '?', '\\']) {
                assert(v@.take(4)[0] == v@[0]);
                assert(v@.take(4)[1] == v@[1]);
                assert(v@.take(4)[2] == v@[2]);
                assert(v@.take(4)[3] == v@[3]);
            }
        }
        string_from_chars(&v)
    }
}

// ==================== the program's directories ====================

/// The system drive's root: `SystemDrive` with a `\` added when missing, or `C:\`.
pub open spec fn drive_root_of(system_drive: Option<Seq<char>>) -> Seq<char> {
    match system_drive {
        Some(d) => if d.len() > 0 && d.last() == '\\' {
            d
        } else {
            d + seq!['\\']
        },
        None => "C:\\"@,
    }
}

/// `<root>\ProgramData\Silanes`.
pub open spec fn silanes_dir_of(system_drive: Option<Seq<char>>) -> Seq<char> {
    join_of(join_of(drive_root_of(system_drive), "ProgramData"@), "Silanes"@)
}

/// Where deployed services live: `<root>\ProgramData\Silanes\svcs`.
pub open spec fn registry_dir_of(system_drive: Option<Seq<char>>) -> Seq<char> {
    join_of(silanes_dir_of(system_drive), "svcs"@)
}

/// Where the updater logs: `updater` beside `svcs`.
pub open spec fn updater_log_dir_of(system_drive: Option<Seq<char>>) -> Seq<char> {
    join_of(silanes_dir_of(system_drive), "updater"@)
}

fn drive_root(system_drive: Option<&str>) -> (r: Vec<char>)
    ensures
        r@ == drive_root_of(
            match system_drive {
                Some(d) => Some(d@),
                None => None,
            },
        ),
{
    match system_drive {
        Some(d) => {
            let mut v = chars_of(d);
            if v.len() > 0 && v[v.len() - 1] == '\\' {
                v
            } else {
                v.push('\\');
                v
            }
        },
        None => chars_of("C:\\"),
    }
}

fn silanes_dir(system_drive: Option<&str>) -> (r: Vec<char>)
    ensures
        r@ == silanes_dir_of(
            match system_drive {
                Some(d) => Some(d@),
                None => None,
            },
        ),
{
    let root = drive_root(system_drive);
    let pd = join_exec(&root, &chars_of("ProgramData"));
    join_exec(&pd, &chars_of("Silanes"))
}

/// The directory of deployed services, from the `SystemDrive` variable.
pub fn registry_dir(system_drive: Option<&str>) -> (r: String)
    ensures
        r@ == registry_dir_of(
            match system_drive {
                Some(d) => Some(d@),
                None => None,
            },
        ),
{
    string_from_chars(&join_exec(&silanes_dir(system_drive), &chars_of("svcs")))
}

/// The updater's log directory, beside `svcs` (the parent of the services
/// directory is `<root>\ProgramData\Silanes`).
pub fn updater_log_dir(system_drive: Option<&str>) -> (r: String)
    ensures
        r@ == updater_log_dir_of(
            match system_drive {
                Some(d) => Some(d@),
                None => None,
            },
        ),
{
    string_from_chars(&join_exec(&silanes_dir(system_drive), &chars_of("updater")))
}

/// A service's deployment directory: its name under the services directory.
pub fn base_dir(registry_dir: &str, svc_name: &str) -> (r: String)
    ensures
        r@ == join_of(registry_dir@, svc_name@),
{
    path_join(registry_dir, svc_name)
}

/// The name a host registers with the service manager: the reserved updater
/// name in updater mode, otherwise the host executable's file stem
/// (`silanes64` when it has none).
pub open spec fn scm_svc_name_of(updater: bool, own_exe: Seq<char>) -> Seq<char> {
    if updater {
        crate::names::updater_service_name()
    } else {
        match file_stem_of(own_exe) {
            Some(s) => s,
            None => "silanes64"@,
        }
    }
}

/// The service name to dispatch under.
pub fn scm_svc_name(updater: bool, own_exe: &str) -> (r: String)
    ensures
        r@ == scm_svc_name_of(updater, own_exe@),
{
    if updater {
        crate::names::updater_name().to_owned()
    } else {
        match file_stem_exec(&chars_of(own_exe)) {
            Some(s) => string_from_chars(&s),
            None => "silanes64".to_owned(),
        }
    }
}

/// Whether an image path lies in the services directory (case-insensitively
/// after `str::to_lowercase`, quotes removed).
pub open spec fn under_registry(path: Seq<char>, registry_dir: Seq<char>) -> bool {
    starts_with(lowercased(path), lowercased(registry_dir + seq!['\\']))
}

fn under_registry_exec(path: &str, registry_dir: &str) -> (r: bool)
    ensures
        r == under_registry(path@, registry_dir@),
{
    let mut pre = chars_of(registry_dir);
    pre.push('\\');
    assert(pre@ =~= registry_dir@ + seq!['\\']);
    let pre_s = string_from_chars(&pre);
    let lp = to_lowercase(path);
    let lpre = to_lowercase(pre_s.as_str());
    crate::text::starts_with_exec(&chars_of(lp.as_str()), &chars_of(lpre.as_str()))
}

/// Whether a service is a platform deployment: its image path (`None` when
/// the registry holds none) lies in the services directory.
pub open spec fn is_silanes_deployed_of(image: Option<Seq<char>>, registry_dir: Seq<char>) -> bool {
    match image {
        None => false,
        Some(i) => under_registry(strip_quotes_of(i), registry_dir),
    }
}

/// Whether the service with this image path is deployed by this platform.
pub fn is_silanes_deployed(image: Option<&str>, registry_dir: &str) -> (r: bool)
    ensures
        r == is_silanes_deployed_of(
            match image {
                Some(i) => Some(i@),
                None => None,
            },
            registry_dir@,
        ),
{
    match image {
        None => false,
        Some(i) => {
            let t = strip_quotes(i);
            under_registry_exec(t.as_str(), registry_dir)
        },
    }
}

/// Whether a service is registered in place: its image (quotes removed) is a
/// file named `silanes64.exe` (any ASCII case) whose full path (`full_path`,
/// the absolute form of the unquoted image when it could be made; the
/// unquoted image otherwise) is not in the services directory.
pub open spec fn is_inplace_service_of(
    image: Option<Seq<char>>,
    registry_dir: Seq<char>,
    full_path: Option<Seq<char>>,
) -> bool {
    match image {
        None => false,
        Some(i) => {
            let t = strip_quotes_of(i);
            match file_name_of(t) {
                Some(n) => eq_ignore_ascii_case(n, "silanes64.exe"@) && !under_registry(
                    match full_path {
                        Some(f) => f,
                        None => t,
                    },
                    registry_dir,
                ),
                None => false,
            }
        },
    }
}

/// Whether the service with this image path is an in-place registration.
pub fn is_inplace_service(image: Option<&str>, registry_dir: &str, full_path: Option<&str>) -> (r: bool)
    ensures
        r == is_inplace_service_of(
            match image {
                Some(i) => Some(i@),
                None => None,
            },
            registry_dir@,
            match full_path {
                Some(f) => Some(f@),
                None => None,
            },
        ),
{
    let i = match image {
        None => {
            return false;
        },
        Some(i) => i,
    };
    let t = strip_quotes(i);
    let tv = chars_of(t.as_str());
    let n = match file_name_exec(&tv) {
        None => {
            return false;
        },
        Some(n) => n,
    };
    let host = chars_of("silanes64.exe");
    let is_host = range_eq_ignore_ascii_case(&n, 0, n.len(), &host);
    assert(n@.subrange(0, n@.len() as int) =~= n@);
    if !is_host {
        return false;
    }
    let c = match full_path {
        Some(f) => f,
        None => t.as_str(),
    };
    !under_registry_exec(c, registry_dir)
}

// ==================== resolving configured paths ====================

/// Whether a configured path is taken as is: absolute, or starting with `\`.
pub open spec fn is_rooted_of(p: Seq<char>) -> bool {
    is_absolute(p) || (p.len() > 0 && p[0] == '\\')
}

pub(crate) fn is_rooted(v: &Vec<char>) -> (r: bool)
    ensures
        r == is_rooted_of(v@),
{
    let p = prefix_len_exec(v);
    (p > 0 && has_root_exec(v, p)) || (v.len() > 0 && v[0] == '\\')
}

/// Where a download goes: `download_to` when set and not blank (as is when
/// rooted, else joined to the deployment directory); otherwise the file name
/// of `service_executable_path` (`app.exe` when it has none) in the
/// deployment directory.
pub open spec fn download_target_of(
    download_to: Option<Seq<char>>,
    exe_path: Seq<char>,
    deploy_dir: Seq<char>,
) -> Seq<char> {
    match download_to {
        Some(to) if crate::text::trim(to).len() > 0 => if is_rooted_of(to) {
            to
        } else {
            join_of(deploy_dir, to)
        },
        _ => join_of(
            deploy_dir,
            match file_name_of(exe_path) {
                Some(n) => n,
                None => "app.exe"@,
            },
        ),
    }
}

/// The local path that a configured download is written to.
pub fn resolve_download_target(config: &crate::config::ServiceConfig, deploy_dir: &str) -> (r: String)
    ensures
        r@ == download_target_of(
            crate::config::opt_view(config.download_to),
            config.service_executable_path@,
            deploy_dir@,
        ),
{
    let d = chars_of(deploy_dir);
    match &config.download_to {
        Some(to) => {
            if !crate::config::is_blank(to.as_str()) {
                let tv = chars_of(to.as_str());
                if is_rooted(&tv) {
                    return string_from_chars(&tv);
                }
                return string_from_chars(&join_exec(&d, &tv));
            }
        },
        None => {},
    }
    let name = match file_name_exec(&chars_of(config.service_executable_path.as_str())) {
        Some(n) => n,
        None => chars_of("app.exe"),
    };
    string_from_chars(&join_exec(&d, &name))
}

/// The host's log directory: `<deploy>\logs` when `log_dir` is absent or
/// empty; `log_dir` itself when rooted; else `<deploy>\<log_dir>`.
pub open spec fn log_dir_of(log_dir: Option<Seq<char>>, deploy_dir: Seq<char>) -> Seq<char> {
    match log_dir {
        None => deploy_dir + "\\logs"@,
        Some(d) => if d.len() == 0 {
            deploy_dir + "\\logs"@
        } else if is_rooted_of(d) {
            d
        } else {
            deploy_dir + seq!['\\'] + d
        },
    }
}

/// Resolves the configured log directory against the deployment directory.
pub fn resolve_log_dir(log_dir: Option<&str>, deploy_dir: &str) -> (r: String)
    ensures
        r@ == log_dir_of(
            match log_dir {
                Some(d) => Some(d@),
                None => None,
            },
            deploy_dir@,
        ),
{
    let mut v = chars_of(deploy_dir);
    match log_dir {
        None => {
            extend(&mut v, &chars_of("\\logs"));
            string_from_chars(&v)
        },
        Some(d) => {
            let dv = chars_of(d);
            if dv.len() == 0 {
                extend(&mut v, &chars_of("\\logs"));
                string_from_chars(&v)
            } else if is_rooted(&dv) {
                string_from_chars(&dv)
            } else {
                v.push('\\');
                extend(&mut v, &dv);
                string_from_chars(&v)
            }
        },
    }
}

} // verus!
