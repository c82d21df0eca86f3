//! The configuration copy a deployed service gets: the source text line by
//! line, without the lines that set `service_password` (the service manager
//! keeps the password), joined with CRLF.

use vstd::prelude::*;
use crate::text::{
    ascii_lower, ascii_lower_seq, chars_of, extend, is_whitespace, is_ws, join, join_exec, lemma_split_any_nonempty, lemma_split_append,
    lemma_split_no_delim, split_any, split_exec, starts_with, string_from_chars, sub_vec,
    to_ascii_lower, trim_start, views_of,
};

verus! {

/// A line without the `\r` that ended it.
pub open spec fn strip_cr(l: Seq<char>) -> Seq<char> {
    if l.len() > 0 && l.last() == '\r' {
        l.drop_last()
    } else {
        l
    }
}

/// `str::lines`: the text cut at each `\n`; a line followed by `\n` loses
/// one `\r` before it; nothing follows a final `\n`; empty text has no lines.
pub open spec fn lines_of(s: Seq<char>) -> Seq<Seq<char>> {
    if s.len() == 0 {
        Seq::empty()
    } else {
        let ps = split_any(s, seq!['\n']);
        if s.last() == '\n' {
            ps.drop_last().map_values(|l: Seq<char>| strip_cr(l))
        } else {
            ps.drop_last().map_values(|l: Seq<char>| strip_cr(l)).push(ps.last())
        }
    }
}

/// The spellings of the `service_password` key at the start of a line:
/// plain, double-quoted and single-quoted, each followed by its colon.
pub open spec fn password_key(j: int) -> Seq<char> {
    if j == 0 {
        "service_password:"@
    } else if j == 1 {
        "\"service_password\":"@
    } else {
        "'service_password':"@
    }
}

fn password_key_text(j: usize) -> (r: &'static str)
    requires
        j < 3,
    ensures
        r@ == password_key(j as int),
{
    if j == 0 {
        "service_password:"
    } else if j == 1 {
        "\"service_password\":"
    } else {
        "'service_password':"
    }
}

/// Whether a line sets `service_password`: after leading white space, it
/// starts with the key, plain or quoted, in any ASCII case.
pub open spec fn is_password_line(l: Seq<char>) -> bool {
    exists|j: int| 0 <= j < 3 && starts_with(ascii_lower_seq(trim_start(l)), #[trigger] password_key(j))
}

/// The lines that are kept.
pub open spec fn kept_lines(s: Seq<char>) -> Seq<Seq<char>> {
    lines_of(s).filter(|l: Seq<char>| !is_password_line(l))
}

/// The deployed configuration text.
pub open spec fn deployed_config_of(s: Seq<char>) -> Seq<char> {
    join(kept_lines(s), "\r\n"@)
}

/// The lines of a text.
pub fn lines(s: &str) -> (r: Vec<Vec<char>>)
    ensures
        views_of(r@) == lines_of(s@),
{
    let v = chars_of(s);
    let mut out: Vec<Vec<char>> = Vec::new();
    if v.len() == 0 {
        assert(views_of(out@) =~= Seq::<Seq<char>>::empty());
        return out;
    }
    let nl = vec!['\n'];
    assert(nl@ =~= seq!['\n']);
    let ps = split_exec(&v, &nl);
    let ghost vs = views_of(ps@);
    proof {
        lemma_split_any_nonempty(v@, seq!['\n']);
    }
    let n = ps.len() - 1;
    let mut i: usize = 0;
    while i < n
        invariant
            n + 1 == ps.len(),
            vs == views_of(ps@),
            vs.len() == ps@.len(),
            i <= n,
            views_of(out@) == vs.take(i as int).map_values(|l: Seq<char>| strip_cr(l)),
        decreases n - i,
    {
        let p = &ps[i];
        assert(vs[i as int] == p@);
        let end = if p.len() > 0 && p[p.len() - 1] == '\r' {
            p.len() - 1
        } else {
            p.len()
        };
        let line = sub_vec(p, 0, end);
        assert(line@ =~= strip_cr(p@));
        let ghost before = views_of(out@);
        out.push(line);
        assert(views_of(out@) =~= before.push(strip_cr(p@)));
        assert(vs.take(i + 1).map_values(|l: Seq<char>| strip_cr(l)) =~= vs.take(
            i as int,
        ).map_values(|l: Seq<char>| strip_cr(l)).push(strip_cr(vs[i as int])));
        i += 1;
    }
    assert(vs.take(n as int) =~= vs.drop_last());
    if v[v.len() - 1] != '\n' {
        let last = &ps[n];
        assert(vs[n as int] == last@);
        let ghost before = views_of(out@);
        out.push(sub_vec(last, 0, last.len()));
        assert(last@.subrange(0, last@.len() as int) =~= last@);
        assert(views_of(out@) =~= before.push(vs.last()));
    }
    out
}

/// Whether a line (as characters) sets `service_password`.
pub fn is_password_line_exec(l: &Vec<char>) -> (r: bool)
    ensures
        r == is_password_line(l@),
{
    let mut a: usize = 0;
    assert(l@.skip(0) =~= l@);
    while a < l.len() && is_whitespace(l[a])
        invariant
            a <= l.len(),
            trim_start(l@) == trim_start(l@.skip(a as int)),
        decreases l.len() - a,
    {
        assert(l@.skip(a as int).drop_first() =~= l@.skip(a + 1));
        a += 1;
    }
    assert(trim_start(l@) == l@.skip(a as int)) by {
        if a < l.len() {
            assert(l@.skip(a as int)[0] == l@[a as int]);
        }
    }
    let ghost t = l@.skip(a as int);
    let mut j: usize = 0;
    while j < 3
        invariant
            j <= 3,
            a <= l.len(),
            t == l@.skip(a as int),
            trim_start(l@) == t,
            forall|k: int| 0 <= k < j ==> !starts_with(ascii_lower_seq(t), #[trigger] password_key(k)),
        decreases 3 - j,
    {
        let key = chars_of(password_key_text(j));
        if lower_prefix_matches(l, a, &key) {
            return true;
        }
        j += 1;
    }
    false
}

/// Whether `l[a..]`, with ASCII letters lower-cased, starts with `key`.
fn lower_prefix_matches(l: &Vec<char>, a: usize, key: &Vec<char>) -> (r: bool)
    requires
        a <= l.len(),
    ensures
        r == starts_with(ascii_lower_seq(l@.skip(a as int)), key@),
{
    let ghost t = l@.skip(a as int);
    if l.len() - a < key.len() {
        return false;
    }
    let mut i: usize = 0;
    while i < key.len()
        invariant
            i <= key.len(),
            a + key.len() <= l.len(),
            t == l@.skip(a as int),
            forall|j: int| 0 <= j < i ==> ascii_lower(l@[a + j]) == key@[j],
        decreases key.len() - i,
    {
        if to_ascii_lower(l[a + i]) != key[i] {
            assert(ascii_lower_seq(t).take(key@.len() as int)[i as int] == ascii_lower(
                l@[a + i],
            ));
            assert(ascii_lower_seq(t).take(key@.len() as int) != key@);
            return false;
        }
        i += 1;
    }
    assert(ascii_lower_seq(t).take(key@.len() as int) =~= key@);
    true
}

/// The deployed configuration text for the source text `s`.
pub fn deployed_config(s: &str) -> (r: String)
    ensures
        r@ == deployed_config_of(s@),
{
    let ls = lines(s);
    let ghost all = views_of(ls@);
    let ghost pred = |l: Seq<char>| !is_password_line(l);
    let mut kept: Vec<Vec<char>> = Vec::new();
    let mut i: usize = 0;
    while i < ls.len()
        invariant
            i <= ls.len(),
            all == views_of(ls@),
            all.len() == ls@.len(),
            pred == (|l: Seq<char>| !is_password_line(l)),
            views_of(kept@) == all.take(i as int).filter(pred),
        decreases ls.len() - i,
    {
        let l = &ls[i];
        proof {
            reveal(Seq::filter);
        }
        assert(all[i as int] == l@);
        assert(all.take(i + 1).drop_last() =~= all.take(i as int));
        assert(all.take(i + 1).last() == l@);
        assert(all.take(i + 1).filter(pred) == if pred(l@) {
            all.take(i as int).filter(pred).push(l@)
        } else {
            all.take(i as int).filter(pred)
        });
        if !is_password_line_exec(l) {
            let ghost before = views_of(kept@);
            kept.push(sub_vec(l, 0, l.len()));
            assert(l@.subrange(0, l@.len() as int) =~= l@);
            assert(views_of(kept@) =~= before.push(l@));
        }
        i += 1;
    }
    assert(all.take(ls.len() as int) =~= all);
    let sep = chars_of("\r\n");
    string_from_chars(&join_exec(&kept, &sep))
}

// ==================== no password reaches the deployed copy ====================

/// No piece contains the separator.
pub open spec fn pieces_free_of(parts: Seq<Seq<char>>, d: char) -> bool {
    forall|i: int| 0 <= i < parts.len() ==> !(#[trigger] parts[i]).contains(d)
}

proof fn lemma_split_join(parts: Seq<Seq<char>>, d: char)
    requires
        parts.len() >= 1,
        pieces_free_of(parts, d),
    ensures
        split_any(join(parts, seq![d]), seq![d]) == parts,
    decreases parts.len(),
{
    if parts.len() == 1 {
        assert(!parts[0].contains(d));
        lemma_split_no_delim(parts[0], d);
        assert(seq![parts[0]] =~= parts);
    } else {
        let front = parts.drop_last();
        assert(pieces_free_of(front, d)) by {
            assert forall|i: int| 0 <= i < front.len() implies !(#[trigger] front[i]).contains(d) by {
                assert(front[i] == parts[i]);
            }
        }
        lemma_split_join(front, d);
        assert(!parts[parts.len() - 1].contains(d));
        lemma_split_append(join(front, seq![d]), d, parts.last());
        assert(front.push(parts.last()) =~= parts);
    }
}

/// The lines with a `\r` put back at the end of each but the last.
pub open spec fn with_cr(k: Seq<Seq<char>>) -> Seq<Seq<char>> {
    Seq::new(k.len(), |i: int| if i < k.len() - 1 { k[i].push('\r') } else { k[i] })
}

proof fn lemma_join_extend_last(parts: Seq<Seq<char>>, sep: Seq<char>, c: char)
    requires
        parts.len() >= 1,
    ensures
        join(parts.update(parts.len() - 1, parts.last().push(c)), sep) == join(parts, sep).push(c),
{
    let q = parts.update(parts.len() - 1, parts.last().push(c));
    if parts.len() >= 2 {
        assert(q.drop_last() =~= parts.drop_last());
        assert(join(parts.drop_last(), sep) + sep + parts.last().push(c) =~= (join(
            parts.drop_last(),
            sep,
        ) + sep + parts.last()).push(c));
    }
}

proof fn lemma_join_crlf(k: Seq<Seq<char>>)
    ensures
        join(k, "\r\n"@) == join(with_cr(k), seq!['\n']),
    decreases k.len(),
{
    reveal_strlit("\r\n");
    let n = k.len();
    if n == 0 {
    } else if n == 1 {
        assert(with_cr(k)[0] == k[0]);
    } else {
        let front = k.drop_last();
        lemma_join_crlf(front);
        let wf = with_cr(front);
        lemma_join_extend_last(wf, seq!['\n'], '\r');
        assert(with_cr(k).drop_last() =~= wf.update(wf.len() - 1, wf.last().push('\r')));
        assert(with_cr(k).last() == k.last());
        assert(join(front, "\r\n"@) + "\r\n"@ + k.last() =~= join(wf, seq!['\n']).push('\r')
            + seq!['\n'] + k.last());
    }
}

proof fn lemma_lines_free(s: Seq<char>)
    ensures
        pieces_free_of(lines_of(s), '\n'),
{
    if s.len() > 0 {
        let ps = split_any(s, seq!['\n']);
        lemma_split_any_nonempty(s, seq!['\n']);
        lemma_split_pieces_free(s);
        let ls = lines_of(s);
        assert forall|i: int| 0 <= i < ls.len() implies !(#[trigger] ls[i]).contains('\n') by {
            assert(!ps[i].contains('\n'));
            if i < ps.len() - 1 {
                let p = ps[i];
                if strip_cr(p).contains('\n') {
                    let j = choose|j: int| 0 <= j < strip_cr(p).len() && strip_cr(p)[j] == '\n';
                    assert(p[j] == '\n');
                }
            }
        }
    }
}

proof fn lemma_split_pieces_free(s: Seq<char>)
    ensures
        pieces_free_of(split_any(s, seq!['\n']), '\n'),
    decreases s.len(),
{
    if s.len() > 0 {
        lemma_split_pieces_free(s.drop_last());
        lemma_split_any_nonempty(s.drop_last(), seq!['\n']);
        let r = split_any(s.drop_last(), seq!['\n']);
        if !seq!['\n'].contains(s.last()) {
            assert(s.last() != '\n') by {
                if s.last() == '\n' {
                    assert(seq!['\n'][0] == '\n');
                }
            }
            let u = r.update(r.len() - 1, r.last().push(s.last()));
            assert forall|i: int| 0 <= i < u.len() implies !(#[trigger] u[i]).contains('\n') by {
                if i == r.len() - 1 {
                    assert(!r[i].contains('\n'));
                    if u[i].contains('\n') {
                        let j = choose|j: int| 0 <= j < u[i].len() && u[i][j] == '\n';
                        if j < r[i].len() {
                            assert(r[i][j] == '\n');
                        }
                    }
                }
            }
        } else {
            let u = r.push(Seq::<char>::empty());
            assert forall|i: int| 0 <= i < u.len() implies !(#[trigger] u[i]).contains('\n') by {
                if i < r.len() {
                    assert(u[i] == r[i]);
                }
            }
        }
    }
}

/// No line of the deployed configuration sets `service_password`: every
/// line of it is a line of the source that does not.
pub proof fn lemma_deployed_config_has_no_password(s: Seq<char>)
    ensures
        forall|i: int|
            0 <= i < lines_of(deployed_config_of(s)).len() ==> !is_password_line(
                #[trigger] lines_of(deployed_config_of(s))[i],
            ) && lines_of(s).contains(lines_of(deployed_config_of(s))[i]),
{
    let pred = |l: Seq<char>| !is_password_line(l);
    let k = kept_lines(s);
    let out = deployed_config_of(s);
    let ls = lines_of(out);
    lemma_lines_free(s);
    assert(pieces_free_of(k, '\n')) by {
        assert forall|i: int| 0 <= i < k.len() implies !(#[trigger] k[i]).contains('\n') by {
            lines_of(s).lemma_filter_contains_rev(pred, k[i]);
            assert(k.contains(k[i]));
            let j = choose|j: int| 0 <= j < lines_of(s).len() && lines_of(s)[j] == k[i];
        }
    }
    assert forall|i: int| #![trigger ls[i]] 0 <= i < ls.len() implies (exists|j: int|
        0 <= j < k.len() && #[trigger] k[j] == ls[i]) by {
        lemma_join_crlf(k);
        let c = with_cr(k);
        if k.len() >= 1 {
            assert(pieces_free_of(c, '\n')) by {
                assert forall|x: int| 0 <= x < c.len() implies !(#[trigger] c[x]).contains('\n') by {
                    assert(!k[x].contains('\n'));
                    if c[x].contains('\n') {
                        let y = choose|y: int| 0 <= y < c[x].len() && c[x][y] == '\n';
                        if y < k[x].len() {
                            assert(k[x][y] == '\n');
                        }
                    }
                }
            }
            lemma_split_join(c, '\n');
            assert(out == join(c, seq!['\n']));
            assert(i < c.len());
            if i < c.len() - 1 {
                assert(ls[i] == strip_cr(c[i]));
                assert(c[i] == k[i].push('\r'));
                assert(strip_cr(c[i]) =~= k[i]);
            } else {
                assert(ls[i] == c[i]);
                assert(c[i] == k[i]);
            }
        } else {
            assert(out.len() == 0);
        }
    }
    assert forall|i: int| 0 <= i < ls.len() implies !is_password_line(#[trigger] ls[i]) && lines_of(
        s,
    ).contains(ls[i]) by {
        let j = choose|j: int| 0 <= j < k.len() && #[trigger] k[j] == ls[i];
        lines_of(s).lemma_filter_pred(pred, j);
        lines_of(s).lemma_filter_contains_rev(pred, k[j]);
        assert(k.contains(k[j]));
    }
}

} // verus!
