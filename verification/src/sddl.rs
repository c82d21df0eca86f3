//! Reading security descriptors in SDDL form: whether the owner is an
//! administrative principal and whether the DACL lets anyone else write.

use vstd::prelude::*;
use crate::encoding::{parse_u32, parse_u32_range};
use crate::text::{
    chars_eq, chars_of, contains_exec, contains_sub, find_after, find_from, find_sub, lemma_find_from,
    lemma_split_any_nonempty, lemma_split_append, lemma_split_no_delim, matches_at, split_any, split_exec, starts_with, starts_with_exec,
    sub_vec, trim, trim_bounds, views_of,
};

verus! {

// ==================== principals ====================

/// SID strings that always denote an administrative principal: SYSTEM,
/// Administrators, Domain Admins, Enterprise Admins, Schema Admins.
pub open spec fn admin_sid(j: int) -> Seq<char> {
    if j == 0 {
        "SY"@
    } else if j == 1 {
        "BA"@
    } else if j == 2 {
        "DA"@
    } else if j == 3 {
        "EA"@
    } else if j == 4 {
        "SA"@
    } else if j == 5 {
        "S-1-5-18"@
    } else {
        "S-1-5-32-544"@
    }
}

fn admin_sid_name(j: usize) -> (r: &'static str)
    requires
        j < 7,
    ensures
        r@ == admin_sid(j as int),
{
    if j == 0 {
        "SY"
    } else if j == 1 {
        "BA"
    } else if j == 2 {
        "DA"
    } else if j == 3 {
        "EA"
    } else if j == 4 {
        "SA"
    } else if j == 5 {
        "S-1-5-18"
    } else {
        "S-1-5-32-544"
    }
}

/// The text after the last `sep` (all of `s` when there is none), as
/// `s.rsplit(sep).next()` yields it.
pub open spec fn last_piece(s: Seq<char>, sep: char) -> Seq<char> {
    split_any(s, seq![sep]).last()
}

/// Whether a SID string denotes an administrative principal: one of the fixed
/// administrative SIDs, or an account SID (`S-1-5-21-...`) whose last RID is
/// 500 (built-in administrator) or 512 (domain administrators).
pub open spec fn sid_is_administrative(sid: Seq<char>) -> bool {
    ||| exists|j: int| 0 <= j < 7 && sid == #[trigger] admin_sid(j)
    ||| starts_with(sid, "S-1-5-21-"@) && (last_piece(sid, '-') == "500"@ || last_piece(
        sid,
        '-',
    ) == "512"@)
}

fn sid_admin_chars(v: &Vec<char>) -> (r: bool)
    ensures
        r == sid_is_administrative(v@),
{
    let mut j: usize = 0;
    while j < 7
        invariant
            j <= 7,
            forall|i: int| 0 <= i < j ==> v@ != #[trigger] admin_sid(i),
        decreases 7 - j,
    {
        if chars_eq(v, &chars_of(admin_sid_name(j))) {
            assert(v@ == admin_sid(j as int));
            return true;
        }
        j += 1;
    }
    if !starts_with_exec(v, &chars_of("S-1-5-21-")) {
        return false;
    }
    let dash = vec!['-'];
    assert(dash@ =~= seq!['-']);
    let pieces = split_exec(v, &dash);
    proof {
        lemma_split_any_nonempty(v@, seq!['-']);
    }
    assert(views_of(pieces@)[pieces@.len() - 1] == pieces@[pieces@.len() - 1]@);
    let last = &pieces[pieces.len() - 1];
    chars_eq(last, &chars_of("500")) || chars_eq(last, &chars_of("512"))
}

/// An account SID `S-1-5-21-<domain>-<rid>` is administrative exactly when
/// its relative id (the part after the last `-`) is 500, the built-in
/// administrator, or 512, the domain administrators; every other account,
/// such as an ordinary user (1001), is not.
pub proof fn lemma_account_sid_admin_by_rid(domain: Seq<char>, rid: Seq<char>)
    requires
        !rid.contains('-'),
    ensures
        sid_is_administrative("S-1-5-21-"@ + domain + seq!['-'] + rid) <==> (rid == "500"@ || rid
            == "512"@),
{
    reveal_strlit("S-1-5-21-");
    reveal_strlit("SY");
    reveal_strlit("BA");
    reveal_strlit("DA");
    reveal_strlit("EA");
    reveal_strlit("SA");
    reveal_strlit("S-1-5-18");
    reveal_strlit("S-1-5-32-544");
    let x = "S-1-5-21-"@ + domain;
    let sid = x + seq!['-'] + rid;
    lemma_split_append(x, '-', rid);
    assert(last_piece(sid, '-') == rid);
    assert(sid.take(9) =~= "S-1-5-21-"@);
    assert(starts_with(sid, "S-1-5-21-"@));
    assert forall|j: int| 0 <= j < 7 implies sid != #[trigger] admin_sid(j) by {
        if j < 6 {
            assert(admin_sid(j).len() < sid.len());
        } else {
            assert(sid[6] == '2');
            assert(admin_sid(j)[6] == '3');
        }
    }
}

/// Whether an SDDL SID string denotes an administrative principal.
pub fn sddl_sid_is_administrative(sid: &str) -> (r: bool)
    ensures
        r == sid_is_administrative(sid@),
{
    sid_admin_chars(&chars_of(sid))
}

/// Whether the owner segment (`O:<sid>...`) names an administrative principal:
/// the text after the first `O:`, trimmed, must be an administrative SID.
pub open spec fn owner_is_administrative(seg: Seq<char>) -> bool {
    match find_sub(seg, seq!['O', ':']) {
        None => false,
        Some(o) => sid_is_administrative(trim(seg.skip(o + 2))),
    }
}

/// Whether the SDDL owner segment names an administrative principal.
pub fn sddl_owner_is_administrative(owner_segment: &str) -> (r: bool)
    ensures
        r == owner_is_administrative(owner_segment@),
{
    let v = chars_of(owner_segment);
    let pat = vec!['O', ':'];
    assert(pat@ =~= seq!['O', ':']);
    match find_after(&v, &pat, 0) {
        None => {
            assert(v@.skip(0) =~= v@);
            false
        },
        Some(o) => {
            assert(v@.skip(0) =~= v@);
            let (a, b) = trim_bounds(&v, o + 2, v.len());
            assert(v@.subrange(o + 2, v@.len() as int) =~= v@.skip(o + 2));
            sid_admin_chars(&sub_vec(&v, a, b))
        },
    }
}

// ==================== access rights ====================

/// Rights tokens that include some form of write access.
pub open spec fn write_right(j: int) -> Seq<char> {
    if j == 0 {
        "FA"@
    } else if j == 1 {
        "FW"@
    } else if j == 2 {
        "M"@
    } else if j == 3 {
        "WD"@
    } else if j == 4 {
        "WO"@
    } else if j == 5 {
        "GA"@
    } else if j == 6 {
        "GW"@
    } else if j == 7 {
        "DC"@
    } else if j == 8 {
        "AD"@
    } else if j == 9 {
        "DT"@
    } else if j == 10 {
        "DE"@
    } else if j == 11 {
        "WDAC"@
    } else {
        "WOWN"@
    }
}

fn write_right_name(j: usize) -> (r: &'static str)
    requires
        j < 13,
    ensures
        r@ == write_right(j as int),
{
    if j == 0 {
        "FA"
    } else if j == 1 {
        "FW"
    } else if j == 2 {
        "M"
    } else if j == 3 {
        "WD"
    } else if j == 4 {
        "WO"
    } else if j == 5 {
        "GA"
    } else if j == 6 {
        "GW"
    } else if j == 7 {
        "DC"
    } else if j == 8 {
        "AD"
    } else if j == 9 {
        "DT"
    } else if j == 10 {
        "DE"
    } else if j == 11 {
        "WDAC"
    } else {
        "WOWN"
    }
}

/// Access-mask bits that modify the object: write data, append data, write
/// extended attributes, delete child, write attributes, delete, write DAC,
/// write owner.
pub open spec fn write_mask() -> u32 {
    0x2u32 | 0x4u32 | 0x40u32 | 0x10u32 | 0x100u32 | 0x10000u32 | 0x40000u32 | 0x80000u32
}

/// Whether a rights field grants write access: a write token, or a hex mask
/// `0x...` (as `u32::from_str_radix` reads it) with a write bit set.
pub open spec fn rights_include_write(rights: Seq<char>) -> bool {
    ||| exists|j: int| 0 <= j < 13 && rights == #[trigger] write_right(j)
    ||| starts_with(rights, seq!['0', 'x']) && match parse_u32(rights.skip(2), 16) {
        Some(m) => m & write_mask() != 0,
        None => false,
    }
}

fn rights_write_chars(v: &Vec<char>) -> (r: bool)
    ensures
        r == rights_include_write(v@),
{
    let mut j: usize = 0;
    while j < 13
        invariant
            j <= 13,
            forall|i: int| 0 <= i < j ==> v@ != #[trigger] write_right(i),
        decreases 13 - j,
    {
        if chars_eq(v, &chars_of(write_right_name(j))) {
            assert(v@ == write_right(j as int));
            return true;
        }
        j += 1;
    }
    let hex = vec!['0', 'x'];
    assert(hex@ =~= seq!['0', 'x']);
    if !starts_with_exec(v, &hex) {
        return false;
    }
    assert(v@.subrange(2, v@.len() as int) =~= v@.skip(2));
    match parse_u32_range(v, 2, v.len(), 16) {
        Some(m) => {
            let mask: u32 = 0x2 | 0x4 | 0x40 | 0x10 | 0x100 | 0x10000 | 0x40000 | 0x80000;
            m & mask != 0
        },
        None => false,
    }
}

/// Whether an SDDL rights field includes write access.
pub fn sddl_rights_include_write(rights: &str) -> (r: bool)
    ensures
        r == rights_include_write(rights@),
{
    rights_write_chars(&chars_of(rights))
}

// ==================== access control entries ====================

/// Whether one ACE body (`type;flags;rights;object;inherit-object;sid`) lets a
/// non-administrative principal write the object: an allow entry for a
/// non-administrative SID, or a deny entry for an administrative SID, with
/// write rights, that is not inherit-only (`IO`); bodies with fewer than six
/// fields are ignored.
pub open spec fn ace_grants_write(ace: Seq<char>) -> bool {
    let parts = split_any(ace, seq![';']);
    &&& parts.len() >= 6
    &&& !contains_sub(parts[1], seq!['I', 'O'])
    &&& rights_include_write(parts[2])
    &&& {
        let admin = sid_is_administrative(trim(parts[5]));
        ||| parts[0] == seq!['A'] && !admin
        ||| parts[0] == seq!['D'] && admin
    }
}

/// An allow entry `A;<flags>;<rights>;<object>;<inherited object>;<sid>`
/// grants a non-administrator write access exactly when its rights include
/// write access, its SID is not administrative, and its flags do not mark it
/// inherit-only (`IO`). Other flags, such as `ID` for an entry inherited
/// from the parent (`OICIID`), change nothing: an inherited entry counts like
/// an explicit one.
pub proof fn lemma_allow_entry_grants_write(
    flags: Seq<char>,
    rights: Seq<char>,
    object: Seq<char>,
    inherited: Seq<char>,
    sid: Seq<char>,
)
    requires
        !flags.contains(';'),
        !rights.contains(';'),
        !object.contains(';'),
        !inherited.contains(';'),
        !sid.contains(';'),
    ensures
        ace_grants_write(
            seq!['A', ';'] + flags + seq![';'] + rights + seq![';'] + object + seq![';'] + inherited + seq![';']
                + sid,
        ) <==> (!contains_sub(flags, seq!['I', 'O']) && rights_include_write(rights)
            && !sid_is_administrative(trim(sid))),
{
    let a = seq!['A'];
    assert(!a.contains(';')) by {
        if a.contains(';') {
            let k = choose|k: int| 0 <= k < a.len() && a[k] == ';';
        }
    }
    lemma_split_no_delim(a, ';');
    let x1 = a + seq![';'] + flags;
    lemma_split_append(a, ';', flags);
    let x2 = x1 + seq![';'] + rights;
    lemma_split_append(x1, ';', rights);
    let x3 = x2 + seq![';'] + object;
    lemma_split_append(x2, ';', object);
    let x4 = x3 + seq![';'] + inherited;
    lemma_split_append(x3, ';', inherited);
    let x5 = x4 + seq![';'] + sid;
    lemma_split_append(x4, ';', sid);
    assert(seq!['A', ';'] + flags + seq![';'] + rights + seq![';'] + object + seq![';'] + inherited + seq![';']
        + sid =~= x5);
    let parts = split_any(x5, seq![';']);
    assert(parts =~= seq![a, flags, rights, object, inherited, sid]);
    assert(parts[0] =~= seq!['A']);
    assert(parts[0] != seq!['D']);
}

/// Whether some ACE in the DACL text grants write access to a
/// non-administrative principal. ACEs are the bodies between each `(` and the
/// next `)`; scanning stops at a `(` without a closing `)`.
pub open spec fn dacl_grants_write(s: Seq<char>) -> bool
    decreases s.len(),
{
    match find_sub(s, seq!['(']) {
        None => false,
        Some(st) => match find_sub(s.skip(st), seq![')']) {
            None => false,
            Some(e) => {
                proof {
                    lemma_find_from(s, seq!['('], 0);
                    lemma_find_from(s.skip(st), seq![')'], 0);
                }
                ace_grants_write(s.subrange(st + 1, st + e)) || dacl_grants_write(
                    s.skip(st + e + 1),
                )
            },
        },
    }
}

fn ace_grants_write_chars(ace: &Vec<char>) -> (r: bool)
    ensures
        r == ace_grants_write(ace@),
{
    let semi = vec![';'];
    assert(semi@ =~= seq![';']);
    let parts = split_exec(ace, &semi);
    let ghost ps = split_any(ace@, seq![';']);
    if parts.len() < 6 {
        return false;
    }
    assert(views_of(parts@)[1] == parts@[1]@);
    assert(views_of(parts@)[2] == parts@[2]@);
    assert(views_of(parts@)[0] == parts@[0]@);
    assert(views_of(parts@)[5] == parts@[5]@);
    let io = vec!['I', 'O'];
    assert(io@ =~= seq!['I', 'O']);
    if contains_exec(&parts[1], &io) {
        return false;
    }
    if !rights_write_chars(&parts[2]) {
        return false;
    }
    let p5 = &parts[5];
    let (a, b) = trim_bounds(p5, 0, p5.len());
    assert(p5@.subrange(0, p5@.len() as int) =~= p5@);
    let admin = sid_admin_chars(&sub_vec(p5, a, b));
    let p0 = &parts[0];
    let is_allow = p0.len() == 1 && p0[0] == 'A';
    let is_deny = p0.len() == 1 && p0[0] == 'D';
    assert(is_allow == (p0@ == seq!['A'])) by {
        if p0@ == seq!['A'] {
            assert(p0@[0] == 'A');
        }
        if is_allow {
            assert(p0@ =~= seq!['A']);
        }
    }
    assert(is_deny == (p0@ == seq!['D'])) by {
        if p0@ == seq!['D'] {
            assert(p0@[0] == 'D');
        }
        if is_deny {
            assert(p0@ =~= seq!['D']);
        }
    }
    (is_allow && !admin) || (is_deny && admin)
}

/// Whether the SDDL DACL segment grants write access to a non-administrative principal.
pub fn sddl_dacl_grants_non_admin_write(dacl: &str) -> (r: bool)
    ensures
        r == dacl_grants_write(dacl@),
{
    let v = chars_of(dacl);
    let open = vec!['('];
    let close = vec![')'];
    assert(open@ =~= seq!['(']);
    assert(close@ =~= seq![')']);
    let mut pos: usize = 0;
    assert(v@.skip(0) =~= v@);
    loop
        invariant
            pos <= v.len(),
            open@ == seq!['('],
            close@ == seq![')'],
            dacl_grants_write(v@) == dacl_grants_write(v@.skip(pos as int)),
            v@ == dacl@,
        decreases v.len() - pos,
    {
        let ghost rest = v@.skip(pos as int);
        let st = match find_after(&v, &open, pos) {
            None => {
                return false;
            },
            Some(x) => x,
        };
        let en = match find_after(&v, &close, st) {
            None => {
                assert(v@.skip(st as int) =~= rest.skip(st - pos));
                return false;
            },
            Some(x) => x,
        };
        assert(v@[st as int] == '(') by {
            assert(v@.subrange(st as int, st + 1)[0] == v@[st as int]);
        }
        assert(en > st) by {
            if en == st {
                assert(v@.subrange(en as int, en + 1)[0] == v@[en as int]);
            }
        }
        assert(v@.skip(st as int) =~= rest.skip(st - pos));
        assert(v@.subrange(st + 1, en as int) =~= rest.subrange(st - pos + 1, en - pos));
        assert(v@.skip(en + 1) =~= rest.skip(en - pos + 1));
        let ace = sub_vec(&v, st + 1, en);
        if ace_grants_write_chars(&ace) {
            return true;
        }
        pos = en + 1;
    }
}

// ==================== the verdict ====================

/// Whether the DACL text (from `D:` on) is a NULL DACL: `D:NO_ACCESS_CONTROL`,
/// or `D:` with nothing after it but the end of the text or the SACL (`S:`).
pub open spec fn is_null_dacl(dacl: Seq<char>) -> bool {
    ||| starts_with(dacl, "D:NO_ACCESS_CONTROL"@)
    ||| dacl == "D:"@
    ||| starts_with(dacl, "D:S:"@)
}

fn is_null_dacl_exec(dacl: &Vec<char>) -> (r: bool)
    ensures
        r == is_null_dacl(dacl@),
{
    starts_with_exec(dacl, &chars_of("D:NO_ACCESS_CONTROL")) || chars_eq(dacl, &chars_of("D:"))
        || starts_with_exec(dacl, &chars_of("D:S:"))
}

proof fn lemma_first_char_at(pre: Seq<char>, c: char, post: Seq<char>)
    requires
        !pre.contains(c),
    ensures
        find_sub(pre + seq![c] + post, seq![c]) == Some(pre.len() as int),
{
    let s = pre + seq![c] + post;
    let st = pre.len() as int;
    let pat = seq![c];
    assert(s.subrange(st, st + 1) =~= pat);
    assert(matches_at(s, pat, st));
    assert forall|j: int| 0 <= j < st implies !matches_at(s, pat, j) by {
        if matches_at(s, pat, j) {
            assert(s.subrange(j, j + 1)[0] == s[j]);
            assert(pre[j] == s[j]);
            assert(pre.contains(c));
        }
    }
    lemma_find_from(s, pat, 0);
    assert(find_from(s, pat, 0) is Some);
    let k = find_from(s, pat, 0).unwrap();
    assert(k <= st);
    assert(k >= st);
}

/// The DACL is judged entry by entry: when the text before its first `(`
/// holds no `(` and the first entry's body holds no `)`, the DACL grants
/// write access exactly when that entry does or the rest after it does. So an
/// entry that grants write access, such as an inherited allow-Modify entry
/// for Authenticated Users, makes every DACL that lists it writable.
pub proof fn lemma_dacl_first_entry(pre: Seq<char>, ace: Seq<char>, rest: Seq<char>)
    requires
        !pre.contains('('),
        !ace.contains(')'),
    ensures
        dacl_grants_write(pre + seq!['('] + ace + seq![')'] + rest) == (ace_grants_write(ace)
            || dacl_grants_write(rest)),
{
    let s = pre + seq!['('] + ace + seq![')'] + rest;
    let st = pre.len() as int;
    let en: int = ace.len() as int + 1;
    assert(s =~= pre + seq!['('] + (ace + seq![')'] + rest));
    lemma_first_char_at(pre, '(', ace + seq![')'] + rest);
    let t = s.skip(st);
    assert(!(seq!['('] + ace).contains(')')) by {
        if (seq!['('] + ace).contains(')') {
            let k = choose|k: int| 0 <= k < ace.len() + 1 && (seq!['('] + ace)[k] == ')';
            if k > 0 {
                assert(ace[k - 1] == ')');
            }
        }
    }
    assert(t =~= (seq!['('] + ace) + seq![')'] + rest);
    lemma_first_char_at(seq!['('] + ace, ')', rest);
    assert(s.subrange(st + 1, st + en) =~= ace);
    assert(s.skip(st + en + 1) =~= rest);
}

/// Whether an object counts as writable by unprivileged users, from the SDDL
/// of its owner and DACL (`None` when it could not be read): unknown counts
/// as writable; so does an SDDL without a `D:` part, an owner (the text
/// before the first `D:`) that is not administrative, a NULL DACL (which
/// grants everyone full access), and a DACL that grants a non-administrative
/// principal write access. An empty DACL (such as a protected `D:PAI` with
/// no entries) grants nobody anything and is judged by its entries.
pub open spec fn sddl_writable_of(sddl: Option<Seq<char>>) -> bool {
    match sddl {
        None => true,
        Some(raw) => {
            let s = trim(raw);
            match find_sub(s, seq!['D', ':']) {
                None => true,
                Some(d) => {
                    ||| !owner_is_administrative(s.take(d))
                    ||| is_null_dacl(s.skip(d))
                    ||| dacl_grants_write(s.skip(d))
                },
            }
        },
    }
}

/// Judges the SDDL that the ACL query printed (`None` when the query failed).
pub fn sddl_writable(sddl: Option<&str>) -> (r: bool)
    ensures
        r == sddl_writable_of(
            match sddl {
                Some(s) => Some(s@),
                None => None,
            },
        ),
{
    let raw = match sddl {
        None => {
            return true;
        },
        Some(s) => s,
    };
    let v = chars_of(raw);
    let (a, b) = trim_bounds(&v, 0, v.len());
    assert(v@.subrange(0, v@.len() as int) =~= v@);
    let t = sub_vec(&v, a, b);
    let pat = vec!['D', ':'];
    assert(pat@ =~= seq!['D', ':']);
    assert(t@.skip(0) =~= t@);
    match find_after(&t, &pat, 0) {
        None => true,
        Some(d) => {
            let owner = crate::text::string_from_chars(&sub_vec(&t, 0, d));
            assert(t@.subrange(0, d as int) =~= t@.take(d as int));
            if !sddl_owner_is_administrative(owner.as_str()) {
                return true;
            }
            let dacl_chars = sub_vec(&t, d, t.len());
            assert(t@.subrange(d as int, t@.len() as int) =~= t@.skip(d as int));
            if is_null_dacl_exec(&dacl_chars) {
                return true;
            }
            let dacl = crate::text::string_from_chars(&dacl_chars);
            sddl_dacl_grants_non_admin_write(dacl.as_str())
        },
    }
}

} // verus!
