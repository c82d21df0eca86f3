//! Service names and command words.

use vstd::prelude::*;
use crate::encoding::{utf16_len, utf16_len_at_most};
use crate::text::{
    chars_eq, chars_of, eq_ignore_ascii_case, find_exec, find_from, find_sub, is_control,
    is_control_char, is_ws, lemma_trim_empty, range_eq_ignore_ascii_case, trim,
};

verus! {

/// Name of the internal boot-time maintenance service; no user service may take it.
pub open spec fn updater_service_name() -> Seq<char> {
    "Silanes Service Updater"@
}

/// The reserved updater name.
pub fn updater_name() -> (r: &'static str)
    ensures
        r@ == updater_service_name(),
{
    "Silanes Service Updater"
}

/// The reserved Windows device names.
pub open spec fn dos_device(j: int) -> Seq<char> {
    if j == 0 {
        "CON"@
    } else if j == 1 {
        "PRN"@
    } else if j == 2 {
        "AUX"@
    } else if j == 3 {
        "NUL"@
    } else if j == 4 {
        "COM1"@
    } else if j == 5 {
        "COM2"@
    } else if j == 6 {
        "COM3"@
    } else if j == 7 {
        "COM4"@
    } else if j == 8 {
        "COM5"@
    } else if j == 9 {
        "COM6"@
    } else if j == 10 {
        "COM7"@
    } else if j == 11 {
        "COM8"@
    } else if j == 12 {
        "COM9"@
    } else if j == 13 {
        "LPT1"@
    } else if j == 14 {
        "LPT2"@
    } else if j == 15 {
        "LPT3"@
    } else if j == 16 {
        "LPT4"@
    } else if j == 17 {
        "LPT5"@
    } else if j == 18 {
        "LPT6"@
    } else if j == 19 {
        "LPT7"@
    } else if j == 20 {
        "LPT8"@
    } else {
        "LPT9"@
    }
}

pub open spec fn dos_device_count() -> int {
    22
}

fn dos_device_name(j: usize) -> (r: &'static str)
    requires
        j < 22,
    ensures
        r@ == dos_device(j as int),
{
    if j == 0 {
        "CON"
    } else if j == 1 {
        "PRN"
    } else if j == 2 {
        "AUX"
    } else if j == 3 {
        "NUL"
    } else if j == 4 {
        "COM1"
    } else if j == 5 {
        "COM2"
    } else if j == 6 {
        "COM3"
    } else if j == 7 {
        "COM4"
    } else if j == 8 {
        "COM5"
    } else if j == 9 {
        "COM6"
    } else if j == 10 {
        "COM7"
    } else if j == 11 {
        "COM8"
    } else if j == 12 {
        "COM9"
    } else if j == 13 {
        "LPT1"
    } else if j == 14 {
        "LPT2"
    } else if j == 15 {
        "LPT3"
    } else if j == 16 {
        "LPT4"
    } else if j == 17 {
        "LPT5"
    } else if j == 18 {
        "LPT6"
    } else if j == 19 {
        "LPT7"
    } else if j == 20 {
        "LPT8"
    } else {
        "LPT9"
    }
}

/// The part of a name before its first `.` (all of it when there is none).
pub open spec fn name_stem(n: Seq<char>) -> Seq<char> {
    match find_sub(n, seq!['.']) {
        Some(k) => n.take(k),
        None => n,
    }
}

/// A name whose stem is a reserved device name, in any ASCII case
/// (`CON`, `con.txt`, `LPT9.log`, ...).
pub open spec fn is_dos_device(n: Seq<char>) -> bool {
    exists|j: int| 0 <= j < dos_device_count() && eq_ignore_ascii_case(name_stem(n), #[trigger] dos_device(j))
}

/// Characters that Windows does not allow in file names.
pub open spec fn is_reserved_char(c: char) -> bool {
    c == '<' || c == '>' || c == ':' || c == '"' || c == '|' || c == '?' || c == '*'
}

/// A character that may not appear in a service name.
pub open spec fn is_forbidden_char(c: char) -> bool {
    c == '\\' || c == '/' || is_control(c) || is_reserved_char(c)
}

/// What a service name must satisfy: it is not blank, takes at most 256 UTF-16
/// units, is neither `.` nor `..`, holds no path separator, control or
/// reserved character, does not end in a space or a dot, and is no device name.
pub open spec fn valid_service_name(n: Seq<char>) -> bool {
    &&& trim(n).len() > 0
    &&& utf16_len(n) <= 256
    &&& n != seq!['.']
    &&& n != seq!['.', '.']
    &&& forall|i: int| 0 <= i < n.len() ==> !is_forbidden_char(#[trigger] n[i])
    &&& (n.len() > 0 ==> n.last() != ' ' && n.last() != '.')
    &&& !is_dos_device(n)
}

/// Whether `name` is a reserved Windows device name (also with an extension).
pub fn is_dos_device_name(name: &str) -> (r: bool)
    ensures
        r == is_dos_device(name@),
{
    let v = chars_of(name);
    let dot = vec!['.'];
    let stem_end = match find_exec(&v, &dot, 0) {
        Some(k) => k,
        None => v.len(),
    };
    proof {
        crate::text::lemma_find_from(v@, dot@, 0);
    }
    assert(v@.subrange(0, stem_end as int) == name_stem(v@)) by {
        assert(dot@ =~= seq!['.']);
        if find_sub(v@, seq!['.']) is None {
            assert(v@.subrange(0, v@.len() as int) =~= v@);
        }
    }
    let mut j: usize = 0;
    while j < 22
        invariant
            j <= 22,
            stem_end <= v.len(),
            v@.subrange(0, stem_end as int) == name_stem(name@),
            v@ == name@,
            forall|i: int|
                0 <= i < j ==> !eq_ignore_ascii_case(name_stem(name@), #[trigger] dos_device(i)),
        decreases 22 - j,
    {
        let d = chars_of(dos_device_name(j));
        if range_eq_ignore_ascii_case(&v, 0, stem_end, &d) {
            assert(eq_ignore_ascii_case(name_stem(name@), dos_device(j as int)));
            return true;
        }
        j += 1;
    }
    false
}

fn is_forbidden(c: char) -> (r: bool)
    ensures
        r == is_forbidden_char(c),
{
    c == '\\' || c == '/' || is_control_char(c) || c == '<' || c == '>' || c == ':' || c == '"'
        || c == '|' || c == '?' || c == '*'
}

/// Whether `name` may be used as a service name (it also names the service's
/// deployment directory).
pub fn is_valid_service_name(name: &str) -> (r: bool)
    ensures
        r == valid_service_name(name@),
{
    let v = chars_of(name);
    let mut blank = true;
    let mut i: usize = 0;
    while i < v.len()
        invariant
            i <= v.len(),
            blank == (forall|j: int| 0 <= j < i ==> is_ws(#[trigger] v@[j])),
        decreases v.len() - i,
    {
        if !crate::text::is_whitespace(v[i]) {
            blank = false;
        }
        i += 1;
    }
    proof {
        lemma_trim_empty(v@);
    }
    if blank {
        return false;
    }
    if !utf16_len_at_most(&v, 256) {
        return false;
    }
    if v.len() == 1 && v[0] == '.' {
        assert(v@ =~= seq!['.']);
        return false;
    }
    if v.len() == 2 && v[0] == '.' && v[1] == '.' {
        assert(v@ =~= seq!['.', '.']);
        return false;
    }
    assert(v@ != seq!['.']) by {
        if v@ == seq!['.'] {
            assert(v@[0] == '.');
        }
    }
    assert(v@ != seq!['.', '.']) by {
        if v@ == seq!['.', '.'] {
            assert(v@[0] == '.' && v@[1] == '.');
        }
    }
    let mut k: usize = 0;
    while k < v.len()
        invariant
            k <= v.len(),
            v@ == name@,
            forall|j: int| 0 <= j < k ==> !is_forbidden_char(#[trigger] v@[j]),
        decreases v.len() - k,
    {
        if is_forbidden(v[k]) {
            assert(is_forbidden_char(name@[k as int]));
            return false;
        }
        k += 1;
    }
    let last = v[v.len() - 1];
    if last == ' ' || last == '.' {
        return false;
    }
    !is_dos_device_name(name)
}

/// The management commands that may be given without the `-m` prefix.
pub open spec fn cli_command(j: int) -> Seq<char> {
    if j == 0 {
        "--install"@
    } else if j == 1 {
        "--uninstall"@
    } else if j == 2 {
        "--start"@
    } else if j == 3 {
        "--stop"@
    } else if j == 4 {
        "--restart"@
    } else if j == 5 {
        "--status"@
    } else if j == 6 {
        "--delete"@
    } else {
        "--list"@
    }
}

fn cli_command_name(j: usize) -> (r: &'static str)
    requires
        j < 8,
    ensures
        r@ == cli_command(j as int),
{
    if j == 0 {
        "--install"
    } else if j == 1 {
        "--uninstall"
    } else if j == 2 {
        "--start"
    } else if j == 3 {
        "--stop"
    } else if j == 4 {
        "--restart"
    } else if j == 5 {
        "--status"
    } else if j == 6 {
        "--delete"
    } else {
        "--list"
    }
}

pub open spec fn is_cli_word(tag: Seq<char>) -> bool {
    exists|j: int| 0 <= j < 8 && tag == #[trigger] cli_command(j)
}

/// Whether `tag` is one of the management commands usable without `-m`.
pub fn is_cli_command(tag: &str) -> (r: bool)
    ensures
        r == is_cli_word(tag@),
{
    let v = chars_of(tag);
    let mut j: usize = 0;
    while j < 8
        invariant
            j <= 8,
            v@ == tag@,
            forall|i: int| 0 <= i < j ==> tag@ != #[trigger] cli_command(i),
        decreases 8 - j,
    {
        if chars_eq(&v, &chars_of(cli_command_name(j))) {
            assert(tag@ == cli_command(j as int));
            return true;
        }
        j += 1;
    }
    false
}

/// Whether `name` is the reserved updater name, in any ASCII case.
pub fn is_reserved_service_name(name: &str) -> (r: bool)
    ensures
        r == eq_ignore_ascii_case(name@, updater_service_name()),
{
    let v = chars_of(name);
    let u = chars_of(updater_name());
    let r = range_eq_ignore_ascii_case(&v, 0, v.len(), &u);
    assert(v@.subrange(0, v@.len() as int) =~= v@);
    r
}

/// A valid service name cannot lead its deployment directory out of the
/// services directory: it is one relative path component (no prefix, no
/// root, no separator, neither `.` nor `..`), so joining it onto a directory
/// (not a verbatim `\\?\` one) appends it after a separator, or directly when
/// the directory is empty, ends in a separator or is a bare drive.
pub proof fn lemma_valid_name_is_one_component(base: Seq<char>, n: Seq<char>)
    requires
        valid_service_name(n),
        !crate::paths::is_verbatim(base),
    ensures
        !crate::paths::has_prefix(n),
        !crate::paths::has_root(n),
        forall|i: int| 0 <= i < n.len() ==> !crate::paths::is_sep(#[trigger] n[i]),
        n != seq!['.'],
        n != seq!['.', '.'],
        crate::paths::join_of(base, n) == (if base.len() > 0 && !crate::paths::is_sep(base.last())
            && !(crate::paths::prefix_len(base) == base.len() && crate::paths::is_drive(base)
            && crate::paths::prefix_len(base) > 0) {
            base + seq!['\\'] + n
        } else {
            base + n
        }),
{
    assert(n.len() > 0) by {
        if n.len() == 0 {
            crate::text::lemma_trim_empty(n);
        }
    }
    assert(!crate::paths::is_sep(n[0]) && !is_forbidden_char(n[0]));
    if n.len() >= 2 {
        assert(!is_forbidden_char(n[1]));
    }
    assert(crate::paths::prefix_len(n) == 0);
}

} // verus!
