//! The PowerShell commands that harden a deployment directory and read an
//! object's security descriptor, with the path quoted for a single-quoted
//! PowerShell string.

use vstd::prelude::*;
use crate::template::{f2, fill, replace_all, replace_exec};
use crate::text::{chars_of, extend, string_from_chars, trim, trim_bounds, sub_vec};

verus! {

/// A path as it goes between single quotes in PowerShell: every `'` doubled.
pub open spec fn ps_quoted_of(path: Seq<char>) -> Seq<char> {
    replace_all(path, seq!['\''], seq!['\'', '\''])
}

/// Doubles the single quotes of a path.
pub fn ps_quoted(path: &str) -> (r: Vec<char>)
    ensures
        r@ == ps_quoted_of(path@),
{
    let q = vec!['\''];
    let qq = vec!['\'', '\''];
    assert(q@ =~= seq!['\'']);
    assert(qq@ =~= seq!['\'', '\'']);
    replace_exec(&chars_of(path), &q, &qq)
}

/// The fixed middle of the hardening script: protect the ACL from
/// inheritance, drop every rule, grant full control to SYSTEM (S-1-5-18) and
/// Administrators (S-1-5-32-544) only.
pub open spec fn harden_rules() -> Seq<char> {
    "$a.SetAccessRuleProtection($true,$false);"@
        + "$a.Access | ForEach-Object { $a.RemoveAccessRuleSpecific($_) };"@
        + "$a.AddAccessRule((New-Object Security.AccessControl.FileSystemAccessRule((New-Object Security.Principal.SecurityIdentifier('S-1-5-18')),'FullControl','ContainerInherit,ObjectInherit','None','Allow')));"@
        + "$a.AddAccessRule((New-Object Security.AccessControl.FileSystemAccessRule((New-Object Security.Principal.SecurityIdentifier('S-1-5-32-544')),'FullControl','ContainerInherit,ObjectInherit','None','Allow')));"@
}

/// The script that hardens the ACL of `path`.
pub open spec fn harden_script_of(path: Seq<char>) -> Seq<char> {
    "$a=Get-Acl -LiteralPath '"@ + ps_quoted_of(path) + "';"@ + harden_rules()
        + "Set-Acl -LiteralPath '"@ + ps_quoted_of(path) + "' -AclObject $a"@
}

/// The PowerShell script that hardens the ACL of `path`.
pub fn harden_script(path: &str) -> (r: String)
    ensures
        r@ == harden_script_of(path@),
{
    let e = ps_quoted(path);
    let mut v = chars_of("$a=Get-Acl -LiteralPath '");
    extend(&mut v, &e);
    extend(&mut v, &chars_of("';"));
    extend(&mut v, &chars_of("$a.SetAccessRuleProtection($true,$false);"));
    extend(&mut v, &chars_of("$a.Access | ForEach-Object { $a.RemoveAccessRuleSpecific($_) };"));
    extend(
        &mut v,
        &chars_of(
            "$a.AddAccessRule((New-Object Security.AccessControl.FileSystemAccessRule((New-Object Security.Principal.SecurityIdentifier('S-1-5-18')),'FullControl','ContainerInherit,ObjectInherit','None','Allow')));",
        ),
    );
    extend(
        &mut v,
        &chars_of(
            "$a.AddAccessRule((New-Object Security.AccessControl.FileSystemAccessRule((New-Object Security.Principal.SecurityIdentifier('S-1-5-32-544')),'FullControl','ContainerInherit,ObjectInherit','None','Allow')));",
        ),
    );
    extend(&mut v, &chars_of("Set-Acl -LiteralPath '"));
    extend(&mut v, &e);
    extend(&mut v, &chars_of("' -AclObject $a"));
    assert(v@ =~= harden_script_of(path@));
    string_from_chars(&v)
}

/// The script that prints the owner and DACL of `path` in SDDL form.
pub open spec fn sddl_query_script_of(path: Seq<char>) -> Seq<char> {
    "(Get-Acl -LiteralPath '"@ + ps_quoted_of(path) + "').GetSecurityDescriptorSddlForm(6)"@
}

/// The PowerShell script that prints the owner and DACL of `path`.
pub fn sddl_query_script(path: &str) -> (r: String)
    ensures
        r@ == sddl_query_script_of(path@),
{
    let mut v = chars_of("(Get-Acl -LiteralPath '");
    extend(&mut v, &ps_quoted(path));
    extend(&mut v, &chars_of("').GetSecurityDescriptorSddlForm(6)"));
    string_from_chars(&v)
}

/// What the hardening warning gives as the reason: the hardening script's
/// error output, trimmed, when it ran and failed; a fixed text otherwise.
pub open spec fn harden_detail_of(acl_error: Option<Seq<char>>) -> Seq<char> {
    match acl_error {
        Some(e) => trim(e),
        None => "ACL hardening failed"@,
    }
}

/// The warning printed when hardening failed.
pub open spec fn harden_warning_of(path: Seq<char>, acl_error: Option<Seq<char>>) -> Seq<char> {
    fill(
        "Warning: failed to secure deployment directory '{0}': {1}"@,
        seq![path, harden_detail_of(acl_error)],
        2,
    )
}

/// The warning for a directory that could not be hardened.
pub fn harden_warning(path: &str, acl_error: Option<&str>) -> (r: String)
    ensures
        r@ == harden_warning_of(
            path@,
            match acl_error {
                Some(e) => Some(e@),
                None => None,
            },
        ),
{
    let ghost o: Option<Seq<char>> = match acl_error {
        Some(e) => Some(e@),
        None => None,
    };
    let detail = match acl_error {
        Some(e) => {
            let v = chars_of(e);
            let (a, b) = trim_bounds(&v, 0, v.len());
            assert(v@.subrange(0, v@.len() as int) =~= v@);
            string_from_chars(&sub_vec(&v, a, b))
        },
        None => "ACL hardening failed".to_owned(),
    };
    assert(detail@ == harden_detail_of(o));
    f2("Warning: failed to secure deployment directory '{0}': {1}", path, detail.as_str())
}

} // verus!
