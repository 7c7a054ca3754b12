//! Input validation: jail names and host paths.

use vstd::prelude::*;

use crate::error::Error;
use crate::strutil::str_eq;
use crate::sys;

verus! {

/// A character admissible anywhere in a jail name.
pub open spec fn name_char_ok(c: char) -> bool {
    ('a' <= c && c <= 'z') || ('A' <= c && c <= 'Z') || ('0' <= c && c <= '9') || c == '_' || c
        == '-'
}

/// A well-formed jail name: one to sixty-four characters, each alphanumeric,
/// dash or underscore, and not beginning with a dash.
pub open spec fn name_ok(s: Seq<char>) -> bool {
    1 <= s.len() <= 64 && (forall|i: int| 0 <= i < s.len() ==> name_char_ok(#[trigger] s[i]))
        && s[0] != '-'
}

/// Accepts exactly the well-formed jail names.
pub fn validate_jail_name(name: &str) -> (r: Result<(), Error>)
    ensures
        r.is_ok() <==> name_ok(name@),
        r matches Err(e) ==> e matches Error::InvalidJailName(n) && n@ == name@,
{
    let len = name.unicode_len();
    if len == 0 || len > 64 {
        return Err(Error::InvalidJailName(name.to_owned()));
    }
    let mut i: usize = 0;
    while i < len
        invariant
            0 < len <= 64,
            len == name@.len(),
            i <= len,
            forall|j: int| 0 <= j < i ==> name_char_ok(#[trigger] name@[j]),
        decreases len - i,
    {
        let c = name.get_char(i);
        let ok = ('a' <= c && c <= 'z') || ('A' <= c && c <= 'Z') || ('0' <= c && c <= '9') || c
            == '_' || c == '-';
        if !ok {
            return Err(Error::InvalidJailName(name.to_owned()));
        }
        i = i + 1;
    }
    if name.get_char(0) == '-' {
        return Err(Error::InvalidJailName(name.to_owned()));
    }
    Ok(())
}

/// The decision behind the existence check: a path the host reports
/// present passes, any other is reported missing, by name.
pub fn path_found(path: &str, exists: bool) -> (r: Result<(), Error>)
    ensures
        r.is_ok() <==> exists,
        r matches Err(e) ==> e matches Error::PathNotFound(p) && p@ == path@,
{
    if exists {
        Ok(())
    } else {
        Err(Error::PathNotFound(path.to_owned()))
    }
}

/// Requires the path to exist on the host; the host's answer decides
/// through `path_found`.
pub fn validate_path_exists(path: &str) -> (r: Result<(), Error>)
    ensures
        r matches Err(e) ==> e matches Error::PathNotFound(p) && p@ == path@,
{
    let exists = sys::host_path_exists(path);
    path_found(path, exists)
}

/// The decision behind the repository check: the path must exist and hold
/// a `.git` entry; a missing path outranks a missing `.git`, and either
/// failure names the path.
pub fn repo_check(path: &str, exists: bool, has_git: bool) -> (r: Result<(), Error>)
    ensures
        r.is_ok() <==> (exists && has_git),
        !exists ==> (r matches Err(e) && e matches Error::PathNotFound(p) && p@ == path@),
        exists && !has_git ==> (r matches Err(e) && e matches Error::NotGitRepo(p) && p@
            == path@),
{
    if !exists {
        Err(Error::PathNotFound(path.to_owned()))
    } else if !has_git {
        Err(Error::NotGitRepo(path.to_owned()))
    } else {
        Ok(())
    }
}

/// Requires the path to exist and to hold a `.git` entry, i.e. to be the
/// root of a repository checkout; the host's answers decide through
/// `repo_check`.
pub fn validate_git_repo(path: &str) -> (r: Result<(), Error>)
    ensures
        r matches Err(e) ==> (e matches Error::PathNotFound(p) && p@ == path@) || (
        e matches Error::NotGitRepo(p) && p@ == path@),
{
    let exists = sys::host_path_exists(path);
    let git_dir = join_path(path, ".git");
    let has_git = sys::host_path_exists(git_dir.as_str());
    repo_check(path, exists, has_git)
}

/// `base` extended with one more component.
pub fn join_path(base: &str, component: &str) -> (r: String)
    ensures
        r@ == base@ + "/"@ + component@,
{
    let mut s = base.to_owned();
    s.append("/");
    s.append(component);
    s
}

/// The sysctl gate for unprivileged user namespaces allows them when its
/// value reads `1` (up to surrounding whitespace handled by the caller).
pub open spec fn sysctl_allows_userns(v: Seq<char>) -> bool {
    v == "1"@
}

/// Decides availability of user namespaces from the sysctl probe: a missing
/// sysctl file leaves the question to the first real unshare, so it passes.
pub fn check_user_namespaces(sysctl_present: bool, sysctl_value: &str) -> (r: Result<(), Error>)
    ensures
        r.is_ok() <==> (!sysctl_present || sysctl_allows_userns(sysctl_value@)),
        r matches Err(e) ==> e matches Error::NamespacesUnavailable,
{
    if !sysctl_present {
        return Ok(());
    }
    if str_eq(sysctl_value, "1") {
        Ok(())
    } else {
        Err(Error::NamespacesUnavailable)
    }
}

} // verus!
