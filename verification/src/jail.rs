//! Lifecycle decisions for jails: naming, the destroy guard, the worktree
//! removal retry rule, the wait-loop decisions, entrypoint handling, and
//! the presentation helpers for listing.
//!
//! The version-control tool and the process plumbing live outside; every
//! rule they act on is decided here.

use vstd::prelude::*;

use crate::error::Error;
use crate::strutil::{concat2, has_prefix};

verus! {

/// The words `shell_words::split` produces for a command line, by shell
/// quoting rules, or nothing for a malformed line; they depend on the
/// line alone.
pub uninterp spec fn shell_words_of(line: Seq<char>) -> Option<Seq<Seq<char>>>;

/// Relies on `shell_words::split`: splits a command line into words by
/// shell quoting rules; a line with unbalanced quoting is refused.
#[verifier::external_body]
pub fn shell_split(line: &str) -> (r: Result<Vec<String>, ()>)
    ensures
        r matches Ok(ws) ==> shell_words_of(line@) matches Some(l) && ws.deep_view() == l,
        r is Err ==> shell_words_of(line@) is None,
{
    shell_words::split(line).map_err(|_| ())
}

/// The dedicated branch for a jail: the fixed prefix, the jail's name,
/// and a fresh eight-digit hexadecimal suffix.
pub fn branch_name_for(name: &str, hex8: &str) -> (r: String)
    ensures
        r@ == "robojail/"@ + name@ + "-"@ + hex8@,
{
    let mut s = concat2("robojail/", name);
    s.append("-");
    s.append(hex8);
    proof {
        assert(s@ =~= "robojail/"@ + name@ + "-"@ + hex8@);
    }
    s
}

/// The branch as shown in listings: the fixed prefix is dropped.
pub fn branch_display(branch: &str) -> (r: String)
    ensures
        ("robojail/"@).is_prefix_of(branch@) ==> r@ == branch@.skip("robojail/"@.len() as int),
        !("robojail/"@).is_prefix_of(branch@) ==> r@ == branch@,
{
    if has_prefix(branch, "robojail/") {
        let n = "robojail/".unicode_len();
        let rest = branch.substring_char(n, branch.unicode_len());
        proof {
            assert(branch@.subrange("robojail/"@.len() as int, branch@.len() as int)
                =~= branch@.skip("robojail/"@.len() as int));
        }
        rest.to_owned()
    } else {
        branch.to_owned()
    }
}

/// The path's last component, for display: what follows the last slash,
/// or the path itself when it has none.
pub fn basename_of(path: &str) -> (r: String)
    ensures
        r@ == (if exists|i: int| 0 <= i < path@.len() && path@[i] == '/' {
            path@.skip(last_slash_index(path@) + 1)
        } else {
            path@
        }),
{
    let len = path.unicode_len();
    let mut i: usize = len;
    while i > 0
        invariant
            i <= len,
            len == path@.len(),
            forall|j: int| i <= j < len ==> path@[j] != '/',
        decreases i,
    {
        i = i - 1;
        if path.get_char(i) == '/' {
            proof {
                lemma_last_slash_index(path@, i as int);
            }
            let rest = path.substring_char(i + 1, len);
            proof {
                assert(path@.subrange(i + 1, len as int) =~= path@.skip(i + 1));
            }
            return rest.to_owned();
        }
    }
    proof {
        assert(forall|j: int| 0 <= j < path@.len() ==> path@[j] != '/');
    }
    path.to_owned()
}

/// The index of the last slash of a path that has one.
pub open spec fn last_slash_index(p: Seq<char>) -> int {
    choose|i: int| 0 <= i < p.len() && p[i] == '/' && (forall|j: int| i < j < p.len() ==> p[j] != '/')
}

/// A slash with none after it is the last one.
proof fn lemma_last_slash_index(p: Seq<char>, i: int)
    requires
        0 <= i < p.len(),
        p[i] == '/',
        forall|j: int| i < j < p.len() ==> p[j] != '/',
    ensures
        last_slash_index(p) == i,
{
    let w = last_slash_index(p);
    assert(0 <= w < p.len() && p[w] == '/' && (forall|j: int| w < j < p.len() ==> p[j] != '/'));
    if w < i {
        assert(p[i] != '/');
    }
    if w > i {
        assert(p[w] != '/');
    }
}

/// A string shortened for a table column: untouched when it fits, else
/// cut and closed with an ellipsis of three dots.
pub fn truncate(s: &str, max: usize) -> (r: String)
    requires
        max >= 3,
    ensures
        s@.len() <= max ==> r@ == s@,
        s@.len() > max ==> r@ == s@.subrange(0, max - 3) + "..."@,
        r@.len() <= max,
{
    let len = s.unicode_len();
    if len <= max {
        s.to_owned()
    } else {
        let head = s.substring_char(0, max - 3);
        let mut r = head.to_owned();
        r.append("...");
        proof {
            reveal_strlit("...");
        }
        r
    }
}

/// The status column of a listing: `running` exactly when a recorded
/// process id is still alive.
pub fn status_label(pid_present: bool, alive: bool) -> (r: &'static str)
    ensures
        pid_present && alive ==> r@ == "running"@,
        !(pid_present && alive) ==> r@ == "stopped"@,
{
    if pid_present && alive {
        "running"
    } else {
        "stopped"
    }
}

/// The destroy guard: a jail whose recorded process is still alive is
/// refused without `force` and reported as running; with `force` the
/// caller must kill it first; a dead or absent process needs no killing.
pub fn destroy_precheck(name: &str, pid_present: bool, alive: bool, force: bool) -> (r: Result<
    bool,
    Error,
>)
    ensures
        r is Err <==> (pid_present && alive && !force),
        r matches Err(e) ==> e matches Error::JailRunning(n) && n@ == name@,
        r matches Ok(kill) ==> (kill <==> (pid_present && alive)),
{
    if pid_present && alive {
        if force {
            Ok(true)
        } else {
            Err(Error::JailRunning(name.to_owned()))
        }
    } else {
        Ok(false)
    }
}

/// `sub` occurs somewhere in `s`.
pub open spec fn contains_sub(s: Seq<char>, sub: Seq<char>) -> bool {
    exists|i: int| 0 <= i <= s.len() - sub.len() && sub.is_prefix_of(s.skip(i))
}

/// Whether `sub` occurs somewhere in `s`.
pub fn str_contains(s: &str, sub: &str) -> (r: bool)
    ensures
        r == contains_sub(s@, sub@),
{
    let sl = s.unicode_len();
    let bl = sub.unicode_len();
    if bl == 0 {
        proof {
            assert(sub@.is_prefix_of(s@.skip(0)));
        }
        return true;
    }
    if bl > sl {
        proof {
            assert(!contains_sub(s@, sub@)) by {
                if contains_sub(s@, sub@) {
                    let i = choose|i: int|
                        0 <= i <= s@.len() - sub@.len() && sub@.is_prefix_of(s@.skip(i));
                }
            }
        }
        return false;
    }
    let mut i: usize = 0;
    while i <= sl - bl
        invariant
            bl <= sl,
            sl == s@.len(),
            bl == sub@.len(),
            i <= sl - bl + 1,
            forall|k: int| 0 <= k < i ==> !sub@.is_prefix_of(s@.skip(k)),
        decreases sl - bl + 1 - i,
    {
        let mut j: usize = 0;
        let mut matched = true;
        while j < bl
            invariant
                i + bl <= sl,
                sl == s@.len(),
                bl == sub@.len(),
                j <= bl,
                matched ==> forall|k: int| 0 <= k < j ==> s@[i + k] == sub@[k],
                !matched ==> !sub@.is_prefix_of(s@.skip(i as int)),
            decreases bl - j,
        {
            if s.get_char(i + j) != sub.get_char(j) {
                matched = false;
                proof {
                    assert(s@.skip(i as int)[j as int] == s@[i + j]);
                    assert(!sub@.is_prefix_of(s@.skip(i as int)));
                }
                j = bl;
            } else {
                j = j + 1;
            }
        }
        if matched {
            proof {
                assert forall|k: int| 0 <= k < bl implies sub@[k] == s@.skip(i as int)[k] by {
                    assert(s@[i + k] == sub@[k]);
                }
                assert(sub@ =~= s@.skip(i as int).subrange(0, bl as int));
                assert(sub@.is_prefix_of(s@.skip(i as int)));
            }
            return true;
        }
        i = i + 1;
    }
    proof {
        assert(!contains_sub(s@, sub@)) by {
            if contains_sub(s@, sub@) {
                let k = choose|k: int|
                    0 <= k <= s@.len() - sub@.len() && sub@.is_prefix_of(s@.skip(k));
                assert(!sub@.is_prefix_of(s@.skip(k)));
            }
        }
    }
    false
}

/// The worktree removal retry rule: a failed removal is retried with the
/// tool's force flag when destruction was forced, or when the tool's
/// complaint names a dirty or untracked worktree.
pub fn removal_retries_with_force(force: bool, stderr: &str) -> (r: bool)
    ensures
        r == (force || contains_sub(stderr@, "dirty"@) || contains_sub(stderr@, "untracked"@)),
{
    force || str_contains(stderr, "dirty") || str_contains(stderr, "untracked")
}

/// Splits an entrypoint line into its words; a malformed line and an
/// empty line are configuration errors.
pub fn entrypoint_parts(line: &str) -> (r: Result<Vec<String>, Error>)
    ensures
        r matches Ok(ws) ==> (shell_words_of(line@) matches Some(l) && ws.deep_view() == l
            && l.len() > 0),
        r matches Err(e) ==> e matches Error::Config(m),
        (shell_words_of(line@) matches Some(l) && l.len() > 0) ==> r is Ok,
{
    match shell_split(line) {
        Err(_) => Err(Error::Config("invalid entrypoint syntax".to_owned())),
        Ok(ws) => {
            if ws.len() == 0 {
                proof {
                    assert(ws.deep_view().len() == 0);
                }
                Err(Error::Config("entrypoint cannot be empty".to_owned()))
            } else {
                proof {
                    assert(ws.deep_view().len() == ws@.len());
                }
                Ok(ws)
            }
        },
    }
}

/// Resolves an entrypoint command that is an absolute path: it must exist
/// on the host. A bare name yields nothing here: it is looked up on the
/// search path by the embedding program.
pub fn resolve_absolute_command(cmd: &str, exists_on_host: bool) -> (r: Result<
    Option<String>,
    Error,
>)
    ensures
        has_prefix_slash(cmd@) && exists_on_host ==> (r matches Ok(p) && p matches Some(q) && q@
            == cmd@),
        has_prefix_slash(cmd@) && !exists_on_host ==> (r matches Err(e) && e matches Error::Config(
            m,
        )),
        !has_prefix_slash(cmd@) ==> (r matches Ok(p) && p is None),
{
    if has_prefix(cmd, "/") {
        proof {
            reveal_strlit("/");
            assert(cmd@.subrange(0, 1)[0] == cmd@[0]);
            assert(has_prefix_slash(cmd@));
        }
        if exists_on_host {
            Ok(Some(cmd.to_owned()))
        } else {
            Err(Error::Config("entrypoint not found".to_owned()))
        }
    } else {
        proof {
            assert(!has_prefix_slash(cmd@)) by {
                reveal_strlit("/");
                if has_prefix_slash(cmd@) {
                    assert(cmd@[0] == '/');
                    assert("/"@.len() == 1);
                    assert("/"@ =~= cmd@.subrange(0, 1));
                    assert(("/"@).is_prefix_of(cmd@));
                }
            }
        }
        Ok(None)
    }
}

/// An absolute path: it opens with a slash.
pub open spec fn has_prefix_slash(p: Seq<char>) -> bool {
    p.len() > 0 && p[0] == '/'
}

/// One observation of the wait loop in the parent.
pub enum WaitEvent {
    /// The child exited on its own with this code.
    Exited(i32),
    /// The child was terminated by this signal.
    Signaled(i32),
    /// Some other status change; the wait goes on.
    Other,
    /// The wait itself was interrupted; it is retried.
    Interrupted,
    /// The wait failed with this errno.
    Failed(i32),
}

/// What the parent does next after one wait observation.
pub enum WaitStep {
    /// The sandbox run is over with this exit code.
    Done(i32),
    /// Wait again.
    Again,
    /// Give up with this error.
    Fail(Error),
}

/// The parent's wait rule: a normal exit keeps its code, a death by
/// signal becomes half of two hundred fifty-six plus the signal number,
/// interruptions and other status changes wait again, and a failed wait
/// is a system error.
pub fn wait_decision(e: &WaitEvent) -> (r: WaitStep)
    requires
        e matches WaitEvent::Signaled(sig) ==> 0 <= *sig <= 64,
    ensures
        e matches WaitEvent::Exited(c) ==> (r matches WaitStep::Done(d) && d == *c),
        e matches WaitEvent::Signaled(sig) ==> (r matches WaitStep::Done(d) && d == 128 + *sig),
        (e is Other || e is Interrupted) ==> r is Again,
        e matches WaitEvent::Failed(n) ==> (r matches WaitStep::Fail(err) && err matches Error::Sys(
            m,
        ) && m == *n),
{
    match e {
        WaitEvent::Exited(c) => WaitStep::Done(*c),
        WaitEvent::Signaled(sig) => WaitStep::Done(128 + *sig),
        WaitEvent::Other => WaitStep::Again,
        WaitEvent::Interrupted => WaitStep::Again,
        WaitEvent::Failed(n) => WaitStep::Fail(Error::Sys(*n)),
    }
}

} // verus!
