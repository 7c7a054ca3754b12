//! Security hardening of the sandbox child: the no-new-privileges flag, so
//! that exec of setuid binaries gains nothing, and a fresh session, so the
//! child cannot inject input into the controlling terminal. Capabilities
//! are not dropped: inside the user namespace they reach no host resource.

use vstd::prelude::*;

use crate::error::Error;
use crate::sys;

verus! {

/// The errno a setsid gets when the caller already leads a session.
pub const EPERM_CODE: i32 = 1;

/// Raises the no-new-privileges flag of this process.
pub fn set_no_new_privs() -> (r: Result<(), Error>)
    ensures
        r matches Err(e) ==> e matches Error::SandboxSetup(m),
{
    match sys::raise_no_new_privs() {
        Ok(()) => Ok(()),
        Err(_) => Err(Error::SandboxSetup("failed to set the no-new-privileges flag".to_owned())),
    }
}

/// The decision on a setsid outcome: success, and the flat permission
/// refusal a session leader gets, both count as a session of one's own;
/// every other errno is a setup failure.
pub fn setsid_outcome(r: Result<i32, i32>) -> (out: Result<(), Error>)
    ensures
        out.is_ok() <==> (r is Ok || (r matches Err(e) && e == EPERM_CODE)),
        out matches Err(oe) ==> oe matches Error::SandboxSetup(m),
{
    match r {
        Ok(_) => Ok(()),
        Err(e) => {
            if e == EPERM_CODE {
                Ok(())
            } else {
                Err(Error::SandboxSetup("failed to start a new session".to_owned()))
            }
        },
    }
}

/// Starts a new session; being a session leader already is not a failure,
/// as `setsid_outcome` decides.
pub fn create_new_session() -> (r: Result<(), Error>)
    ensures
        r matches Err(e) ==> e matches Error::SandboxSetup(m),
{
    let started = sys::new_session();
    setsid_outcome(started)
}

/// Applies the hardening steps in order: no-new-privileges, then the new
/// session.
pub fn apply_security_restrictions() -> (r: Result<(), Error>)
    ensures
        r matches Err(e) ==> e matches Error::SandboxSetup(m),
{
    set_no_new_privs()?;
    create_new_session()?;
    Ok(())
}

} // verus!
