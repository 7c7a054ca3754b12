//! Namespace setup for the sandbox child: the user namespace with its
//! identity maps, then the mount, IPC, UTS and (optionally) network
//! namespaces.
//!
//! The identity maps are written in the one order the kernel accepts:
//! `uid_map` first, then `setgroups` set to `deny` — without which recent
//! kernels refuse the group map for a caller without `CAP_SETGID` — and
//! `gid_map` last.

use vstd::prelude::*;

use crate::error::Error;
use crate::strutil::u64_to_dec;
use crate::sys;

verus! {

/// The errno of an unshare the kernel refuses outright.
pub const EPERM_CODE: i32 = 1;

/// Classifies a failed user-namespace unshare: a flat permission error
/// means the kernel forbids unprivileged user namespaces, and every other
/// errno is an ordinary setup failure.
pub fn classify_unshare_error(errno: i32) -> (r: Error)
    ensures
        errno == EPERM_CODE <==> r matches Error::NamespacesUnavailable,
        errno != EPERM_CODE ==> r matches Error::SandboxSetup(m),
{
    if errno == EPERM_CODE {
        Error::NamespacesUnavailable
    } else {
        Error::SandboxSetup("failed to create user namespace".to_owned())
    }
}

/// Writes `content` whole into an existing pseudo-file.
pub fn write_proc_file(path: &str, content: &str) -> (r: Result<(), Error>)
    ensures
        r matches Err(e) ==> e matches Error::SandboxSetup(m),
{
    let fd = match sys::open_existing_for_write(path) {
        Ok(fd) => fd,
        Err(_) => {
            return Err(Error::SandboxSetup("failed to open a process pseudo-file".to_owned()));
        },
    };
    let buf = content.as_bytes_vec();
    let mut off: usize = 0;
    while off < buf.len()
        invariant
            off <= buf@.len(),
        decreases buf@.len() - off,
    {
        match sys::write_fd(fd, &buf, off) {
            Ok(n) => {
                if n == 0 {
                    let _ = sys::close_fd(fd);
                    return Err(
                        Error::SandboxSetup("a pseudo-file write made no progress".to_owned()),
                    );
                }
                off = off + n;
            },
            Err(_) => {
                let _ = sys::close_fd(fd);
                return Err(Error::SandboxSetup("failed to write a pseudo-file".to_owned()));
            },
        }
    }
    let _ = sys::close_fd(fd);
    Ok(())
}

/// The identity-map line mapping root inside the namespace to `outer_id`
/// outside it.
pub fn identity_map_line(outer_id: u32) -> (r: String)
    ensures
        r@ == "0 "@ + crate::strutil::dec_nat(outer_id as nat) + " 1"@,
{
    let mut m = "0 ".to_owned();
    let digits = u64_to_dec(outer_id as u64);
    m.append(digits.as_str());
    m.append(" 1");
    m
}

/// Creates the user namespace and installs the identity maps, in the
/// kernel's required order. A flatly refused unshare reports that
/// namespaces are unavailable; everything else is a setup failure.
pub fn setup_user_namespace() -> (r: Result<(), Error>)
    ensures
        r matches Err(e) ==> e matches Error::NamespacesUnavailable || e matches
            Error::SandboxSetup(m),
{
    let uid = sys::current_uid();
    let gid = sys::current_gid();
    match sys::unshare_user() {
        Ok(()) => {},
        Err(e) => {
            return Err(classify_unshare_error(e));
        },
    }
    let uid_map = identity_map_line(uid);
    write_proc_file("/proc/self/uid_map", uid_map.as_str())?;
    write_proc_file("/proc/self/setgroups", "deny")?;
    let gid_map = identity_map_line(gid);
    write_proc_file("/proc/self/gid_map", gid_map.as_str())?;
    Ok(())
}

/// Unshares the mount, IPC and UTS namespaces, and the network namespace
/// unless it is shared; then names the UTS namespace, best effort.
pub fn setup_other_namespaces(share_net: bool) -> (r: Result<(), Error>)
    ensures
        r matches Err(e) ==> e matches Error::SandboxSetup(m),
{
    let unshared = if share_net {
        sys::unshare_mount_ipc_uts()
    } else {
        sys::unshare_mount_ipc_uts_net()
    };
    match unshared {
        Ok(()) => {},
        Err(_) => {
            return Err(Error::SandboxSetup("failed to create namespaces".to_owned()));
        },
    }
    let _ = sys::set_hostname("robojail");
    Ok(())
}

} // verus!
