//! Mount primitives for the sandbox filesystem, and the small file helpers
//! the assembly needs where the standard library is out of reach.
//!
//! All primitives operate on absolute paths already inside the new mount
//! namespace. A failed mount reports the target path it was aimed at.

use vstd::prelude::*;

use crate::error::Error;
use crate::strutil::concat2;
use crate::sys;
use crate::validation::join_path;

verus! {

/// The errno for a directory that already exists.
pub const EEXIST_CODE: i32 = 17;

/// How many buffer-sized read rounds a host-file copy may take; with the
/// four-kilobyte buffer this caps a copied file at sixty-four megabytes.
pub const COPY_CAP_ROUNDS: usize = 16384;

/// Marks the whole existing mount tree private, so sandbox mounts do not
/// propagate back to the host.
pub fn make_mounts_private() -> (r: Result<(), Error>)
    ensures
        r matches Err(e) ==> (e matches Error::MountFailed { path, errno } && path@ == "/"@),
{
    match sys::mount_private_root() {
        Ok(()) => Ok(()),
        Err(e) => Err(Error::MountFailed { path: "/".to_owned(), errno: e }),
    }
}

/// Mounts a tmpfs at `target`: no setuid honoring, no device nodes, half a
/// gigabyte at most.
pub fn mount_tmpfs(target: &str) -> (r: Result<(), Error>)
    ensures
        r matches Err(e) ==> (e matches Error::MountFailed { path, errno } && path@ == target@),
{
    match sys::mount_tmpfs_nosuid_nodev(target, "mode=0755,size=512M") {
        Ok(()) => Ok(()),
        Err(e) => Err(Error::MountFailed { path: target.to_owned(), errno: e }),
    }
}

/// Binds `source` onto `target`, recursively. A read-only bind takes a
/// second remount step, because the initial bind ignores the read-only
/// flag; failure of that second step is a hard error, never a mount left
/// silently writable.
pub fn bind_mount(source: &str, target: &str, readonly: bool) -> (r: Result<(), Error>)
    ensures
        r matches Err(e) ==> (e matches Error::MountFailed { path, errno } && path@ == target@),
{
    match sys::mount_bind(source, target) {
        Ok(()) => {},
        Err(e) => {
            return Err(Error::MountFailed { path: target.to_owned(), errno: e });
        },
    }
    if readonly {
        match sys::mount_remount_readonly(target) {
            Ok(()) => {},
            Err(e) => {
                return Err(Error::MountFailed { path: target.to_owned(), errno: e });
            },
        }
    }
    Ok(())
}

/// Mirrors the host's process filesystem at `target`. It is a writable
/// bind of the host mount: a fresh procfs would need a pid namespace, and
/// some entries refuse a read-only remount.
pub fn mount_proc(target: &str) -> (r: Result<(), Error>)
    ensures
        r matches Err(e) ==> (e matches Error::MountFailed { path, errno } && path@ == target@),
{
    bind_mount("/proc", target, false)
}

/// The decision on a directory-creation outcome: success, and the
/// already-exists refusal, both count as the directory being in place;
/// every other errno is a system error carried through unchanged.
pub fn mkdir_outcome(r: Result<(), i32>) -> (out: Result<(), Error>)
    ensures
        out.is_ok() <==> (r is Ok || (r matches Err(e) && e == EEXIST_CODE)),
        r matches Err(e) ==> (e == EEXIST_CODE || (out matches Err(oe) && oe matches Error::Sys(n)
            && n == e)),
{
    match r {
        Ok(()) => Ok(()),
        Err(e) => {
            if e == EEXIST_CODE {
                Ok(())
            } else {
                Err(Error::Sys(e))
            }
        },
    }
}

/// Creates one directory; one that already exists is fine, as
/// `mkdir_outcome` decides.
pub fn ensure_dir(path: &str) -> (r: Result<(), Error>)
    ensures
        r matches Err(e) ==> e matches Error::Sys(n),
{
    let made = sys::make_dir(path);
    mkdir_outcome(made)
}

/// Creates a directory and every missing ancestor of it.
pub fn ensure_dir_all(path: &str) -> (r: Result<(), Error>)
    ensures
        r matches Err(e) ==> e matches Error::Sys(n),
{
    let len = path.unicode_len();
    let mut i: usize = 1;
    while i < len
        invariant
            1 <= i,
            len == path@.len(),
        decreases len - i,
    {
        if path.get_char(i) == '/' {
            let prefix = path.substring_char(0, i);
            ensure_dir(prefix)?;
        }
        i = i + 1;
    }
    if len > 0 {
        ensure_dir(path)?;
    }
    Ok(())
}

/// Reads a whole (small) file into memory.
pub fn read_file(path: &str) -> (r: Result<Vec<u8>, Error>)
    ensures
        r matches Err(e) ==> e matches Error::Sys(n),
{
    let fd = match sys::open_for_read(path) {
        Ok(fd) => fd,
        Err(e) => {
            return Err(Error::Sys(e));
        },
    };
    let mut out: Vec<u8> = Vec::new();
    let mut buf: Vec<u8> = vec![0u8; 4096];
    let mut rounds: usize = COPY_CAP_ROUNDS;
    while rounds > 0
        invariant
            buf@.len() == 4096,
        decreases rounds,
    {
        match sys::read_fd(fd, &mut buf) {
            Ok(n) => {
                if n == 0 {
                    let _ = sys::close_fd(fd);
                    return Ok(out);
                }
                let mut j: usize = 0;
                while j < n
                    invariant
                        n <= buf@.len(),
                    decreases n - j,
                {
                    out.push(buf[j]);
                    j = j + 1;
                }
            },
            Err(e) => {
                let _ = sys::close_fd(fd);
                return Err(Error::Sys(e));
            },
        }
        rounds = rounds - 1;
    }
    let _ = sys::close_fd(fd);
    Err(Error::Sys(0))
}

/// Writes `data` whole into the file at `path`, creating or truncating it.
pub fn write_file(path: &str, data: &Vec<u8>) -> (r: Result<(), Error>)
    ensures
        r matches Err(e) ==> e matches Error::Sys(n),
{
    let fd = match sys::open_for_write(path) {
        Ok(fd) => fd,
        Err(e) => {
            return Err(Error::Sys(e));
        },
    };
    let mut off: usize = 0;
    while off < data.len()
        invariant
            off <= data@.len(),
        decreases data@.len() - off,
    {
        match sys::write_fd(fd, data, off) {
            Ok(n) => {
                if n == 0 {
                    let _ = sys::close_fd(fd);
                    return Err(Error::Sys(0));
                }
                off = off + n;
            },
            Err(e) => {
                let _ = sys::close_fd(fd);
                return Err(Error::Sys(e));
            },
        }
    }
    let _ = sys::close_fd(fd);
    Ok(())
}

/// Copies the bytes of a host file, best effort: a missing source or a
/// failed read or write is ignored.
pub fn copy_host_file(source: &str, target: &str) {
    if sys::host_path_exists(source) {
        match read_file(source) {
            Ok(data) => {
                let _ = write_file(target, &data);
            },
            Err(_) => {},
        }
    }
}

/// Builds `/dev` at `target`: a small tmpfs, the essential device nodes
/// bound over empty files, a fresh pseudo-terminal instance and the usual
/// symlinks where the host allows them, and a shared-memory tmpfs.
pub fn setup_dev(target: &str) -> (r: Result<(), Error>)
    ensures
        r matches Err(e) ==> e matches Error::MountFailed { path, errno } || e matches Error::Sys(
            n,
        ),
{
    match sys::mount_tmpfs_nosuid_noexec(target, "mode=0755,size=64K") {
        Ok(()) => {},
        Err(e) => {
            return Err(Error::MountFailed { path: target.to_owned(), errno: e });
        },
    }
    let mut devices: Vec<&str> = Vec::new();
    devices.push("null");
    devices.push("zero");
    devices.push("random");
    devices.push("urandom");
    devices.push("tty");
    let mut i: usize = 0;
    while i < devices.len()
        decreases devices@.len() - i,
    {
        let dev = devices[i];
        let src = concat2("/dev/", dev);
        let dst = join_path(target, dev);
        if sys::host_path_exists(src.as_str()) {
            let empty: Vec<u8> = Vec::new();
            write_file(dst.as_str(), &empty)?;
            match bind_mount(src.as_str(), dst.as_str(), false) {
                Ok(()) => {},
                Err(e) => {
                    return Err(e);
                },
            }
        }
        i = i + 1;
    }
    let pts = join_path(target, "pts");
    ensure_dir_all(pts.as_str())?;
    let _ = sys::mount_devpts(pts.as_str(), "newinstance,ptmxmode=0666,mode=0620");
    let _ = sys::make_symlink("pts/ptmx", join_path(target, "ptmx").as_str());
    let _ = sys::make_symlink("/proc/self/fd", join_path(target, "fd").as_str());
    let _ = sys::make_symlink("/proc/self/fd/0", join_path(target, "stdin").as_str());
    let _ = sys::make_symlink("/proc/self/fd/1", join_path(target, "stdout").as_str());
    let _ = sys::make_symlink("/proc/self/fd/2", join_path(target, "stderr").as_str());
    let shm = join_path(target, "shm");
    ensure_dir_all(shm.as_str())?;
    let _ = sys::mount_tmpfs_nosuid_nodev_noexec(shm.as_str(), "mode=1777,size=64M");
    Ok(())
}

/// Swaps the root filesystem for `new_root`: enter it, park the old root
/// in a scratch directory, pivot, then detach and remove the old root so
/// nothing inside the child can reach back up; a scratch directory left
/// behind is a hard error, never a path kept inside the jail.
pub fn pivot_root(new_root: &str) -> (r: Result<(), Error>)
    ensures
        r matches Err(e) ==> e matches Error::SandboxSetup(m) || e matches Error::Sys(n),
{
    match sys::change_dir(new_root) {
        Ok(()) => {},
        Err(_) => {
            return Err(Error::SandboxSetup("failed to enter the new root".to_owned()));
        },
    }
    let old_root = join_path(new_root, ".old_root");
    ensure_dir_all(old_root.as_str())?;
    match sys::pivot_root_syscall(new_root, old_root.as_str()) {
        Ok(()) => {},
        Err(_) => {
            return Err(Error::SandboxSetup("the pivot into the new root failed".to_owned()));
        },
    }
    match sys::change_dir("/") {
        Ok(()) => {},
        Err(_) => {
            return Err(Error::SandboxSetup("failed to enter the pivoted root".to_owned()));
        },
    }
    match sys::umount_detach("/.old_root") {
        Ok(()) => {},
        Err(_) => {
            return Err(Error::SandboxSetup("failed to detach the old root".to_owned()));
        },
    }
    match sys::remove_dir_entry("/.old_root") {
        Ok(()) => {},
        Err(_) => {
            return Err(Error::SandboxSetup("failed to remove the old root directory".to_owned()));
        },
    }
    Ok(())
}

} // verus!
