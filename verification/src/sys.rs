//! Trusted boundary to the host kernel and filesystem.
//!
//! Every syscall the verified logic performs goes through exactly one thin
//! wrapper here; each wrapper makes a single outside call and converts its
//! arguments and result. A failed call is reported as the raw `errno`.
//! Nothing is promised about the host state a call observes or changes: the
//! callers state what holds of their own results whatever the host did.

use vstd::prelude::*;

verus! {

/// Relies on `std::path::Path::exists`: whether the path points at an
/// existing entity on the host. The answer depends on the disk, so nothing
/// is stated about it.
#[verifier::external_body]
pub fn host_path_exists(path: &str) -> bool {
    std::path::Path::new(path).exists()
}

/// Relies on `std::path::Path::is_dir`: whether the path points at an
/// existing directory on the host.
#[verifier::external_body]
pub fn host_path_is_dir(path: &str) -> bool {
    std::path::Path::new(path).is_dir()
}

/// Relies on `nix::mount::mount`: remounts the whole existing tree private
/// (`MS_PRIVATE | MS_REC` on `/`) so later mounts do not propagate out.
#[verifier::external_body]
pub fn mount_private_root() -> Result<(), i32> {
    nix::mount::mount(
        None::<&str>,
        "/",
        None::<&str>,
        nix::mount::MsFlags::MS_PRIVATE | nix::mount::MsFlags::MS_REC,
        None::<&str>,
    ).map_err(|e| e as i32)
}

/// Relies on `nix::mount::mount`: a recursive bind mount
/// (`MS_BIND | MS_REC`) of `source` onto `target`.
#[verifier::external_body]
pub fn mount_bind(source: &str, target: &str) -> Result<(), i32> {
    nix::mount::mount(
        Some(source),
        target,
        None::<&str>,
        nix::mount::MsFlags::MS_BIND | nix::mount::MsFlags::MS_REC,
        None::<&str>,
    ).map_err(|e| e as i32)
}

/// Relies on `nix::mount::mount`: remounts an existing bind mount read-only
/// (`MS_BIND | MS_REMOUNT | MS_RDONLY | MS_REC`).
#[verifier::external_body]
pub fn mount_remount_readonly(target: &str) -> Result<(), i32> {
    nix::mount::mount(
        None::<&str>,
        target,
        None::<&str>,
        nix::mount::MsFlags::MS_BIND | nix::mount::MsFlags::MS_REMOUNT
            | nix::mount::MsFlags::MS_RDONLY | nix::mount::MsFlags::MS_REC,
        None::<&str>,
    ).map_err(|e| e as i32)
}

/// Relies on `nix::mount::mount`: mounts a tmpfs at `target` with
/// `MS_NOSUID | MS_NODEV` and the given option string.
#[verifier::external_body]
pub fn mount_tmpfs_nosuid_nodev(target: &str, options: &str) -> Result<(), i32> {
    nix::mount::mount(
        Some("tmpfs"),
        target,
        Some("tmpfs"),
        nix::mount::MsFlags::MS_NOSUID | nix::mount::MsFlags::MS_NODEV,
        Some(options),
    ).map_err(|e| e as i32)
}

/// Relies on `nix::mount::mount`: mounts a tmpfs at `target` with
/// `MS_NOSUID | MS_NOEXEC` and the given option string.
#[verifier::external_body]
pub fn mount_tmpfs_nosuid_noexec(target: &str, options: &str) -> Result<(), i32> {
    nix::mount::mount(
        Some("tmpfs"),
        target,
        Some("tmpfs"),
        nix::mount::MsFlags::MS_NOSUID | nix::mount::MsFlags::MS_NOEXEC,
        Some(options),
    ).map_err(|e| e as i32)
}

/// Relies on `nix::mount::mount`: mounts a tmpfs at `target` with
/// `MS_NOSUID | MS_NODEV | MS_NOEXEC` and the given option string.
#[verifier::external_body]
pub fn mount_tmpfs_nosuid_nodev_noexec(target: &str, options: &str) -> Result<(), i32> {
    nix::mount::mount(
        Some("tmpfs"),
        target,
        Some("tmpfs"),
        nix::mount::MsFlags::MS_NOSUID | nix::mount::MsFlags::MS_NODEV
            | nix::mount::MsFlags::MS_NOEXEC,
        Some(options),
    ).map_err(|e| e as i32)
}

/// Relies on `nix::mount::mount`: mounts a fresh devpts instance at `target`
/// with `MS_NOSUID | MS_NOEXEC` and the given option string.
#[verifier::external_body]
pub fn mount_devpts(target: &str, options: &str) -> Result<(), i32> {
    nix::mount::mount(
        Some("devpts"),
        target,
        Some("devpts"),
        nix::mount::MsFlags::MS_NOSUID | nix::mount::MsFlags::MS_NOEXEC,
        Some(options),
    ).map_err(|e| e as i32)
}

/// Relies on `nix::mount::umount2` with `MNT_DETACH`: lazily detaches the
/// mount at `target`.
#[verifier::external_body]
pub fn umount_detach(target: &str) -> Result<(), i32> {
    nix::mount::umount2(target, nix::mount::MntFlags::MNT_DETACH).map_err(|e| e as i32)
}

/// Relies on `nix::unistd::pivot_root`: swaps the root filesystem for
/// `new_root`, parking the old root at `put_old`.
#[verifier::external_body]
pub fn pivot_root_syscall(new_root: &str, put_old: &str) -> Result<(), i32> {
    nix::unistd::pivot_root(new_root, put_old).map_err(|e| e as i32)
}

/// Relies on `nix::unistd::chdir`: changes the working directory.
#[verifier::external_body]
pub fn change_dir(path: &str) -> Result<(), i32> {
    nix::unistd::chdir(path).map_err(|e| e as i32)
}

/// Relies on `nix::unistd::mkdir`: creates a single directory, mode 0755.
#[verifier::external_body]
pub fn make_dir(path: &str) -> Result<(), i32> {
    nix::unistd::mkdir(path, nix::sys::stat::Mode::from_bits_truncate(0o755))
        .map_err(|e| e as i32)
}

/// Relies on `nix::unistd::symlinkat` with no directory fd: creates the
/// symbolic link `link` pointing at `target`.
#[verifier::external_body]
pub fn make_symlink(target: &str, link: &str) -> Result<(), i32> {
    nix::unistd::symlinkat(target, None, link).map_err(|e| e as i32)
}

/// Relies on `nix::unistd::unlinkat` with `RemoveDir`: removes the (empty)
/// directory at `path`.
#[verifier::external_body]
pub fn remove_dir_entry(path: &str) -> Result<(), i32> {
    nix::unistd::unlinkat(None, path, nix::unistd::UnlinkatFlags::RemoveDir)
        .map_err(|e| e as i32)
}

/// Relies on `nix::fcntl::open` with `O_WRONLY | O_CREAT | O_TRUNC`, mode
/// 0644: opens `path` for writing and hands back the raw descriptor.
#[verifier::external_body]
pub fn open_for_write(path: &str) -> Result<i32, i32> {
    nix::fcntl::open(
        path,
        nix::fcntl::OFlag::O_WRONLY | nix::fcntl::OFlag::O_CREAT | nix::fcntl::OFlag::O_TRUNC,
        nix::sys::stat::Mode::from_bits_truncate(0o644),
    ).map_err(|e| e as i32)
}

/// Relies on `nix::fcntl::open` with `O_WRONLY` alone: opens an existing
/// file (such as an identity-map pseudo-file) for writing.
#[verifier::external_body]
pub fn open_existing_for_write(path: &str) -> Result<i32, i32> {
    nix::fcntl::open(
        path,
        nix::fcntl::OFlag::O_WRONLY,
        nix::sys::stat::Mode::empty(),
    ).map_err(|e| e as i32)
}

/// Relies on `nix::fcntl::open` with `O_RDONLY`: opens `path` for reading.
#[verifier::external_body]
pub fn open_for_read(path: &str) -> Result<i32, i32> {
    nix::fcntl::open(
        path,
        nix::fcntl::OFlag::O_RDONLY,
        nix::sys::stat::Mode::empty(),
    ).map_err(|e| e as i32)
}

/// Relies on `nix::unistd::write`: writes the bytes of `buf` from position
/// `from` onward to the descriptor, returning how many were accepted, which
/// its documentation bounds by the number offered.
#[verifier::external_body]
pub fn write_fd(fd: i32, buf: &Vec<u8>, from: usize) -> (r: Result<usize, i32>)
    requires
        from <= buf@.len(),
    ensures
        r matches Ok(n) ==> from + n <= buf@.len(),
{
    nix::unistd::write(fd, &buf[from..]).map_err(|e| e as i32)
}

/// Relies on `nix::unistd::read`: reads at most `buf.len()` bytes into the
/// start of `buf`, returning how many arrived (zero at end of file) and
/// leaving the rest of the buffer as it was.
#[verifier::external_body]
pub fn read_fd(fd: i32, buf: &mut Vec<u8>) -> (r: Result<usize, i32>)
    ensures
        r matches Ok(n) ==> n <= old(buf)@.len(),
        final(buf)@.len() == old(buf)@.len(),
{
    nix::unistd::read(fd, buf.as_mut_slice()).map_err(|e| e as i32)
}

/// Relies on `nix::unistd::close`: closes the descriptor.
#[verifier::external_body]
pub fn close_fd(fd: i32) -> Result<(), i32> {
    nix::unistd::close(fd).map_err(|e| e as i32)
}

/// Relies on `nix::sched::unshare` with `CLONE_NEWUSER`: moves the process
/// into a fresh user namespace.
#[verifier::external_body]
pub fn unshare_user() -> Result<(), i32> {
    nix::sched::unshare(nix::sched::CloneFlags::CLONE_NEWUSER).map_err(|e| e as i32)
}

/// Relies on `nix::sched::unshare` with
/// `CLONE_NEWNS | CLONE_NEWIPC | CLONE_NEWUTS`: unshares the mount, IPC and
/// UTS namespaces while keeping the host network.
#[verifier::external_body]
pub fn unshare_mount_ipc_uts() -> Result<(), i32> {
    nix::sched::unshare(
        nix::sched::CloneFlags::CLONE_NEWNS | nix::sched::CloneFlags::CLONE_NEWIPC
            | nix::sched::CloneFlags::CLONE_NEWUTS,
    ).map_err(|e| e as i32)
}

/// Relies on `nix::sched::unshare` with
/// `CLONE_NEWNS | CLONE_NEWIPC | CLONE_NEWUTS | CLONE_NEWNET`: as above but
/// also detaches from the host network.
#[verifier::external_body]
pub fn unshare_mount_ipc_uts_net() -> Result<(), i32> {
    nix::sched::unshare(
        nix::sched::CloneFlags::CLONE_NEWNS | nix::sched::CloneFlags::CLONE_NEWIPC
            | nix::sched::CloneFlags::CLONE_NEWUTS | nix::sched::CloneFlags::CLONE_NEWNET,
    ).map_err(|e| e as i32)
}

/// Relies on `nix::unistd::sethostname`: sets the hostname inside the
/// (freshly unshared) UTS namespace.
#[verifier::external_body]
pub fn set_hostname(name: &str) -> Result<(), i32> {
    nix::unistd::sethostname(name).map_err(|e| e as i32)
}

/// Relies on `nix::unistd::getuid`: the real user id of this process.
#[verifier::external_body]
pub fn current_uid() -> u32 {
    nix::unistd::getuid().as_raw()
}

/// Relies on `nix::unistd::getgid`: the real group id of this process.
#[verifier::external_body]
pub fn current_gid() -> u32 {
    nix::unistd::getgid().as_raw()
}

/// Relies on `nix::unistd::setsid`: starts a new session, or fails with the
/// raw errno (notably `EPERM` when already a session leader).
#[verifier::external_body]
pub fn new_session() -> Result<i32, i32> {
    nix::unistd::setsid().map(|p| p.as_raw()).map_err(|e| e as i32)
}

/// Relies on `prctl::set_no_new_privileges`: raises the no-new-privileges
/// flag of this process, so later execs gain no privileges.
#[verifier::external_body]
pub fn raise_no_new_privs() -> Result<(), i32> {
    prctl::set_no_new_privileges(true)
}

/// Relies on `nix::sys::signal::kill` with no signal (signal 0): probes
/// whether a process with this id exists and may be signalled. The answer
/// depends on the host's process table, so nothing is stated about it.
/// The bound keeps the cast to a raw pid positive, so the probe can never
/// address a process group.
#[verifier::external_body]
pub fn pid_probe(pid: u32) -> bool
    requires
        pid <= 0x7fff_ffff,
{
    nix::sys::signal::kill(nix::unistd::Pid::from_raw(pid as i32), None).is_ok()
}

} // verus!
