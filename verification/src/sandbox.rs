//! The sandbox recipe and its filesystem assembly.
//!
//! A `SandboxBuilder` collects the recipe: the worktree that becomes the
//! root, the bind mounts layered over it, the environment the child is
//! seeded with, and whether the host network is kept. `Sandbox` is the
//! finished recipe. Assembly composes the mount primitives into the new
//! root and pivots into it; forking, exec and waiting are the embedding
//! program's business, as is actually clearing and setting the process
//! environment, which it must do exactly as `child_env` prescribes.

use vstd::prelude::*;

use crate::config::Config;
use crate::error::Error;
use crate::mount;
use crate::strutil::{concat2, has_prefix};
use crate::sys;
use crate::validation::join_path;

verus! {

/// A path component prefix: the prefix matches and ends at a component
/// boundary.
pub open spec fn path_prefix(p: Seq<char>, pre: Seq<char>) -> bool {
    pre.is_prefix_of(p) && (p.len() == pre.len() || p[pre.len() as int] == '/')
}

/// Whether a host path lies under one of the system prefixes that are
/// mirrored into every jail anyway.
pub open spec fn under_system_prefix(p: Seq<char>) -> bool {
    path_prefix(p, "/usr"@) || path_prefix(p, "/bin"@) || path_prefix(p, "/sbin"@) || path_prefix(
        p,
        "/lib"@,
    )
}

/// Whether `p` begins the path component `pre`.
pub fn is_path_prefix(p: &str, pre: &str) -> (r: bool)
    ensures
        r == path_prefix(p@, pre@),
{
    if !has_prefix(p, pre) {
        return false;
    }
    let pl = pre.unicode_len();
    let l = p.unicode_len();
    if l == pl {
        true
    } else {
        p.get_char(pl) == '/'
    }
}

/// Whether a host path lies under a mirrored system prefix.
pub fn is_under_system_prefix(p: &str) -> (r: bool)
    ensures
        r == under_system_prefix(p@),
{
    is_path_prefix(p, "/usr") || is_path_prefix(p, "/bin") || is_path_prefix(p, "/sbin")
        || is_path_prefix(p, "/lib")
}

/// Collects a sandbox recipe.
pub struct SandboxBuilder {
    /// Root directory of the sandbox: the worktree.
    pub root: String,
    /// Whether the child keeps the host network.
    pub share_net: bool,
    /// Additional read-only bind mounts, source and destination.
    pub ro_binds: Vec<(String, String)>,
    /// Additional read-write bind mounts, source and destination.
    pub rw_binds: Vec<(String, String)>,
    /// Environment entries seeded into the child beyond the fixed four.
    pub env: Vec<(String, String)>,
    /// Working directory inside the sandbox.
    pub workdir: String,
}

/// A finished sandbox recipe.
pub struct Sandbox {
    pub root: String,
    pub share_net: bool,
    pub ro_binds: Vec<(String, String)>,
    pub rw_binds: Vec<(String, String)>,
    pub env: Vec<(String, String)>,
    pub workdir: String,
}

impl SandboxBuilder {
    /// A fresh recipe over the given root: host network kept, no extra
    /// binds, no extra environment, working directory the sandbox root.
    pub fn new(root: &str) -> (r: SandboxBuilder)
        ensures
            r.root@ == root@,
            r.share_net == true,
            r.ro_binds@.len() == 0,
            r.rw_binds@.len() == 0,
            r.env@.len() == 0,
            r.workdir@ == "/"@,
    {
        SandboxBuilder {
            root: root.to_owned(),
            share_net: true,
            ro_binds: Vec::new(),
            rw_binds: Vec::new(),
            env: Vec::new(),
            workdir: "/".to_owned(),
        }
    }

    /// Applies the configuration: network sharing, the configured extra
    /// mirrors (each bound at its own path), and the passthrough
    /// environment pairs the embedding program captured from its own
    /// environment before forking.
    pub fn with_config(self, config: &Config, passthrough: &Vec<(String, String)>) -> (r:
        SandboxBuilder)
        ensures
            r.root@ == self.root@,
            r.workdir@ == self.workdir@,
            r.share_net == config.network_enabled,
            r.ro_binds.deep_view() == self.ro_binds.deep_view() + config.extra_ro_binds.deep_view()
                .map_values(|p: Seq<char>| (p, p)),
            r.rw_binds.deep_view() == self.rw_binds.deep_view() + config.extra_rw_binds.deep_view()
                .map_values(|p: Seq<char>| (p, p)),
            r.env.deep_view() == self.env.deep_view() + passthrough.deep_view(),
    {
        let ghost ro0 = self.ro_binds;
        let ghost rw0 = self.rw_binds;
        let ghost env0 = self.env;
        let mut ro = self.ro_binds;
        let mut ro_extra = pairs_of(&config.extra_ro_binds);
        let ghost roe = ro_extra;
        ro.append(&mut ro_extra);
        proof {
            crate::strutil::lemma_deep_view_concat(ro, ro0, roe);
        }
        let mut rw = self.rw_binds;
        let mut rw_extra = pairs_of(&config.extra_rw_binds);
        let ghost rwe = rw_extra;
        rw.append(&mut rw_extra);
        proof {
            crate::strutil::lemma_deep_view_concat(rw, rw0, rwe);
        }
        let mut env = self.env;
        let mut env_extra = clone_pairs(passthrough);
        let ghost enve = env_extra;
        env.append(&mut env_extra);
        proof {
            crate::strutil::lemma_deep_view_concat(env, env0, enve);
        }
        SandboxBuilder {
            root: self.root,
            share_net: config.network_enabled,
            ro_binds: ro,
            rw_binds: rw,
            env: env,
            workdir: self.workdir,
        }
    }

    /// Chooses whether the child keeps the host network.
    pub fn share_net(self, share: bool) -> (r: SandboxBuilder)
        ensures
            r == (SandboxBuilder { share_net: share, ..self }),
    {
        let mut b = self;
        b.share_net = share;
        b
    }

    /// Adds one read-only bind mount.
    pub fn ro_bind(self, src: &str, dst: &str) -> (r: SandboxBuilder)
        ensures
            r.ro_binds.deep_view() == self.ro_binds.deep_view() + seq![(src@, dst@)],
            r.rw_binds == self.rw_binds,
            r.env == self.env,
            r.root == self.root,
            r.workdir == self.workdir,
            r.share_net == self.share_net,
    {
        let ghost pre = self.ro_binds;
        let mut b = self;
        let x = (src.to_owned(), dst.to_owned());
        let ghost xv = x;
        b.ro_binds.push(x);
        proof {
            crate::strutil::lemma_deep_view_push(b.ro_binds, pre, xv);
            assert(pre.deep_view().push(xv.deep_view()) =~= self.ro_binds.deep_view() + seq![
                (src@, dst@),
            ]);
        }
        b
    }

    /// Adds one read-write bind mount.
    pub fn rw_bind(self, src: &str, dst: &str) -> (r: SandboxBuilder)
        ensures
            r.rw_binds.deep_view() == self.rw_binds.deep_view() + seq![(src@, dst@)],
            r.ro_binds == self.ro_binds,
            r.env == self.env,
            r.root == self.root,
            r.workdir == self.workdir,
            r.share_net == self.share_net,
    {
        let ghost pre = self.rw_binds;
        let mut b = self;
        let x = (src.to_owned(), dst.to_owned());
        let ghost xv = x;
        b.rw_binds.push(x);
        proof {
            crate::strutil::lemma_deep_view_push(b.rw_binds, pre, xv);
            assert(pre.deep_view().push(xv.deep_view()) =~= self.rw_binds.deep_view() + seq![
                (src@, dst@),
            ]);
        }
        b
    }

    /// Adds one environment entry.
    pub fn env(self, key: &str, value: &str) -> (r: SandboxBuilder)
        ensures
            r.env.deep_view() == self.env.deep_view() + seq![(key@, value@)],
            r.ro_binds == self.ro_binds,
            r.rw_binds == self.rw_binds,
            r.root == self.root,
            r.workdir == self.workdir,
            r.share_net == self.share_net,
    {
        let ghost pre = self.env;
        let mut b = self;
        let x = (key.to_owned(), value.to_owned());
        let ghost xv = x;
        b.env.push(x);
        proof {
            crate::strutil::lemma_deep_view_push(b.env, pre, xv);
            assert(pre.deep_view().push(xv.deep_view()) =~= self.env.deep_view() + seq![
                (key@, value@),
            ]);
        }
        b
    }

    /// Sets the working directory inside the sandbox.
    pub fn workdir(self, dir: &str) -> (r: SandboxBuilder)
        ensures
            r.workdir@ == dir@,
            r.ro_binds == self.ro_binds,
            r.rw_binds == self.rw_binds,
            r.env == self.env,
            r.root == self.root,
            r.share_net == self.share_net,
    {
        let mut b = self;
        b.workdir = dir.to_owned();
        b
    }

    /// Finishes the recipe.
    pub fn build(self) -> (r: Sandbox)
        ensures
            r.root == self.root,
            r.share_net == self.share_net,
            r.ro_binds == self.ro_binds,
            r.rw_binds == self.rw_binds,
            r.env == self.env,
            r.workdir == self.workdir,
    {
        Sandbox {
            root: self.root,
            share_net: self.share_net,
            ro_binds: self.ro_binds,
            rw_binds: self.rw_binds,
            env: self.env,
            workdir: self.workdir,
        }
    }
}

/// Each path paired with itself, as a bind from a path to that same path.
pub fn pairs_of(paths: &Vec<String>) -> (r: Vec<(String, String)>)
    ensures
        r.deep_view() == paths.deep_view().map_values(|p: Seq<char>| (p, p)),
{
    let mut out: Vec<(String, String)> = Vec::new();
    let mut i: usize = 0;
    while i < paths.len()
        invariant
            i <= paths@.len(),
            out@.len() == i,
            forall|j: int|
                0 <= j < i ==> (#[trigger] out@[j]).0@ == paths@[j]@ && out@[j].1@ == paths@[j]@,
        decreases paths@.len() - i,
    {
        let p = paths[i].clone();
        let q = paths[i].clone();
        out.push((p, q));
        i = i + 1;
    }
    proof {
        assert forall|j: int| 0 <= j < out.deep_view().len() implies out.deep_view()[j]
            == paths.deep_view().map_values(|p: Seq<char>| (p, p))[j] by {
            assert(out.deep_view()[j] == out@[j].deep_view());
        }
        assert(out.deep_view() =~= paths.deep_view().map_values(|p: Seq<char>| (p, p)));
    }
    out
}

/// A copy of each pair.
pub fn clone_pairs(v: &Vec<(String, String)>) -> (r: Vec<(String, String)>)
    ensures
        r.deep_view() == v.deep_view(),
{
    let mut out: Vec<(String, String)> = Vec::new();
    let mut i: usize = 0;
    while i < v.len()
        invariant
            i <= v@.len(),
            out@.len() == i,
            forall|j: int|
                0 <= j < i ==> (#[trigger] out@[j]).0@ == v@[j].0@ && out@[j].1@ == v@[j].1@,
        decreases v@.len() - i,
    {
        let p = v[i].0.clone();
        let q = v[i].1.clone();
        out.push((p, q));
        i = i + 1;
    }
    proof {
        assert forall|j: int| 0 <= j < out.deep_view().len() implies out.deep_view()[j]
            == v.deep_view()[j] by {
            assert(out.deep_view()[j] == out@[j].deep_view());
            assert(v.deep_view()[j] == v@[j].deep_view());
        }
        assert(out.deep_view() =~= v.deep_view());
    }
    out
}

/// The fixed environment every sandbox child is seeded with.
pub open spec fn base_env_v() -> Seq<(Seq<char>, Seq<char>)> {
    seq![
        ("HOME"@, "/home/user"@),
        ("USER"@, "user"@),
        ("PATH"@, "/usr/local/bin:/usr/bin:/bin:/usr/local/sbin:/usr/sbin:/sbin"@),
        ("ROBOJAIL"@, "1"@),
    ]
}

/// The whole child environment: the fixed four entries, then the recipe's
/// own entries.
pub open spec fn child_env_v(extra: Seq<(Seq<char>, Seq<char>)>) -> Seq<(Seq<char>, Seq<char>)> {
    base_env_v() + extra
}

/// A key occurs in an environment.
pub open spec fn env_has_key(env: Seq<(Seq<char>, Seq<char>)>, k: Seq<char>) -> bool {
    exists|i: int| 0 <= i < env.len() && env[i].0 == k
}

/// The child environment is exact: a variable exists in it precisely when
/// it is one of `HOME`, `USER`, `PATH` and `ROBOJAIL` or one of the
/// recipe's own entries — nothing else, however the parent's environment
/// looked.
pub proof fn lemma_child_env_exact(extra: Seq<(Seq<char>, Seq<char>)>, k: Seq<char>)
    ensures
        env_has_key(child_env_v(extra), k) <==> (k == "HOME"@ || k == "USER"@ || k == "PATH"@ || k
            == "ROBOJAIL"@ || env_has_key(extra, k)),
{
    let whole = child_env_v(extra);
    if env_has_key(whole, k) {
        let i = choose|i: int| 0 <= i < whole.len() && whole[i].0 == k;
        if i >= 4 {
            assert(whole[i] == extra[i - 4]);
            assert(env_has_key(extra, k));
        }
    }
    if k == "HOME"@ {
        assert(whole[0].0 == k);
        assert(env_has_key(whole, k));
    }
    if k == "USER"@ {
        assert(whole[1].0 == k);
        assert(env_has_key(whole, k));
    }
    if k == "PATH"@ {
        assert(whole[2].0 == k);
        assert(env_has_key(whole, k));
    }
    if k == "ROBOJAIL"@ {
        assert(whole[3].0 == k);
        assert(env_has_key(whole, k));
    }
    if env_has_key(extra, k) {
        let i = choose|i: int| 0 <= i < extra.len() && extra[i].0 == k;
        assert(whole[i + 4].0 == k);
        assert(env_has_key(whole, k));
    }
}

impl Sandbox {
    /// The exact environment the child must run with after its inherited
    /// environment has been cleared: the fixed four variables, then the
    /// recipe's own entries, nothing more.
    pub fn child_env(&self) -> (r: Vec<(String, String)>)
        ensures
            r.deep_view() == child_env_v(self.env.deep_view()),
    {
        let mut out: Vec<(String, String)> = Vec::new();
        out.push(("HOME".to_owned(), "/home/user".to_owned()));
        out.push(("USER".to_owned(), "user".to_owned()));
        out.push((
            "PATH".to_owned(),
            "/usr/local/bin:/usr/bin:/bin:/usr/local/sbin:/usr/sbin:/sbin".to_owned(),
        ));
        out.push(("ROBOJAIL".to_owned(), "1".to_owned()));
        proof {
            assert forall|j: int| 0 <= j < 4 implies out.deep_view()[j] == base_env_v()[j] by {
                assert(out.deep_view()[j] == out@[j].deep_view());
            }
            assert(out.deep_view() =~= base_env_v());
        }
        let ghost base = out;
        let mut extra = clone_pairs(&self.env);
        let ghost extrav = extra;
        out.append(&mut extra);
        proof {
            crate::strutil::lemma_deep_view_concat(out, base, extrav);
        }
        out
    }

    /// Builds the sandbox filesystem and pivots into it: private mount
    /// propagation, a tmpfs scratch root with the worktree bound over it,
    /// read-only system overlays, a synthesized `/etc`, the home
    /// directory, `/proc`, `/dev`, `/tmp`, the configured extra binds,
    /// and finally the pivot. Must run inside the fresh mount namespace.
    pub fn setup_filesystem(&self) -> (r: Result<(), Error>)
        ensures
            r matches Err(e) ==> e matches Error::MountFailed { path, errno } || e matches
                Error::SandboxSetup(m) || e matches Error::Sys(n),
    {
        mount::make_mounts_private()?;
        let new_root = "/tmp/robojail-root";
        mount::ensure_dir_all(new_root)?;
        mount::mount_tmpfs(new_root)?;
        mount::bind_mount(self.root.as_str(), new_root, false)?;
        overlay_system_dir(new_root, "/usr")?;
        overlay_system_dir(new_root, "/bin")?;
        overlay_system_dir(new_root, "/lib")?;
        overlay_system_dir(new_root, "/lib64")?;
        overlay_system_dir(new_root, "/sbin")?;
        let etc_dst = concat2(new_root, "/etc");
        mount::ensure_dir_all(etc_dst.as_str())?;
        mount::mount_tmpfs(etc_dst.as_str())?;
        mount::copy_host_file("/etc/resolv.conf", join_path(etc_dst.as_str(), "resolv.conf").as_str());
        mount::copy_host_file("/etc/hosts", join_path(etc_dst.as_str(), "hosts").as_str());
        mount::copy_host_file(
            "/etc/nsswitch.conf",
            join_path(etc_dst.as_str(), "nsswitch.conf").as_str(),
        );
        let passwd =
            "root:x:0:0:root:/root:/bin/bash\nuser:x:1000:1000:Jail User:/home/user:/bin/bash\nnobody:x:65534:65534:Nobody:/:/usr/bin/nologin\n";
        let _ = mount::write_file(
            join_path(etc_dst.as_str(), "passwd").as_str(),
            &passwd.as_bytes_vec(),
        );
        let group = "root:x:0:\nuser:x:1000:\nnogroup:x:65534:\n";
        let _ = mount::write_file(
            join_path(etc_dst.as_str(), "group").as_str(),
            &group.as_bytes_vec(),
        );
        let home_dst = concat2(new_root, "/home/user");
        mount::ensure_dir_all(home_dst.as_str())?;
        if sys::host_path_exists("/etc/ssl") {
            let ssl_dst = join_path(etc_dst.as_str(), "ssl");
            mount::ensure_dir_all(ssl_dst.as_str())?;
            mount::bind_mount("/etc/ssl", ssl_dst.as_str(), true)?;
        }
        if sys::host_path_exists("/etc/ca-certificates") {
            let ca_dst = join_path(etc_dst.as_str(), "ca-certificates");
            mount::ensure_dir_all(ca_dst.as_str())?;
            mount::bind_mount("/etc/ca-certificates", ca_dst.as_str(), true)?;
        }
        let proc_dst = concat2(new_root, "/proc");
        mount::ensure_dir_all(proc_dst.as_str())?;
        mount::mount_proc(proc_dst.as_str())?;
        let dev_dst = concat2(new_root, "/dev");
        mount::ensure_dir_all(dev_dst.as_str())?;
        mount::setup_dev(dev_dst.as_str())?;
        let tmp_dst = concat2(new_root, "/tmp");
        mount::ensure_dir_all(tmp_dst.as_str())?;
        mount::mount_tmpfs(tmp_dst.as_str())?;
        apply_extra_binds(new_root, &self.ro_binds, true)?;
        apply_extra_binds(new_root, &self.rw_binds, false)?;
        mount::pivot_root(new_root)?;
        Ok(())
    }
}

/// Mirrors one system directory read-only under the new root, when the
/// host has it.
fn overlay_system_dir(new_root: &str, dir: &str) -> (r: Result<(), Error>)
    ensures
        r matches Err(e) ==> e matches Error::MountFailed { path, errno } || e matches Error::Sys(
            n,
        ),
{
    if sys::host_path_exists(dir) {
        let dst = concat2(new_root, dir);
        mount::ensure_dir_all(dst.as_str())?;
        mount::bind_mount(dir, dst.as_str(), true)?;
    }
    Ok(())
}

/// The position just after the last slash of `s`, if any slash exists.
fn last_slash(s: &str) -> (r: Option<usize>)
    ensures
        r matches Some(i) ==> i < s@.len() && s@[i as int] == '/',
{
    let len = s.unicode_len();
    let mut i: usize = len;
    while i > 0
        invariant
            i <= len,
            len == s@.len(),
        decreases i,
    {
        i = i - 1;
        if s.get_char(i) == '/' {
            return Some(i);
        }
    }
    None
}

/// Applies one group of configured extra binds under the new root: a
/// source that exists on the host is mirrored at its destination path,
/// with a directory created for a directory source and an empty
/// placeholder file for a file source.
fn apply_extra_binds(new_root: &str, binds: &Vec<(String, String)>, readonly: bool) -> (r: Result<
    (),
    Error,
>)
    ensures
        r matches Err(e) ==> e matches Error::MountFailed { path, errno } || e matches
            Error::SandboxSetup(m) || e matches Error::Sys(n),
{
    let mut i: usize = 0;
    while i < binds.len()
        decreases binds@.len() - i,
    {
        let src = &binds[i].0;
        let dst = &binds[i].1;
        if sys::host_path_exists(src.as_str()) {
            let full_dst = if has_prefix(dst.as_str(), "/") {
                concat2(new_root, dst.as_str())
            } else {
                join_path(new_root, dst.as_str())
            };
            if sys::host_path_is_dir(src.as_str()) {
                mount::ensure_dir_all(full_dst.as_str())?;
            } else {
                match last_slash(full_dst.as_str()) {
                    Some(cut) => {
                        let parent = full_dst.as_str().substring_char(0, cut);
                        mount::ensure_dir_all(parent)?;
                    },
                    None => {},
                }
                let empty: Vec<u8> = Vec::new();
                mount::write_file(full_dst.as_str(), &empty)?;
            }
            mount::bind_mount(src.as_str(), full_dst.as_str(), readonly)?;
        }
        i = i + 1;
    }
    Ok(())
}

/// The driver's argv contract: a run needs a command; an empty argument
/// vector is refused before any fork.
pub fn command_nonempty(args: &Vec<String>) -> (r: Result<(), Error>)
    ensures
        r.is_ok() <==> args@.len() > 0,
        r matches Err(e) ==> e matches Error::SandboxSetup(m),
{
    if args.len() == 0 {
        Err(Error::SandboxSetup("no command specified".to_owned()))
    } else {
        Ok(())
    }
}

/// The default sandbox recipe for a jail: the worktree as the root, the
/// configuration applied, the fixed home identity seeded, and — when the
/// jail's entrypoint lives outside the mirrored system prefixes — the
/// entrypoint binary bound read-only at its own path so the child can
/// exec it.
pub fn create_jail_sandbox(
    worktree_path: &str,
    config: &Config,
    passthrough: &Vec<(String, String)>,
    entrypoint: Option<&Vec<String>>,
) -> (r: Sandbox)
    ensures
        r.root@ == worktree_path@,
        r.share_net == config.network_enabled,
        r.workdir@ == "/"@,
        r.env.deep_view() == passthrough.deep_view() + seq![
            ("HOME"@, "/home/user"@),
            ("USER"@, "user"@),
        ],
        r.rw_binds.deep_view() == config.extra_rw_binds.deep_view().map_values(
            |p: Seq<char>| (p, p),
        ),
        r.ro_binds.deep_view() == config.extra_ro_binds.deep_view().map_values(
            |p: Seq<char>| (p, p),
        ) + (match entrypoint {
            Some(ep) => if ep@.len() > 0 && !under_system_prefix(ep.deep_view()[0]) {
                seq![(ep.deep_view()[0], ep.deep_view()[0])]
            } else {
                Seq::empty()
            },
            None => Seq::empty(),
        }),
{
    let mut builder = SandboxBuilder::new(worktree_path).with_config(config, passthrough).env(
        "HOME",
        "/home/user",
    ).env("USER", "user").workdir("/");
    match entrypoint {
        Some(ep) => {
            if ep.len() > 0 {
                let cmd = ep[0].as_str();
                if !is_under_system_prefix(cmd) {
                    builder = builder.ro_bind(cmd, cmd);
                    proof {
                        assert(ep.deep_view()[0] == ep@[0]@);
                    }
                }
            }
        },
        None => {},
    }
    proof {
        assert(builder.env.deep_view() =~= passthrough.deep_view() + seq![
            ("HOME"@, "/home/user"@),
            ("USER"@, "user"@),
        ]);
        assert(builder.ro_binds.deep_view() =~= config.extra_ro_binds.deep_view().map_values(
            |p: Seq<char>| (p, p),
        ) + (match entrypoint {
            Some(ep) => if ep@.len() > 0 && !under_system_prefix(ep.deep_view()[0]) {
                seq![(ep.deep_view()[0], ep.deep_view()[0])]
            } else {
                Seq::<(Seq<char>, Seq<char>)>::empty()
            },
            None => Seq::<(Seq<char>, Seq<char>)>::empty(),
        }));
    }
    builder.build()
}

} // verus!
