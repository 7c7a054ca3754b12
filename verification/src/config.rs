//! Operator configuration: which paths are mirrored into a jail, whether
//! the network is shared, and which host environment variables survive the
//! child's environment clearing.

use vstd::prelude::*;

use crate::validation::join_path;

verus! {

/// Configuration for jail construction.
pub struct Config {
    /// Program run for an interactive session.
    pub default_shell: String,
    /// When false, the child also unshares the network namespace.
    pub network_enabled: bool,
    /// Additional host paths mirrored read-only inside the jail.
    pub extra_ro_binds: Vec<String>,
    /// Additional host paths mirrored read-write inside the jail.
    pub extra_rw_binds: Vec<String>,
    /// Home-relative paths a jail should never expose (reserved).
    pub hidden_paths: Vec<String>,
    /// Environment variables re-injected after the child's environment is
    /// cleared.
    pub env_passthrough: Vec<String>,
}

impl Default for Config {
    /// The default configuration: bash, host network, no extra mirrors,
    /// the usual credential directories hidden, and the terminal and locale
    /// variables passed through.
    fn default() -> (r: Config)
        ensures
            r.default_shell@ == "/bin/bash"@,
            r.network_enabled == true,
            r.extra_ro_binds@.len() == 0,
            r.extra_rw_binds@.len() == 0,
            r.hidden_paths.deep_view() == seq![
                ".ssh"@,
                ".gnupg"@,
                ".aws"@,
                ".config/gcloud"@,
                ".kube"@,
                ".docker"@,
                ".npmrc"@,
                ".pypirc"@,
                ".netrc"@,
            ],
            r.env_passthrough.deep_view() == seq!["TERM"@, "LANG"@, "LC_ALL"@, "COLORTERM"@],
    {
        let mut hidden: Vec<String> = Vec::new();
        hidden.push(".ssh".to_owned());
        hidden.push(".gnupg".to_owned());
        hidden.push(".aws".to_owned());
        hidden.push(".config/gcloud".to_owned());
        hidden.push(".kube".to_owned());
        hidden.push(".docker".to_owned());
        hidden.push(".npmrc".to_owned());
        hidden.push(".pypirc".to_owned());
        hidden.push(".netrc".to_owned());
        let mut pass: Vec<String> = Vec::new();
        pass.push("TERM".to_owned());
        pass.push("LANG".to_owned());
        pass.push("LC_ALL".to_owned());
        pass.push("COLORTERM".to_owned());
        let r = Config {
            default_shell: "/bin/bash".to_owned(),
            network_enabled: true,
            extra_ro_binds: Vec::new(),
            extra_rw_binds: Vec::new(),
            hidden_paths: hidden,
            env_passthrough: pass,
        };
        proof {
            assert(r.hidden_paths.deep_view() =~= seq![
                ".ssh"@,
                ".gnupg"@,
                ".aws"@,
                ".config/gcloud"@,
                ".kube"@,
                ".docker"@,
                ".npmrc"@,
                ".pypirc"@,
                ".netrc"@,
            ]);
            assert(r.env_passthrough.deep_view() =~= seq![
                "TERM"@,
                "LANG"@,
                "LC_ALL"@,
                "COLORTERM"@,
            ]);
        }
        r
    }
}

impl Config {
    /// The directory that holds the worktrees, under the data directory.
    pub fn jails_dir(data_dir: &str) -> (r: String)
        ensures
            r@ == data_dir@ + "/"@ + "jails"@,
    {
        join_path(data_dir, "jails")
    }
}

} // verus!
