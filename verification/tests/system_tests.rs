use robojail::config::Config;
use robojail::mount::{ensure_dir_all, mkdir_outcome, read_file, write_file, EEXIST_CODE};
use robojail::security::setsid_outcome;
use robojail::sandbox::command_nonempty;
use robojail::state::State;
use robojail::strutil::u64_to_dec;
use robojail::sys::{host_path_exists, host_path_is_dir};

#[test]
fn files_written_through_the_boundary_read_back() {
    let path = "/tmp/robojail-io-check";
    let data: Vec<u8> = b"one line\nand \"another\"\n".to_vec();
    write_file(path, &data).unwrap();
    let back = read_file(path).unwrap();
    assert_eq!(back, data);
}

#[test]
fn directories_are_created_with_all_ancestors() {
    let path = "/tmp/robojail-dir-check/a/b/c";
    ensure_dir_all(path).unwrap();
    assert!(host_path_is_dir(path));
    // Creating them again is not an error.
    ensure_dir_all(path).unwrap();
}

#[test]
fn host_probes_answer_for_known_paths() {
    assert!(host_path_exists("/"));
    assert!(host_path_is_dir("/"));
    assert!(!host_path_exists("/definitely/not/a/path"));
    assert!(host_path_exists("/etc/hostname") || !host_path_is_dir("/etc/hostname"));
}

#[test]
fn pid_one_is_alive() {
    assert!(State::is_pid_alive(1));
}

#[test]
fn decimal_rendering_is_exact() {
    assert_eq!(u64_to_dec(0), "0");
    assert_eq!(u64_to_dec(7), "7");
    assert_eq!(u64_to_dec(1700000000), "1700000000");
    assert_eq!(u64_to_dec(u64::MAX), "18446744073709551615");
}

#[test]
fn jails_dir_sits_under_the_data_directory() {
    assert_eq!(
        Config::jails_dir("/home/user/.local/share/robojail"),
        "/home/user/.local/share/robojail/jails"
    );
}

#[test]
fn no_new_privs_flag_reads_back_set() {
    robojail::security::set_no_new_privs().unwrap();
    assert_eq!(prctl::get_no_new_privileges().unwrap(), true);
}

#[test]
fn mkdir_outcomes_tolerate_exactly_already_exists() {
    assert!(mkdir_outcome(Ok(())).is_ok());
    assert!(mkdir_outcome(Err(EEXIST_CODE)).is_ok());
    match mkdir_outcome(Err(13)) {
        Err(robojail::error::Error::Sys(13)) => {}
        other => panic!("expected Sys(13), got {other:?}"),
    }
}

#[test]
fn setsid_outcomes_tolerate_exactly_the_leader_refusal() {
    assert!(setsid_outcome(Ok(42)).is_ok());
    assert!(setsid_outcome(Err(1)).is_ok());
    assert!(setsid_outcome(Err(22)).is_err());
}

#[test]
fn empty_command_is_refused_before_any_fork() {
    assert!(matches!(
        command_nonempty(&vec![]),
        Err(robojail::error::Error::SandboxSetup(_))
    ));
    assert!(command_nonempty(&vec!["/bin/true".to_string()]).is_ok());
}

#[test]
fn pids_beyond_the_kernel_range_are_never_alive() {
    assert!(!State::is_pid_alive(u32::MAX));
    assert!(!State::is_pid_alive(0x8000_0000));
}
