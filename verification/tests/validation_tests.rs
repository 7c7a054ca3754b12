use robojail::error::Error;
use robojail::validation::{
    path_found, repo_check, validate_git_repo, validate_jail_name, validate_path_exists,
};

#[test]
fn test_valid_jail_names() {
    assert!(validate_jail_name("test").is_ok());
    assert!(validate_jail_name("my-jail").is_ok());
    assert!(validate_jail_name("my_jail_123").is_ok());
    assert!(validate_jail_name("AI-Task-1").is_ok());
}

#[test]
fn test_invalid_jail_names() {
    assert!(validate_jail_name("").is_err());
    assert!(validate_jail_name("-starts-with-dash").is_err());
    assert!(validate_jail_name("has spaces").is_err());
    assert!(validate_jail_name("has.dots").is_err());
    assert!(validate_jail_name("has/slashes").is_err());

    // Too long
    let long_name = "a".repeat(65);
    assert!(validate_jail_name(&long_name).is_err());
}

#[test]
fn test_validate_path() {
    assert!(validate_path_exists("/").is_ok());
    assert!(validate_path_exists("/nonexistent/path/xyz").is_err());
}

#[test]
fn name_of_exactly_sixty_four_characters_is_accepted() {
    let name = "b".repeat(64);
    assert!(validate_jail_name(&name).is_ok());
    let name65 = "b".repeat(65);
    assert!(validate_jail_name(&name65).is_err());
}

#[test]
fn non_ascii_names_are_rejected() {
    assert!(validate_jail_name("caf\u{e9}").is_err());
    assert!(validate_jail_name("jail\u{f6}name").is_err());
}

#[test]
fn rejected_name_reports_invalid_jail_name() {
    match validate_jail_name("bad.name") {
        Err(Error::InvalidJailName(n)) => assert_eq!(n, "bad.name"),
        _ => panic!("expected InvalidJailName"),
    }
}

#[test]
fn missing_path_reports_path_not_found() {
    match validate_path_exists("/no/such/path/here") {
        Err(Error::PathNotFound(p)) => assert_eq!(p, "/no/such/path/here"),
        _ => panic!("expected PathNotFound"),
    }
}

#[test]
fn non_repository_reports_not_git_repo() {
    // `/` exists but has no `.git` entry.
    match validate_git_repo("/") {
        Err(Error::NotGitRepo(p)) => assert_eq!(p, "/"),
        _ => panic!("expected NotGitRepo"),
    }
}

#[test]
fn existence_decision_accepts_iff_present() {
    assert!(path_found("/anywhere", true).is_ok());
    match path_found("/anywhere", false) {
        Err(Error::PathNotFound(p)) => assert_eq!(p, "/anywhere"),
        _ => panic!("expected PathNotFound"),
    }
}

#[test]
fn repository_decision_orders_its_errors() {
    assert!(repo_check("/r", true, true).is_ok());
    assert!(matches!(repo_check("/r", false, false), Err(Error::PathNotFound(_))));
    assert!(matches!(repo_check("/r", false, true), Err(Error::PathNotFound(_))));
    assert!(matches!(repo_check("/r", true, false), Err(Error::NotGitRepo(_))));
}
