use robojail::status::{parse_diff_stats, parse_porcelain};

#[test]
fn porcelain_lines_are_categorized() {
    let out = " M src/main.rs\nA  new.rs\n?? stray.txt\n D gone.rs\nMM both.rs\nAM fresh.rs\n";
    let (modified, added, deleted) = parse_porcelain(out);
    assert_eq!(modified, vec!["src/main.rs", "both.rs", "fresh.rs"]);
    assert_eq!(added, vec!["new.rs", "stray.txt"]);
    assert_eq!(deleted, vec!["gone.rs"]);
}

#[test]
fn renames_report_the_new_path() {
    let out = "R  old_name.rs -> new_name.rs\n";
    let (modified, added, deleted) = parse_porcelain(out);
    assert_eq!(modified, vec!["new_name.rs"]);
    assert!(added.is_empty());
    assert!(deleted.is_empty());
}

#[test]
fn unknown_codes_with_a_file_count_as_modified() {
    let out = "UU conflicted.rs\n";
    let (modified, _, _) = parse_porcelain(out);
    assert_eq!(modified, vec!["conflicted.rs"]);
}

#[test]
fn short_and_empty_lines_are_skipped() {
    let out = "\nM\n M a.rs\n";
    let (modified, added, deleted) = parse_porcelain(out);
    assert_eq!(modified, vec!["a.rs"]);
    assert!(added.is_empty());
    assert!(deleted.is_empty());
}

#[test]
fn diff_stat_summary_is_read_from_the_last_line() {
    let out = " src/a.rs | 10 +++++-----\n src/b.rs |  2 ++\n 3 files changed, 42 insertions(+), 10 deletions(-)\n";
    assert_eq!(parse_diff_stats(out), (42, 10, 3));
}

#[test]
fn diff_stat_with_one_file_and_no_deletions() {
    let out = " a.txt | 1 +\n 1 file changed, 1 insertion(+)\n";
    assert_eq!(parse_diff_stats(out), (1, 0, 1));
}

#[test]
fn deletions_only_summary() {
    let out = " a.rs | 2 --\n 1 file changed, 2 deletions(-)\n";
    assert_eq!(parse_diff_stats(out), (0, 2, 1));
}

#[test]
fn empty_diff_stat_counts_nothing() {
    assert_eq!(parse_diff_stats(""), (0, 0, 0));
    assert_eq!(parse_diff_stats("no summary here"), (0, 0, 0));
}
