use last_rs::cli;

#[test]
fn no_files_means_the_default_log() {
    let files = cli::cli(vec![]);
    assert_eq!(files, vec!["/var/log/wtmp".to_string()]);
}

#[test]
fn named_files_are_kept_in_order() {
    let named = vec!["wtmp.1".to_string(), "wtmp.2".to_string()];
    let files = cli::cli(named.clone());
    assert_eq!(files, named);
}
