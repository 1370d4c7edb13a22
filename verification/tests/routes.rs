use pman_server::routes::{
    backup_dir_path, backup_file_path, index_message, join_file_names, password_path,
    unauthorized,
};

#[test]
fn unauthorized_text() {
    assert_eq!(unauthorized(), "Unauthorized, invalid API key");
}

#[test]
fn index_with_everything_readable() {
    assert_eq!(
        index_message(Some((Some(3), Some(4096))), Some(2)),
        "Server is running\n3\n4096\n2\n"
    );
}

#[test]
fn index_without_user_dir() {
    assert_eq!(
        index_message(None, Some(0)),
        "Server is running\nCould not get user directory\n0\n"
    );
}

#[test]
fn index_with_unreadable_parts() {
    assert_eq!(
        index_message(Some((None, None)), None),
        "Server is running\nCould not read user directory\nCould not read directory\nUnable to access API keys\n"
    );
}

#[test]
fn listing_separates_names_by_newlines() {
    let names = vec![b"a".to_vec(), b"bc".to_vec(), b"d".to_vec()];
    assert_eq!(join_file_names(&names), b"a\nbc\nd".to_vec());
}

#[test]
fn listing_of_nothing_is_empty() {
    assert_eq!(join_file_names(&Vec::new()), Vec::<u8>::new());
}

#[test]
fn listing_skips_separator_after_empty_start() {
    let names = vec![Vec::new(), b"x".to_vec(), Vec::new(), b"y".to_vec()];
    assert_eq!(join_file_names(&names), b"x\n\ny".to_vec());
}

#[test]
fn password_and_backup_paths() {
    assert_eq!(password_path("data/alice", "mail"), "data/alice/mail");
    assert_eq!(backup_dir_path("data/alice"), "data/alice/backup/");
    assert_eq!(backup_file_path("data/alice", "mail"), "data/alice/backup/mail");
}
