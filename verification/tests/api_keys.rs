use pman_server::api_keys::{ApiKeyError, ApiKeyStore, ValidUser};
use pman_server::config::ServerConfig;

#[test]
fn new_store_is_empty() {
    let store = ApiKeyStore::new();
    assert_eq!(store.len(), 0);
    assert_eq!(store.is_valid("k", "u"), Err(ApiKeyError::InvalidApiKey));
}

#[test]
fn key_file_entries_are_accepted() {
    let store = ApiKeyStore::from_file("key1 alice\nkey2 bob\n");
    assert_eq!(store.len(), 2);
    assert_eq!(store.is_valid("key1", "alice"), Ok(()));
    assert_eq!(store.is_valid("key2", "bob"), Ok(()));
}

#[test]
fn wrong_user_is_refused() {
    let store = ApiKeyStore::from_file("key1 alice\n");
    assert_eq!(store.is_valid("key1", "bob"), Err(ApiKeyError::InvalidUser));
    assert_eq!(store.is_valid("key9", "alice"), Err(ApiKeyError::InvalidApiKey));
}

#[test]
fn crlf_line_endings_are_stripped() {
    let store = ApiKeyStore::from_file("key1 alice\r\nkey2 bob\r\n");
    assert_eq!(store.is_valid("key1", "alice"), Ok(()));
    assert_eq!(store.is_valid("key2", "bob"), Ok(()));
}

#[test]
fn last_line_without_ending_is_read_as_is() {
    // A carriage return is only dropped before a newline.
    let store = ApiKeyStore::from_file("key1 alice\nkey2 bob\r");
    assert_eq!(store.is_valid("key1", "alice"), Ok(()));
    assert_eq!(store.is_valid("key2", "bob\r"), Ok(()));
    assert_eq!(store.is_valid("key2", "bob"), Err(ApiKeyError::InvalidUser));
}

#[test]
fn last_line_wins_for_a_repeated_key() {
    let store = ApiKeyStore::from_file("k alice\nk bob\n");
    assert_eq!(store.len(), 1);
    assert_eq!(store.is_valid("k", "bob"), Ok(()));
    assert_eq!(store.is_valid("k", "alice"), Err(ApiKeyError::InvalidUser));
}

#[test]
fn line_without_space_has_empty_user() {
    let store = ApiKeyStore::from_file("lonely\n");
    assert_eq!(store.is_valid("lonely", ""), Ok(()));
}

#[test]
fn fields_after_the_second_are_ignored() {
    let store = ApiKeyStore::from_file("k alice extra words\n");
    assert_eq!(store.is_valid("k", "alice"), Ok(()));
}

#[test]
fn double_space_gives_empty_user() {
    let store = ApiKeyStore::from_file("k  alice\n");
    assert_eq!(store.is_valid("k", ""), Ok(()));
}

#[test]
fn empty_line_gives_empty_entry() {
    let store = ApiKeyStore::from_file("a b\n\nc d\n");
    assert_eq!(store.len(), 3);
    assert_eq!(store.is_valid("", ""), Ok(()));
}

#[test]
fn empty_text_loads_nothing() {
    let store = ApiKeyStore::from_file("");
    assert_eq!(store.len(), 0);
}

#[test]
fn non_ascii_keys_are_kept_whole() {
    let store = ApiKeyStore::from_file("clé éloïse\n");
    assert_eq!(store.is_valid("clé", "éloïse"), Ok(()));
}

#[test]
fn reload_keeps_old_keys_and_overrides_listed_ones() {
    let mut store = ApiKeyStore::from_file("k1 alice\nk2 bob\n");
    store.load_keys("k2 carol\nk3 dave\n");
    assert_eq!(store.len(), 3);
    assert_eq!(store.is_valid("k1", "alice"), Ok(()));
    assert_eq!(store.is_valid("k2", "carol"), Ok(()));
    assert_eq!(store.is_valid("k3", "dave"), Ok(()));
}

#[test]
fn reloading_the_same_file_changes_nothing() {
    let text = "k1 alice\nk1 bob\nk2 carol";
    let mut store = ApiKeyStore::from_file(text);
    store.load_keys(text);
    assert_eq!(store.len(), 2);
    assert_eq!(store.is_valid("k1", "bob"), Ok(()));
    assert_eq!(store.is_valid("k2", "carol"), Ok(()));
}

#[test]
fn authenticate_reports_missing_key_first() {
    let store = ApiKeyStore::from_file("k alice\n");
    assert!(matches!(
        ValidUser::authenticate(&store, None, None),
        Err(ApiKeyError::MissingApiKey)
    ));
    assert!(matches!(
        ValidUser::authenticate(&store, None, Some("alice")),
        Err(ApiKeyError::MissingApiKey)
    ));
}

#[test]
fn authenticate_reports_missing_user() {
    let store = ApiKeyStore::from_file("k alice\n");
    assert!(matches!(
        ValidUser::authenticate(&store, Some("k"), None),
        Err(ApiKeyError::MissingUser)
    ));
}

#[test]
fn authenticate_reports_store_errors() {
    let store = ApiKeyStore::from_file("k alice\n");
    assert!(matches!(
        ValidUser::authenticate(&store, Some("x"), Some("alice")),
        Err(ApiKeyError::InvalidApiKey)
    ));
    assert!(matches!(
        ValidUser::authenticate(&store, Some("k"), Some("bob")),
        Err(ApiKeyError::InvalidUser)
    ));
}

#[test]
fn authenticate_accepts_a_listed_pair() {
    let store = ApiKeyStore::from_file("k alice\n");
    let user = ValidUser::authenticate(&store, Some("k"), Some("alice")).ok().unwrap();
    assert_eq!(user.key(), "k");
    assert_eq!(user.user_name(), "alice");
}

#[test]
fn user_dir_is_under_the_data_dir() {
    let store = ApiKeyStore::from_file("k alice\n");
    let user = ValidUser::authenticate(&store, Some("k"), Some("alice")).ok().unwrap();
    let mut config = ServerConfig::default();
    assert_eq!(user.user_dir_path(&config), "data/alice");
    config.data_dir = Some(String::from("/srv/pman"));
    assert_eq!(user.user_dir_path(&config), "/srv/pman/alice");
}

#[test]
fn appended_lines_load_after_the_original_ones() {
    let whole = ApiKeyStore::from_file("a x\nb y\na z");
    let mut stepwise = ApiKeyStore::from_file("a x\n");
    stepwise.load_keys("b y\na z");
    assert_eq!(whole.len(), stepwise.len());
    for (key, user) in [("a", "z"), ("b", "y")] {
        assert_eq!(whole.is_valid(key, user), Ok(()));
        assert_eq!(stepwise.is_valid(key, user), Ok(()));
    }
}
