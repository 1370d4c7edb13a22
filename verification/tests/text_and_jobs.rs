use pman_server::jobs::{backup_expired, BACKUP_MAX_AGE_SECS, BACKUP_SCHEDULE};
use pman_server::text::decimal_string;

#[test]
fn decimal_rendering() {
    assert_eq!(decimal_string(0), "0");
    assert_eq!(decimal_string(7), "7");
    assert_eq!(decimal_string(10), "10");
    assert_eq!(decimal_string(1234567890), "1234567890");
    assert_eq!(decimal_string(u64::MAX), u64::MAX.to_string());
}

#[test]
fn backups_expire_after_seven_days() {
    assert_eq!(BACKUP_MAX_AGE_SECS, 7 * 24 * 3600);
    assert!(!backup_expired(0));
    assert!(!backup_expired(604800));
    assert!(backup_expired(604801));
}

#[test]
fn cleanup_runs_at_two_am() {
    assert_eq!(BACKUP_SCHEDULE, "0 0 2 * * *");
}
