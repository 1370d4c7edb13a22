//! The rule of the nightly backup clean-up.

use vstd::prelude::*;

verus! {

/// When the clean-up runs: every day at 2 AM (seconds, minutes, hours, day
/// of month, month, day of week).
pub const BACKUP_SCHEDULE: &'static str = "0 0 2 * * *";

/// How old a backup may get before the clean-up removes it: seven days, in
/// seconds.
pub const BACKUP_MAX_AGE_SECS: u64 = 604800;

/// Whether a backup last modified `age_secs` seconds ago is removed: only
/// once it is older than seven days.
pub fn backup_expired(age_secs: u64) -> (expired: bool)
    ensures
        expired == (age_secs > BACKUP_MAX_AGE_SECS),
{
    age_secs > BACKUP_MAX_AGE_SECS
}

} // verus!
