//! Lookup of the current user's home directory.
use vstd::prelude::*;

verus! {

/// Relies on `directories::UserDirs::new` and `UserDirs::home_dir`: the
/// user's home directory, where one is known. The result depends on the
/// environment, so nothing is promised of it.
#[verifier::external_body]
pub(crate) fn lookup_home_dir() -> Option<String> {
    directories::UserDirs::new().map(|d| d.home_dir().to_string_lossy().to_string())
}

} // verus!
