//! Plain data shared across the library: the error taxonomy of the core,
//! the user-log records that embedders persist, and the event names they
//! carry.

use vstd::prelude::*;
use crate::time_utils;

verus! {

/// Failures of the core operations.
#[derive(Debug, Clone, PartialEq, Eq)]
pub enum CoreError {
    /// Branch and object-id resolution both failed.
    RefNotFound,
    /// A tail path does not resolve in the commit tree; carries the final
    /// segment of the requested path.
    PathNotFound(String),
    /// The object store could not produce an object that should exist.
    ObjectReadFailure,
}

/// Outcomes of repository-metadata operations, for embedders that persist
/// repository records.
#[derive(Debug, Clone, Copy, PartialEq, Eq, Structural)]
pub enum Error {
    Unauthorized,
    NotFound,
    Found,
}

/// Events recorded in a user's activity log.
#[derive(Debug, Clone, Copy, PartialEq, Eq, Structural)]
pub enum Event {
    Login,
    Logout,
    UpdatePassword,
    RepositoryCreate,
    RepositoryDelete,
}

impl Event {
    /// The stable string identifier of the event.
    pub fn to_str(&self) -> (r: &str)
        ensures
            self is Login ==> r@ == "user.login"@,
            self is Logout ==> r@ == "user.logout"@,
            self is UpdatePassword ==> r@ == "user.update_password"@,
            self is RepositoryCreate ==> r@ == "repository.create"@,
            self is RepositoryDelete ==> r@ == "repository.delete"@,
    {
        match self {
            Event::Login => "user.login",
            Event::Logout => "user.logout",
            Event::UpdatePassword => "user.update_password",
            Event::RepositoryCreate => "repository.create",
            Event::RepositoryDelete => "repository.delete",
        }
    }
}

/// One entry of a user's activity log.
#[derive(Debug, Clone)]
pub struct Log {
    pub event: String,
    pub description: String,
    /// Seconds since the unix epoch.
    pub created_at: i64,
}

impl Log {
    /// The entry's age as a relative label against the clock now.
    pub fn created_at(&self) -> (r: String) {
        time_utils::to_relative_time(self.created_at)
    }

    /// The entry's timestamp as a calendar date and time, or the empty
    /// string when the timestamp cannot be represented.
    pub fn created_at_dt(&self) -> (r: String)
        ensures
            r@ == time_utils::datetime_text(self.created_at, Option::None) || r@ == Seq::<
                char,
            >::empty(),
    {
        match time_utils::to_datetime(self.created_at, None) {
            Some(s) => s,
            None => String::new(),
        }
    }
}

} // verus!
