//! Profile creation data. The profile rows themselves, and the queries
//! over them, live with the driver that runs the relational store.

use vstd::prelude::*;

verus! {

/// The data a new user profile row is created from.
#[derive(Debug, Clone)]
pub struct CreateNewUserProfile {
    pub name: String,
    pub email: String,
}

} // verus!
