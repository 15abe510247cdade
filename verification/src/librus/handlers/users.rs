//! A user of the content provider.

use vstd::prelude::*;

verus! {

/// A user as the provider describes one.
#[derive(Clone, Debug, PartialEq, Eq)]
pub struct User {
    pub id: i32,
    pub first_name: Option<String>,
    pub last_name: Option<String>,
}

} // verus!
