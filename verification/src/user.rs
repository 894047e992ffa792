//! A logged-in player, as plain profile data.

use vstd::prelude::*;

verus! {

/// A player's profile as handed over by the login collaborator.
#[derive(Debug, PartialEq)]
pub struct User {
    pub name: String,
    pub image_url: String,
    pub user_id: String,
}

} // verus!
