//! Users, as the bot API describes them.
use vstd::prelude::*;

verus! {

/// A user or a bot.
#[derive(Clone, Debug, PartialEq, Eq, Hash)]
pub struct User {
    /// Unique identifier of the user or bot.
    pub id: i32,
    /// `true` if this user is a bot.
    pub is_bot: bool,
    /// First name of the user or bot.
    pub first_name: String,
    /// Last name of the user or bot.
    pub last_name: Option<String>,
    /// Username of the user or bot.
    pub username: Option<String>,
    /// IETF language tag of the user's language.
    pub language_code: Option<String>,
}

} // verus!
