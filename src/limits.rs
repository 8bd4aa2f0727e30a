use vstd::prelude::*;

verus! {

/// Milliseconds in the short moving window.
pub const SECOND_MS: u64 = 1000;

/// Milliseconds in the long moving window.
pub const MINUTE_MS: u64 = 60000;

/// Pause between two scheduling iterations, in milliseconds.
pub const DELAY_MS: u64 = 250;

/// Request limits of the bot API.
///
/// Note that the API's support may raise the limits of a particular bot on
/// request.
#[derive(Copy, Clone, Debug, PartialEq, Eq, Hash, Structural)]
pub struct Limits {
    /// Allowed messages in one chat per second.
    pub messages_per_sec_chat: u32,
    /// Allowed messages in one chat per minute.
    pub messages_per_min_chat: u32,
    /// Allowed messages per second over all chats.
    pub messages_per_sec_overall: u32,
}

/// The defaults are those that the API documents for an ordinary bot.
impl Default for Limits {
    fn default() -> (r: Self)
        ensures
            r.messages_per_sec_chat == 1,
            r.messages_per_min_chat == 20,
            r.messages_per_sec_overall == 30,
    {
        Limits { messages_per_sec_chat: 1, messages_per_sec_overall: 30, messages_per_min_chat: 20 }
    }
}

} // verus!
