//! Client-side rate-limit governor for a chat bot API, together with the
//! plain records that the API exchanges.
//!
//! The scheduling core lives in [`scheduler`]: it decides, tick by tick,
//! which pending admissions may be sent without breaking the per-chat and
//! global limits. Awaiting, sleeping and channels are left to the caller.
pub mod chat_key;
pub mod history;
pub mod limits;
pub mod request;
pub mod scheduler;
pub mod encrypted_passport_element;
pub mod passport_file;
pub mod user;
pub mod poll;
pub mod pre_checkout_query;
