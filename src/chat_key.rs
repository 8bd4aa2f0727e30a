use std::collections::hash_map::DefaultHasher;
use std::hash::Hasher;
use vstd::prelude::*;
use vstd::std_specs::hash::DefaultHasherAdditionalSpecFns;
use vstd::utf8::encode_utf8;

verus! {

/// Target of a message: a chat by its numeric id, or a public channel by
/// its `@username`.
#[derive(Clone, Debug, PartialEq, Eq, Hash)]
pub enum ChatId {
    Id(i64),
    ChannelUsername(String),
}

/// Compact key of a chat, used by the scheduler in place of [`ChatId`] so
/// that copying is cheap even for usernames (which are hashed).
///
/// An id and a username that name the same chat are distinct keys: callers
/// that mix the two forms get two separate per-chat budgets for that chat.
#[derive(Copy, Clone, Debug, PartialEq, Eq, Hash, Structural)]
pub enum ChatIdHash {
    Id(i64),
    ChannelUsernameHash(u64),
}

/// Hash of a channel username: the default hasher fed with the name's UTF-8
/// bytes and the `0xff` terminator that `str` hashing appends.
pub open spec fn username_hash(name: Seq<char>) -> u64 {
    DefaultHasher::spec_finish(seq![encode_utf8(name), seq![0xffu8]])
}

/// The key of a chat id.
pub open spec fn key_of(id: ChatId) -> ChatIdHash {
    match id {
        ChatId::Id(n) => ChatIdHash::Id(n),
        ChatId::ChannelUsername(name) => ChatIdHash::ChannelUsernameHash(username_hash(name@)),
    }
}

/// Integer code of a key, injective, used to index hash maps.
pub open spec fn code_of(k: ChatIdHash) -> u128 {
    match k {
        ChatIdHash::Id(n) => (n + 0x8000_0000_0000_0000) as u128,
        ChatIdHash::ChannelUsernameHash(h) => (h + 0x1_0000_0000_0000_0000) as u128,
    }
}

/// Distinct keys have distinct codes.
pub(crate) proof fn lemma_code_injective(a: ChatIdHash, b: ChatIdHash)
    ensures
        code_of(a) == code_of(b) ==> a == b,
{
}

impl ChatIdHash {
    /// The integer code of this key.
    pub fn code(&self) -> (r: u128)
        ensures
            r == code_of(*self),
    {
        match self {
            ChatIdHash::Id(n) => (*n as i128 + 0x8000_0000_0000_0000i128) as u128,
            ChatIdHash::ChannelUsernameHash(h) => *h as u128 + 0x1_0000_0000_0000_0000u128,
        }
    }
}

impl From<&ChatId> for ChatIdHash {
    fn from(value: &ChatId) -> (r: Self) {
        match value {
            ChatId::Id(id) => ChatIdHash::Id(*id),
            ChatId::ChannelUsername(username) => {
                let mut hasher = DefaultHasher::new();
                hasher.write(username.as_str().as_bytes());
                let terminator: Vec<u8> = vec![0xffu8];
                hasher.write(terminator.as_slice());
                proof {
                    assert(terminator@ =~= seq![0xffu8]);
                    assert(hasher@ =~= seq![encode_utf8(username@), seq![0xffu8]]);
                }
                ChatIdHash::ChannelUsernameHash(hasher.finish())
            },
        }
    }
}

impl vstd::std_specs::convert::FromSpecImpl<&ChatId> for ChatIdHash {
    open spec fn obeys_from_spec() -> bool {
        true
    }

    open spec fn from_spec(v: &ChatId) -> Self {
        key_of(*v)
    }
}

} // verus!
