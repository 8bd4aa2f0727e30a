//! The admission history: records of (chat, time in milliseconds), in the
//! order in which they were admitted, and the counts taken over it.
use crate::chat_key::ChatIdHash;
use vstd::prelude::*;

verus! {

/// One admission: the chat it went to and the time of the decision.
pub type Record = (ChatIdHash, u64);

/// Does record `r` fall into the half-open time range `[lo, hi)` and, where
/// `chat` is given, go to that chat?
pub open spec fn matches(r: Record, chat: Option<ChatIdHash>, lo: int, hi: int) -> bool {
    &&& (chat matches Some(k) ==> r.0 == k)
    &&& lo <= r.1 < hi
}

/// Number of records in `h` that go to `chat` (any chat for `None`) at a
/// time in `[lo, hi)`.
pub open spec fn tally(h: Seq<Record>, chat: Option<ChatIdHash>, lo: int, hi: int) -> nat
    decreases h.len(),
{
    if h.len() == 0 {
        0
    } else {
        tally(h.drop_last(), chat, lo, hi) + if matches(h.last(), chat, lo, hi) {
            1nat
        } else {
            0nat
        }
    }
}

/// Records of `h` for `chat` admitted in the last second before `now`,
/// that is in `(now - 1s, now]`.
pub open spec fn recent(h: Seq<Record>, chat: Option<ChatIdHash>, now: u64) -> nat {
    tally(h, chat, now - 999, now + 1)
}

/// All records of `h` for `chat`, whatever their time.
pub open spec fn occurrences(h: Seq<Record>, chat: ChatIdHash) -> nat {
    tally(h, Some(chat), 0, u64::MAX + 1)
}

/// Timestamps never decrease along `h`.
pub open spec fn sorted(h: Seq<Record>) -> bool {
    forall|i: int, j: int| 0 <= i <= j < h.len() ==> h[i].1 <= h[j].1
}

/// No record of `h` is later than `now`.
pub open spec fn not_after(h: Seq<Record>, now: u64) -> bool {
    forall|i: int| 0 <= i < h.len() ==> h[i].1 <= now
}

/// Is record time `t` more than a minute before `now`?
pub open spec fn expired(t: u64, now: u64) -> bool {
    t + 60000 < now
}

/// `h` without its leading records that are more than a minute older than
/// `now`.
pub open spec fn trim(h: Seq<Record>, now: u64) -> Seq<Record>
    decreases h.len(),
{
    if h.len() > 0 && expired(h[0].1, now) {
        trim(h.drop_first(), now)
    } else {
        h
    }
}

/// `h` with one record `(k, now)` appended for each entry of `admitted`.
pub open spec fn stamp<T>(admitted: Seq<(ChatIdHash, T)>, now: u64) -> Seq<Record> {
    admitted.map_values(|e: (ChatIdHash, T)| (e.0, now))
}

pub(crate) proof fn lemma_tally_concat(a: Seq<Record>, b: Seq<Record>, chat: Option<ChatIdHash>, lo: int, hi: int)
    ensures
        tally(a + b, chat, lo, hi) == tally(a, chat, lo, hi) + tally(b, chat, lo, hi),
    decreases b.len(),
{
    if b.len() == 0 {
        assert(a + b =~= a);
    } else {
        assert((a + b).drop_last() =~= a + b.drop_last());
        lemma_tally_concat(a, b.drop_last(), chat, lo, hi);
    }
}

pub(crate) proof fn lemma_tally_push(h: Seq<Record>, r: Record, chat: Option<ChatIdHash>, lo: int, hi: int)
    ensures
        tally(h.push(r), chat, lo, hi) == tally(h, chat, lo, hi) + if matches(r, chat, lo, hi) {
            1nat
        } else {
            0nat
        },
{
    assert(h.push(r).drop_last() =~= h);
}

pub(crate) proof fn lemma_tally_drop_first(h: Seq<Record>, chat: Option<ChatIdHash>, lo: int, hi: int)
    requires
        h.len() > 0,
    ensures
        tally(h, chat, lo, hi) == tally(h.drop_first(), chat, lo, hi) + if matches(h[0], chat, lo, hi) {
            1nat
        } else {
            0nat
        },
{
    let head = seq![h[0]];
    assert(h =~= head + h.drop_first());
    lemma_tally_concat(head, h.drop_first(), chat, lo, hi);
    assert(head.drop_last() =~= Seq::<Record>::empty());
    assert(tally(head.drop_last(), chat, lo, hi) == 0);
    assert(head.last() == h[0]);
}

/// A tally over a range only grows when the range does.
pub(crate) proof fn lemma_tally_mono(h: Seq<Record>, chat: Option<ChatIdHash>, lo1: int, hi1: int, lo2: int, hi2: int)
    requires
        lo2 <= lo1,
        hi1 <= hi2,
    ensures
        tally(h, chat, lo1, hi1) <= tally(h, chat, lo2, hi2),
    decreases h.len(),
{
    if h.len() > 0 {
        lemma_tally_mono(h.drop_last(), chat, lo1, hi1, lo2, hi2);
    }
}

/// Two ranges that agree on every record of `h` give the same tally.
pub(crate) proof fn lemma_tally_same(h: Seq<Record>, chat: Option<ChatIdHash>, lo1: int, hi1: int, lo2: int, hi2: int)
    requires
        forall|i: int| 0 <= i < h.len() ==> (lo1 <= #[trigger] h[i].1 < hi1 <==> lo2 <= h[i].1 < hi2),
    ensures
        tally(h, chat, lo1, hi1) == tally(h, chat, lo2, hi2),
    decreases h.len(),
{
    if h.len() > 0 {
        let t = h.drop_last();
        assert forall|i: int| 0 <= i < t.len() implies (lo1 <= #[trigger] t[i].1 < hi1 <==> lo2 <= t[i].1 < hi2) by {
            assert(t[i] == h[i]);
        }
        lemma_tally_same(t, chat, lo1, hi1, lo2, hi2);
    }
}

/// A range that no record of `h` falls into has a tally of zero.
pub(crate) proof fn lemma_tally_none(h: Seq<Record>, chat: Option<ChatIdHash>, lo: int, hi: int)
    requires
        forall|i: int| 0 <= i < h.len() ==> !(lo <= #[trigger] h[i].1 < hi),
    ensures
        tally(h, chat, lo, hi) == 0,
    decreases h.len(),
{
    if h.len() > 0 {
        let t = h.drop_last();
        assert forall|i: int| 0 <= i < t.len() implies !(lo <= #[trigger] t[i].1 < hi) by {
            assert(t[i] == h[i]);
        }
        lemma_tally_none(t, chat, lo, hi);
    }
}

/// A prefix of `h` has no more records in a range than `h` has.
pub(crate) proof fn lemma_tally_prefix(h: Seq<Record>, i: int, chat: Option<ChatIdHash>, lo: int, hi: int)
    requires
        0 <= i <= h.len(),
    ensures
        tally(h.take(i), chat, lo, hi) <= tally(h, chat, lo, hi),
{
    assert(h =~= h.take(i) + h.skip(i));
    lemma_tally_concat(h.take(i), h.skip(i), chat, lo, hi);
}

/// A chat has no more records in a range than it has in all.
pub(crate) proof fn lemma_tally_le_occurrences(h: Seq<Record>, k: ChatIdHash, lo: int, hi: int)
    ensures
        tally(h, Some(k), lo, hi) <= occurrences(h, k),
    decreases h.len(),
{
    if h.len() > 0 {
        lemma_tally_le_occurrences(h.drop_last(), k, lo, hi);
    }
}

/// What `trim` keeps: a suffix of `h`, whose dropped records have all
/// expired, and whose first record has not.
pub(crate) proof fn lemma_trim(h: Seq<Record>, now: u64)
    ensures
        trim(h, now).len() <= h.len(),
        trim(h, now) =~= h.subrange(h.len() - trim(h, now).len(), h.len() as int),
        forall|i: int| 0 <= i < h.len() - trim(h, now).len() ==> expired(#[trigger] h[i].1, now),
        trim(h, now).len() > 0 ==> !expired(trim(h, now)[0].1, now),
    decreases h.len(),
{
    if h.len() > 0 && expired(h[0].1, now) {
        let t = h.drop_first();
        lemma_trim(t, now);
        assert forall|i: int| 0 <= i < h.len() - trim(h, now).len() implies expired(#[trigger] h[i].1, now) by {
            if i > 0 {
                assert(h[i] == t[i - 1]);
            }
        }
    }
}

/// On sorted records, what `trim` keeps has expired nowhere and is sorted.
pub(crate) proof fn lemma_trim_sorted(h: Seq<Record>, now: u64)
    requires
        sorted(h),
    ensures
        sorted(trim(h, now)),
        forall|i: int| 0 <= i < trim(h, now).len() ==> !expired(#[trigger] trim(h, now)[i].1, now),
{
    lemma_trim(h, now);
    let r = trim(h, now);
    let d = h.len() - r.len();
    assert forall|i: int| 0 <= i < r.len() implies !expired(#[trigger] r[i].1, now) by {
        assert(r[i] == h[d + i]);
        assert(r[0] == h[d]);
    }
}

} // verus!
