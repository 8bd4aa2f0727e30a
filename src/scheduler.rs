//! The throttling worker's decisions.
//!
//! A [`Scheduler`] owns the backlog of pending admissions, the history of
//! the admissions of the last minute and the per-chat tally of that history.
//! Whoever drives it hands it the admissions that arrive ([`Scheduler::push`],
//! [`Scheduler::receive`]) and calls [`Scheduler::tick`] with the current
//! monotonic time once per iteration; `tick` answers with the admissions
//! that may proceed now. Each handle carried by an admission is given back
//! exactly once, so the caller may signal it (for instance by dropping it).
use crate::chat_key::{code_of, lemma_code_injective, ChatIdHash};
use crate::history::{
    expired, lemma_tally_concat, lemma_tally_drop_first, lemma_tally_le_occurrences,
    lemma_tally_prefix, lemma_trim, lemma_trim_sorted, lemma_tally_mono, lemma_tally_none, lemma_tally_push, lemma_tally_same, not_after, occurrences, recent,
    sorted, stamp, tally, trim, Record,
};
use crate::limits::{Limits, MINUTE_MS, SECOND_MS};
use std::collections::{HashMap, VecDeque};
use vstd::prelude::*;

verus! {

broadcast use vstd::std_specs::hash::group_hash_axioms;

/// May an admission for chat `k` pass at `now`, given the history `h`? Its
/// chat must be under both of its per-chat limits.
pub open spec fn eligible(h: Seq<Record>, k: ChatIdHash, now: u64, lim: Limits) -> bool {
    &&& recent(h, Some(k), now) < lim.messages_per_sec_chat
    &&& occurrences(h, k) < lim.messages_per_min_chat
}

/// How many admissions the global per-second limit leaves at `now`.
pub open spec fn budget(h: Seq<Record>, now: u64, lim: Limits) -> nat {
    if recent(h, None, now) >= lim.messages_per_sec_overall {
        0
    } else {
        (lim.messages_per_sec_overall - recent(h, None, now)) as nat
    }
}

/// One admission pass over the backlog's chats `keys`, in order: an entry
/// passes while budget is left and its chat is eligible, counting what
/// passed before it in the same pass. The result flags the entries that
/// pass.
pub open spec fn admit_flags(keys: Seq<ChatIdHash>, h: Seq<Record>, now: u64, lim: Limits, allowed: nat) -> Seq<bool>
    decreases keys.len(),
{
    if keys.len() == 0 {
        Seq::empty()
    } else if allowed == 0 {
        Seq::new(keys.len(), |i: int| false)
    } else if eligible(h, keys[0], now, lim) {
        seq![true] + admit_flags(keys.drop_first(), h.push((keys[0], now)), now, lim, (allowed - 1) as nat)
    } else {
        seq![false] + admit_flags(keys.drop_first(), h, now, lim, allowed)
    }
}

/// The entries of `q` whose flag is `pick`, in order.
pub open spec fn select<T>(q: Seq<(ChatIdHash, T)>, flags: Seq<bool>, pick: bool) -> Seq<(ChatIdHash, T)>
    decreases q.len(),
{
    if q.len() == 0 {
        Seq::empty()
    } else {
        (if flags[0] == pick {
            seq![q[0]]
        } else {
            Seq::empty()
        }) + select(q.drop_first(), flags.drop_first(), pick)
    }
}

/// The chats of the entries of `q`.
pub open spec fn keys_of<T>(q: Seq<(ChatIdHash, T)>) -> Seq<ChatIdHash> {
    q.map_values(|e: (ChatIdHash, T)| e.0)
}

/// The entries of backlog `q` that a tick at `now` admits, given the
/// history `h` before the tick.
pub open spec fn decision<T>(q: Seq<(ChatIdHash, T)>, h: Seq<Record>, now: u64, lim: Limits) -> Seq<bool> {
    admit_flags(keys_of(q), trim(h, now), now, lim, budget(trim(h, now), now, lim))
}

/// The count that map `m` holds for chat `k`, zero where it has no entry.
pub open spec fn count_in(m: Map<u128, u32>, k: ChatIdHash) -> nat {
    if m.contains_key(code_of(k)) {
        m[code_of(k)] as nat
    } else {
        0
    }
}

pub(crate) proof fn lemma_admit_flags_len(keys: Seq<ChatIdHash>, h: Seq<Record>, now: u64, lim: Limits, allowed: nat)
    ensures
        admit_flags(keys, h, now, lim, allowed).len() == keys.len(),
    decreases keys.len(),
{
    if keys.len() > 0 && allowed > 0 {
        if eligible(h, keys[0], now, lim) {
            lemma_admit_flags_len(keys.drop_first(), h.push((keys[0], now)), now, lim, (allowed - 1) as nat);
        } else {
            lemma_admit_flags_len(keys.drop_first(), h, now, lim, allowed);
        }
    }
}

pub(crate) proof fn lemma_select_concat<T>(a: Seq<(ChatIdHash, T)>, fa: Seq<bool>, b: Seq<(ChatIdHash, T)>, fb: Seq<bool>, pick: bool)
    requires
        a.len() == fa.len(),
    ensures
        select(a + b, fa + fb, pick) == select(a, fa, pick) + select(b, fb, pick),
    decreases a.len(),
{
    if a.len() == 0 {
        assert(a + b =~= b);
        assert(fa + fb =~= fb);
        assert(select(a, fa, pick) + select(b, fb, pick) =~= select(b, fb, pick));
    } else {
        assert((a + b).drop_first() =~= a.drop_first() + b);
        assert((fa + fb).drop_first() =~= fa.drop_first() + fb);
        lemma_select_concat(a.drop_first(), fa.drop_first(), b, fb, pick);
        let head: Seq<(ChatIdHash, T)> = if fa[0] == pick { seq![a[0]] } else { Seq::empty() };
        assert(select(a + b, fa + fb, pick) == head + select(a.drop_first() + b, fa.drop_first() + fb, pick));
        assert(head + (select(a.drop_first(), fa.drop_first(), pick) + select(b, fb, pick)) =~= (head
            + select(a.drop_first(), fa.drop_first(), pick)) + select(b, fb, pick));
    }
}

pub(crate) proof fn lemma_select_one<T>(e: (ChatIdHash, T), b: bool, pick: bool)
    ensures
        select(seq![e], seq![b], pick) == (if b == pick { seq![e] } else { Seq::<(ChatIdHash, T)>::empty() }),
{
    let q = seq![e];
    assert(q.drop_first() =~= Seq::<(ChatIdHash, T)>::empty());
    assert(select(q.drop_first(), seq![b].drop_first(), pick) =~= Seq::<(ChatIdHash, T)>::empty());
    if b == pick {
        assert(seq![e] + Seq::<(ChatIdHash, T)>::empty() =~= seq![e]);
    } else {
        assert(Seq::<(ChatIdHash, T)>::empty() + Seq::<(ChatIdHash, T)>::empty() =~= Seq::<(ChatIdHash, T)>::empty());
    }
}

/// With every flag down, nothing is picked and everything is left.
pub(crate) proof fn lemma_select_none<T>(q: Seq<(ChatIdHash, T)>, f: Seq<bool>)
    requires
        q.len() == f.len(),
        forall|i: int| 0 <= i < f.len() ==> !#[trigger] f[i],
    ensures
        select(q, f, true) == Seq::<(ChatIdHash, T)>::empty(),
        select(q, f, false) == q,
    decreases q.len(),
{
    if q.len() > 0 {
        let fd = f.drop_first();
        assert forall|i: int| 0 <= i < fd.len() implies !#[trigger] fd[i] by {
            assert(fd[i] == f[i + 1]);
        }
        lemma_select_none(q.drop_first(), fd);
        assert(!f[0]);
        assert(Seq::<(ChatIdHash, T)>::empty() + Seq::<(ChatIdHash, T)>::empty() =~= Seq::<(ChatIdHash, T)>::empty());
        assert(seq![q[0]] + q.drop_first() =~= q);
    }
}

pub(crate) proof fn lemma_stamp_concat<T>(a: Seq<(ChatIdHash, T)>, b: Seq<(ChatIdHash, T)>, now: u64)
    ensures
        stamp(a + b, now) =~= stamp(a, now) + stamp(b, now),
{
}

/// Stamped admissions all fall into every range that holds `now`.
pub(crate) proof fn lemma_stamp_tally<T>(a: Seq<(ChatIdHash, T)>, now: u64, chat: Option<ChatIdHash>, lo1: int, hi1: int, lo2: int, hi2: int)
    requires
        lo1 <= now < hi1,
        lo2 <= now < hi2,
    ensures
        tally(stamp(a, now), chat, lo1, hi1) == tally(stamp(a, now), chat, lo2, hi2),
{
    let s = stamp(a, now);
    assert forall|i: int| 0 <= i < s.len() implies (lo1 <= #[trigger] s[i].1 < hi1 <==> lo2 <= s[i].1 < hi2) by {}
    lemma_tally_same(s, chat, lo1, hi1, lo2, hi2);
}

/// Stamped admissions fall into no range that misses `now`.
pub(crate) proof fn lemma_stamp_tally_outside<T>(a: Seq<(ChatIdHash, T)>, now: u64, chat: Option<ChatIdHash>, lo: int, hi: int)
    requires
        !(lo <= now < hi),
    ensures
        tally(stamp(a, now), chat, lo, hi) == 0,
{
    let s = stamp(a, now);
    assert forall|i: int| 0 <= i < s.len() implies !(lo <= #[trigger] s[i].1 < hi) by {}
    lemma_tally_none(s, chat, lo, hi);
}

/// Counted over every chat, stamped admissions are as many as admitted.
pub(crate) proof fn lemma_stamp_total<T>(a: Seq<(ChatIdHash, T)>, now: u64)
    ensures
        tally(stamp(a, now), None, now - 999, now + 1) == a.len(),
    decreases a.len(),
{
    if a.len() > 0 {
        assert(stamp(a, now).drop_last() =~= stamp(a.drop_last(), now));
        lemma_stamp_total(a.drop_last(), now);
    }
}

/// What one pass admits keeps within the limits: no more than the budget
/// in all, and no chat beyond its per-chat limits unless it was there
/// already.
pub(crate) proof fn lemma_walk_bounds<T>(q: Seq<(ChatIdHash, T)>, h: Seq<Record>, now: u64, lim: Limits, allowed: nat)
    ensures
        ({
            let f = admit_flags(keys_of(q), h, now, lim, allowed);
            let hf = h + stamp(select(q, f, true), now);
            &&& select(q, f, true).len() <= allowed
            &&& forall|k: ChatIdHash| #[trigger] recent(hf, Some(k), now) <= recent(h, Some(k), now)
                || recent(hf, Some(k), now) <= lim.messages_per_sec_chat
            &&& forall|k: ChatIdHash| #[trigger] occurrences(hf, k) <= occurrences(h, k)
                || occurrences(hf, k) <= lim.messages_per_min_chat
        }),
    decreases q.len(),
{
    let f = admit_flags(keys_of(q), h, now, lim, allowed);
    lemma_admit_flags_len(keys_of(q), h, now, lim, allowed);
    if q.len() == 0 {
        assert(h + stamp(select(q, f, true), now) =~= h);
    } else if allowed == 0 {
        lemma_select_none(q, f);
        assert(h + stamp(select(q, f, true), now) =~= h);
    } else {
        let k0 = q[0].0;
        let rest = q.drop_first();
        assert(keys_of(q).drop_first() =~= keys_of(rest));
        assert(keys_of(q)[0] == k0);
        if eligible(h, k0, now, lim) {
            let h1 = h.push((k0, now));
            let fr = admit_flags(keys_of(rest), h1, now, lim, (allowed - 1) as nat);
            lemma_walk_bounds(rest, h1, now, lim, (allowed - 1) as nat);
            assert(f == seq![true] + fr);
            assert(f.drop_first() =~= fr);
            assert(select(q, f, true) == seq![q[0]] + select(rest, fr, true));
            lemma_stamp_concat(seq![q[0]], select(rest, fr, true), now);
            assert(stamp(seq![q[0]], now) =~= seq![(k0, now)]);
            assert(h + stamp(select(q, f, true), now) =~= h1 + stamp(select(rest, fr, true), now));
            assert forall|k: ChatIdHash| #[trigger] recent(h1, Some(k), now) == recent(h, Some(k), now) + if k == k0 { 1nat } else { 0nat } by {
                lemma_tally_push(h, (k0, now), Some(k), now - 999, now + 1);
            }
            assert forall|k: ChatIdHash| #[trigger] occurrences(h1, k) == occurrences(h, k) + if k == k0 { 1nat } else { 0nat } by {
                lemma_tally_push(h, (k0, now), Some(k), 0, u64::MAX + 1);
            }
        } else {
            let fr = admit_flags(keys_of(rest), h, now, lim, allowed);
            lemma_walk_bounds(rest, h, now, lim, allowed);
            assert(f == seq![false] + fr);
            assert(f.drop_first() =~= fr);
            assert(select(q, f, true) =~= select(rest, fr, true));
        }
    }
}

/// The limits hold over every window of `log`, per chat and overall.
pub open spec fn within_limits(log: Seq<Record>, lim: Limits) -> bool {
    &&& forall|k: ChatIdHash, lo: int| #[trigger] tally(log, Some(k), lo, lo + 1000) <= lim.messages_per_sec_chat
    &&& forall|k: ChatIdHash, lo: int| #[trigger] tally(log, Some(k), lo, lo + 60000) <= lim.messages_per_min_chat
    &&& forall|lo: int| #[trigger] tally(log, None, lo, lo + 1000) <= lim.messages_per_sec_overall
}

/// Appending the admissions of one pass at `now` keeps every window of the
/// log within the limits, given what the pass guarantees of the history
/// `h` that it started from (the log's unexpired suffix).
pub(crate) proof fn lemma_extend_log<T>(log: Seq<Record>, h: Seq<Record>, a: Seq<(ChatIdHash, T)>, now: u64, lim: Limits)
    requires
        within_limits(log, lim),
        not_after(log, now),
        h.len() <= log.len(),
        h =~= log.subrange(log.len() - h.len(), log.len() as int),
        forall|i: int| 0 <= i < log.len() - h.len() ==> expired(#[trigger] log[i].1, now),
        a.len() <= budget(h, now, lim),
        forall|k: ChatIdHash| #[trigger] recent(h + stamp(a, now), Some(k), now) <= recent(h, Some(k), now)
            || recent(h + stamp(a, now), Some(k), now) <= lim.messages_per_sec_chat,
        forall|k: ChatIdHash| #[trigger] occurrences(h + stamp(a, now), k) <= occurrences(h, k)
            || occurrences(h + stamp(a, now), k) <= lim.messages_per_min_chat,
    ensures
        within_limits(log + stamp(a, now), lim),
{
    let s = stamp(a, now);
    let log2 = log + s;
    let hf = h + s;
    let p = log.subrange(0, log.len() - h.len());
    assert(log =~= p + h);
    assert forall|i: int| 0 <= i < p.len() implies #[trigger] p[i].1 + 60000 < now by {
        assert(p[i] == log[i]);
    }
    // old records in a range that ends after `now` are those up to `now`
    assert forall|chat: Option<ChatIdHash>, lo: int, hi: int| lo <= now < hi implies #[trigger] tally(log, chat, lo, hi) == tally(log, chat, lo, now + 1) by {
        lemma_tally_same(log, chat, lo, hi, lo, now + 1);
    }
    assert forall|chat: Option<ChatIdHash>, lo: int| lo <= now + 1 && lo > now - 60000 implies #[trigger] tally(log, chat, lo, now + 1) == tally(h, chat, lo, now + 1) by {
        lemma_tally_concat(p, h, chat, lo, now + 1);
        lemma_tally_none(p, chat, lo, now + 1);
    }
    assert forall|k: ChatIdHash, lo: int| #[trigger] tally(log2, Some(k), lo, lo + 1000) <= lim.messages_per_sec_chat by {
        lemma_tally_concat(log, s, Some(k), lo, lo + 1000);
        if lo <= now < lo + 1000 {
            lemma_stamp_tally(a, now, Some(k), lo, lo + 1000, now - 999, now + 1);
            assert(tally(log, Some(k), lo, lo + 1000) == tally(log, Some(k), lo, now + 1));
            lemma_tally_mono(log, Some(k), lo, now + 1, now - 999, now + 1);
            assert(tally(log, Some(k), now - 999, now + 1) == tally(h, Some(k), now - 999, now + 1));
            lemma_tally_concat(h, s, Some(k), now - 999, now + 1);
            assert(recent(hf, Some(k), now) == recent(h, Some(k), now) + tally(s, Some(k), now - 999, now + 1));
        } else {
            lemma_stamp_tally_outside(a, now, Some(k), lo, lo + 1000);
        }
    }
    assert forall|k: ChatIdHash, lo: int| #[trigger] tally(log2, Some(k), lo, lo + 60000) <= lim.messages_per_min_chat by {
        lemma_tally_concat(log, s, Some(k), lo, lo + 60000);
        if lo <= now < lo + 60000 {
            lemma_stamp_tally(a, now, Some(k), lo, lo + 60000, 0, u64::MAX + 1);
            assert(tally(log, Some(k), lo, lo + 60000) == tally(log, Some(k), lo, now + 1));
            let lo2: int = if now >= 59999 { now - 59999 } else if lo < 0 { lo } else { 0 };
            let lo3: int = if lo2 < 0 { lo2 } else { 0 };
            assert(tally(log, Some(k), lo2, now + 1) == tally(h, Some(k), lo2, now + 1));
            lemma_tally_mono(log, Some(k), lo, now + 1, lo2, now + 1);
            lemma_tally_mono(h, Some(k), lo2, now + 1, lo3, u64::MAX + 1);
            lemma_tally_same(h, Some(k), lo3, u64::MAX + 1, 0, u64::MAX + 1);
            lemma_tally_concat(h, s, Some(k), 0, u64::MAX + 1);
            assert(occurrences(hf, k) == occurrences(h, k) + tally(s, Some(k), 0, u64::MAX + 1));
        } else {
            lemma_stamp_tally_outside(a, now, Some(k), lo, lo + 60000);
        }
    }
    assert forall|lo: int| #[trigger] tally(log2, None, lo, lo + 1000) <= lim.messages_per_sec_overall by {
        lemma_tally_concat(log, s, None, lo, lo + 1000);
        if lo <= now < lo + 1000 {
            lemma_stamp_tally(a, now, None, lo, lo + 1000, now - 999, now + 1);
            lemma_stamp_total(a, now);
            assert(tally(log, None, lo, lo + 1000) == tally(log, None, lo, now + 1));
            lemma_tally_mono(log, None, lo, now + 1, now - 999, now + 1);
            assert(tally(log, None, now - 999, now + 1) == tally(h, None, now - 999, now + 1));
        } else {
            lemma_stamp_tally_outside(a, now, None, lo, lo + 1000);
        }
    }
}

pub(crate) proof fn lemma_count_in_insert(m: Map<u128, u32>, k0: ChatIdHash, v: u32, k: ChatIdHash)
    ensures
        count_in(m.insert(code_of(k0), v), k) == if k == k0 { v as nat } else { count_in(m, k) },
{
    lemma_code_injective(k, k0);
}

pub(crate) proof fn lemma_count_in_remove(m: Map<u128, u32>, k0: ChatIdHash, k: ChatIdHash)
    ensures
        count_in(m.remove(code_of(k0)), k) == if k == k0 { 0 } else { count_in(m, k) },
{
    lemma_code_injective(k, k0);
}

/// Number of entries for chat `k` in `keys`.
pub open spec fn key_count(keys: Seq<ChatIdHash>, k: ChatIdHash) -> nat
    decreases keys.len(),
{
    if keys.len() == 0 {
        0
    } else {
        (if keys[0] == k { 1nat } else { 0nat }) + key_count(keys.drop_first(), k)
    }
}

/// Once a chat is not eligible in a pass, no later entry of that chat
/// passes in it: what the pass admits only adds to the chat's counts.
pub(crate) proof fn lemma_blocked_stays_blocked(keys: Seq<ChatIdHash>, h: Seq<Record>, now: u64, lim: Limits, allowed: nat, k: ChatIdHash, j: int)
    requires
        !eligible(h, k, now, lim),
        0 <= j < keys.len(),
        keys[j] == k,
    ensures
        !admit_flags(keys, h, now, lim, allowed)[j],
    decreases keys.len(),
{
    let f = admit_flags(keys, h, now, lim, allowed);
    lemma_admit_flags_len(keys, h, now, lim, allowed);
    if allowed > 0 {
        if eligible(h, keys[0], now, lim) {
            let h1 = h.push((keys[0], now));
            lemma_admit_flags_len(keys.drop_first(), h1, now, lim, (allowed - 1) as nat);
            lemma_tally_push(h, (keys[0], now), Some(k), now - 999, now + 1);
            lemma_tally_push(h, (keys[0], now), Some(k), 0, u64::MAX + 1);
            assert(!eligible(h1, k, now, lim));
            assert(j > 0);
            lemma_blocked_stays_blocked(keys.drop_first(), h1, now, lim, (allowed - 1) as nat, k, j - 1);
            assert(f[j] == admit_flags(keys.drop_first(), h1, now, lim, (allowed - 1) as nat)[j - 1]);
        } else if j > 0 {
            lemma_admit_flags_len(keys.drop_first(), h, now, lim, allowed);
            lemma_blocked_stays_blocked(keys.drop_first(), h, now, lim, allowed, k, j - 1);
            assert(f[j] == admit_flags(keys.drop_first(), h, now, lim, allowed)[j - 1]);
        }
    }
}

/// Per-chat order: within one pass, an entry is admitted only if every
/// earlier entry of the same chat is admitted too.
pub proof fn lemma_pass_keeps_chat_order(keys: Seq<ChatIdHash>, h: Seq<Record>, now: u64, lim: Limits, allowed: nat, i: int, j: int)
    requires
        0 <= i < j < keys.len(),
        keys[i] == keys[j],
        admit_flags(keys, h, now, lim, allowed)[j],
    ensures
        admit_flags(keys, h, now, lim, allowed)[i],
    decreases keys.len(),
{
    let f = admit_flags(keys, h, now, lim, allowed);
    lemma_admit_flags_len(keys, h, now, lim, allowed);
    if allowed == 0 {
        assert(!f[j]);
    } else if eligible(h, keys[0], now, lim) {
        let h1 = h.push((keys[0], now));
        lemma_admit_flags_len(keys.drop_first(), h1, now, lim, (allowed - 1) as nat);
        if i > 0 {
            assert(f[j] == admit_flags(keys.drop_first(), h1, now, lim, (allowed - 1) as nat)[j - 1]);
            lemma_pass_keeps_chat_order(keys.drop_first(), h1, now, lim, (allowed - 1) as nat, i - 1, j - 1);
            assert(f[i] == admit_flags(keys.drop_first(), h1, now, lim, (allowed - 1) as nat)[i - 1]);
        }
    } else {
        lemma_admit_flags_len(keys.drop_first(), h, now, lim, allowed);
        assert(f[j] == admit_flags(keys.drop_first(), h, now, lim, allowed)[j - 1]);
        if i > 0 {
            lemma_pass_keeps_chat_order(keys.drop_first(), h, now, lim, allowed, i - 1, j - 1);
            assert(f[i] == admit_flags(keys.drop_first(), h, now, lim, allowed)[i - 1]);
        } else {
            lemma_blocked_stays_blocked(keys.drop_first(), h, now, lim, allowed, keys[0], j - 1);
        }
    }
}

/// A pass admits every entry when the budget covers them all and every
/// chat stays within its per-chat limits even with all of its entries
/// admitted.
pub proof fn lemma_pass_admits_all(keys: Seq<ChatIdHash>, h: Seq<Record>, now: u64, lim: Limits, allowed: nat)
    requires
        keys.len() <= allowed,
        forall|k: ChatIdHash| #[trigger] recent(h, Some(k), now) + key_count(keys, k) <= lim.messages_per_sec_chat,
        forall|k: ChatIdHash| #[trigger] occurrences(h, k) + key_count(keys, k) <= lim.messages_per_min_chat,
    ensures
        forall|i: int| 0 <= i < keys.len() ==> #[trigger] admit_flags(keys, h, now, lim, allowed)[i],
    decreases keys.len(),
{
    lemma_admit_flags_len(keys, h, now, lim, allowed);
    if keys.len() > 0 {
        let k0 = keys[0];
        let rest = keys.drop_first();
        let h1 = h.push((k0, now));
        assert(recent(h, Some(k0), now) + key_count(keys, k0) <= lim.messages_per_sec_chat);
        assert(occurrences(h, k0) + key_count(keys, k0) <= lim.messages_per_min_chat);
        assert(eligible(h, k0, now, lim));
        assert forall|k: ChatIdHash| #[trigger] recent(h1, Some(k), now) + key_count(rest, k) <= lim.messages_per_sec_chat by {
            lemma_tally_push(h, (k0, now), Some(k), now - 999, now + 1);
            assert(recent(h, Some(k), now) + key_count(keys, k) <= lim.messages_per_sec_chat);
        }
        assert forall|k: ChatIdHash| #[trigger] occurrences(h1, k) + key_count(rest, k) <= lim.messages_per_min_chat by {
            lemma_tally_push(h, (k0, now), Some(k), 0, u64::MAX + 1);
            assert(occurrences(h, k) + key_count(keys, k) <= lim.messages_per_min_chat);
        }
        lemma_pass_admits_all(rest, h1, now, lim, (allowed - 1) as nat);
        lemma_admit_flags_len(rest, h1, now, lim, (allowed - 1) as nat);
        let f = admit_flags(keys, h, now, lim, allowed);
        assert forall|i: int| 0 <= i < keys.len() implies #[trigger] f[i] by {
            if i > 0 {
                assert(f[i] == admit_flags(rest, h1, now, lim, (allowed - 1) as nat)[i - 1]);
            }
        }
    }
}

/// Every entry is either picked or left.
pub(crate) proof fn lemma_select_split_len<T>(q: Seq<(ChatIdHash, T)>, f: Seq<bool>)
    requires
        q.len() == f.len(),
    ensures
        select(q, f, true).len() + select(q, f, false).len() == q.len(),
    decreases q.len(),
{
    if q.len() > 0 {
        lemma_select_split_len(q.drop_first(), f.drop_first());
    }
}

/// With every flag up, everything is picked.
pub(crate) proof fn lemma_select_every<T>(q: Seq<(ChatIdHash, T)>, f: Seq<bool>)
    requires
        q.len() == f.len(),
        forall|i: int| 0 <= i < f.len() ==> #[trigger] f[i],
    ensures
        select(q, f, true) == q,
    decreases q.len(),
{
    if q.len() > 0 {
        let fd = f.drop_first();
        assert forall|i: int| 0 <= i < fd.len() implies #[trigger] fd[i] by {
            assert(fd[i] == f[i + 1]);
        }
        lemma_select_every(q.drop_first(), fd);
        assert(f[0]);
        assert(seq![q[0]] + q.drop_first() =~= q);
    }
}

/// Records stamped `now` keep sorted records up to `now` sorted and up to
/// `now`.
pub(crate) proof fn lemma_append_now<T>(h: Seq<Record>, a: Seq<(ChatIdHash, T)>, now: u64)
    requires
        sorted(h),
        not_after(h, now),
    ensures
        sorted(h + stamp(a, now)),
        not_after(h + stamp(a, now), now),
{
    let s = stamp(a, now);
    let r = h + s;
    assert forall|i: int, j: int| 0 <= i <= j < r.len() implies r[i].1 <= r[j].1 by {
        if j < h.len() {
            assert(r[i] == h[i] && r[j] == h[j]);
        } else if i >= h.len() {
            assert(r[i] == s[i - h.len()] && r[j] == s[j - h.len()]);
        } else {
            assert(r[i] == h[i] && r[j] == s[j - h.len()]);
        }
    }
    assert forall|i: int| 0 <= i < r.len() implies r[i].1 <= now by {
        if i >= h.len() {
            assert(r[i] == s[i - h.len()]);
        } else {
            assert(r[i] == h[i]);
        }
    }
}

/// No refund: the admissions of a tick at `now` stay counted against the
/// global per-second budget of every later tick within the same second,
/// whatever became of the requests they admitted.
pub proof fn lemma_admissions_stay_counted<T>(h: Seq<Record>, a: Seq<(ChatIdHash, T)>, now: u64, later: u64)
    requires
        now <= later < now + 1000,
    ensures
        recent(trim(h + stamp(a, now), later), None, later) >= a.len(),
{
    let s = stamp(a, now);
    let x = h + s;
    let t = trim(x, later);
    lemma_trim(x, later);
    let d = x.len() - t.len();
    if d > h.len() {
        assert(x[h.len() as int] == s[0]);
        assert(expired(x[h.len() as int].1, later));
    }
    assert(t =~= x.subrange(d, h.len() as int) + s);
    lemma_tally_concat(x.subrange(d, h.len() as int), s, None, later - 999, later + 1);
    lemma_stamp_tally(a, now, None, later - 999, later + 1, now - 999, now + 1);
    lemma_stamp_total(a, now);
}

/// Scheduling state of the throttling worker.
pub struct Scheduler<T> {
    limits: Limits,
    queue: VecDeque<(ChatIdHash, T)>,
    history: VecDeque<Record>,
    per_min: HashMap<u128, u32>,
    closed: bool,
    clock: u64,
    log: Ghost<Seq<Record>>,
}

impl<T> Scheduler<T> {
    /// The limits this scheduler enforces.
    pub closed spec fn spec_limits(&self) -> Limits {
        self.limits
    }

    /// The backlog: admissions not yet approved, in order of arrival.
    pub closed spec fn backlog(&self) -> Seq<(ChatIdHash, T)> {
        self.queue@
    }

    /// The admissions of (about) the last minute, oldest first.
    pub closed spec fn recorded(&self) -> Seq<Record> {
        self.history@
    }

    /// Every admission ever made, oldest first.
    pub closed spec fn log(&self) -> Seq<Record> {
        self.log@
    }

    /// Has the source of admissions been closed?
    pub closed spec fn is_closed(&self) -> bool {
        self.closed
    }

    /// The time of the latest tick (zero before the first one).
    pub closed spec fn spec_clock(&self) -> u64 {
        self.clock
    }

    /// The state's invariant.
    pub closed spec fn wf(&self) -> bool {
        let h = self.history@;
        let log = self.log@;
        let lim = self.limits;
        &&& sorted(h)
        &&& not_after(h, self.clock)
        &&& forall|k: ChatIdHash| #[trigger] count_in(self.per_min@, k) == occurrences(h, k)
        &&& forall|c: u128| #[trigger] self.per_min@.contains_key(c) ==> self.per_min@[c] > 0
        &&& forall|k: ChatIdHash| #[trigger] occurrences(h, k) <= lim.messages_per_min_chat
        &&& h.len() <= log.len()
        &&& h =~= log.subrange(log.len() - h.len(), log.len() as int)
        &&& forall|i: int| 0 <= i < log.len() - h.len() ==> expired(#[trigger] log[i].1, self.clock)
        &&& sorted(log)
        &&& not_after(log, self.clock)
        &&& within_limits(log, lim)
    }

    /// A scheduler with an empty backlog and no history.
    pub fn new(limits: Limits) -> (r: Self)
        ensures
            r.wf(),
            r.spec_limits() == limits,
            r.backlog() == Seq::<(ChatIdHash, T)>::empty(),
            r.recorded() == Seq::<Record>::empty(),
            r.log() == Seq::<Record>::empty(),
            !r.is_closed(),
            r.spec_clock() == 0,
    {
        let r = Scheduler {
            limits,
            queue: VecDeque::new(),
            history: VecDeque::new(),
            per_min: HashMap::new(),
            closed: false,
            clock: 0,
            log: Ghost(Seq::empty()),
        };
        r
    }

    /// The limits this scheduler enforces.
    pub fn limits(&self) -> (r: Limits)
        ensures
            r == self.spec_limits(),
    {
        self.limits
    }

    /// The time of the latest tick.
    pub fn clock(&self) -> (r: u64)
        ensures
            r == self.spec_clock(),
    {
        self.clock
    }

    /// Number of admissions waiting for approval.
    pub fn backlog_len(&self) -> (r: usize)
        ensures
            r == self.backlog().len(),
    {
        self.queue.len()
    }

    /// Is the backlog empty? The driver then blocks until an admission
    /// arrives, instead of polling.
    pub fn is_idle(&self) -> (r: bool)
        ensures
            r == (self.backlog().len() == 0),
    {
        self.queue.len() == 0
    }

    /// Should the worker go on? It stops once the source of admissions is
    /// closed and the backlog is empty.
    pub fn is_running(&self) -> (r: bool)
        ensures
            r == (!self.is_closed() || self.backlog().len() > 0),
    {
        !self.closed || self.queue.len() > 0
    }

    /// Appends an admission at the end of the backlog.
    pub fn push(&mut self, key: ChatIdHash, handle: T)
        requires
            old(self).wf(),
        ensures
            final(self).wf(),
            final(self).backlog() == old(self).backlog().push((key, handle)),
            final(self).recorded() == old(self).recorded(),
            final(self).log() == old(self).log(),
            final(self).is_closed() == old(self).is_closed(),
            final(self).spec_clock() == old(self).spec_clock(),
            final(self).spec_limits() == old(self).spec_limits(),
    {
        self.queue.push_back((key, handle));
    }

    /// Records that the source of admissions is closed: no more will come.
    pub fn close(&mut self)
        requires
            old(self).wf(),
        ensures
            final(self).wf(),
            final(self).is_closed(),
            final(self).backlog() == old(self).backlog(),
            final(self).recorded() == old(self).recorded(),
            final(self).log() == old(self).log(),
            final(self).spec_clock() == old(self).spec_clock(),
            final(self).spec_limits() == old(self).spec_limits(),
    {
        self.closed = true;
    }

    /// Takes what one receive from the admission source gave: an admission,
    /// which joins the backlog, or `None` for a closed source. The result
    /// says whether an admission came, that is whether to go on draining.
    pub fn receive(&mut self, msg: Option<(ChatIdHash, T)>) -> (more: bool)
        requires
            old(self).wf(),
        ensures
            final(self).wf(),
            more == msg.is_some(),
            match msg {
                Some(e) => final(self).backlog() == old(self).backlog().push(e)
                    && final(self).is_closed() == old(self).is_closed(),
                None => final(self).backlog() == old(self).backlog() && final(self).is_closed(),
            },
            final(self).recorded() == old(self).recorded(),
            final(self).log() == old(self).log(),
            final(self).spec_clock() == old(self).spec_clock(),
            final(self).spec_limits() == old(self).spec_limits(),
    {
        match msg {
            Some(e) => {
                self.push(e.0, e.1);
                true
            },
            None => {
                self.close();
                false
            },
        }
    }

    /// The per-minute tally matches the history, with no zero entries.
    closed spec fn tally_ok(&self) -> bool {
        &&& forall|k: ChatIdHash| #[trigger] count_in(self.per_min@, k) == occurrences(self.history@, k)
        &&& forall|c: u128| #[trigger] self.per_min@.contains_key(c) ==> self.per_min@[c] > 0
    }

    /// Looks up the count that `m` holds for chat `k`.
    fn count_of(m: &HashMap<u128, u32>, k: ChatIdHash) -> (r: u32)
        ensures
            r == count_in(m@, k),
    {
        match m.get(&k.code()) {
            Some(v) => *v,
            None => 0,
        }
    }

    /// Drops the leading records of the history that are more than a minute
    /// older than `now`, and takes them off the per-minute tally.
    fn forget_expired(&mut self, now: u64)
        requires
            old(self).tally_ok(),
        ensures
            final(self).tally_ok(),
            final(self).history@ == trim(old(self).history@, now),
            final(self).queue@ == old(self).queue@,
            final(self).log@ == old(self).log@,
            final(self).limits == old(self).limits,
            final(self).clock == old(self).clock,
            final(self).closed == old(self).closed,
    {
        let ghost h0 = self.history@;
        while self.history.len() > 0 && now > MINUTE_MS && self.history[0].1 < now - MINUTE_MS
            invariant
                self.queue@ == old(self).queue@,
                self.log@ == old(self).log@,
                self.limits == old(self).limits,
                self.clock == old(self).clock,
                self.closed == old(self).closed,
                trim(self.history@, now) == trim(h0, now),
                self.tally_ok(),
            decreases self.history@.len(),
        {
            let ghost hb = self.history@;
            let ghost mb = self.per_min@;
            if let Some(r) = self.history.pop_front() {
                let v = Self::count_of(&self.per_min, r.0);
                let c = r.0.code();
                proof {
                    assert(hb[0] == r);
                    assert(self.history@ =~= hb.drop_first());
                    lemma_tally_drop_first(hb, Some(r.0), 0, u64::MAX + 1);
                }
                if v <= 1 {
                    self.per_min.remove(&c);
                    proof {
                        assert(self.per_min@ == mb.remove(c));
                        assert forall|k: ChatIdHash| #[trigger] count_in(self.per_min@, k) == occurrences(self.history@, k) by {
                            lemma_count_in_remove(mb, r.0, k);
                            lemma_tally_drop_first(hb, Some(k), 0, u64::MAX + 1);
                        }
                    }
                } else {
                    self.per_min.insert(c, v - 1);
                    proof {
                        assert(self.per_min@ == mb.insert(c, (v - 1) as u32));
                        assert forall|k: ChatIdHash| #[trigger] count_in(self.per_min@, k) == occurrences(self.history@, k) by {
                            lemma_count_in_insert(mb, r.0, (v - 1) as u32, k);
                            lemma_tally_drop_first(hb, Some(k), 0, u64::MAX + 1);
                        }
                    }
                }
            }
        }
        assert(trim(self.history@, now) == self.history@);
    }

    /// Counts the records of the history within the last second before
    /// `now`: per chat, and in all.
    fn tally_recent(&self, now: u64) -> (r: (HashMap<u128, u32>, u64))
        requires
            not_after(self.history@, now),
            forall|k: ChatIdHash| #[trigger] occurrences(self.history@, k) <= u32::MAX,
        ensures
            forall|k: ChatIdHash| #[trigger] count_in(r.0@, k) == recent(self.history@, Some(k), now),
            r.1 == recent(self.history@, None, now),
    {
        let ghost h = self.history@;
        let mut sec: HashMap<u128, u32> = HashMap::new();
        let mut used: u64 = 0;
        let n = self.history.len();
        let mut i: usize = 0;
        while i < n
            invariant
                h == self.history@,
                not_after(h, now),
                forall|k: ChatIdHash| #[trigger] occurrences(h, k) <= u32::MAX,
                n == h.len(),
                i <= n,
                used <= i,
                used == tally(h.take(i as int), None, now - 999, now + 1),
                forall|k: ChatIdHash| #[trigger] count_in(sec@, k) == tally(h.take(i as int), Some(k), now - 999, now + 1),
            decreases n - i,
        {
            let (k, t) = self.history[i];
            let ghost sb = sec@;
            proof {
                assert(h[i as int] == (k, t));
                assert(h.take(i + 1) =~= h.take(i as int).push((k, t)));
                lemma_tally_push(h.take(i as int), (k, t), None, now - 999, now + 1);
                assert forall|k2: ChatIdHash| #[trigger] tally(h.take(i + 1), Some(k2), now - 999, now + 1)
                    == tally(h.take(i as int), Some(k2), now - 999, now + 1) + if k2 == k && now - t < 1000 { 1nat } else { 0nat } by {
                    lemma_tally_push(h.take(i as int), (k, t), Some(k2), now - 999, now + 1);
                }
            }
            if now - t < SECOND_MS {
                let v = Self::count_of(&sec, k);
                proof {
                    lemma_tally_prefix(h, i + 1, Some(k), now - 999, now + 1);
                    lemma_tally_le_occurrences(h, k, now - 999, now + 1);
                    assert(tally(h.take(i + 1), Some(k), now - 999, now + 1) == v + 1);
                    assert(occurrences(h, k) <= u32::MAX);
                }
                sec.insert(k.code(), v + 1);
                used = used + 1;
                proof {
                    assert forall|k2: ChatIdHash| #[trigger] count_in(sec@, k2) == tally(h.take(i + 1), Some(k2), now - 999, now + 1) by {
                        lemma_count_in_insert(sb, k, (v + 1) as u32, k2);
                    }
                }
            }
            i = i + 1;
        }
        assert(h.take(n as int) =~= h);
        (sec, used)
    }

    /// Walks the backlog in order and admits what passes, given the tally
    /// of the last second `sec` and the budget `allowed`. Returns the
    /// admitted entries; the history and the per-minute tally record them.
    fn walk_backlog(&mut self, now: u64, sec: HashMap<u128, u32>, allowed: u64) -> (admitted: Vec<(ChatIdHash, T)>)
        requires
            old(self).tally_ok(),
            forall|k: ChatIdHash| #[trigger] count_in(sec@, k) == recent(old(self).history@, Some(k), now),
        ensures
            ({
                let f = admit_flags(keys_of(old(self).queue@), old(self).history@, now, old(self).limits, allowed as nat);
                &&& admitted@ == select(old(self).queue@, f, true)
                &&& final(self).queue@ == select(old(self).queue@, f, false)
            }),
            final(self).tally_ok(),
            final(self).history@ == old(self).history@ + stamp(admitted@, now),
            final(self).log@ == old(self).log@,
            final(self).limits == old(self).limits,
            final(self).clock == old(self).clock,
            final(self).closed == old(self).closed,
    {
        let ghost q0 = self.queue@;
        let ghost ht = self.history@;
        let ghost lim = self.limits;
        let ghost allowed0 = allowed as nat;
        let mut sec = sec;
        let mut allowed = allowed;
        let mut pending: VecDeque<(ChatIdHash, T)> = VecDeque::new();
        std::mem::swap(&mut pending, &mut self.queue);
        let mut kept: VecDeque<(ChatIdHash, T)> = VecDeque::new();
        let mut admitted: Vec<(ChatIdHash, T)> = Vec::new();
        let ghost mut done: Seq<bool> = Seq::empty();
        proof {
            assert(q0.subrange(0, 0) =~= Seq::<(ChatIdHash, T)>::empty());
            assert(ht + stamp(admitted@, now) =~= ht);
            assert(done + admit_flags(keys_of(pending@), ht, now, lim, allowed0) =~= admit_flags(keys_of(q0), ht, now, lim, allowed0));
        }
        while pending.len() > 0 && allowed > 0
            invariant
                self.log@ == old(self).log@,
                self.limits == lim,
                self.clock == old(self).clock,
                self.closed == old(self).closed,
                done.len() <= q0.len(),
                pending@ =~= q0.subrange(done.len() as int, q0.len() as int),
                admit_flags(keys_of(q0), ht, now, lim, allowed0) == done + admit_flags(keys_of(pending@), self.history@, now, lim, allowed as nat),
                admitted@ == select(q0.subrange(0, done.len() as int), done, true),
                kept@ == select(q0.subrange(0, done.len() as int), done, false),
                self.history@ == ht + stamp(admitted@, now),
                forall|k: ChatIdHash| #[trigger] count_in(sec@, k) == recent(self.history@, Some(k), now),
                self.tally_ok(),
            decreases pending@.len(),
        {
            let ghost pb = pending@;
            let ghost hb = self.history@;
            let ghost sb = sec@;
            let ghost mb = self.per_min@;
            let ghost processed = q0.subrange(0, done.len() as int);
            if let Some(e) = pending.pop_front() {
                let vs = Self::count_of(&sec, e.0);
                let vm = Self::count_of(&self.per_min, e.0);
                proof {
                    assert(pb[0] == e);
                    assert(pending@ =~= pb.drop_first());
                    assert(keys_of(pb)[0] == e.0);
                    assert(keys_of(pb).drop_first() =~= keys_of(pending@));
                    assert(q0.subrange(0, done.len() as int + 1) =~= processed + seq![e]);
                }
                if vs < self.limits.messages_per_sec_chat && vm < self.limits.messages_per_min_chat {
                    let c = e.0.code();
                    sec.insert(c, vs + 1);
                    self.per_min.insert(c, vm + 1);
                    self.history.push_back((e.0, now));
                    let ghost ab = admitted@;
                    admitted.push(e);
                    allowed = allowed - 1;
                    proof {
                        let f = admit_flags(keys_of(pb), hb, now, lim, (allowed + 1) as nat);
                        assert(f == seq![true] + admit_flags(keys_of(pending@), hb.push((e.0, now)), now, lim, allowed as nat));
                        assert(done.push(true) + admit_flags(keys_of(pending@), self.history@, now, lim, allowed as nat) =~= done + f);
                        lemma_select_concat(processed, done, seq![e], seq![true], true);
                        lemma_select_concat(processed, done, seq![e], seq![true], false);
                        lemma_select_one(e, true, true);
                        lemma_select_one(e, true, false);
                        assert(done + seq![true] =~= done.push(true));
                        assert(kept@ =~= select(processed, done, false) + Seq::<(ChatIdHash, T)>::empty());
                        lemma_stamp_concat(ab, seq![e], now);
                        assert(stamp(seq![e], now) =~= seq![(e.0, now)]);
                        assert(self.history@ =~= ht + stamp(admitted@, now));
                        assert(self.history@ =~= hb.push((e.0, now)));
                        assert forall|k: ChatIdHash| #[trigger] count_in(sec@, k) == recent(self.history@, Some(k), now) by {
                            lemma_count_in_insert(sb, e.0, (vs + 1) as u32, k);
                            lemma_tally_push(hb, (e.0, now), Some(k), now - 999, now + 1);
                        }
                        assert forall|k: ChatIdHash| #[trigger] count_in(self.per_min@, k) == occurrences(self.history@, k) by {
                            lemma_count_in_insert(mb, e.0, (vm + 1) as u32, k);
                            lemma_tally_push(hb, (e.0, now), Some(k), 0, u64::MAX + 1);
                        }
                        done = done.push(true);
                    }
                } else {
                    kept.push_back(e);
                    proof {
                        let f = admit_flags(keys_of(pb), hb, now, lim, allowed as nat);
                        assert(f == seq![false] + admit_flags(keys_of(pending@), hb, now, lim, allowed as nat));
                        assert(done.push(false) + admit_flags(keys_of(pending@), hb, now, lim, allowed as nat) =~= done + f);
                        lemma_select_concat(processed, done, seq![e], seq![false], true);
                        lemma_select_concat(processed, done, seq![e], seq![false], false);
                        lemma_select_one(e, false, true);
                        lemma_select_one(e, false, false);
                        assert(done + seq![false] =~= done.push(false));
                        assert(admitted@ =~= select(processed, done, true) + Seq::<(ChatIdHash, T)>::empty());
                        done = done.push(false);
                    }
                }
            }
        }
        let ghost rest = pending@;
        let ghost processed = q0.subrange(0, done.len() as int);
        let ghost fr = admit_flags(keys_of(rest), self.history@, now, lim, allowed as nat);
        proof {
            lemma_admit_flags_len(keys_of(rest), self.history@, now, lim, allowed as nat);
            assert(q0 =~= processed + rest);
            if rest.len() > 0 {
                assert(allowed == 0);
                assert forall|i: int| 0 <= i < fr.len() implies !#[trigger] fr[i] by {}
            }
            lemma_select_none(rest, fr);
            lemma_select_concat(processed, done, rest, fr, true);
            lemma_select_concat(processed, done, rest, fr, false);
            assert(admitted@ + Seq::<(ChatIdHash, T)>::empty() =~= admitted@);
        }
        kept.append(&mut pending);
        self.queue = kept;
        admitted
    }
    /// One iteration of the worker at the monotonic time `now`, in
    /// milliseconds.
    ///
    /// It forgets the admissions made more than a minute ago, computes the
    /// budget that the global per-second limit leaves, and walks the backlog
    /// in order, admitting each entry whose chat is under its per-chat limits
    /// while budget is left. The admitted entries are returned in backlog
    /// order and recorded at `now`; the others stay in the backlog, in order.
    /// Nothing else ever takes a record out of the history before it is a
    /// minute old. The driver pauses for [`crate::limits::DELAY_MS`] before
    /// the next tick.
    pub fn tick(&mut self, now: u64) -> (admitted: Vec<(ChatIdHash, T)>)
        requires
            old(self).wf(),
            old(self).spec_clock() <= now,
        ensures
            final(self).wf(),
            admitted@ == select(
                old(self).backlog(),
                decision(old(self).backlog(), old(self).recorded(), now, old(self).spec_limits()),
                true,
            ),
            final(self).backlog() == select(
                old(self).backlog(),
                decision(old(self).backlog(), old(self).recorded(), now, old(self).spec_limits()),
                false,
            ),
            final(self).recorded() == trim(old(self).recorded(), now) + stamp(admitted@, now),
            final(self).log() == old(self).log() + stamp(admitted@, now),
            final(self).spec_clock() == now,
            final(self).is_closed() == old(self).is_closed(),
            final(self).spec_limits() == old(self).spec_limits(),
    {
        let ghost h0 = self.history@;
        let ghost q0 = self.queue@;
        let ghost log0 = self.log@;
        let ghost lim = self.limits;
        proof {
            lemma_trim(h0, now);
            lemma_trim_sorted(h0, now);
        }
        self.forget_expired(now);
        let ghost ht = self.history@;
        proof {
            let d = h0.subrange(0, h0.len() - ht.len());
            assert(h0 =~= d + ht);
            assert forall|k: ChatIdHash| #[trigger] occurrences(ht, k) <= occurrences(h0, k) by {
                lemma_tally_concat(d, ht, Some(k), 0, u64::MAX + 1);
            }
            assert forall|i: int| 0 <= i < ht.len() implies ht[i].1 <= now by {
                assert(ht[i] == h0[h0.len() - ht.len() + i]);
            }
        }
        let (sec, used) = self.tally_recent(now);
        let overall = self.limits.messages_per_sec_overall as u64;
        let allowed: u64 = if used >= overall { 0 } else { overall - used };
        let admitted = self.walk_backlog(now, sec, allowed);
        proof {
            lemma_walk_bounds(q0, ht, now, lim, allowed as nat);
            assert(ht =~= log0.subrange(log0.len() - ht.len(), log0.len() as int));
            assert forall|i: int| 0 <= i < log0.len() - ht.len() implies expired(#[trigger] log0[i].1, now) by {
                if i >= log0.len() - h0.len() {
                    assert(log0[i] == h0[i - (log0.len() - h0.len())]);
                }
            }
            lemma_extend_log(log0, ht, admitted@, now, lim);
        }
        self.log = Ghost(log0 + stamp(admitted@, now));
        self.clock = now;
        proof {
            let s = stamp(admitted@, now);
            lemma_append_now(ht, admitted@, now);
            lemma_append_now(log0, admitted@, now);
            let h = self.history@;
            let log = self.log@;
            assert(h =~= log.subrange(log.len() - h.len(), log.len() as int));
            assert forall|i: int| 0 <= i < log.len() - h.len() implies expired(#[trigger] log[i].1, now) by {
                assert(log[i] == log0[i]);
            }
        }
        admitted
    }
    /// No chat ever gets more admissions than its per-second limit within
    /// any one-second window.
    pub proof fn lemma_per_chat_per_second(&self, k: ChatIdHash, lo: int)
        requires
            self.wf(),
        ensures
            tally(self.log(), Some(k), lo, lo + 1000) <= self.spec_limits().messages_per_sec_chat,
    {
    }

    /// No chat ever gets more admissions than its per-minute limit within
    /// any sixty-second window.
    pub proof fn lemma_per_chat_per_minute(&self, k: ChatIdHash, lo: int)
        requires
            self.wf(),
        ensures
            tally(self.log(), Some(k), lo, lo + 60000) <= self.spec_limits().messages_per_min_chat,
    {
    }

    /// All chats together never get more admissions than the global
    /// per-second limit within any one-second window.
    pub proof fn lemma_overall_per_second(&self, lo: int)
        requires
            self.wf(),
        ensures
            tally(self.log(), None, lo, lo + 1000) <= self.spec_limits().messages_per_sec_overall,
    {
    }

    /// Per-chat order: of two backlog entries of the same chat, a tick
    /// admits the later one only together with the earlier one. Since the
    /// entries a tick leaves keep their order, and new ones join at the end,
    /// entries of one chat are admitted in the order in which they arrived.
    pub proof fn lemma_chat_order(&self, now: u64, i: int, j: int)
        requires
            self.wf(),
            0 <= i < j < self.backlog().len(),
            self.backlog()[i].0 == self.backlog()[j].0,
            decision(self.backlog(), self.recorded(), now, self.spec_limits())[j],
        ensures
            decision(self.backlog(), self.recorded(), now, self.spec_limits())[i],
    {
        let t = trim(self.recorded(), now);
        let keys = keys_of(self.backlog());
        assert(keys[i] == keys[j]);
        lemma_pass_keeps_chat_order(keys, t, now, self.spec_limits(), budget(t, now, self.spec_limits()), i, j);
    }

    /// Progress: when the budget at `now` covers the whole backlog and every
    /// chat stays within its per-chat limits with all of its entries
    /// admitted, a tick at `now` admits the whole backlog.
    pub proof fn lemma_admits_whole_backlog(&self, now: u64)
        requires
            self.wf(),
            self.backlog().len() <= budget(trim(self.recorded(), now), now, self.spec_limits()),
            forall|k: ChatIdHash| #[trigger] recent(trim(self.recorded(), now), Some(k), now) + key_count(keys_of(self.backlog()), k)
                <= self.spec_limits().messages_per_sec_chat,
            forall|k: ChatIdHash| #[trigger] occurrences(trim(self.recorded(), now), k) + key_count(keys_of(self.backlog()), k)
                <= self.spec_limits().messages_per_min_chat,
        ensures
            select(self.backlog(), decision(self.backlog(), self.recorded(), now, self.spec_limits()), true) == self.backlog(),
            select(self.backlog(), decision(self.backlog(), self.recorded(), now, self.spec_limits()), false).len() == 0,
    {
        let t = trim(self.recorded(), now);
        let lim = self.spec_limits();
        let q = self.backlog();
        let f = decision(q, self.recorded(), now, lim);
        lemma_pass_admits_all(keys_of(q), t, now, lim, budget(t, now, lim));
        lemma_admit_flags_len(keys_of(q), t, now, lim, budget(t, now, lim));
        lemma_select_every(q, f);
        lemma_select_concat(q, f, Seq::empty(), Seq::empty(), false);
        assert(q + Seq::<(ChatIdHash, T)>::empty() =~= q);
        assert(f + Seq::<bool>::empty() =~= f);
        lemma_select_split_len(q, f);
    }
}

} // verus!
