use std::collections::hash_map::DefaultHasher;
use std::hash::{Hash, Hasher};

use teloxide_core::chat_key::{ChatId, ChatIdHash};
use teloxide_core::limits::{Limits, DELAY_MS, MINUTE_MS, SECOND_MS};
use teloxide_core::scheduler::Scheduler;

fn limits(sec_chat: u32, min_chat: u32, sec_overall: u32) -> Limits {
    Limits {
        messages_per_sec_chat: sec_chat,
        messages_per_min_chat: min_chat,
        messages_per_sec_overall: sec_overall,
    }
}

/// Runs ticks every `DELAY_MS` from `start` up to (not including) `end`,
/// returning each admitted handle with the time of its tick.
fn run(s: &mut Scheduler<u32>, start: u64, end: u64) -> Vec<(ChatIdHash, u32, u64)> {
    let mut out = Vec::new();
    let mut now = start;
    while now < end {
        for (k, h) in s.tick(now) {
            out.push((k, h, now));
        }
        now += DELAY_MS;
    }
    out
}

/// The largest number of admissions that fall into one window of `len`
/// milliseconds, optionally counting one chat only.
fn max_in_window(adm: &[(ChatIdHash, u32, u64)], chat: Option<ChatIdHash>, len: u64) -> usize {
    let mut best = 0;
    for &(_, _, start) in adm {
        let n = adm
            .iter()
            .filter(|(k, _, t)| chat.map_or(true, |c| c == *k) && *t >= start && *t < start + len)
            .count();
        best = best.max(n);
    }
    best
}

#[test]
fn limits_default_values() {
    let l = Limits::default();
    assert_eq!(l.messages_per_sec_chat, 1);
    assert_eq!(l.messages_per_min_chat, 20);
    assert_eq!(l.messages_per_sec_overall, 30);
}

#[test]
fn window_constants() {
    assert_eq!(SECOND_MS, 1000);
    assert_eq!(MINUTE_MS, 60000);
    assert_eq!(DELAY_MS, 250);
}

#[test]
fn chat_key_of_numeric_id() {
    assert_eq!(ChatIdHash::from(&ChatId::Id(-1001)), ChatIdHash::Id(-1001));
    assert_eq!(ChatIdHash::from(&ChatId::Id(0)), ChatIdHash::Id(0));
}

#[test]
fn chat_key_of_username_is_the_str_hash() {
    let name = "@telegram".to_string();
    let mut hasher = DefaultHasher::new();
    name.as_str().hash(&mut hasher);
    let expected = hasher.finish();
    assert_eq!(
        ChatIdHash::from(&ChatId::ChannelUsername(name)),
        ChatIdHash::ChannelUsernameHash(expected)
    );
}

#[test]
fn chat_key_of_username_is_deterministic_and_separates_names() {
    let a1 = ChatIdHash::from(&ChatId::ChannelUsername("@alpha".to_string()));
    let a2 = ChatIdHash::from(&ChatId::ChannelUsername("@alpha".to_string()));
    let b = ChatIdHash::from(&ChatId::ChannelUsername("@beta".to_string()));
    assert_eq!(a1, a2);
    assert_ne!(a1, b);
    assert!(matches!(a1, ChatIdHash::ChannelUsernameHash(_)));
}

#[test]
fn id_and_username_keys_differ() {
    let id = ChatIdHash::from(&ChatId::Id(42));
    let name = ChatIdHash::from(&ChatId::ChannelUsername("42".to_string()));
    assert_ne!(id, name);
    assert_ne!(id.code(), name.code());
}

#[test]
fn key_codes_are_distinct() {
    assert_eq!(ChatIdHash::Id(i64::MIN).code(), 0);
    assert_eq!(ChatIdHash::Id(0).code(), 1u128 << 63);
    assert_eq!(ChatIdHash::ChannelUsernameHash(0).code(), 1u128 << 64);
    assert_ne!(ChatIdHash::Id(i64::MAX).code(), ChatIdHash::ChannelUsernameHash(0).code());
}

#[test]
fn new_scheduler_is_idle_and_running() {
    let s: Scheduler<u32> = Scheduler::new(Limits::default());
    assert!(s.is_idle());
    assert!(s.is_running());
    assert_eq!(s.backlog_len(), 0);
    assert_eq!(s.clock(), 0);
    assert_eq!(s.limits(), Limits::default());
}

#[test]
fn empty_backlog_tick_admits_nothing() {
    let mut s: Scheduler<u32> = Scheduler::new(Limits::default());
    assert!(s.tick(0).is_empty());
    assert_eq!(s.clock(), 0);
    assert!(s.tick(5000).is_empty());
    assert_eq!(s.clock(), 5000);
}

#[test]
fn receive_pushes_or_closes() {
    let mut s: Scheduler<u32> = Scheduler::new(Limits::default());
    assert!(s.receive(Some((ChatIdHash::Id(1), 7))));
    assert_eq!(s.backlog_len(), 1);
    assert!(!s.is_idle());
    assert!(!s.receive(None));
    assert_eq!(s.backlog_len(), 1);
    // closed, but a backlog remains: the worker goes on
    assert!(s.is_running());
    let adm = s.tick(0);
    assert_eq!(adm, vec![(ChatIdHash::Id(1), 7)]);
    assert!(!s.is_running());
}

#[test]
fn global_cap_binds() {
    // sixty distinct chats at once, thirty per second overall
    let mut s = Scheduler::new(limits(1, 20, 30));
    for i in 0..60u32 {
        s.push(ChatIdHash::Id(i as i64), i);
    }
    let adm = run(&mut s, 0, 3000);
    assert_eq!(adm.len(), 60);
    let first: Vec<_> = adm.iter().filter(|a| a.2 < 1000).collect();
    let second: Vec<_> = adm.iter().filter(|a| a.2 >= 1000 && a.2 < 2000).collect();
    assert_eq!(first.len(), 30);
    assert_eq!(second.len(), 30);
    // first come, first served
    assert!(first.iter().all(|a| a.1 < 30));
    assert!(second.iter().all(|a| a.1 >= 30));
    assert!(max_in_window(&adm, None, 1000) <= 30);
    for i in 0..60 {
        assert!(max_in_window(&adm, Some(ChatIdHash::Id(i)), 1000) <= 1);
    }
}

#[test]
fn per_chat_second_cap_binds() {
    let mut s = Scheduler::new(limits(1, 20, 30));
    let k = ChatIdHash::Id(5);
    for i in 0..10u32 {
        s.push(k, i);
    }
    let adm = run(&mut s, 0, 9000 + DELAY_MS + 1);
    assert_eq!(adm.len(), 10);
    for (n, a) in adm.iter().enumerate() {
        assert_eq!(a.1, n as u32);
        assert_eq!(a.2, 1000 * n as u64);
    }
    assert!(max_in_window(&adm, Some(k), 1000) <= 1);
}

#[test]
fn per_chat_minute_cap_binds() {
    let mut s = Scheduler::new(limits(5, 3, 30));
    let k = ChatIdHash::Id(9);
    for i in 0..10u32 {
        s.push(k, i);
    }
    let first = run(&mut s, 0, 60000 + 1);
    assert_eq!(first.len(), 3);
    assert!(first.iter().all(|a| a.2 == 0));
    // a sliding window: the first three leave it just after one minute
    let next = s.tick(60250);
    assert_eq!(next.iter().map(|a| a.1).collect::<Vec<_>>(), vec![3, 4, 5]);
    assert!(s.tick(60500).is_empty());
    let mut all = first.clone();
    all.extend(next.into_iter().map(|(k, h)| (k, h, 60250)));
    assert!(max_in_window(&all, Some(k), 60000) <= 3);
}

#[test]
fn per_chat_order_is_kept() {
    let mut s = Scheduler::new(limits(1, 20, 30));
    let a = ChatIdHash::Id(1);
    let b = ChatIdHash::Id(2);
    s.push(a, 1);
    s.push(b, 1);
    s.push(a, 2);
    s.push(b, 2);
    s.push(a, 3);
    let adm = run(&mut s, 0, 3000);
    let of = |k: ChatIdHash| adm.iter().filter(|x| x.0 == k).map(|x| (x.1, x.2)).collect::<Vec<_>>();
    assert_eq!(of(a), vec![(1, 0), (2, 1000), (3, 2000)]);
    assert_eq!(of(b), vec![(1, 0), (2, 1000)]);
}

#[test]
fn ineligible_head_does_not_block_other_chats() {
    let mut s = Scheduler::new(limits(1, 20, 30));
    let a = ChatIdHash::Id(1);
    let b = ChatIdHash::Id(2);
    s.push(a, 1);
    s.push(a, 2);
    s.push(b, 3);
    assert_eq!(s.tick(0), vec![(a, 1), (b, 3)]);
    assert_eq!(s.backlog_len(), 1);
}

#[test]
fn cancelled_requests_are_still_counted() {
    // a hundred calls to one chat; the scheduler admits every handle in
    // order and never more than one per second
    let mut s = Scheduler::new(limits(1, 20, 30));
    let x = ChatIdHash::Id(77);
    for i in 1..=100u32 {
        s.push(x, i);
    }
    let adm = run(&mut s, 0, 6 * 60000);
    assert_eq!(adm.len(), 100);
    assert_eq!(adm[0].1, 1);
    assert_eq!(adm[99].1, 100);
    assert!(max_in_window(&adm, Some(x), 1000) <= 1);
    assert!(max_in_window(&adm, Some(x), 60000) <= 20);
}

#[test]
fn admitted_budget_is_not_refunded() {
    let mut s = Scheduler::new(limits(1, 20, 2));
    s.push(ChatIdHash::Id(1), 1);
    s.push(ChatIdHash::Id(2), 2);
    s.push(ChatIdHash::Id(3), 3);
    let adm = s.tick(0);
    assert_eq!(adm.len(), 2);
    // the admitted handles are dropped at once (the callers went away)
    drop(adm);
    assert!(s.tick(250).is_empty());
    assert!(s.tick(999).is_empty());
    assert_eq!(s.tick(1000), vec![(ChatIdHash::Id(3), 3)]);
}

#[test]
fn everything_passes_when_limits_permit() {
    let mut s = Scheduler::new(limits(2, 20, 30));
    for i in 0..10u32 {
        s.push(ChatIdHash::Id((i % 5) as i64), i);
    }
    let adm = s.tick(100);
    assert_eq!(adm.len(), 10);
    assert!(s.is_idle());
    assert_eq!(adm.iter().map(|a| a.1).collect::<Vec<_>>(), (0..10).collect::<Vec<_>>());
}

#[test]
fn zero_overall_limit_admits_nothing() {
    let mut s = Scheduler::new(limits(1, 20, 0));
    s.push(ChatIdHash::Id(1), 1);
    assert!(run(&mut s, 0, 5000).is_empty());
    assert_eq!(s.backlog_len(), 1);
}

#[test]
fn worker_stops_after_close_and_drain() {
    let mut s = Scheduler::new(limits(1, 20, 30));
    s.push(ChatIdHash::Id(1), 1);
    s.push(ChatIdHash::Id(1), 2);
    s.close();
    let mut now = 0;
    let mut got = Vec::new();
    while s.is_running() {
        got.extend(s.tick(now));
        now += DELAY_MS;
        assert!(now < 10000);
    }
    assert_eq!(got.len(), 2);
    assert_eq!(now, 1250);
}
