//! The log subscription multiplexer: many per-client subscriptions on
//! one socket, each with a level filter and its own sequence counter.
//! Historical replay and live follow share the counter: history events
//! take 0 up to the replay count, live events continue from there.

use vstd::prelude::*;
use crate::level::{parse_log_entry, parse_log_entry_spec};
use crate::text;

verus! {

/// A level filter passes a line when it is empty or names the line's
/// level.
pub open spec fn passes_filter(levels: Seq<Seq<char>>, level: Seq<char>) -> bool {
    levels.len() == 0 || levels.contains(level)
}

pub fn filter_passes(levels: &Vec<String>, level: &str) -> (r: bool)
    ensures
        r == passes_filter(levels@.map_values(|s: String| s@), level@),
{
    let ghost lv = levels@.map_values(|s: String| s@);
    let n = levels.len();
    if n == 0 {
        return true;
    }
    let mut i: usize = 0;
    while i < n
        invariant
            n == levels@.len(),
            i <= n,
            lv == levels@.map_values(|s: String| s@),
            forall|j: int| 0 <= j < i ==> lv[j] != level@,
        decreases n - i,
    {
        if text::str_eq(levels[i].as_str(), level) {
            assert(lv[i as int] == level@);
            return true;
        }
        i += 1;
    }
    proof {
        if lv.contains(level@) {
            let w = choose|w: int| 0 <= w < lv.len() && lv[w] == level@;
            assert(lv[w] != level@);
        }
    }
    false
}

/// One event handed to the client, historical or live.
pub struct LogEvent {
    pub level: String,
    pub content: String,
    pub sequence: i64,
    pub is_history: bool,
    pub target_type: String,
    pub target_id: String,
    pub timestamp: i64,
}

/// The lines of a replayed tail that pass the filter, each with its
/// parsed level and content, in ring order.
pub open spec fn history_entries_spec(lines: Seq<Seq<char>>, levels: Seq<Seq<char>>) -> Seq<
    (Seq<char>, Seq<char>),
>
    decreases lines.len(),
{
    if lines.len() == 0 {
        Seq::empty()
    } else {
        let pre = history_entries_spec(lines.drop_last(), levels);
        let parsed = parse_log_entry_spec(lines.last());
        if passes_filter(levels, parsed.0) {
            pre.push(parsed)
        } else {
            pre
        }
    }
}

/// Replay a tail of ring lines as history events: lines are parsed,
/// filtered by level, and numbered 0, 1, 2, … in ring order; the next
/// live event continues where the numbering stops.
pub fn history_events(
    lines: &Vec<String>,
    levels: &Vec<String>,
    target_type: &str,
    target_id: &str,
    timestamp: i64,
) -> (r: Vec<LogEvent>)
    requires
        lines@.len() < 0x7fff_ffff_ffff_ffff,
    ensures
        ({
            let entries = history_entries_spec(
                lines@.map_values(|s: String| s@),
                levels@.map_values(|s: String| s@),
            );
            &&& r@.len() == entries.len()
            &&& forall|k: int| 0 <= k < r@.len() ==> {
                &&& (#[trigger] r@[k]).level@ == entries[k].0
                &&& r@[k].content@ == entries[k].1
                &&& r@[k].sequence == k
                &&& r@[k].is_history == true
                &&& r@[k].target_type@ == target_type@
                &&& r@[k].target_id@ == target_id@
                &&& r@[k].timestamp == timestamp
            }
        }),
{
    let ghost lv = levels@.map_values(|s: String| s@);
    let ghost ln = lines@.map_values(|s: String| s@);
    let n = lines.len();
    let mut out: Vec<LogEvent> = Vec::new();
    let mut i: usize = 0;
    while i < n
        invariant
            n == lines@.len(),
            i <= n,
            lv == levels@.map_values(|s: String| s@),
            ln == lines@.map_values(|s: String| s@),
            ln.len() == n,
            n < 0x7fff_ffff_ffff_ffff,
            out@.len() == history_entries_spec(ln.subrange(0, i as int), lv).len(),
            out@.len() <= i,
            forall|k: int| 0 <= k < out@.len() ==> {
                &&& (#[trigger] out@[k]).level@ == history_entries_spec(
                    ln.subrange(0, i as int),
                    lv,
                )[k].0
                &&& out@[k].content@ == history_entries_spec(ln.subrange(0, i as int), lv)[k].1
                &&& out@[k].sequence == k
                &&& out@[k].is_history == true
                &&& out@[k].target_type@ == target_type@
                &&& out@[k].target_id@ == target_id@
                &&& out@[k].timestamp == timestamp
            },
        decreases n - i,
    {
        let ghost pre = ln.subrange(0, i as int);
        let ghost pre1 = ln.subrange(0, i + 1 as int);
        proof {
            assert(pre1.drop_last() =~= pre);
            assert(pre1.last() == ln[i as int]);
        }
        let (lvl, content) = parse_log_entry(lines[i].as_str());
        if filter_passes(levels, lvl.as_str()) {
            let seq_no: i64 = out.len() as i64;
            out.push(LogEvent {
                level: lvl,
                content,
                sequence: seq_no,
                is_history: true,
                target_type: target_type.to_owned(),
                target_id: target_id.to_owned(),
                timestamp,
            });
        }
        i += 1;
    }
    proof {
        assert(ln.subrange(0, n as int) =~= ln);
    }
    out
}

/// One subscription of a client socket: its target, its level filter,
/// and the sequence counter that history and live events share.
pub struct Subscription {
    pub target_type: String,
    pub target_id: String,
    pub levels: Vec<String>,
    pub next_seq: i64,
    pub created_at: i64,
}

impl Subscription {
    /// A fresh subscription whose counter already counts the replayed
    /// history events.
    pub fn new(
        target_type: String,
        target_id: String,
        levels: Vec<String>,
        history_count: i64,
        created_at: i64,
    ) -> (r: Subscription)
        requires
            history_count >= 0,
        ensures
            r.target_type == target_type,
            r.target_id == target_id,
            r.levels == levels,
            r.next_seq == history_count,
            r.created_at == created_at,
    {
        Subscription { target_type, target_id, levels, next_seq: history_count, created_at }
    }

    /// Hand one live line through the subscription: a line passing the
    /// filter becomes the event numbered `next_seq`, and the counter
    /// moves on; a filtered line leaves the counter alone.
    pub fn next_live_event(&mut self, raw_line: &str, timestamp: i64) -> (r: Option<LogEvent>)
        requires
            old(self).next_seq < i64::MAX,
        ensures
            ({
                let parsed = parse_log_entry_spec(raw_line@);
                if passes_filter(
                    old(self).levels@.map_values(|s: String| s@),
                    parsed.0,
                ) {
                    &&& r matches Some(e) && {
                        &&& e.level@ == parsed.0
                        &&& e.content@ == parsed.1
                        &&& e.sequence == old(self).next_seq
                        &&& e.is_history == false
                        &&& e.target_type@ == old(self).target_type@
                        &&& e.target_id@ == old(self).target_id@
                        &&& e.timestamp == timestamp
                    }
                    &&& final(self).next_seq == old(self).next_seq + 1
                } else {
                    r is None && final(self).next_seq == old(self).next_seq
                }
            }),
            final(self).target_type == old(self).target_type,
            final(self).target_id == old(self).target_id,
            final(self).levels == old(self).levels,
            final(self).created_at == old(self).created_at,
    {
        let (lvl, content) = parse_log_entry(raw_line);
        if filter_passes(&self.levels, lvl.as_str()) {
            let seq_no = self.next_seq;
            self.next_seq = self.next_seq + 1;
            Some(LogEvent {
                level: lvl,
                content,
                sequence: seq_no,
                is_history: false,
                target_type: self.target_type.clone(),
                target_id: self.target_id.clone(),
                timestamp,
            })
        } else {
            None
        }
    }
}

/// The sequence numbers a subscription emits for a run of live lines,
/// starting with counter `next0`.
pub open spec fn live_seqs(next0: int, lines: Seq<Seq<char>>, levels: Seq<Seq<char>>) -> Seq<int>
    decreases lines.len(),
{
    if lines.len() == 0 {
        Seq::empty()
    } else {
        let pre = live_seqs(next0, lines.drop_last(), levels);
        if passes_filter(levels, parse_log_entry_spec(lines.last()).0) {
            pre.push(next0 + pre.len())
        } else {
            pre
        }
    }
}

/// Within one subscription, emitted sequence numbers are exactly
/// 0, 1, 2, …: the `h` history events take 0 up to `h`, every live event
/// continues from `h`, so every history event precedes every live event
/// and the whole run is strictly increasing from 0.
pub proof fn lemma_subscription_sequences(
    h: int,
    lines: Seq<Seq<char>>,
    levels: Seq<Seq<char>>,
)
    requires
        h >= 0,
    ensures
        forall|k: int|
            0 <= k < live_seqs(h, lines, levels).len() ==> #[trigger] live_seqs(
                h,
                lines,
                levels,
            )[k] == h + k,
        forall|k: int| 0 <= k < live_seqs(h, lines, levels).len() ==> live_seqs(
            h,
            lines,
            levels,
        )[k] >= h,
    decreases lines.len(),
{
    if lines.len() > 0 {
        lemma_subscription_sequences(h, lines.drop_last(), levels);
        let pre = live_seqs(h, lines.drop_last(), levels);
        let cur = live_seqs(h, lines, levels);
        if passes_filter(levels, parse_log_entry_spec(lines.last()).0) {
            assert(cur == pre.push(h + pre.len()));
            assert forall|k: int| 0 <= k < cur.len() implies #[trigger] cur[k] == h + k by {
                if k < pre.len() {
                    assert(cur[k] == pre[k]);
                }
            }
        } else {
            assert(cur == pre);
        }
    }
}


/// An exact copy of a level list.
pub fn clone_levels(levels: &Vec<String>) -> (r: Vec<String>)
    ensures
        r@.len() == levels@.len(),
        forall|i: int| 0 <= i < levels@.len() ==> (#[trigger] r@[i]) == levels@[i],
{
    let mut out: Vec<String> = Vec::new();
    let n = levels.len();
    let mut i: usize = 0;
    while i < n
        invariant
            n == levels@.len(),
            i <= n,
            out@.len() == i,
            forall|j: int| 0 <= j < i ==> (#[trigger] out@[j]) == levels@[j],
        decreases n - i,
    {
        let c = levels[i].clone();
        assert(c == levels@[i as int]);
        out.push(c);
        i += 1;
    }
    out
}

/// The key a subscription is filed under: `<type>:<target id>`.
pub fn sub_key(target_type: &str, target_id: &str) -> (r: String)
    ensures
        r@ == target_type@ + ":"@ + target_id@,
{
    let mut s = target_type.to_owned();
    s.append(":");
    s.append(target_id);
    s
}

/// One entry of the socket's subscription list.
pub struct SubscriptionInfo {
    pub id: String,
    pub target_type: String,
    pub target_id: String,
    pub log_levels: Vec<String>,
    pub created_at: i64,
    pub active: bool,
}

pub open spec fn info_find_from(
    s: Seq<SubscriptionInfo>,
    t: Seq<char>,
    id: Seq<char>,
    from: int,
) -> Option<int>
    decreases s.len() - from,
{
    if from < 0 || from >= s.len() {
        None
    } else if s[from].target_type@ == t && s[from].target_id@ == id {
        Some(from)
    } else {
        info_find_from(s, t, id, from + 1)
    }
}

pub open spec fn info_lookup(s: Seq<SubscriptionInfo>, t: Seq<char>, id: Seq<char>) -> Option<
    int,
> {
    info_find_from(s, t, id, 0)
}

/// The subscriptions one client socket holds, keyed by target type and
/// id: a second subscribe to the same key is rejected, and unsubscribe
/// removes exactly that key.
pub struct SubscriptionSet {
    items: Vec<SubscriptionInfo>,
}

impl SubscriptionSet {
    pub closed spec fn view(&self) -> Seq<SubscriptionInfo> {
        self.items@
    }

    pub fn new() -> (r: SubscriptionSet)
        ensures
            r@ == Seq::<SubscriptionInfo>::empty(),
    {
        SubscriptionSet { items: Vec::new() }
    }

    fn find_idx(&self, target_type: &str, target_id: &str) -> (r: Option<usize>)
        ensures
            match r {
                Some(i) => i < self@.len() && info_lookup(self@, target_type@, target_id@)
                    == Some(i as int),
                None => info_lookup(self@, target_type@, target_id@) is None,
            },
    {
        let n = self.items.len();
        let mut k: usize = 0;
        while k < n
            invariant
                n == self@.len(),
                k <= n,
                info_find_from(self@, target_type@, target_id@, 0) == info_find_from(
                    self@,
                    target_type@,
                    target_id@,
                    k as int,
                ),
            decreases n - k,
        {
            if text::str_eq(self.items[k].target_type.as_str(), target_type) && text::str_eq(
                self.items[k].target_id.as_str(),
                target_id,
            ) {
                return Some(k);
            }
            k += 1;
        }
        None
    }

    /// Whether a subscription with this key already exists on the
    /// socket.
    pub fn contains(&self, target_type: &str, target_id: &str) -> (r: bool)
        ensures
            r == (info_lookup(self@, target_type@, target_id@) is Some),
    {
        self.find_idx(target_type, target_id).is_some()
    }

    /// File a new subscription; the caller has checked the key is free.
    pub fn add(&mut self, info: SubscriptionInfo)
        requires
            info_lookup(old(self)@, info.target_type@, info.target_id@) is None,
        ensures
            final(self)@ == old(self)@.push(info),
    {
        self.items.push(info);
    }

    /// Remove the subscription under this key; says whether one was
    /// there.
    pub fn remove(&mut self, target_type: &str, target_id: &str) -> (r: bool)
        ensures
            match info_lookup(old(self)@, target_type@, target_id@) {
                Some(i) => r == true && final(self)@ == old(self)@.remove(i),
                None => r == false && final(self)@ == old(self)@,
            },
    {
        match self.find_idx(target_type, target_id) {
            Some(i) => {
                self.items.remove(i);
                true
            },
            None => false,
        }
    }

    /// The socket's active subscriptions, in filing order.
    pub fn list(&self) -> (r: Vec<SubscriptionInfo>)
        ensures
            r@.len() == self@.len(),
            forall|i: int| 0 <= i < r@.len() ==> {
                &&& (#[trigger] r@[i]).id@ == self@[i].id@
                &&& r@[i].target_type@ == self@[i].target_type@
                &&& r@[i].target_id@ == self@[i].target_id@
                &&& r@[i].log_levels@.len() == self@[i].log_levels@.len()
                &&& (forall|m: int|
                    0 <= m < self@[i].log_levels@.len() ==> r@[i].log_levels@[m]
                        == self@[i].log_levels@[m])
                &&& r@[i].created_at == self@[i].created_at
                &&& r@[i].active == self@[i].active
            },
    {
        let n = self.items.len();
        let mut out: Vec<SubscriptionInfo> = Vec::new();
        let mut k: usize = 0;
        while k < n
            invariant
                n == self@.len(),
                k <= n,
                out@.len() == k,
                forall|i: int| 0 <= i < k ==> {
                    &&& (#[trigger] out@[i]).id@ == self@[i].id@
                    &&& out@[i].target_type@ == self@[i].target_type@
                    &&& out@[i].target_id@ == self@[i].target_id@
                    &&& out@[i].log_levels@.len() == self@[i].log_levels@.len()
                    &&& (forall|m: int|
                        0 <= m < self@[i].log_levels@.len() ==> out@[i].log_levels@[m]
                            == self@[i].log_levels@[m])
                    &&& out@[i].created_at == self@[i].created_at
                    &&& out@[i].active == self@[i].active
                },
            decreases n - k,
        {
            let it = &self.items[k];
            out.push(SubscriptionInfo {
                id: it.id.clone(),
                target_type: it.target_type.clone(),
                target_id: it.target_id.clone(),
                log_levels: clone_levels(&it.log_levels),
                created_at: it.created_at,
                active: it.active,
            });
            k += 1;
        }
        out
    }
}

/// The reply to a subscribe on a key that is already taken.
pub fn error_subscription_exists() -> (r: (u16, String))
    ensures
        r.0 == 1400,
        r.1@ == "Subscription already exists"@,
{
    (1400, String::from_str("Subscription already exists"))
}

/// The reply to a subscribe whose target id is unknown.
pub fn error_target_not_found() -> (r: (u16, String))
    ensures
        r.0 == 1404,
        r.1@ == "Target not found"@,
{
    (1404, String::from_str("Target not found"))
}

/// The reply to an unsubscribe without a matching subscription.
pub fn error_subscription_not_found() -> (r: (u16, String))
    ensures
        r.0 == 1404,
        r.1@ == "Subscription not found"@,
{
    (1404, String::from_str("Subscription not found"))
}

} // verus!
