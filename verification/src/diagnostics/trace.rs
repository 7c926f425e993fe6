//! The bounded timeline of one request's diagnostic events: the head and
//! the latest events are both kept, stream deltas are coalesced, and every
//! eviction is counted.

use vstd::prelude::*;

use crate::diagnostics::capture::{body_fingerprint, hex_text, sha256_digest, JsonTree};
use crate::operation::empty_json_object;
use crate::operation::json::{
    json_as_object, json_bool, json_get, json_insert, json_member, json_null, json_object_entries,
    json_object_value, json_string, json_tree_bytes, json_u64, json_value_to_vec, json_value_tree, tree_entries,
};
use crate::text::{bytes_equal, nat_digits, str_equal};
use vstd::utf8::encode_utf8;

verus! {

/// The most events a timeline keeps.
pub const MAX_EVENTS: usize = 128;

/// The first events, which eviction spares while more remain.
pub const HEAD_EVENTS: usize = 8;

/// The largest data of one event before it is summarised, in bytes.
pub const MAX_DATA_BYTES: usize = 4096;

/// The most bytes the kept events may account for.
pub const MAX_BUFFER_BYTES: usize = 65536;

/// What an event costs beyond its JSON data, in bytes.
pub const EVENT_OVERHEAD_BYTES: usize = 256;

/// The latest events eviction looks past before falling back to the head.
pub const TAIL_EVENTS: usize = 8;

/// One kept event, or a run of coalesced events.
pub struct TraceEvent {
    /// The sequence number of the first event of the run.
    pub sequence: u64,
    /// The sequence number of the last event of the run.
    pub last_sequence: u64,
    pub elapsed_ms: u64,
    pub last_elapsed_ms: u64,
    pub attempt_index: u32,
    pub exchange_id: Option<u64>,
    pub stage: &'static str,
    /// How many events the run holds.
    pub count: u64,
    /// The JSON bytes of the data's `eventType` field, where it has one.
    pub event_type: Option<Vec<u8>>,
    /// The event's JSON data.
    pub data: Vec<u8>,
    /// What the event accounts for in the buffer.
    pub bytes: usize,
}

/// Stages whose events eviction keeps ahead of routine ones: failures,
/// retry decisions and the account choice.
pub open spec fn protected_stage(s: Seq<char>) -> bool {
    ||| s == "attempt.started"@ || s == "account.selection"@ || s == "account.selected"@
    ||| s == "attempt.failed"@ || s == "retry.decided"@ || s == "upstream.close"@
    ||| s == "upstream.read.failed"@ || s == "capture.gap"@ || s == "request.finished"@
}

/// The sum of `f` over the events.
pub open spec fn total(s: Seq<TraceEvent>, f: spec_fn(TraceEvent) -> int) -> int
    decreases s.len(),
{
    if s.len() == 0 {
        0
    } else {
        total(s.drop_last(), f) + f(s.last())
    }
}

pub open spec fn event_bytes() -> spec_fn(TraceEvent) -> int {
    |e: TraceEvent| e.bytes as int
}

pub open spec fn event_count() -> spec_fn(TraceEvent) -> int {
    |e: TraceEvent| e.count as int
}

proof fn lemma_total_push(s: Seq<TraceEvent>, e: TraceEvent, f: spec_fn(TraceEvent) -> int)
    ensures
        total(s.push(e), f) == total(s, f) + f(e),
{
    assert(s.push(e).drop_last() =~= s);
}

proof fn lemma_total_nonnegative(s: Seq<TraceEvent>, f: spec_fn(TraceEvent) -> int)
    requires
        forall|e: TraceEvent| #[trigger] f(e) >= 0,
    ensures
        total(s, f) >= 0,
    decreases s.len(),
{
    if s.len() > 0 {
        lemma_total_nonnegative(s.drop_last(), f);
    }
}

proof fn lemma_total_le(s: Seq<TraceEvent>, i: int, f: spec_fn(TraceEvent) -> int)
    requires
        0 <= i < s.len(),
        forall|e: TraceEvent| #[trigger] f(e) >= 0,
    ensures
        f(s[i]) <= total(s, f),
    decreases s.len(),
{
    lemma_total_nonnegative(s.drop_last(), f);
    if i < s.len() - 1 {
        lemma_total_le(s.drop_last(), i, f);
    }
}

proof fn lemma_total_update(s: Seq<TraceEvent>, i: int, e: TraceEvent, f: spec_fn(TraceEvent) -> int)
    requires
        0 <= i < s.len(),
    ensures
        total(s.update(i, e), f) == total(s, f) - f(s[i]) + f(e),
    decreases s.len(),
{
    if i == s.len() - 1 {
        assert(s.update(i, e).drop_last() =~= s.drop_last());
    } else {
        lemma_total_update(s.drop_last(), i, e, f);
        assert(s.update(i, e).drop_last() =~= s.drop_last().update(i, e));
    }
}

proof fn lemma_total_remove(s: Seq<TraceEvent>, i: int, f: spec_fn(TraceEvent) -> int)
    requires
        0 <= i < s.len(),
    ensures
        total(s.remove(i), f) == total(s, f) - f(s[i]),
    decreases s.len(),
{
    if i == s.len() - 1 {
        assert(s.remove(i) =~= s.drop_last());
    } else {
        lemma_total_remove(s.drop_last(), i, f);
        assert(s.remove(i).drop_last() =~= s.drop_last().remove(i));
    }
}

/// The event eviction removes: the first one between the head and the last
/// eight whose stage is not protected; failing that, the first event after
/// the head, or the very first when no more than the head is left.
pub open spec fn eviction_index(s: Seq<TraceEvent>) -> int {
    let upper = s.len() - TAIL_EVENTS;
    if exists|i: int| HEAD_EVENTS <= i < upper && !protected_stage(#[trigger] s[i].stage@) {
        choose|i: int|
            HEAD_EVENTS <= i < upper && !protected_stage(#[trigger] s[i].stage@) && forall|j: int|
                HEAD_EVENTS <= j < i ==> protected_stage(#[trigger] s[j].stage@)
    } else if s.len() > HEAD_EVENTS {
        HEAD_EVENTS as int
    } else {
        0
    }
}

/// The events left, and the evictions counted, once eviction has brought
/// the timeline within its bounds.
pub open spec fn evicted(s: Seq<TraceEvent>, dropped: int) -> (Seq<TraceEvent>, int)
    decreases s.len(),
{
    if s.len() > 0 && (s.len() > MAX_EVENTS || total(s, event_bytes()) > MAX_BUFFER_BYTES) {
        let i = eviction_index(s);
        if 0 <= i < s.len() {
            evicted(s.remove(i), dropped + s[i].count)
        } else {
            (s, dropped)
        }
    } else {
        (s, dropped)
    }
}

proof fn lemma_eviction_index(s: Seq<TraceEvent>)
    requires
        s.len() > 0,
    ensures
        0 <= eviction_index(s) < s.len(),
        s.len() > HEAD_EVENTS ==> eviction_index(s) >= HEAD_EVENTS,
{
    let upper = s.len() - TAIL_EVENTS;
    if exists|i: int| HEAD_EVENTS <= i < upper && !protected_stage(#[trigger] s[i].stage@) {
        let w = choose|i: int| HEAD_EVENTS <= i < upper && !protected_stage(#[trigger] s[i].stage@);
        lemma_first_unprotected(s, upper, w);
    }
}

proof fn lemma_first_unprotected(s: Seq<TraceEvent>, upper: int, w: int)
    requires
        HEAD_EVENTS <= w < upper,
        !protected_stage(s[w].stage@),
    ensures
        exists|i: int|
            HEAD_EVENTS <= i < upper && !protected_stage(#[trigger] s[i].stage@) && forall|j: int|
                HEAD_EVENTS <= j < i ==> protected_stage(#[trigger] s[j].stage@),
    decreases w,
{
    if exists|j: int| HEAD_EVENTS <= j < w && !protected_stage(#[trigger] s[j].stage@) {
        let v = choose|j: int| HEAD_EVENTS <= j < w && !protected_stage(#[trigger] s[j].stage@);
        lemma_first_unprotected(s, upper, v);
    } else {
        assert(forall|j: int| HEAD_EVENTS <= j < w ==> protected_stage(#[trigger] s[j].stage@));
    }
}

/// Eviction keeps the timeline within its bounds and counts every event it
/// drops.
pub proof fn lemma_evicted(s: Seq<TraceEvent>, dropped: int)
    ensures
        evicted(s, dropped).0.len() <= MAX_EVENTS,
        total(evicted(s, dropped).0, event_bytes()) <= MAX_BUFFER_BYTES,
        evicted(s, dropped).1 + total(evicted(s, dropped).0, event_count()) == dropped + total(s, event_count()),
        evicted(s, dropped).1 >= dropped,
    decreases s.len(),
{
    if s.len() > 0 && (s.len() > MAX_EVENTS || total(s, event_bytes()) > MAX_BUFFER_BYTES) {
        lemma_eviction_index(s);
        let i = eviction_index(s);
        lemma_total_remove(s, i, event_count());
        lemma_evicted(s.remove(i), dropped + s[i].count);
    } else if s.len() == 0 {
        assert(total(s, event_bytes()) == 0);
    }
}

/// Eviction spares the head: whenever at least eight events remain, they
/// begin with the same eight events as before.
pub proof fn lemma_eviction_keeps_head(s: Seq<TraceEvent>, dropped: int)
    ensures
        evicted(s, dropped).0.len() >= HEAD_EVENTS ==> evicted(s, dropped).0.take(HEAD_EVENTS as int) == s.take(
            HEAD_EVENTS as int,
        ),
    decreases s.len(),
{
    if s.len() > 0 && (s.len() > MAX_EVENTS || total(s, event_bytes()) > MAX_BUFFER_BYTES) {
        lemma_eviction_index(s);
        let i = eviction_index(s);
        lemma_evicted_shrinks(s.remove(i), dropped + s[i].count);
        lemma_eviction_keeps_head(s.remove(i), dropped + s[i].count);
        if s.len() > HEAD_EVENTS {
            assert(s.remove(i).take(HEAD_EVENTS as int) =~= s.take(HEAD_EVENTS as int));
        }
    }
}

proof fn lemma_evicted_shrinks(s: Seq<TraceEvent>, dropped: int)
    ensures
        evicted(s, dropped).0.len() <= s.len(),
    decreases s.len(),
{
    if s.len() > 0 && (s.len() > MAX_EVENTS || total(s, event_bytes()) > MAX_BUFFER_BYTES) {
        lemma_eviction_index(s);
        let i = eviction_index(s);
        lemma_evicted_shrinks(s.remove(i), dropped + s[i].count);
    }
}

/// The last kept event of the same stage, attempt and exchange.
pub open spec fn last_matching(s: Seq<TraceEvent>, stage: Seq<char>, attempt_index: u32, exchange_id: Option<u64>, n: int) -> Option<int>
    decreases n,
{
    if n <= 0 {
        None
    } else if s[n - 1].stage@ == stage && s[n - 1].attempt_index == attempt_index && s[n - 1].exchange_id == exchange_id {
        Some(n - 1)
    } else {
        last_matching(s, stage, attempt_index, exchange_id, n - 1)
    }
}

proof fn lemma_last_matching_range(s: Seq<TraceEvent>, stage: Seq<char>, attempt_index: u32, exchange_id: Option<u64>, n: int)
    ensures
        last_matching(s, stage, attempt_index, exchange_id, n) matches Some(k) ==> 0 <= k < n,
    decreases n,
{
    if n > 0 {
        lemma_last_matching_range(s, stage, attempt_index, exchange_id, n - 1);
    }
}

/// Two optional byte strings are both absent, or both present and equal.
pub open spec fn same_text(a: Option<Vec<u8>>, b: Option<Vec<u8>>) -> bool {
    match (a, b) {
        (Some(x), Some(y)) => x@ == y@,
        (None, None) => true,
        _ => false,
    }
}

/// The event a new one coalesces into: the last of its stage, attempt and
/// exchange, when coalescing was asked for and the event types agree.
pub open spec fn coalesce_into(
    s: Seq<TraceEvent>,
    stage: Seq<char>,
    attempt_index: u32,
    exchange_id: Option<u64>,
    event_type: Option<Vec<u8>>,
    coalesce: bool,
) -> Option<int> {
    if coalesce {
        match last_matching(s, stage, attempt_index, exchange_id, s.len() as int) {
            Some(k) => if same_text(s[k].event_type, event_type) { Some(k) } else { None },
            None => None,
        }
    } else {
        None
    }
}

/// A request's diagnostic timeline.
pub struct TraceTimeline {
    sequence: u64,
    dropped_events: u64,
    bytes: usize,
    events: Vec<TraceEvent>,
}

impl TraceTimeline {
    /// Within bounds, bytes accounted, and every event counted once: kept,
    /// coalesced into a kept run, or dropped.
    #[verifier::type_invariant]
    spec fn well_formed(&self) -> bool {
        &&& self.events@.len() <= MAX_EVENTS
        &&& self.bytes <= MAX_BUFFER_BYTES
        &&& self.bytes == total(self.events@, event_bytes())
        &&& self.dropped_events + total(self.events@, event_count()) == self.sequence
    }

    /// At most 128 events of at most 64 KiB together, and the recorded
    /// events equal the dropped ones plus those each kept run holds.
    pub open spec fn bounded_and_counted(&self) -> bool {
        &&& self.spec_events().len() <= MAX_EVENTS
        &&& total(self.spec_events(), event_bytes()) <= MAX_BUFFER_BYTES
        &&& self.spec_sequence() == self.spec_dropped() + total(self.spec_events(), event_count())
    }

    pub closed spec fn spec_sequence(&self) -> u64 {
        self.sequence
    }

    pub closed spec fn spec_dropped(&self) -> u64 {
        self.dropped_events
    }

    pub closed spec fn spec_events(&self) -> Seq<TraceEvent> {
        self.events@
    }

    /// An empty timeline.
    pub fn new() -> (r: TraceTimeline)
        ensures
            r.spec_sequence() == 0,
            r.spec_dropped() == 0,
            r.spec_events().len() == 0,
            r.bounded_and_counted(),
    {
        TraceTimeline { sequence: 0, dropped_events: 0, bytes: 0, events: Vec::new() }
    }

    /// How many events were recorded.
    pub fn total_events(&self) -> (r: u64)
        ensures
            r == self.spec_sequence(),
    {
        self.sequence
    }

    /// How many recorded events eviction dropped.
    pub fn dropped_events(&self) -> (r: u64)
        ensures
            r == self.spec_dropped(),
    {
        self.dropped_events
    }

    /// The kept events, oldest first.
    pub fn events(&self) -> (r: &[TraceEvent])
        ensures
            r@ == self.spec_events(),
    {
        self.events.as_slice()
    }

    /// What the kept events account for in the buffer.
    pub fn buffered_bytes(&self) -> (r: usize)
        ensures
            r == total(self.spec_events(), event_bytes()),
    {
        proof {
            use_type_invariant(self);
        }
        self.bytes
    }

    fn eviction_index_exec(events: &Vec<TraceEvent>) -> (r: usize)
        requires
            events@.len() > 0,
        ensures
            r == eviction_index(events@),
    {
        let n = events.len();
        let upper: usize = if n > TAIL_EVENTS { n - TAIL_EVENTS } else { 0 };
        let mut i: usize = HEAD_EVENTS;
        while i < upper
            invariant
                HEAD_EVENTS <= i,
                n == events@.len(),
                upper == (if n > TAIL_EVENTS { n - TAIL_EVENTS } else { 0 }),
                forall|j: int| HEAD_EVENTS <= j < i ==> protected_stage(#[trigger] events@[j].stage@),
            decreases upper - i,
        {
            let s = events[i].stage;
            let protected = str_equal(s, "attempt.started") || str_equal(s, "account.selection")
                || str_equal(s, "account.selected") || str_equal(s, "attempt.failed")
                || str_equal(s, "retry.decided") || str_equal(s, "upstream.close")
                || str_equal(s, "upstream.read.failed") || str_equal(s, "capture.gap")
                || str_equal(s, "request.finished");
            if !protected {
                proof {
                    let first = choose|k: int|
                        HEAD_EVENTS <= k < events@.len() - TAIL_EVENTS && !protected_stage(#[trigger] events@[k].stage@)
                            && forall|j: int| HEAD_EVENTS <= j < k ==> protected_stage(#[trigger] events@[j].stage@);
                    assert(first == i) by {
                        if first < i {
                            assert(protected_stage(events@[first].stage@));
                        } else if first > i {
                            assert(protected_stage(events@[i as int].stage@));
                        }
                    }
                }
                return i;
            }
            i = i + 1;
        }
        if n > HEAD_EVENTS {
            HEAD_EVENTS
        } else {
            0
        }
    }

    fn find_last_matching(events: &Vec<TraceEvent>, stage: &'static str, attempt_index: u32, exchange_id: Option<u64>) -> (r:
        Option<usize>)
        ensures
            match r {
                Some(k) => last_matching(events@, stage@, attempt_index, exchange_id, events@.len() as int) == Some(k as int),
                None => last_matching(events@, stage@, attempt_index, exchange_id, events@.len() as int) is None,
            },
    {
        let mut k: usize = events.len();
        while k > 0
            invariant
                k <= events@.len(),
                last_matching(events@, stage@, attempt_index, exchange_id, events@.len() as int) == last_matching(
                    events@,
                    stage@,
                    attempt_index,
                    exchange_id,
                    k as int,
                ),
            decreases k,
        {
            let e = &events[k - 1];
            if str_equal(e.stage, stage) && e.attempt_index == attempt_index && e.exchange_id == exchange_id {
                return Some(k - 1);
            }
            k = k - 1;
        }
        None
    }

    /// Records one event. With `coalesce`, an event of the same stage,
    /// attempt, exchange and event type as the last such kept event only
    /// extends that run; otherwise it is appended, and eviction then drops
    /// events until at most 128 are kept within 64 KiB.
    pub fn push(
        &mut self,
        stage: &'static str,
        attempt_index: u32,
        exchange_id: Option<u64>,
        event_type: Option<Vec<u8>>,
        data: Vec<u8>,
        coalesce: bool,
        elapsed_ms: u64,
    )
        requires
            old(self).spec_sequence() < u64::MAX,
            data@.len() <= usize::MAX - MAX_BUFFER_BYTES - EVENT_OVERHEAD_BYTES,
        ensures
            final(self).spec_sequence() == old(self).spec_sequence() + 1,
            final(self).bounded_and_counted(),
            ({
                let s = old(self).spec_events();
                let seq = (old(self).spec_sequence() + 1) as u64;
                match coalesce_into(s, stage@, attempt_index, exchange_id, event_type, coalesce) {
                    Some(k) => final(self).spec_dropped() == old(self).spec_dropped() && final(self).spec_events()
                        == s.update(k, TraceEvent {
                        count: (s[k].count + 1) as u64,
                        last_sequence: seq,
                        last_elapsed_ms: elapsed_ms,
                        ..s[k]
                    }),
                    None => {
                        let e = TraceEvent {
                            sequence: seq,
                            last_sequence: seq,
                            elapsed_ms,
                            last_elapsed_ms: elapsed_ms,
                            attempt_index,
                            exchange_id,
                            stage,
                            count: 1,
                            event_type,
                            data,
                            bytes: (data@.len() + EVENT_OVERHEAD_BYTES) as usize,
                        };
                        (final(self).spec_events(), final(self).spec_dropped() as int) == evicted(
                            s.push(e),
                            old(self).spec_dropped() as int,
                        )
                    },
                }
            }),
    {
        proof {
            use_type_invariant(&*self);
        }
        let encoded_len = data.len();
        let mut taken = TraceTimeline::new();
        std::mem::swap(self, &mut taken);
        proof {
            use_type_invariant(&taken);
        }
        let TraceTimeline { sequence, dropped_events, bytes, events } = taken;
        let mut events = events;
        let ghost s = events@;
        let seq = sequence + 1;
        proof {
            lemma_total_nonnegative(s, event_count());
            lemma_total_nonnegative(s, event_bytes());
        }
        proof {
            lemma_last_matching_range(s, stage@, attempt_index, exchange_id, s.len() as int);
        }
        let target = if coalesce {
            match Self::find_last_matching(&events, stage, attempt_index, exchange_id) {
                Some(k) => {
                    let same = match (&events[k].event_type, &event_type) {
                        (Some(a), Some(b)) => bytes_equal(a.as_slice(), b.as_slice()),
                        (None, None) => true,
                        _ => false,
                    };
                    if same {
                        Some(k)
                    } else {
                        None
                    }
                },
                None => None,
            }
        } else {
            None
        };
        assert(target matches Some(k) ==> k < s.len());
        assert(target == match coalesce_into(s, stage@, attempt_index, exchange_id, event_type, coalesce) {
            Some(k) => Some(k as usize),
            None => None::<usize>,
        });
        match target {
            Some(k) => {
                let mut e = events.remove(k);
                proof {
                    lemma_total_le(s, k as int, event_count());
                }
                e.count = e.count + 1;
                e.last_sequence = seq;
                e.last_elapsed_ms = elapsed_ms;
                events.insert(k, e);
                proof {
                    assert(events@ =~= s.update(k as int, events@[k as int]));
                    lemma_total_update(s, k as int, events@[k as int], event_count());
                    lemma_total_update(s, k as int, events@[k as int], event_bytes());
                }
                *self = TraceTimeline { sequence: seq, dropped_events, bytes, events };
            },
            None => {
                let e = TraceEvent {
                    sequence: seq,
                    last_sequence: seq,
                    elapsed_ms,
                    last_elapsed_ms: elapsed_ms,
                    attempt_index,
                    exchange_id,
                    stage,
                    count: 1,
                    event_type,
                    data,
                    bytes: encoded_len + EVENT_OVERHEAD_BYTES,
                };
                let ghost pushed = s.push(e);
                events.push(e);
                proof {
                    lemma_total_push(s, e, event_bytes());
                    lemma_total_push(s, e, event_count());
                }
                let mut bytes = bytes + encoded_len + EVENT_OVERHEAD_BYTES;
                let mut dropped = dropped_events;
                while events.len() > MAX_EVENTS || bytes > MAX_BUFFER_BYTES
                    invariant
                        bytes == total(events@, event_bytes()),
                        dropped + total(events@, event_count()) == seq,
                        evicted(events@, dropped as int) == evicted(pushed, dropped_events as int),
                    decreases events@.len(),
                {
                    proof {
                        assert(events@.len() > 0);
                        lemma_eviction_index(events@);
                        lemma_total_nonnegative(events@, event_count());
                        lemma_total_nonnegative(events@, event_bytes());
                    }
                    let i = Self::eviction_index_exec(&events);
                    let ghost before = events@;
                    proof {
                        lemma_total_le(before, i as int, event_count());
                        lemma_total_le(before, i as int, event_bytes());
                        lemma_total_remove(before, i as int, event_count());
                        lemma_total_remove(before, i as int, event_bytes());
                    }
                    let gone = events.remove(i);
                    bytes = bytes - gone.bytes;
                    dropped = dropped + gone.count;
                    proof {
                        lemma_total_nonnegative(events@, event_count());
                    }
                }
                proof {
                    lemma_evicted(pushed, dropped_events as int);
                }
                *self = TraceTimeline { sequence: seq, dropped_events: dropped, bytes, events };
            },
        }
    }
}

/// The member `key` of a tree, where it is an object that has one.
pub open spec fn tree_member(t: JsonTree, key: Seq<char>) -> Option<JsonTree> {
    match t {
        JsonTree::Object(members) => json_member(tree_entries(members@), key),
        _ => None,
    }
}

/// The member `key` of a tree, or `null` where it has none.
pub open spec fn member_or_null(t: JsonTree, key: Seq<char>) -> JsonTree {
    match tree_member(t, key) {
        Some(v) => v,
        None => JsonTree::Null,
    }
}

/// `f` is `{"bytes": .., "sha256": ..}`: the length and digest of `e`.
pub open spec fn is_fingerprint_tree(f: JsonTree, e: Seq<u8>) -> bool {
    &&& f is Object
    &&& match tree_member(f, "bytes"@) {
        Some(JsonTree::Number { as_u64, text }) => as_u64 == Some(e.len() as u64) && encode_utf8(text@) == nat_digits(
            e.len(),
        ),
        _ => false,
    }
    &&& match tree_member(f, "sha256"@) {
        Some(JsonTree::Text(h)) => h@ == hex_text(sha256_digest(e)),
        _ => false,
    }
    &&& forall|k: Seq<char>| k != "bytes"@ && k != "sha256"@ ==> #[trigger] tree_member(f, k) is None
}

/// `s` is the summary that stands for data `t` encoded as `e`:
/// `{"truncated": true, "summary": <digest of e>, "eventType": .., "body":
/// .., "jsonValid": ..}`, the last three copied from `t` (or `null`).
pub open spec fn is_summary(s: JsonTree, t: JsonTree, e: Seq<u8>) -> bool {
    &&& s is Object
    &&& tree_member(s, "truncated"@) == Some(JsonTree::Bool(true))
    &&& (tree_member(s, "summary"@) matches Some(f) && is_fingerprint_tree(f, e))
    &&& tree_member(s, "eventType"@) == Some(member_or_null(t, "eventType"@))
    &&& tree_member(s, "body"@) == Some(member_or_null(t, "body"@))
    &&& tree_member(s, "jsonValid"@) == Some(member_or_null(t, "jsonValid"@))
    &&& forall|k: Seq<char>|
        k != "truncated"@ && k != "summary"@ && k != "eventType"@ && k != "body"@ && k != "jsonValid"@
            ==> #[trigger] tree_member(s, k) is None
}

/// `e` is the encoding of `t`, or nothing where the encoder reported an
/// error.
pub open spec fn encoded_or_empty(e: Seq<u8>, t: JsonTree) -> bool {
    e == json_tree_bytes(t) || e.len() == 0
}

/// The coalescing key of data `t`: the encoding of its `eventType` member,
/// where it has one.
pub open spec fn event_type_bytes(et: Option<Vec<u8>>, t: JsonTree) -> bool {
    match tree_member(t, "eventType"@) {
        Some(v) => et matches Some(b) && encoded_or_empty(b@, v),
        None => et is None,
    }
}

/// The data of one trace event as a timeline keeps it.
pub struct TraceData {
    /// The encoding of the data's `eventType` member, where it has one.
    pub event_type: Option<Vec<u8>>,
    /// The encoded data, at most 4096 bytes unless it is a summary.
    pub data: Vec<u8>,
}

/// What is kept of data `t` whose encoding is `e`: `e` itself up to 4096
/// bytes, else the encoding of its summary.
pub open spec fn trace_data_of(r: TraceData, t: JsonTree, e: Seq<u8>) -> bool {
    if e.len() <= MAX_DATA_BYTES {
        r.data@ == e && event_type_bytes(r.event_type, t)
    } else {
        exists|s: JsonTree| #[trigger] is_summary(s, t, e) && encoded_or_empty(r.data@, s) && event_type_bytes(r.event_type, s)
    }
}

fn encode(value: &serde_json::Value) -> (r: Vec<u8>)
    ensures
        encoded_or_empty(r@, json_value_tree(*value)),
{
    match json_value_to_vec(value) {
        Some(b) => b,
        None => Vec::new(),
    }
}

fn member_value<'a>(data: &'a serde_json::Value, key: &str) -> (r: Option<&'a serde_json::Value>)
    ensures
        match tree_member(json_value_tree(*data), key@) {
            Some(t) => r matches Some(v) && json_value_tree(*v) == t,
            None => r is None,
        },
{
    match json_as_object(data) {
        Some(object) => json_get(object, key),
        None => None,
    }
}

fn member_or_null_value(data: &serde_json::Value, key: &str) -> (r: serde_json::Value)
    ensures
        json_value_tree(r) == member_or_null(json_value_tree(*data), key@),
{
    match member_value(data, key) {
        Some(v) => v.clone(),
        None => json_null(),
    }
}

fn event_type_of_value(data: &serde_json::Value) -> (r: Option<Vec<u8>>)
    ensures
        event_type_bytes(r, json_value_tree(*data)),
{
    match member_value(data, "eventType") {
        Some(v) => Some(encode(v)),
        None => None,
    }
}

/// The summary that stands for oversized data encoded as `encoded`.
pub fn trace_summary(data: &serde_json::Value, encoded: &[u8]) -> (r: serde_json::Value)
    ensures
        is_summary(json_value_tree(r), json_value_tree(*data), encoded@),
{
    proof {
        reveal_strlit("bytes");
        reveal_strlit("sha256");
        reveal_strlit("truncated");
        reveal_strlit("summary");
        reveal_strlit("eventType");
        reveal_strlit("body");
        reveal_strlit("jsonValid");
    }
    let fp = body_fingerprint(encoded);
    let mut f = empty_json_object();
    let ghost f0 = f;
    json_insert(&mut f, "bytes", json_u64(fp.bytes as u64));
    let ghost f1 = f;
    json_insert(&mut f, "sha256", json_string(fp.sha256));
    let ghost f2 = f;
    let fv = json_object_value(f);
    let mut m = empty_json_object();
    let ghost m0 = m;
    json_insert(&mut m, "truncated", json_bool(true));
    let ghost m1 = m;
    json_insert(&mut m, "summary", fv);
    let ghost m2 = m;
    json_insert(&mut m, "eventType", member_or_null_value(data, "eventType"));
    let ghost m3 = m;
    json_insert(&mut m, "body", member_or_null_value(data, "body"));
    let ghost m4 = m;
    json_insert(&mut m, "jsonValid", member_or_null_value(data, "jsonValid"));
    let ghost m5 = m;
    let r = json_object_value(m);
    proof {
        assert("bytes"@.len() != "sha256"@.len());
        assert("truncated"@.len() != "summary"@.len());
        assert("truncated"@[0] != "eventType"@[0]);
        assert("truncated"@.len() != "body"@.len());
        assert("truncated"@[0] != "jsonValid"@[0]);
        assert("summary"@.len() != "eventType"@.len());
        assert("summary"@.len() != "body"@.len());
        assert("summary"@.len() != "jsonValid"@.len());
        assert("eventType"@.len() != "body"@.len());
        assert("eventType"@[0] != "jsonValid"@[0]);
        assert("body"@.len() != "jsonValid"@.len());
        let t = json_value_tree(*data);
        let ft = json_value_tree(fv);
        assert forall|k: Seq<char>| #[trigger] tree_member(ft, k) == json_member(json_object_entries(f2), k) by {}
        assert forall|k: Seq<char>| #[trigger] tree_member(json_value_tree(r), k) == json_member(json_object_entries(m5), k) by {}
        assert(json_member(json_object_entries(f0), "bytes"@) is None);
        assert(json_member(json_object_entries(f2), "bytes"@) == json_member(json_object_entries(f1), "bytes"@));
        assert forall|k: Seq<char>| k != "bytes"@ && k != "sha256"@ implies #[trigger] tree_member(ft, k) is None by {
            assert(json_member(json_object_entries(f2), k) == json_member(json_object_entries(f1), k));
            assert(json_member(json_object_entries(f1), k) == json_member(json_object_entries(f0), k));
        }
        assert(is_fingerprint_tree(ft, encoded@));
        assert(json_member(json_object_entries(m5), "truncated"@) == json_member(json_object_entries(m4), "truncated"@));
        assert(json_member(json_object_entries(m4), "truncated"@) == json_member(json_object_entries(m3), "truncated"@));
        assert(json_member(json_object_entries(m3), "truncated"@) == json_member(json_object_entries(m2), "truncated"@));
        assert(json_member(json_object_entries(m2), "truncated"@) == json_member(json_object_entries(m1), "truncated"@));
        assert(json_member(json_object_entries(m5), "summary"@) == json_member(json_object_entries(m4), "summary"@));
        assert(json_member(json_object_entries(m4), "summary"@) == json_member(json_object_entries(m3), "summary"@));
        assert(json_member(json_object_entries(m3), "summary"@) == json_member(json_object_entries(m2), "summary"@));
        assert(json_member(json_object_entries(m5), "eventType"@) == json_member(json_object_entries(m4), "eventType"@));
        assert(json_member(json_object_entries(m4), "eventType"@) == json_member(json_object_entries(m3), "eventType"@));
        assert(json_member(json_object_entries(m5), "body"@) == json_member(json_object_entries(m4), "body"@));
        assert forall|k: Seq<char>|
            k != "truncated"@ && k != "summary"@ && k != "eventType"@ && k != "body"@ && k != "jsonValid"@
            implies #[trigger] tree_member(json_value_tree(r), k) is None by {
            assert(json_member(json_object_entries(m5), k) == json_member(json_object_entries(m4), k));
            assert(json_member(json_object_entries(m4), k) == json_member(json_object_entries(m3), k));
            assert(json_member(json_object_entries(m3), k) == json_member(json_object_entries(m2), k));
            assert(json_member(json_object_entries(m2), k) == json_member(json_object_entries(m1), k));
            assert(json_member(json_object_entries(m1), k) == json_member(json_object_entries(m0), k));
        }
    }
    r
}

/// Encodes one event's data for the timeline: data of at most 4096 bytes is
/// kept as encoded, larger data is replaced by its summary; the coalescing
/// key is the encoding of the kept data's `eventType` member.
pub fn trace_data(data: &serde_json::Value) -> (r: TraceData)
    ensures
        trace_data_of(r, json_value_tree(*data), json_tree_bytes(json_value_tree(*data))) || trace_data_of(
            r,
            json_value_tree(*data),
            Seq::empty(),
        ),
{
    let encoded = encode(data);
    if encoded.len() > MAX_DATA_BYTES {
        let summary = trace_summary(data, encoded.as_slice());
        let event_type = event_type_of_value(&summary);
        let kept = encode(&summary);
        let r = TraceData { event_type, data: kept };
        proof {
            let t = json_value_tree(*data);
            let s = json_value_tree(summary);
            assert(is_summary(s, t, encoded@));
            if encoded@ == json_tree_bytes(t) {
                assert(trace_data_of(r, t, json_tree_bytes(t)));
            } else {
                assert(encoded@ =~= Seq::<u8>::empty());
                assert(trace_data_of(r, t, Seq::empty()));
            }
        }
        r
    } else {
        let event_type = event_type_of_value(data);
        let r = TraceData { event_type, data: encoded };
        proof {
            let t = json_value_tree(*data);
            if r.data@ != json_tree_bytes(t) {
                assert(r.data@ =~= Seq::<u8>::empty());
            }
        }
        r
    }
}

} // verus!
