//! Bounded waiting positions that live with a request; execution capacity
//! itself is decided by the atomic admission and lease ports.

use vstd::prelude::*;

use crate::error::{GatewayError, GatewayErrorKind};
use crate::time::TimeSpan;

verus! {

/// The most waiters all queues hold together.
pub const MAX_TOTAL_WAITING: usize = 1024;

/// How many requests may wait per key, and for how long.
#[derive(Debug, Clone, Copy, PartialEq, Eq, Structural)]
pub struct ConcurrencyQueuePolicy {
    pub max_waiting: u32,
    pub timeout: TimeSpan,
}

impl Default for ConcurrencyQueuePolicy {
    /// No waiting at all.
    fn default() -> (r: ConcurrencyQueuePolicy)
        ensures
            r.max_waiting == 0,
            r.timeout.nanos == 0,
    {
        ConcurrencyQueuePolicy { max_waiting: 0, timeout: TimeSpan { nanos: 0 } }
    }
}

/// Why a request could not take or keep a waiting position.
#[derive(Debug, Clone, Copy, PartialEq, Eq, Structural)]
pub enum QueueRejection {
    /// The wait queue is full.
    Full,
    /// The wait deadline elapsed.
    Timeout,
}

impl QueueRejection {
    /// The gateway error a refused wait is reported with.
    pub fn gateway_error(self) -> (r: GatewayError)
        ensures
            r.spec_diagnostic() is None,
            r.spec_client_visible_upstream_error() is None,
            match self {
                QueueRejection::Full => r.spec_kind() == GatewayErrorKind::ConcurrencyQueueFull
                    && r.spec_message() == "concurrency wait queue is full"@,
                QueueRejection::Timeout => r.spec_kind() == GatewayErrorKind::ConcurrencyQueueTimeout
                    && r.spec_message() == "concurrency wait deadline elapsed"@,
            },
    {
        match self {
            QueueRejection::Full => GatewayError::new(GatewayErrorKind::ConcurrencyQueueFull, "concurrency wait queue is full"),
            QueueRejection::Timeout => GatewayError::new(
                GatewayErrorKind::ConcurrencyQueueTimeout,
                "concurrency wait deadline elapsed",
            ),
        }
    }
}

/// Key `i` can take another waiter.
pub open spec fn queue_has_room(lengths: Seq<usize>, max_waiting: u32, i: int) -> bool {
    lengths[i] < max_waiting
}

/// Where [`enqueue_target`] puts a new waiter: the first key, in the given
/// order, with room and the shortest queue among those with room.
pub open spec fn is_enqueue_target(lengths: Seq<usize>, max_waiting: u32, i: int) -> bool {
    &&& 0 <= i < lengths.len()
    &&& queue_has_room(lengths, max_waiting, i)
    &&& forall|j: int| 0 <= j < lengths.len() && #[trigger] queue_has_room(lengths, max_waiting, j) ==> lengths[i] <= lengths[j]
    &&& forall|j: int| 0 <= j < i && #[trigger] queue_has_room(lengths, max_waiting, j) ==> lengths[i] < lengths[j]
}

/// Decides where a request waits among the queues of `keys`, given their
/// current lengths: a request past its deadline times out; when all queues
/// together are at their bound, or no key's queue has room, the queue is full.
pub fn enqueue_target(
    queue_lengths: &[usize],
    max_waiting: u32,
    total_waiting: usize,
    deadline_reached: bool,
) -> (r: Result<usize, QueueRejection>)
    ensures
        deadline_reached ==> r == Err::<usize, QueueRejection>(QueueRejection::Timeout),
        !deadline_reached && total_waiting >= MAX_TOTAL_WAITING ==> r == Err::<usize, QueueRejection>(
            QueueRejection::Full,
        ),
        !deadline_reached && total_waiting < MAX_TOTAL_WAITING ==> match r {
            Ok(i) => is_enqueue_target(queue_lengths@, max_waiting, i as int),
            Err(e) => e == QueueRejection::Full && forall|j: int|
                0 <= j < queue_lengths@.len() ==> !#[trigger] queue_has_room(queue_lengths@, max_waiting, j),
        },
{
    if deadline_reached {
        return Err(QueueRejection::Timeout);
    }
    if total_waiting >= MAX_TOTAL_WAITING {
        return Err(QueueRejection::Full);
    }
    let mut best: Option<usize> = None;
    let mut i: usize = 0;
    while i < queue_lengths.len()
        invariant
            i <= queue_lengths.len(),
            match best {
                Some(b) => b < i && queue_has_room(queue_lengths@, max_waiting, b as int)
                    && (forall|j: int| 0 <= j < i && #[trigger] queue_has_room(queue_lengths@, max_waiting, j)
                        ==> queue_lengths@[b as int] <= queue_lengths@[j])
                    && (forall|j: int| 0 <= j < b && #[trigger] queue_has_room(queue_lengths@, max_waiting, j)
                        ==> queue_lengths@[b as int] < queue_lengths@[j]),
                None => forall|j: int| 0 <= j < i ==> !#[trigger] queue_has_room(queue_lengths@, max_waiting, j),
            },
        decreases queue_lengths.len() - i,
    {
        let len = queue_lengths[i];
        if (len as u64) < (max_waiting as u64) {
            match best {
                Some(b) => {
                    if len < queue_lengths[b] {
                        best = Some(i);
                    }
                },
                None => {
                    best = Some(i);
                },
            }
        }
        i = i + 1;
    }
    match best {
        Some(b) => Ok(b),
        None => Err(QueueRejection::Full),
    }
}

// ---------------------------------------------------------------------------
// Wait queues
// ---------------------------------------------------------------------------

/// The number of waiters the queues hold together.
pub open spec fn waiting_total(s: Seq<(String, Vec<u64>)>) -> int
    decreases s.len(),
{
    if s.len() == 0 {
        0
    } else {
        waiting_total(s.drop_last()) + s.last().1@.len()
    }
}

proof fn lemma_waiting_total_push(s: Seq<(String, Vec<u64>)>, e: (String, Vec<u64>))
    ensures
        waiting_total(s.push(e)) == waiting_total(s) + e.1@.len(),
{
    assert(s.push(e).drop_last() =~= s);
}

proof fn lemma_waiting_total_update(s: Seq<(String, Vec<u64>)>, i: int, e: (String, Vec<u64>))
    requires
        0 <= i < s.len(),
    ensures
        waiting_total(s.update(i, e)) == waiting_total(s) - s[i].1@.len() + e.1@.len(),
    decreases s.len(),
{
    if i == s.len() - 1 {
        assert(s.update(i, e).drop_last() =~= s.drop_last());
    } else {
        lemma_waiting_total_update(s.drop_last(), i, e);
        assert(s.update(i, e).drop_last() =~= s.drop_last().update(i, e));
    }
}

proof fn lemma_waiting_total_remove(s: Seq<(String, Vec<u64>)>, i: int)
    requires
        0 <= i < s.len(),
    ensures
        waiting_total(s.remove(i)) == waiting_total(s) - s[i].1@.len(),
    decreases s.len(),
{
    if i == s.len() - 1 {
        assert(s.remove(i) =~= s.drop_last());
    } else {
        lemma_waiting_total_remove(s.drop_last(), i);
        assert(s.remove(i).drop_last() =~= s.drop_last().remove(i));
    }
}

/// Each key has at most one queue.
pub open spec fn keys_distinct(s: Seq<(String, Vec<u64>)>) -> bool {
    forall|i: int, j: int| 0 <= i < j < s.len() ==> (#[trigger] s[i]).0@ != (#[trigger] s[j]).0@
}

/// The position of key `k`'s queue.
pub open spec fn queue_position(s: Seq<(String, Vec<u64>)>, k: Seq<char>) -> Option<int> {
    if exists|i: int| 0 <= i < s.len() && (#[trigger] s[i]).0@ == k {
        Some(choose|i: int| 0 <= i < s.len() && (#[trigger] s[i]).0@ == k)
    } else {
        None
    }
}

/// The tickets waiting on key `k`, first in line first.
pub open spec fn queue_of(s: Seq<(String, Vec<u64>)>, k: Seq<char>) -> Seq<u64> {
    match queue_position(s, k) {
        Some(i) => s[i].1@,
        None => Seq::empty(),
    }
}

proof fn lemma_queue_position(s: Seq<(String, Vec<u64>)>, k: Seq<char>, i: int)
    requires
        keys_distinct(s),
        0 <= i < s.len(),
        s[i].0@ == k,
    ensures
        queue_position(s, k) == Some(i),
        queue_of(s, k) == s[i].1@,
{
    let j = choose|j: int| 0 <= j < s.len() && (#[trigger] s[j]).0@ == k;
    if j < i {
        assert(s[j].0@ != s[i].0@);
    } else if i < j {
        assert(s[i].0@ != s[j].0@);
    }
}

proof fn lemma_queue_absent(s: Seq<(String, Vec<u64>)>, k: Seq<char>)
    requires
        forall|i: int| 0 <= i < s.len() ==> (#[trigger] s[i]).0@ != k,
    ensures
        queue_of(s, k) == Seq::<u64>::empty(),
{
}

fn find_queue(queues: &Vec<(String, Vec<u64>)>, key: &str) -> (r: Option<usize>)
    ensures
        match r {
            Some(i) => i < queues@.len() && queues@[i as int].0@ == key@,
            None => forall|i: int| 0 <= i < queues@.len() ==> (#[trigger] queues@[i]).0@ != key@,
        },
{
    let mut i: usize = 0;
    while i < queues.len()
        invariant
            i <= queues@.len(),
            forall|j: int| 0 <= j < i ==> (#[trigger] queues@[j]).0@ != key@,
        decreases queues@.len() - i,
    {
        if crate::text::str_equal(queues[i].0.as_str(), key) {
            return Some(i);
        }
        i = i + 1;
    }
    None
}

/// The first position of ticket `id` in a queue.
pub open spec fn ticket_position(q: Seq<u64>, id: u64) -> Option<int> {
    if exists|a: int| 0 <= a < q.len() && q[a] == id {
        Some(choose|a: int| 0 <= a < q.len() && q[a] == id && forall|b: int| 0 <= b < a ==> q[b] != id)
    } else {
        None
    }
}

proof fn lemma_ticket_position(q: Seq<u64>, id: u64, a: int)
    requires
        0 <= a < q.len(),
        q[a] == id,
    ensures
        exists|c: int| 0 <= c < q.len() && q[c] == id && forall|b: int| 0 <= b < c ==> q[b] != id,
    decreases a,
{
    if exists|b: int| 0 <= b < a && q[b] == id {
        let b = choose|b: int| 0 <= b < a && q[b] == id;
        lemma_ticket_position(q, id, b);
    } else {
        assert(forall|b: int| 0 <= b < a ==> q[b] != id);
    }
}

/// A ticket released right after it was issued leaves its key's queue as it
/// was: a fresh ticket waits at the back, and that is the position release
/// removes.
pub proof fn lemma_release_undoes_enqueue(queue: Seq<u64>, id: u64)
    requires
        !queue.contains(id),
    ensures
        ticket_position(queue.push(id), id) == Some(queue.len() as int),
        queue.push(id).remove(queue.len() as int) == queue,
{
    let q = queue.push(id);
    let n = queue.len() as int;
    assert(q[n] == id);
    assert forall|b: int| 0 <= b < n implies q[b] != id by {
        assert(q[b] == queue[b]);
    }
    let c = choose|a: int| 0 <= a < q.len() && q[a] == id && forall|b: int| 0 <= b < a ==> q[b] != id;
    if c < n {
        assert(queue[c] == id);
        assert(queue.contains(id));
    }
    assert(q.remove(n) =~= queue);
}

/// The queues agree on every key.
pub open spec fn same_queues(a: Seq<(String, Vec<u64>)>, b: Seq<(String, Vec<u64>)>) -> bool {
    forall|k: Seq<char>| #[trigger] queue_of(a, k) == queue_of(b, k)
}

/// One waiting position: the key it waits on and its ticket.
#[derive(Debug, Clone, PartialEq, Eq)]
pub struct WaitTicket {
    key: String,
    id: u64,
}

impl WaitTicket {
    pub closed spec fn spec_key(&self) -> Seq<char> {
        self.key@
    }

    pub closed spec fn spec_id(&self) -> u64 {
        self.id
    }

    pub fn key(&self) -> (r: &str)
        ensures
            r@ == self.spec_key(),
    {
        self.key.as_str()
    }

    pub fn id(&self) -> (r: u64)
        ensures
            r == self.spec_id(),
    {
        self.id
    }
}

/// The waiting positions of all keys: only tickets, never request bodies or
/// the running counts, which the admission and lease ports own.
pub struct WaitQueues {
    queues: Vec<(String, Vec<u64>)>,
    total: usize,
    next_id: u64,
}

impl WaitQueues {
    /// One non-empty queue per key, the total is the number of waiters and
    /// within its bound, and every ticket is issued and waits once.
    #[verifier::type_invariant]
    spec fn well_formed(&self) -> bool {
        &&& keys_distinct(self.queues@)
        &&& forall|i: int| 0 <= i < self.queues@.len() ==> (#[trigger] self.queues@[i]).1@.len() > 0
        &&& self.total == waiting_total(self.queues@)
        &&& self.total <= MAX_TOTAL_WAITING
        &&& forall|i: int, a: int| 0 <= i < self.queues@.len() && 0 <= a < self.queues@[i].1@.len() ==> #[trigger] self.queues@[i].1@[a] < self.next_id
    }

    /// The tickets waiting on `key`, first in line first.
    pub closed spec fn spec_queue(&self, key: Seq<char>) -> Seq<u64> {
        queue_of(self.queues@, key)
    }

    pub closed spec fn spec_total(&self) -> usize {
        self.total
    }

    pub closed spec fn spec_next_id(&self) -> u64 {
        self.next_id
    }

    /// No one waits.
    pub fn new() -> (r: WaitQueues)
        ensures
            forall|k: Seq<char>| r.spec_queue(k).len() == 0,
            r.spec_total() == 0,
            r.spec_next_id() == 0,
    {
        let r = WaitQueues { queues: Vec::new(), total: 0, next_id: 0 };
        r
    }

    /// How many wait on all keys together; never more than 1024.
    pub fn waiting(&self) -> (r: usize)
        ensures
            r == self.spec_total(),
            r <= MAX_TOTAL_WAITING,
    {
        proof {
            use_type_invariant(self);
        }
        self.total
    }

    /// How many tickets were ever issued.
    pub fn tickets_issued(&self) -> (r: u64)
        ensures
            r == self.spec_next_id(),
    {
        self.next_id
    }

    /// Whether anyone waits on `key`.
    pub fn has_waiters(&self, key: &str) -> (r: bool)
        ensures
            r == (self.spec_queue(key@).len() > 0),
    {
        proof {
            use_type_invariant(self);
        }
        match find_queue(&self.queues, key) {
            Some(i) => {
                proof {
                    lemma_queue_position(self.queues@, key@, i as int);
                }
                self.queues[i].1.len() > 0
            },
            None => false,
        }
    }

    /// Whether `ticket` is first in line on its key.
    pub fn is_turn(&self, ticket: &WaitTicket) -> (r: bool)
        ensures
            r == (self.spec_queue(ticket.spec_key()).len() > 0 && self.spec_queue(ticket.spec_key())[0] == ticket.spec_id()),
    {
        proof {
            use_type_invariant(self);
        }
        match find_queue(&self.queues, ticket.key.as_str()) {
            Some(i) => {
                proof {
                    lemma_queue_position(self.queues@, ticket.key@, i as int);
                }
                self.queues[i].1.len() > 0 && self.queues[i].1[0] == ticket.id
            },
            None => false,
        }
    }

    /// The queue lengths of `keys`, in their order.
    pub open spec fn spec_lengths(&self, keys: Seq<String>) -> Seq<usize> {
        Seq::new(keys.len(), |i: int| self.spec_queue(keys[i]@).len() as usize)
    }

    /// Takes a waiting position on one of `keys`: the first key, in the
    /// given order, with room and the shortest queue among those with room.
    /// A request past its deadline times out; when all queues together hold
    /// 1024 waiters, or no key's queue has room, the queue is full. A new
    /// ticket waits at the back of its key's queue.
    pub fn enqueue(&mut self, keys: &[String], max_waiting: u32, deadline_reached: bool) -> (r: Result<
        WaitTicket,
        QueueRejection,
    >)
        requires
            old(self).spec_next_id() < u64::MAX,
        ensures
            deadline_reached ==> r == Err::<WaitTicket, QueueRejection>(QueueRejection::Timeout),
            !deadline_reached && old(self).spec_total() >= MAX_TOTAL_WAITING ==> r == Err::<WaitTicket, QueueRejection>(
                QueueRejection::Full,
            ),
            !deadline_reached && old(self).spec_total() < MAX_TOTAL_WAITING ==> match r {
                Ok(t) => exists|i: int| #[trigger] is_enqueue_target(old(self).spec_lengths(keys@), max_waiting, i)
                    && t.spec_key() == keys@[i]@,
                Err(e) => e == QueueRejection::Full && forall|j: int| 0 <= j < keys@.len() ==> !#[trigger] queue_has_room(
                    old(self).spec_lengths(keys@),
                    max_waiting,
                    j,
                ),
            },
            r matches Ok(t) ==> t.spec_id() == old(self).spec_next_id()
                && final(self).spec_next_id() == old(self).spec_next_id() + 1
                && final(self).spec_total() == old(self).spec_total() + 1
                && final(self).spec_queue(t.spec_key()) == old(self).spec_queue(t.spec_key()).push(t.spec_id())
                && (forall|k: Seq<char>| k != t.spec_key() ==> #[trigger] final(self).spec_queue(k) == old(self).spec_queue(k))
                && (forall|k: Seq<char>| !(#[trigger] old(self).spec_queue(k)).contains(t.spec_id())),
            r is Err ==> final(self).spec_total() == old(self).spec_total() && final(self).spec_next_id()
                == old(self).spec_next_id() && forall|k: Seq<char>| #[trigger] final(self).spec_queue(k) == old(self).spec_queue(k),
    {
        proof {
            use_type_invariant(&*self);
        }
        if deadline_reached {
            return Err(QueueRejection::Timeout);
        }
        if self.total >= MAX_TOTAL_WAITING {
            return Err(QueueRejection::Full);
        }
        let mut lengths: Vec<usize> = Vec::new();
        let mut j: usize = 0;
        while j < keys.len()
            invariant
                j <= keys@.len(),
                lengths@.len() == j,
                forall|x: int| 0 <= x < j ==> #[trigger] lengths@[x] == self.spec_lengths(keys@)[x],
            decreases keys@.len() - j,
        {
            let len = match find_queue(&self.queues, keys[j].as_str()) {
                Some(p) => {
                    proof {
                        use_type_invariant(&*self);
                        lemma_queue_position(self.queues@, keys@[j as int]@, p as int);
                        lemma_waiting_total_le(self.queues@, p as int);
                    }
                    self.queues[p].1.len()
                },
                None => 0,
            };
            lengths.push(len);
            j = j + 1;
        }
        assert(lengths@ =~= self.spec_lengths(keys@));
        let i = match enqueue_target(&lengths, max_waiting, self.total, false) {
            Ok(i) => i,
            Err(e) => {
                return Err(e);
            },
        };
        let key = keys[i].clone();
        let id = self.next_id;
        let mut taken = WaitQueues::new();
        std::mem::swap(self, &mut taken);
        proof {
            use_type_invariant(&taken);
        }
        let WaitQueues { queues, total, next_id } = taken;
        let mut queues = queues;
        let ghost s = queues@;
        match find_queue(&queues, key.as_str()) {
            Some(p) => {
                let (k, mut q) = queues.remove(p);
                let ghost e_old = (k, q);
                q.push(id);
                queues.insert(p, (k, q));
                proof {
                    let e = queues@[p as int];
                    assert(queues@ =~= s.update(p as int, e));
                    lemma_waiting_total_update(s, p as int, e);
                    lemma_queue_position(s, key@, p as int);
                    lemma_queue_position(queues@, key@, p as int);
                    assert forall|kk: Seq<char>| kk != key@ implies #[trigger] queue_of(queues@, kk) == queue_of(s, kk) by {
                        if exists|x: int| 0 <= x < s.len() && (#[trigger] s[x]).0@ == kk {
                            let x = choose|x: int| 0 <= x < s.len() && (#[trigger] s[x]).0@ == kk;
                            lemma_queue_position(s, kk, x);
                            lemma_queue_position(queues@, kk, x);
                        } else {
                            lemma_queue_absent(queues@, kk);
                        }
                    }
                    assert forall|kk: Seq<char>| !(#[trigger] queue_of(s, kk)).contains(id) by {
                        if exists|x: int| 0 <= x < s.len() && (#[trigger] s[x]).0@ == kk {
                            let x = choose|x: int| 0 <= x < s.len() && (#[trigger] s[x]).0@ == kk;
                            lemma_queue_position(s, kk, x);
                            assert forall|a: int| 0 <= a < s[x].1@.len() implies s[x].1@[a] != id by {
                                assert(s[x].1@[a] < next_id);
                            }
                        }
                    }
                }
            },
            None => {
                let mut q: Vec<u64> = Vec::new();
                q.push(id);
                let k = key.clone();
                queues.push((k, q));
                proof {
                    let e = queues@[s.len() as int];
                    assert(queues@ =~= s.push(e));
                    lemma_waiting_total_push(s, e);
                    lemma_queue_absent(s, key@);
                    lemma_queue_position(queues@, key@, s.len() as int);
                    assert forall|kk: Seq<char>| kk != key@ implies #[trigger] queue_of(queues@, kk) == queue_of(s, kk) by {
                        if exists|x: int| 0 <= x < s.len() && (#[trigger] s[x]).0@ == kk {
                            let x = choose|x: int| 0 <= x < s.len() && (#[trigger] s[x]).0@ == kk;
                            lemma_queue_position(s, kk, x);
                            lemma_queue_position(queues@, kk, x);
                        } else {
                            lemma_queue_absent(queues@, kk);
                        }
                    }
                    assert forall|kk: Seq<char>| !(#[trigger] queue_of(s, kk)).contains(id) by {
                        if exists|x: int| 0 <= x < s.len() && (#[trigger] s[x]).0@ == kk {
                            let x = choose|x: int| 0 <= x < s.len() && (#[trigger] s[x]).0@ == kk;
                            lemma_queue_position(s, kk, x);
                            assert forall|a: int| 0 <= a < s[x].1@.len() implies s[x].1@[a] != id by {
                                assert(s[x].1@[a] < next_id);
                            }
                        }
                    }
                }
            },
        }
        *self = WaitQueues { queues, total: total + 1, next_id: next_id + 1 };
        Ok(WaitTicket { key, id })
    }

    /// Gives up a waiting position, whether or not it reached the front.
    /// When the first in line leaves, the new first is returned to be woken.
    pub fn release(&mut self, ticket: &WaitTicket) -> (r: Option<u64>)
        ensures
            final(self).spec_next_id() == old(self).spec_next_id(),
            match ticket_position(old(self).spec_queue(ticket.spec_key()), ticket.spec_id()) {
                Some(a) => {
                    let q = old(self).spec_queue(ticket.spec_key());
                    &&& final(self).spec_queue(ticket.spec_key()) == q.remove(a)
                    &&& forall|k: Seq<char>| k != ticket.spec_key() ==> #[trigger] final(self).spec_queue(k)
                        == old(self).spec_queue(k)
                    &&& final(self).spec_total() == old(self).spec_total() - 1
                    &&& r == (if a == 0 && q.len() > 1 { Some(q[1]) } else { None::<u64> })
                },
                None => {
                    &&& forall|k: Seq<char>| #[trigger] final(self).spec_queue(k) == old(self).spec_queue(k)
                    &&& final(self).spec_total() == old(self).spec_total()
                    &&& r is None
                },
            },
    {
        proof {
            use_type_invariant(&*self);
        }
        let p = match find_queue(&self.queues, ticket.key.as_str()) {
            Some(p) => p,
            None => {
                proof {
                    lemma_queue_absent(self.queues@, ticket.key@);
                }
                return None;
            },
        };
        proof {
            lemma_queue_position(self.queues@, ticket.key@, p as int);
        }
        let mut a: usize = 0;
        let n = self.queues[p].1.len();
        while a < n && self.queues[p].1[a] != ticket.id
            invariant
                a <= n,
                p < self.queues@.len(),
                n == self.queues@[p as int].1@.len(),
                forall|b: int| 0 <= b < a ==> self.queues@[p as int].1@[b] != ticket.id,
            decreases n - a,
        {
            a = a + 1;
        }
        if a == n {
            proof {
                let q = self.queues@[p as int].1@;
                assert(!exists|x: int| 0 <= x < q.len() && q[x] == ticket.id);
            }
            return None;
        }
        let mut taken = WaitQueues::new();
        std::mem::swap(self, &mut taken);
        proof {
            use_type_invariant(&taken);
        }
        let WaitQueues { queues, total, next_id } = taken;
        let mut queues = queues;
        let ghost s = queues@;
        let ghost q0 = s[p as int].1@;
        proof {
            lemma_ticket_position(q0, ticket.id, a as int);
            let c = choose|c: int| 0 <= c < q0.len() && q0[c] == ticket.id && forall|b: int| 0 <= b < c ==> q0[b] != ticket.id;
            assert(c == a) by {
                if c < a {
                } else if c > a {
                }
            }
            lemma_waiting_total_le(s, p as int);
        }
        let (k, mut q) = queues.remove(p);
        let _gone = q.remove(a);
        let next = if a == 0 && q.len() > 0 {
            Some(q[0])
        } else {
            None
        };
        if q.len() == 0 {
            proof {
                assert(queues@ =~= s.remove(p as int));
                lemma_waiting_total_remove(s, p as int);
                assert forall|kk: Seq<char>| kk != ticket.key@ implies #[trigger] queue_of(queues@, kk) == queue_of(s, kk) by {
                    if exists|x: int| 0 <= x < s.len() && (#[trigger] s[x]).0@ == kk {
                        let x = choose|x: int| 0 <= x < s.len() && (#[trigger] s[x]).0@ == kk;
                        lemma_queue_position(s, kk, x);
                        if x < p {
                            lemma_queue_position(queues@, kk, x);
                        } else {
                            assert(queues@[x - 1] == s[x]);
                            lemma_queue_position(queues@, kk, x - 1);
                        }
                    } else {
                        lemma_queue_absent(queues@, kk);
                    }
                }
                lemma_queue_absent(queues@, ticket.key@);
                assert(q0.remove(a as int) =~= Seq::<u64>::empty());
            }
        } else {
            queues.insert(p, (k, q));
            proof {
                let e = queues@[p as int];
                assert(queues@ =~= s.update(p as int, e));
                lemma_waiting_total_update(s, p as int, e);
                lemma_queue_position(queues@, ticket.key@, p as int);
                assert(e.1@ =~= q0.remove(a as int));
                assert forall|kk: Seq<char>| kk != ticket.key@ implies #[trigger] queue_of(queues@, kk) == queue_of(s, kk) by {
                    if exists|x: int| 0 <= x < s.len() && (#[trigger] s[x]).0@ == kk {
                        let x = choose|x: int| 0 <= x < s.len() && (#[trigger] s[x]).0@ == kk;
                        lemma_queue_position(s, kk, x);
                        lemma_queue_position(queues@, kk, x);
                    } else {
                        lemma_queue_absent(queues@, kk);
                    }
                }
            }
        }
        *self = WaitQueues { queues, total: total - 1, next_id };
        next
    }
}

proof fn lemma_waiting_total_le(s: Seq<(String, Vec<u64>)>, i: int)
    requires
        0 <= i < s.len(),
    ensures
        s[i].1@.len() <= waiting_total(s),
    decreases s.len(),
{
    lemma_waiting_total_nonnegative(s.drop_last());
    if i < s.len() - 1 {
        lemma_waiting_total_le(s.drop_last(), i);
    }
}

proof fn lemma_waiting_total_nonnegative(s: Seq<(String, Vec<u64>)>)
    ensures
        waiting_total(s) >= 0,
    decreases s.len(),
{
    if s.len() > 0 {
        lemma_waiting_total_nonnegative(s.drop_last());
    }
}

} // verus!
