//! The dispatch bus: decoded messages wait in a queue per kind until the
//! owner of the application state drains them, which yields the handler
//! calls to make, in order.
use std::rc::Rc;
use vstd::prelude::*;
use crate::error::ProtocolError;
use crate::message::{kind_of, Message, MessageKind, MessageValue};

verus! {

/// One handler call: the subscriber's handle and the message it receives.
pub type Call = (usize, Rc<Message>);

/// The calls owed to one message: one per subscriber, in subscription order.
pub open spec fn entry_calls(subs: Seq<usize>, e: MessageValue) -> Seq<(usize, MessageValue)> {
    subs.map_values(|h: usize| (h, e))
}

/// The calls owed to a queue of messages of one kind, oldest message first.
pub open spec fn queue_calls(subs: Seq<usize>, entries: Seq<MessageValue>) -> Seq<
    (usize, MessageValue),
>
    decreases entries.len(),
{
    if entries.len() == 0 {
        seq![]
    } else {
        queue_calls(subs, entries.drop_last()) + entry_calls(subs, entries.last())
    }
}

/// The calls owed to all queues, kind by kind in registration order.
pub open spec fn drain_calls(subs: Seq<Seq<usize>>, pending: Seq<Seq<MessageValue>>) -> Seq<
    (usize, MessageValue),
>
    decreases pending.len(),
{
    if pending.len() == 0 || subs.len() == 0 {
        seq![]
    } else {
        drain_calls(subs.drop_last(), pending.drop_last()) + queue_calls(subs.last(), pending.last())
    }
}

pub open spec fn calls_view(calls: Seq<Call>) -> Seq<(usize, MessageValue)> {
    calls.map_values(|c: Call| (c.0, c.1@))
}

pub open spec fn queue_view(q: Seq<Rc<Message>>) -> Seq<MessageValue> {
    q.map_values(|m: Rc<Message>| m@)
}

/// With messages waiting under one kind only, draining yields exactly the
/// calls owed to that kind's queue.
pub proof fn lemma_drain_one_queue(subs: Seq<Seq<usize>>, pending: Seq<Seq<MessageValue>>, k: int)
    requires
        subs.len() == pending.len(),
        0 <= k < pending.len(),
        forall|i: int| 0 <= i < pending.len() && i != k ==> #[trigger] pending[i].len() == 0,
    ensures
        drain_calls(subs, pending) == queue_calls(subs[k], pending[k]),
    decreases pending.len(),
{
    let (s0, p0) = (subs.drop_last(), pending.drop_last());
    if k == pending.len() - 1 {
        lemma_drain_nothing_waiting(s0, p0);
        assert(drain_calls(subs, pending) =~= queue_calls(subs[k], pending[k]));
    } else {
        lemma_drain_one_queue(s0, p0, k);
        assert(pending.last().len() == 0);
        assert(queue_calls(subs.last(), pending.last()) =~= seq![]);
        assert(drain_calls(subs, pending) =~= queue_calls(subs[k], pending[k]));
    }
}

/// With no message waiting, draining yields no call.
pub proof fn lemma_drain_nothing_waiting(subs: Seq<Seq<usize>>, pending: Seq<Seq<MessageValue>>)
    requires
        forall|i: int| 0 <= i < pending.len() ==> #[trigger] pending[i].len() == 0,
    ensures
        drain_calls(subs, pending) == Seq::<(usize, MessageValue)>::empty(),
    decreases pending.len(),
{
    if pending.len() > 0 && subs.len() > 0 {
        lemma_drain_nothing_waiting(subs.drop_last(), pending.drop_last());
        assert(pending.last().len() == 0);
        assert(drain_calls(subs, pending) =~= Seq::<(usize, MessageValue)>::empty());
    }
}

/// Two subscribers `h1`, `h2` of a kind, in that order, and two messages
/// `a`, `b` of it queued in that order before one drain: the calls are
/// `h1(a)`, `h2(a)`, `h1(b)`, `h2(b)`.
pub proof fn lemma_dispatch_order(
    subs: Seq<Seq<usize>>,
    pending: Seq<Seq<MessageValue>>,
    k: int,
    h1: usize,
    h2: usize,
    a: MessageValue,
    b: MessageValue,
)
    requires
        subs.len() == pending.len(),
        0 <= k < pending.len(),
        subs[k] == seq![h1, h2],
        pending[k] == seq![a, b],
        forall|i: int| 0 <= i < pending.len() && i != k ==> #[trigger] pending[i].len() == 0,
    ensures
        drain_calls(subs, pending) == seq![(h1, a), (h2, a), (h1, b), (h2, b)],
{
    lemma_drain_one_queue(subs, pending, k);
    let q = seq![a, b];
    assert(q.drop_last() =~= seq![a]);
    assert(q.drop_last().drop_last() =~= Seq::<MessageValue>::empty());
    assert(entry_calls(seq![h1, h2], a) =~= seq![(h1, a), (h2, a)]);
    assert(entry_calls(seq![h1, h2], b) =~= seq![(h1, b), (h2, b)]);
    assert(seq![a].drop_last() =~= Seq::<MessageValue>::empty());
    assert(seq![a].last() == a);
    assert(queue_calls(seq![h1, h2], Seq::<MessageValue>::empty()) =~= seq![]);
    assert(queue_calls(seq![h1, h2], seq![a]) =~= seq![(h1, a), (h2, a)]);
    assert(queue_calls(seq![h1, h2], q) =~= seq![(h1, a), (h2, a), (h1, b), (h2, b)]);
}

/// Per registered kind, the messages waiting and the handles of the
/// subscribers, who are called back when the bus is drained.
pub struct Dispatcher {
    kinds: Vec<MessageKind>,
    pending: Vec<Vec<Rc<Message>>>,
    subscribers: Vec<Vec<usize>>,
}

impl Dispatcher {
    /// The kinds the bus knows, in registration order.
    pub closed spec fn kinds(&self) -> Seq<MessageKind> {
        self.kinds@
    }

    /// Per kind, the messages waiting, oldest first.
    pub closed spec fn pending(&self) -> Seq<Seq<MessageValue>> {
        self.pending@.map_values(|q: Vec<Rc<Message>>| queue_view(q@))
    }

    /// Per kind, the subscriber handles in subscription order.
    pub closed spec fn subscribers(&self) -> Seq<Seq<usize>> {
        self.subscribers@.map_values(|s: Vec<usize>| s@)
    }

    pub closed spec fn wf(&self) -> bool {
        &&& self.pending@.len() == self.kinds@.len()
        &&& self.subscribers@.len() == self.kinds@.len()
        &&& self.kinds@.no_duplicates()
    }

    pub fn new() -> (d: Self)
        ensures
            d.wf(),
            d.kinds() == Seq::<MessageKind>::empty(),
            d.pending() == Seq::<Seq<MessageValue>>::empty(),
            d.subscribers() == Seq::<Seq<usize>>::empty(),
    {
        let d = Self { kinds: Vec::new(), pending: Vec::new(), subscribers: Vec::new() };
        assert(d.pending() =~= Seq::<Seq<MessageValue>>::empty());
        assert(d.subscribers() =~= Seq::<Seq<usize>>::empty());
        d
    }

    /// Where `kind` stands among the registered kinds.
    pub fn slot(&self, kind: MessageKind) -> (r: Option<usize>)
        requires
            self.wf(),
        ensures
            match r {
                Some(i) => i < self.kinds().len() && self.kinds()[i as int] == kind,
                None => !self.kinds().contains(kind),
            },
    {
        let mut i: usize = 0;
        while i < self.kinds.len()
            invariant
                i <= self.kinds@.len(),
                forall|j: int| 0 <= j < i ==> self.kinds@[j] != kind,
            decreases self.kinds@.len() - i,
        {
            if self.kinds[i] == kind {
                return Some(i);
            }
            i = i + 1;
        }
        None
    }

    /// Makes room for messages of `kind`; a kind registered before is left
    /// as it is.
    pub fn register(&mut self, kind: MessageKind)
        requires
            old(self).wf(),
        ensures
            final(self).wf(),
            old(self).kinds().contains(kind) ==> *final(self) == *old(self),
            !old(self).kinds().contains(kind) ==> {
                &&& final(self).kinds() == old(self).kinds().push(kind)
                &&& final(self).pending() == old(self).pending().push(Seq::empty())
                &&& final(self).subscribers() == old(self).subscribers().push(Seq::empty())
            },
    {
        match self.slot(kind) {
            Some(_) => {},
            None => {
                self.kinds.push(kind);
                self.pending.push(Vec::new());
                self.subscribers.push(Vec::new());
                assert(queue_view(self.pending@.last()@) =~= Seq::<MessageValue>::empty());
                assert(self.pending() =~= old(self).pending().push(Seq::empty()));
                assert(self.subscribers() =~= old(self).subscribers().push(Seq::empty()));
            },
        }
    }

    /// Adds `handler` at the end of the subscribers of `kind`.
    pub fn subscribe(&mut self, kind: MessageKind, handler: usize) -> (r: Result<(), ProtocolError>)
        requires
            old(self).wf(),
        ensures
            final(self).wf(),
            final(self).kinds() == old(self).kinds(),
            final(self).pending() == old(self).pending(),
            r is Ok <==> old(self).kinds().contains(kind),
            r is Err ==> r == Err::<(), _>(ProtocolError::Unregistered) && *final(self) == *old(self),
            forall|i: int|
                0 <= i < old(self).kinds().len() ==> #[trigger] final(self).subscribers()[i] == if old(
                    self,
                ).kinds()[i] == kind {
                    old(self).subscribers()[i].push(handler)
                } else {
                    old(self).subscribers()[i]
                },
            final(self).subscribers().len() == old(self).subscribers().len(),
    {
        match self.slot(kind) {
            Some(i) => {
                self.subscribers[i].push(handler);
                assert forall|j: int| 0 <= j < old(self).kinds().len() && j != i implies old(
                    self,
                ).kinds()[j] != kind by {
                    assert(old(self).kinds@.no_duplicates());
                }
                Ok(())
            },
            None => Err(ProtocolError::Unregistered),
        }
    }

    /// Appends a decoded message to the queue of its kind.
    pub fn enqueue(&mut self, msg: Rc<Message>) -> (r: Result<(), ProtocolError>)
        requires
            old(self).wf(),
        ensures
            final(self).wf(),
            final(self).kinds() == old(self).kinds(),
            final(self).subscribers() == old(self).subscribers(),
            r is Ok <==> old(self).kinds().contains(kind_of(msg@)),
            r is Err ==> r == Err::<(), _>(ProtocolError::Unregistered) && *final(self) == *old(self),
            forall|i: int|
                0 <= i < old(self).kinds().len() ==> #[trigger] final(self).pending()[i] == if old(
                    self,
                ).kinds()[i] == kind_of(msg@) {
                    old(self).pending()[i].push(msg@)
                } else {
                    old(self).pending()[i]
                },
            final(self).pending().len() == old(self).pending().len(),
    {
        let kind = msg.kind();
        match self.slot(kind) {
            Some(i) => {
                let ghost q = self.pending@[i as int]@;
                self.pending[i].push(msg);
                assert(queue_view(self.pending@[i as int]@) =~= queue_view(q).push(msg@));
                assert forall|j: int| 0 <= j < old(self).kinds().len() && j != i implies old(
                    self,
                ).kinds()[j] != kind by {
                    assert(old(self).kinds@.no_duplicates());
                }
                Ok(())
            },
            None => Err(ProtocolError::Unregistered),
        }
    }

    /// Empties every queue and returns the handler calls owed: kind by kind
    /// in registration order, within a kind message by message in arrival
    /// order, and for each message every subscriber in subscription order.
    pub fn drain(&mut self) -> (calls: Vec<Call>)
        requires
            old(self).wf(),
        ensures
            final(self).wf(),
            final(self).kinds() == old(self).kinds(),
            final(self).subscribers() == old(self).subscribers(),
            final(self).pending().len() == old(self).pending().len(),
            forall|i: int|
                0 <= i < final(self).pending().len() ==> #[trigger] final(self).pending()[i]
                    == Seq::<MessageValue>::empty(),
            calls_view(calls@) == drain_calls(old(self).subscribers(), old(self).pending()),
    {
        let mut calls: Vec<Call> = Vec::new();
        let n = self.kinds.len();
        let mut k: usize = 0;
        while k < n
            invariant
                self.wf(),
                *self == *old(self),
                n == self.kinds@.len(),
                k <= n,
                calls_view(calls@) == drain_calls(
                    self.subscribers().take(k as int),
                    self.pending().take(k as int),
                ),
            decreases n - k,
        {
            let ghost subs = self.subscribers()[k as int];
            let ghost queue = self.pending()[k as int];
            let ghost before = calls_view(calls@);
            let m = self.pending[k].len();
            let mut i: usize = 0;
            assert(queue.take(0) =~= Seq::<MessageValue>::empty());
            assert(before + queue_calls(subs, queue.take(0)) =~= before);
            while i < m
                invariant
                    self.wf(),
                    *self == *old(self),
                    n == self.kinds@.len(),
                    k < n,
                    m == self.pending@[k as int]@.len(),
                    m == queue.len(),
                    i <= m,
                    subs == self.subscribers()[k as int],
                    queue == self.pending()[k as int],
                    calls_view(calls@) == before + queue_calls(subs, queue.take(i as int)),
                decreases m - i,
            {
                let entry = &self.pending[k][i];
                let h = self.subscribers[k].len();
                let ghost mid = calls_view(calls@);
                let mut j: usize = 0;
                assert(subs.take(0) =~= Seq::<usize>::empty());
                assert(mid + entry_calls(subs.take(0), queue[i as int]) =~= mid);
                while j < h
                    invariant
                        self.wf(),
                        *self == *old(self),
                        n == self.kinds@.len(),
                        k < n,
                        i < m,
                        m == queue.len(),
                        h == subs.len(),
                        h == self.subscribers@[k as int]@.len(),
                        subs == self.subscribers@[k as int]@,
                        j <= h,
                        subs == self.subscribers()[k as int],
                        queue == self.pending()[k as int],
                        entry@ == queue[i as int],
                        calls_view(calls@) == mid + entry_calls(subs.take(j as int), queue[i as int]),
                    decreases h - j,
                {
                    let r = Rc::clone(entry);
                    assert(r@ == entry@);
                    let c: Call = (self.subscribers[k][j], r);
                    let ghost prev = calls@;
                    calls.push(c);
                    assert(subs.take(j + 1) =~= subs.take(j as int).push(subs[j as int]));
                    assert(calls_view(calls@) =~= calls_view(prev).push((subs[j as int], queue[i as int])));
                    assert(entry_calls(subs.take(j + 1), queue[i as int]) =~= entry_calls(
                        subs.take(j as int),
                        queue[i as int],
                    ).push((subs[j as int], queue[i as int])));
                    assert(calls_view(calls@) =~= mid + entry_calls(subs.take(j + 1), queue[i as int]));
                    j = j + 1;
                }
                assert(subs.take(h as int) =~= subs);
                assert(queue.take(i + 1).drop_last() =~= queue.take(i as int));
                assert(queue_calls(subs, queue.take(i + 1)) == queue_calls(subs, queue.take(i as int))
                    + entry_calls(subs, queue[i as int]));
                i = i + 1;
            }
            assert(queue.take(m as int) =~= queue);
            assert(self.subscribers().take(k + 1).drop_last() =~= self.subscribers().take(k as int));
            assert(self.pending().take(k + 1).drop_last() =~= self.pending().take(k as int));
            k = k + 1;
        }
        assert(self.subscribers().take(n as int) =~= self.subscribers());
        assert(self.pending().take(n as int) =~= self.pending());
        let mut k: usize = 0;
        while k < n
            invariant
                self.wf(),
                self.kinds() == old(self).kinds(),
                self.subscribers() == old(self).subscribers(),
                n == self.pending().len(),
                k <= n,
                forall|i: int| 0 <= i < k ==> #[trigger] self.pending()[i] == Seq::<MessageValue>::empty(),
            decreases n - k,
        {
            let ghost prev = self.pending();
            self.pending[k] = Vec::new();
            assert(queue_view(self.pending@[k as int]@) =~= Seq::<MessageValue>::empty());
            assert(self.pending() =~= prev.update(k as int, Seq::<MessageValue>::empty()));
            k = k + 1;
        }
        calls
    }
}

} // verus!