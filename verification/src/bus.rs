use vstd::prelude::*;

use crate::message::{Message, MsgModel};
use crate::queue::{enqueue, MsgQueue};

verus! {

/// The model of one subscription: whether the connection behind it is still
/// live, and the messages queued for it, oldest first.
#[verifier::ext_equal]
pub ghost struct SubModel {
    pub live: bool,
    pub queue: Seq<MsgModel>,
}

/// The model of the broadcast bus: the per-subscriber capacity, the full
/// publish log in publish order, and one entry per subscription ever made.
/// A subscription that was dropped stays in place, marked dead, so that a
/// subscriber's position never changes while the bus lives.
#[verifier::ext_equal]
pub ghost struct BusModel {
    pub cap: nat,
    pub log: Seq<MsgModel>,
    pub subs: Seq<SubModel>,
}

impl BusModel {
    /// The bus invariant: capacity is positive; every queue fits in the
    /// capacity; every queue holds exactly the most recent messages of the
    /// publish log, oldest first; a dead subscription holds nothing.
    pub open spec fn wf(self) -> bool {
        &&& self.cap >= 1
        &&& forall|i: int|
            0 <= i < self.subs.len() ==> (#[trigger] self.subs[i]).queue.len() <= self.cap
        &&& forall|i: int|
            0 <= i < self.subs.len() ==> (#[trigger] self.subs[i]).queue.len() <= self.log.len()
        &&& forall|i: int|
            0 <= i < self.subs.len() ==> (#[trigger] self.subs[i]).queue == self.log.subrange(
                self.log.len() - self.subs[i].queue.len(),
                self.log.len() as int,
            )
        &&& forall|i: int|
            0 <= i < self.subs.len() && !(#[trigger] self.subs[i]).live
                ==> self.subs[i].queue.len() == 0
    }

    /// Publishing appends the message to the log and queues it for every
    /// live subscriber under the drop-oldest policy; dead subscriptions are
    /// skipped, and the publisher is never blocked and never fails.
    pub open spec fn publish(self, m: MsgModel) -> BusModel {
        BusModel {
            cap: self.cap,
            log: self.log.push(m),
            subs: self.subs.map_values(
                |s: SubModel|
                    if s.live {
                        SubModel { live: true, queue: enqueue(s.queue, m, self.cap) }
                    } else {
                        s
                    },
            ),
        }
    }

    /// A new subscription starts live and empty: it will observe only
    /// messages published after this point, with no replay of history.
    pub open spec fn subscribe(self) -> BusModel {
        BusModel {
            cap: self.cap,
            log: self.log,
            subs: self.subs.push(SubModel { live: true, queue: Seq::empty() }),
        }
    }

    /// Dropping a subscription marks it dead and discards its backlog;
    /// nothing else on the bus changes.
    pub open spec fn unsubscribe(self, id: int) -> BusModel {
        BusModel {
            cap: self.cap,
            log: self.log,
            subs: self.subs.update(id, SubModel { live: false, queue: Seq::empty() }),
        }
    }

    /// What receiving next on subscription `id` returns: the oldest queued
    /// message, or nothing when the queue is empty.
    pub open spec fn recv_result(self, id: int) -> Option<MsgModel> {
        if self.subs[id].queue.len() == 0 {
            None
        } else {
            Some(self.subs[id].queue[0])
        }
    }

    /// The bus after receiving next on subscription `id`.
    pub open spec fn recv(self, id: int) -> BusModel {
        if self.subs[id].queue.len() == 0 {
            self
        } else {
            BusModel {
                cap: self.cap,
                log: self.log,
                subs: self.subs.update(
                    id,
                    SubModel {
                        live: self.subs[id].live,
                        queue: self.subs[id].queue.drop_first(),
                    },
                ),
            }
        }
    }
}

/// Queuing one more message onto a queue that holds the most recent stretch
/// of the log keeps it the most recent stretch of the grown log.
proof fn lemma_enqueue_keeps_suffix(log: Seq<MsgModel>, q: Seq<MsgModel>, m: MsgModel, cap: nat)
    requires
        cap >= 1,
        q.len() <= cap,
        q.len() <= log.len(),
        q == log.subrange(log.len() - q.len(), log.len() as int),
    ensures
        enqueue(q, m, cap).len() <= cap,
        enqueue(q, m, cap).len() <= log.push(m).len(),
        enqueue(q, m, cap) == log.push(m).subrange(
            log.push(m).len() - enqueue(q, m, cap).len(),
            log.push(m).len() as int,
        ),
{
    let e = enqueue(q, m, cap);
    let grown = log.push(m);
    let l = log.len() as int;
    let start = grown.len() - e.len();
    let target = grown.subrange(start, grown.len() as int);
    assert forall|j: int| 0 <= j < e.len() implies e[j] == target[j] by {
        assert(target[j] == grown[start + j]);
        if j == e.len() - 1 {
            assert(e[j] == m);
            assert(start + j == l);
            assert(grown[l] == m);
        } else {
            assert(grown[start + j] == log[start + j]);
            if q.len() >= cap {
                assert(e[j] == q.drop_first()[j]);
                assert(q.drop_first()[j] == q[j + 1]);
                assert(q[j + 1] == log.subrange(l - q.len(), l)[j + 1]);
                assert(start + j == l - q.len() + j + 1);
            } else {
                assert(e[j] == q[j]);
                assert(q[j] == log.subrange(l - q.len(), l)[j]);
                assert(start + j == l - q.len() + j);
            }
        }
    }
    assert(e =~= target);
}

/// Publishing preserves the bus invariant and reaches every live subscriber:
/// the line is recorded last in the publish log and appended to each live
/// subscriber's queue (each at most `cap` deep, dropping its oldest entry if
/// full); dead subscriptions stay untouched; no subscription appears or
/// vanishes. With the egress filter this is the fan-out law: a published
/// line is queued for all subscribers, the sender's own included, and the
/// sender's copy is discarded only at delivery.
pub proof fn lemma_publish_reaches_all(b: BusModel, m: MsgModel)
    requires
        b.wf(),
    ensures
        b.publish(m).wf(),
        b.publish(m).log == b.log.push(m),
        b.publish(m).subs.len() == b.subs.len(),
        forall|i: int|
            0 <= i < b.subs.len() ==> (#[trigger] b.publish(m).subs[i]).live == b.subs[i].live,
        forall|i: int|
            0 <= i < b.subs.len() && b.subs[i].live ==> (#[trigger] b.publish(m).subs[i]).queue
                == enqueue(b.subs[i].queue, m, b.cap),
        forall|i: int|
            0 <= i < b.subs.len() && b.subs[i].live ==> (#[trigger] b.publish(
                m,
            ).subs[i]).queue.last() == m,
        forall|i: int|
            0 <= i < b.subs.len() && !b.subs[i].live ==> #[trigger] b.publish(m).subs[i]
                == b.subs[i],
{
    let p = b.publish(m);
    assert forall|i: int| 0 <= i < p.subs.len() implies (#[trigger] p.subs[i]).queue.len() <= p.cap
        && p.subs[i].queue.len() <= p.log.len() && p.subs[i].queue == p.log.subrange(
        p.log.len() - p.subs[i].queue.len(),
        p.log.len() as int,
    ) && (!p.subs[i].live ==> p.subs[i].queue.len() == 0) by {
        if b.subs[i].live {
            lemma_enqueue_keeps_suffix(b.log, b.subs[i].queue, m, b.cap);
        } else {
            assert(b.subs[i].queue.len() == 0);
            assert(p.subs[i].queue =~= p.log.subrange(
                p.log.len() - p.subs[i].queue.len(),
                p.log.len() as int,
            ));
        }
    }
}

/// What a subscriber still holds is exactly the most recent stretch of the
/// publish log, oldest first: a slow consumer may have messages dropped, but
/// the messages it can still receive come in publish order — omitted, never
/// reordered — and unaffected subscribers hold the full recent log.
pub proof fn lemma_queue_is_log_suffix(b: BusModel, i: int)
    requires
        b.wf(),
        0 <= i < b.subs.len(),
    ensures
        b.subs[i].queue == b.log.subrange(
            b.log.len() - b.subs[i].queue.len(),
            b.log.len() as int,
        ),
        forall|j: int|
            0 <= j < b.subs[i].queue.len() ==> #[trigger] b.subs[i].queue[j] == b.log[b.log.len()
                - b.subs[i].queue.len() + j],
{
    let q = b.subs[i].queue;
    let start = b.log.len() - q.len();
    assert forall|j: int| 0 <= j < q.len() implies #[trigger] q[j] == b.log[start + j] by {
        assert(q[j] == b.log.subrange(start, b.log.len() as int)[j]);
    }
}

/// Receiving preserves the bus invariant and touches only the one
/// subscription: what it returns is the oldest undelivered message — the
/// publish-log entry standing immediately before the remaining queue — so
/// successive receives on one subscription walk the log strictly forward.
pub proof fn lemma_recv_in_order(b: BusModel, id: int)
    requires
        b.wf(),
        0 <= id < b.subs.len(),
    ensures
        b.recv(id).wf(),
        b.recv(id).log == b.log,
        b.recv(id).subs.len() == b.subs.len(),
        forall|i: int|
            0 <= i < b.subs.len() && i != id ==> #[trigger] b.recv(id).subs[i] == b.subs[i],
        b.recv_result(id) is Some ==> b.recv_result(id)->Some_0 == b.log[b.log.len()
            - b.subs[id].queue.len()],
        b.recv_result(id) is Some ==> b.recv(id).subs[id].queue == b.subs[id].queue.drop_first(),
        b.recv_result(id) is None ==> b.recv(id) == b,
{
    let a = b.recv(id);
    let q = b.subs[id].queue;
    let l = b.log.len() as int;
    if q.len() > 0 {
        assert(q[0] == b.log.subrange(l - q.len(), l)[0]);
        assert forall|k: int| 0 <= k < q.drop_first().len() implies #[trigger] q.drop_first()[k]
            == b.log.subrange(l - q.drop_first().len(), l)[k] by {
            assert(q.drop_first()[k] == q[k + 1]);
            assert(q[k + 1] == b.log.subrange(l - q.len(), l)[k + 1]);
        }
        assert(q.drop_first() =~= b.log.subrange(l - q.drop_first().len(), l));
        assert forall|i: int| 0 <= i < a.subs.len() implies (#[trigger] a.subs[i]).queue.len()
            <= a.cap && a.subs[i].queue.len() <= a.log.len() && a.subs[i].queue == a.log.subrange(
            a.log.len() - a.subs[i].queue.len(),
            a.log.len() as int,
        ) && (!a.subs[i].live ==> a.subs[i].queue.len() == 0) by {
            if i != id {
                assert(a.subs[i] == b.subs[i]);
            }
        }
    }
}

/// Relative order from one sender is kept: when two lines are published one
/// after the other, every subscriber that is live for both — and whose queue
/// can hold at least two messages — ends with the two lines adjacent and in
/// publish order at the tail of its queue. Earlier lines may have been
/// dropped for a slow subscriber; these two are never swapped.
pub proof fn lemma_publish_order_kept(b: BusModel, m1: MsgModel, m2: MsgModel, i: int)
    requires
        b.wf(),
        b.cap >= 2,
        0 <= i < b.subs.len(),
        b.subs[i].live,
    ensures
        b.publish(m1).publish(m2).wf(),
        b.publish(m1).publish(m2).subs[i].queue.len() >= 2,
        b.publish(m1).publish(m2).subs[i].queue.last() == m2,
        b.publish(m1).publish(m2).subs[i].queue[b.publish(m1).publish(m2).subs[i].queue.len()
            - 2] == m1,
{
    lemma_publish_reaches_all(b, m1);
    lemma_publish_reaches_all(b.publish(m1), m2);
    let q1 = b.publish(m1).subs[i].queue;
    let q2 = b.publish(m1).publish(m2).subs[i].queue;
    assert(q1 == enqueue(b.subs[i].queue, m1, b.cap));
    assert(q1.last() == m1);
    assert(q2 == enqueue(q1, m2, b.cap));
    if q1.len() >= b.cap {
        assert(q2[q2.len() - 2] == q1.drop_first()[q2.len() - 2]);
        assert(q1.drop_first()[q2.len() - 2] == q1[q1.len() - 1]);
    } else {
        assert(q2[q2.len() - 2] == q1[q1.len() - 1]);
    }
}

/// Subscribing preserves the bus invariant: the new subscription is live
/// and empty, and nothing already on the bus changes.
pub proof fn lemma_subscribe_preserves_wf(b: BusModel)
    requires
        b.wf(),
    ensures
        b.subscribe().wf(),
        b.subscribe().log == b.log,
        b.subscribe().subs.len() == b.subs.len() + 1,
        forall|i: int| 0 <= i < b.subs.len() ==> #[trigger] b.subscribe().subs[i] == b.subs[i],
        b.subscribe().subs[b.subs.len() as int].queue == Seq::<MsgModel>::empty(),
{
    let s = b.subscribe();
    assert forall|i: int| 0 <= i < s.subs.len() implies (#[trigger] s.subs[i]).queue.len() <= s.cap
        && s.subs[i].queue.len() <= s.log.len() && s.subs[i].queue == s.log.subrange(
        s.log.len() - s.subs[i].queue.len(),
        s.log.len() as int,
    ) && (!s.subs[i].live ==> s.subs[i].queue.len() == 0) by {
        if i < b.subs.len() {
            assert(s.subs[i] == b.subs[i]);
        } else {
            assert(s.subs[i].queue =~= s.log.subrange(
                s.log.len() - s.subs[i].queue.len(),
                s.log.len() as int,
            ));
        }
    }
}

/// A new subscription observes exactly what is published after it was made:
/// it starts empty, and after the next publish its queue holds exactly that
/// one message.
pub proof fn lemma_subscribe_then_publish(b: BusModel, m: MsgModel)
    requires
        b.wf(),
    ensures
        b.subscribe().wf(),
        b.subscribe().subs[b.subs.len() as int].queue == Seq::<MsgModel>::empty(),
        b.subscribe().publish(m).subs[b.subs.len() as int].queue == seq![m],
{
    let s = b.subscribe();
    lemma_subscribe_preserves_wf(b);
    lemma_publish_reaches_all(s, m);
    assert(s.publish(m).subs[b.subs.len() as int].queue =~= seq![m]);
}

/// Dropping a subscription preserves the bus invariant and touches nothing
/// else: the log and every other subscription stay as they were.
pub proof fn lemma_unsubscribe_preserves_wf(b: BusModel, id: int)
    requires
        b.wf(),
        0 <= id < b.subs.len(),
    ensures
        b.unsubscribe(id).wf(),
        b.unsubscribe(id).log == b.log,
        b.unsubscribe(id).subs.len() == b.subs.len(),
        forall|i: int|
            0 <= i < b.subs.len() && i != id ==> #[trigger] b.unsubscribe(id).subs[i]
                == b.subs[i],
{
    let u = b.unsubscribe(id);
    assert forall|i: int| 0 <= i < u.subs.len() implies (#[trigger] u.subs[i]).queue.len() <= u.cap
        && u.subs[i].queue.len() <= u.log.len() && u.subs[i].queue == u.log.subrange(
        u.log.len() - u.subs[i].queue.len(),
        u.log.len() as int,
    ) && (!u.subs[i].live ==> u.subs[i].queue.len() == 0) by {
        if i != id {
            assert(u.subs[i] == b.subs[i]);
        } else {
            assert(u.subs[i].queue =~= u.log.subrange(
                u.log.len() - u.subs[i].queue.len(),
                u.log.len() as int,
            ));
        }
    }
}

/// A subscriber that disconnects is isolated: dropping its subscription
/// leaves every other subscription and the log untouched, and a later
/// publish still reaches every remaining live subscriber.
pub proof fn lemma_unsubscribe_isolated(b: BusModel, id: int, m: MsgModel)
    requires
        b.wf(),
        0 <= id < b.subs.len(),
    ensures
        b.unsubscribe(id).wf(),
        b.unsubscribe(id).log == b.log,
        b.unsubscribe(id).subs.len() == b.subs.len(),
        forall|i: int|
            0 <= i < b.subs.len() && i != id ==> #[trigger] b.unsubscribe(id).subs[i]
                == b.subs[i],
        forall|i: int|
            0 <= i < b.subs.len() && i != id && b.subs[i].live ==> (#[trigger] b.unsubscribe(
                id,
            ).publish(m).subs[i]).queue.last() == m,
{
    lemma_unsubscribe_preserves_wf(b, id);
    lemma_publish_reaches_all(b.unsubscribe(id), m);
}

/// One subscription as the bus holds it.
struct Sub {
    live: bool,
    queue: MsgQueue,
}

impl Sub {
    spec fn model(self) -> SubModel {
        SubModel { live: self.live, queue: self.queue@ }
    }
}

/// The broadcast bus: a single process-wide fan-out point. Every live
/// subscription gets its own bounded queue of capacity `cap`; publishing
/// never blocks and never fails, at the price of dropping the oldest
/// undelivered message of any subscriber that cannot keep up.
pub struct Bus {
    cap: usize,
    subs: Vec<Sub>,
    log: Ghost<Seq<MsgModel>>,
}

impl View for Bus {
    type V = BusModel;

    closed spec fn view(&self) -> BusModel {
        BusModel {
            cap: self.cap as nat,
            log: self.log@,
            subs: self.subs@.map_values(|s: Sub| s.model()),
        }
    }
}

impl Bus {
    /// A fresh bus with no history and no subscribers.
    pub fn new(cap: usize) -> (b: Bus)
        requires
            cap >= 1,
        ensures
            b@ == (BusModel { cap: cap as nat, log: Seq::<MsgModel>::empty(), subs: Seq::<SubModel>::empty() }),
            b@.wf(),
    {
        let b = Bus { cap, subs: Vec::new(), log: Ghost(Seq::empty()) };
        proof {
            assert(b@.subs =~= Seq::<SubModel>::empty());
            assert(b@ =~= (BusModel {
                cap: cap as nat,
                log: Seq::<MsgModel>::empty(),
                subs: Seq::<SubModel>::empty(),
            }));
        }
        b
    }

    /// The per-subscriber capacity the bus was created with.
    pub fn capacity(&self) -> (c: usize)
        ensures
            c as nat == self@.cap,
    {
        self.cap
    }

    /// How many subscriptions were ever made, dead ones included.
    pub fn num_subs(&self) -> (n: usize)
        ensures
            n == self@.subs.len(),
    {
        self.subs.len()
    }

    /// Whether subscription `id` is still live.
    pub fn is_live(&self, id: usize) -> (l: bool)
        requires
            id < self@.subs.len(),
        ensures
            l == self@.subs[id as int].live,
    {
        self.subs[id].live
    }

    /// How many messages are queued, still undelivered, for subscription `id`.
    pub fn queue_len(&self, id: usize) -> (n: usize)
        requires
            id < self@.subs.len(),
        ensures
            n == self@.subs[id as int].queue.len(),
    {
        self.subs[id].queue.len()
    }

    /// Opens a new subscription and returns its identifier. The subscription
    /// starts empty: it observes only messages published after this call.
    pub fn subscribe(&mut self) -> (id: usize)
        requires
            old(self)@.wf(),
        ensures
            final(self)@ == old(self)@.subscribe(),
            final(self)@.wf(),
            id == old(self)@.subs.len(),
    {
        let id = self.subs.len();
        self.subs.push(Sub { live: true, queue: MsgQueue::new() });
        proof {
            assert(self@.subs =~= old(self)@.subs.push(
                SubModel { live: true, queue: Seq::empty() },
            ));
            assert(self@ =~= old(self)@.subscribe());
            lemma_subscribe_preserves_wf(old(self)@);
        }
        id
    }

    /// Publishes one message: appends it to the log and queues a verbatim
    /// copy for every live subscriber, dropping a full subscriber's oldest
    /// undelivered message. Never blocks, never fails, whatever the
    /// subscribers' state.
    pub fn publish(&mut self, m: &Message)
        requires
            old(self)@.wf(),
        ensures
            final(self)@ == old(self)@.publish(m@),
            final(self)@.wf(),
    {
        let ghost pre = self@;
        let cap = self.cap;
        let mut i: usize = 0;
        while i < self.subs.len()
            invariant
                pre.wf(),
                cap as nat == pre.cap,
                self.cap == cap,
                self.log@ == pre.log,
                self.subs@.len() == pre.subs.len(),
                i <= self.subs.len(),
                forall|j: int| i <= j < pre.subs.len() ==> #[trigger] self@.subs[j] == pre.subs[j],
                forall|j: int|
                    0 <= j < i && pre.subs[j].live ==> #[trigger] self@.subs[j] == (SubModel {
                        live: true,
                        queue: enqueue(pre.subs[j].queue, m@, pre.cap),
                    }),
                forall|j: int|
                    0 <= j < i && !pre.subs[j].live ==> #[trigger] self@.subs[j] == pre.subs[j],
            decreases self.subs.len() - i,
        {
            let ghost snap = self.subs@;
            let ghost snapm = self@.subs;
            proof {
                assert(self@.subs[i as int] == snap[i as int].model());
                assert(self@.subs[i as int] == pre.subs[i as int]);
            }
            let is_live = self.subs[i].live;
            if is_live {
                let dup = m.duplicate();
                let sub = &mut self.subs[i];
                sub.queue.enqueue_bounded(dup, cap);
            }
            proof {
                assert forall|j: int| 0 <= j < pre.subs.len() && j != i implies #[trigger] self@
                    .subs[j] == snapm[j] by {
                    assert(self.subs@[j] == snap[j]);
                    assert(self@.subs[j] == self.subs@[j].model());
                    assert(snapm[j] == snap[j].model());
                }
                assert(self@.subs[i as int] == self.subs@[i as int].model());
                if pre.subs[i as int].live {
                    assert(self@.subs[i as int] == (SubModel {
                        live: true,
                        queue: enqueue(pre.subs[i as int].queue, m@, pre.cap),
                    }));
                } else {
                    assert(self@.subs[i as int] == pre.subs[i as int]);
                }
            }
            i = i + 1;
        }
        proof {
            assert forall|j: int| 0 <= j < pre.subs.len() implies #[trigger] self@.subs[j]
                == pre.publish(m@).subs[j] by {
                assert(pre.publish(m@).subs[j] == (if pre.subs[j].live {
                    SubModel { live: true, queue: enqueue(pre.subs[j].queue, m@, pre.cap) }
                } else {
                    pre.subs[j]
                }));
            }
            assert(self@.subs =~= pre.publish(m@).subs);
        }
        let ghost done_subs = self@.subs;
        self.log = Ghost(pre.log.push(m@));
        proof {
            assert(self@.subs == done_subs);
            assert(self@ =~= pre.publish(m@));
            lemma_publish_reaches_all(pre, m@);
        }
    }

    /// Takes the next undelivered message for subscription `id`: the oldest
    /// one still queued, or nothing when the queue is empty.
    pub fn recv(&mut self, id: usize) -> (r: Option<Message>)
        requires
            old(self)@.wf(),
            id < old(self)@.subs.len(),
        ensures
            final(self)@ == old(self)@.recv(id as int),
            final(self)@.wf(),
            (r is None) == (old(self)@.recv_result(id as int) is None),
            r is Some ==> old(self)@.recv_result(id as int) == Some(r->Some_0@),
    {
        let ghost pre = self@;
        let ghost snap = self.subs@;
        proof {
            assert(self@.subs[id as int] == snap[id as int].model());
        }
        let sub = &mut self.subs[id];
        let r = sub.queue.pop_front();
        proof {
            assert forall|j: int| 0 <= j < pre.subs.len() implies #[trigger] self@.subs[j]
                == pre.recv(id as int).subs[j] by {
                assert(self@.subs[j] == self.subs@[j].model());
                if j != id {
                    assert(self.subs@[j] == snap[j]);
                    assert(pre.subs[j] == snap[j].model());
                }
            }
            assert(self@.subs =~= pre.recv(id as int).subs);
            assert(self@ =~= pre.recv(id as int));
            lemma_recv_in_order(pre, id as int);
        }
        r
    }

    /// Drops subscription `id`: marks it dead and discards its backlog.
    /// Later publishes simply skip it; nothing is delivered to it again and
    /// no other subscription is affected.
    pub fn unsubscribe(&mut self, id: usize)
        requires
            old(self)@.wf(),
            id < old(self)@.subs.len(),
        ensures
            final(self)@ == old(self)@.unsubscribe(id as int),
            final(self)@.wf(),
    {
        let sub = &mut self.subs[id];
        sub.live = false;
        sub.queue.clear();
        proof {
            assert(self@.subs =~= old(self)@.unsubscribe(id as int).subs);
            assert(self@ =~= old(self)@.unsubscribe(id as int));
            lemma_unsubscribe_preserves_wf(old(self)@, id as int);
        }
    }
}

} // verus!
