//! Histories of hub operations, and what the hub guarantees over them.

use crate::hub::{ConnectionId, HubModel};
use vstd::prelude::*;

verus! {

/// One operation on the hub.
pub enum HubOp {
    /// A registration that offers this id.
    Register(ConnectionId),
    /// The removal of this id.
    Unregister(ConnectionId),
    /// The publication of this content.
    Publish(Seq<char>),
    /// The viewer with this id asks for its next pending content.
    Deliver(ConnectionId),
    /// The shutdown of the hub.
    ShutDown,
}

impl HubModel {
    /// The hub after one operation, as the executable operations perform it;
    /// a registration with an id that was issued before changes nothing.
    pub open spec fn step(self, op: HubOp) -> HubModel {
        match op {
            HubOp::Register(id) => if self.issued.contains(id) {
                self
            } else {
                self.register(id)
            },
            HubOp::Unregister(id) => self.unregister(id),
            HubOp::Publish(content) => self.publish(content),
            HubOp::Deliver(id) => self.polled(id),
            HubOp::ShutDown => self.shut_down(),
        }
    }

    /// The hub after the operations `ops`, first to last.
    pub open spec fn run(self, ops: Seq<HubOp>) -> HubModel
        decreases ops.len(),
    {
        if ops.len() == 0 {
            self
        } else {
            self.run(ops.drop_last()).step(ops.last())
        }
    }
}

/// The content that `ops` publishes, in the order of publication.
pub open spec fn published(ops: Seq<HubOp>) -> Seq<Seq<char>>
    decreases ops.len(),
{
    if ops.len() == 0 {
        Seq::empty()
    } else {
        match ops.last() {
            HubOp::Publish(content) => published(ops.drop_last()).push(content),
            _ => published(ops.drop_last()),
        }
    }
}

/// No operation of `ops` removes `id`.
pub open spec fn never_removes(ops: Seq<HubOp>, id: ConnectionId) -> bool {
    forall|i: int| 0 <= i < ops.len() ==> #[trigger] ops[i] != HubOp::Unregister(id)
}

/// No operation of `ops` shuts the hub down.
pub open spec fn never_shuts_down(ops: Seq<HubOp>) -> bool {
    forall|i: int| 0 <= i < ops.len() ==> #[trigger] ops[i] != HubOp::ShutDown
}

/// A hub that is open stays open through a history that does not shut it
/// down.
pub proof fn lemma_stays_open(hub: HubModel, ops: Seq<HubOp>)
    requires
        hub.open,
        never_shuts_down(ops),
    ensures
        hub.run(ops).open,
        ops.len() > 0 ==> never_shuts_down(ops.drop_last()),
    decreases ops.len(),
{
    if ops.len() > 0 {
        let front = ops.drop_last();
        assert forall|i: int| 0 <= i < front.len() implies #[trigger] front[i]
            != HubOp::ShutDown by {
            assert(front[i] == ops[i]);
        }
        lemma_stays_open(hub, front);
        assert(ops.last() == ops[ops.len() - 1]);
    }
}

/// The content that the viewer `id` takes from its conduit in the course of
/// `ops`, in the order in which it takes it. `hub` is the hub before `ops`.
pub open spec fn received(hub: HubModel, ops: Seq<HubOp>, id: ConnectionId) -> Seq<Seq<char>>
    decreases ops.len(),
{
    if ops.len() == 0 {
        Seq::empty()
    } else {
        let before = hub.run(ops.drop_last());
        let so_far = received(hub, ops.drop_last(), id);
        if ops.last() == HubOp::Deliver(id) && before.registered(id) && before.pending[id].len()
            > 0 {
            so_far.push(before.pending[id][0])
        } else {
            so_far
        }
    }
}

/// Every operation keeps the model well formed and forgets no issued id.
pub proof fn lemma_step_keeps_wf(hub: HubModel, op: HubOp)
    requires
        hub.wf(),
    ensures
        hub.step(op).wf(),
        hub.issued.subset_of(hub.step(op).issued),
{
}

/// Every history keeps the model well formed and forgets no issued id: an
/// id, once issued, stays issued, so no later registration can hand it out
/// again.
pub proof fn lemma_ids_never_reused(hub: HubModel, ops: Seq<HubOp>)
    requires
        hub.wf(),
    ensures
        hub.run(ops).wf(),
        hub.issued.subset_of(hub.run(ops).issued),
    decreases ops.len(),
{
    if ops.len() > 0 {
        lemma_ids_never_reused(hub, ops.drop_last());
        lemma_step_keeps_wf(hub.run(ops.drop_last()), ops.last());
    }
}

/// While the hub is open, the latest content is the one published last; a
/// history that publishes nothing leaves it as it was.
pub proof fn lemma_latest_is_last_published(hub: HubModel, ops: Seq<HubOp>)
    requires
        hub.open,
        never_shuts_down(ops),
    ensures
        hub.run(ops).latest == if published(ops).len() > 0 {
            Some(published(ops).last())
        } else {
            hub.latest
        },
    decreases ops.len(),
{
    if ops.len() > 0 {
        lemma_stays_open(hub, ops);
        lemma_stays_open(hub, ops.drop_last());
        lemma_latest_is_last_published(hub, ops.drop_last());
    }
}

/// Late-join catch-up: after an open hub has published `content`, and
/// whatever else happens short of another publication or the shutdown, a
/// viewer that registers finds exactly `content` in its conduit, so
/// `content` is the first it receives.
pub proof fn lemma_late_join_catch_up(
    hub: HubModel,
    content: Seq<char>,
    ops: Seq<HubOp>,
    id: ConnectionId,
)
    requires
        hub.open,
        never_shuts_down(ops),
        published(ops).len() == 0,
    ensures
        ({
            let joined = hub.publish(content).run(ops).register(id);
            &&& joined.registered(id)
            &&& joined.pending[id] == seq![content]
        }),
{
    lemma_latest_is_last_published(hub.publish(content), ops);
}

/// Exactly-once, ordered fan-out: while the hub is open, for a viewer that
/// is registered and that the history does not remove, what it has received
/// and what still waits in its conduit are together what waited at the
/// start and then everything the history published, each content once and
/// in the order of publication. Nothing is lost, doubled or reordered,
/// whatever the history does to other viewers.
pub proof fn lemma_fan_out(hub: HubModel, ops: Seq<HubOp>, id: ConnectionId)
    requires
        hub.wf(),
        hub.open,
        hub.registered(id),
        never_removes(ops, id),
        never_shuts_down(ops),
    ensures
        hub.run(ops).registered(id),
        received(hub, ops, id) + hub.run(ops).pending[id] == hub.pending[id] + published(ops),
    decreases ops.len(),
{
    if ops.len() == 0 {
        assert(received(hub, ops, id) + hub.pending[id] =~= hub.pending[id] + published(ops));
    } else {
        let front = ops.drop_last();
        let before = hub.run(front);
        let so_far = received(hub, front, id);
        let waiting = before.pending[id];
        assert forall|i: int| 0 <= i < front.len() implies #[trigger] front[i]
            != HubOp::Unregister(id) by {
            assert(front[i] == ops[i]);
        }
        lemma_stays_open(hub, ops);
        lemma_stays_open(hub, front);
        lemma_fan_out(hub, front, id);
        lemma_ids_never_reused(hub, front);
        assert(ops.last() == ops[ops.len() - 1]);
        assert(before.issued.contains(id));
        match ops.last() {
            HubOp::Publish(content) => {
                assert(so_far + waiting.push(content) =~= (so_far + waiting).push(content));
                assert(hub.pending[id] + published(front).push(content) =~= (hub.pending[id]
                    + published(front)).push(content));
            },
            HubOp::Register(other) => {},
            HubOp::Unregister(other) => {},
            HubOp::Deliver(other) => {
                if other == id && waiting.len() > 0 {
                    assert(so_far.push(waiting[0]) + waiting.drop_first() =~= so_far + waiting);
                }
            },
            HubOp::ShutDown => {},
        }
    }
}

/// Gap-free delivery from registration on: while the hub is open, a viewer
/// that registers, and that the history after that does not remove,
/// receives the content that was the latest when it registered, if there
/// was any, and then everything published since, in order, and nothing
/// else.
pub proof fn lemma_stream_since_registration(hub: HubModel, ops: Seq<HubOp>, id: ConnectionId)
    requires
        hub.wf(),
        hub.open,
        !hub.issued.contains(id),
        never_removes(ops, id),
        never_shuts_down(ops),
    ensures
        ({
            let joined = hub.register(id);
            &&& joined.run(ops).registered(id)
            &&& received(joined, ops, id) + joined.run(ops).pending[id] == hub.catch_up()
                + published(ops)
        }),
{
    lemma_fan_out(hub.register(id), ops, id);
}

/// Nobody is starved of the latest content: while the hub is open, for a
/// viewer that registered and was not removed, the latest content is the
/// last of what it has received and what still waits for it.
pub proof fn lemma_latest_is_received_or_pending(
    hub: HubModel,
    ops: Seq<HubOp>,
    id: ConnectionId,
)
    requires
        hub.wf(),
        hub.open,
        !hub.issued.contains(id),
        never_removes(ops, id),
        never_shuts_down(ops),
    ensures
        ({
            let joined = hub.register(id);
            let stream = received(joined, ops, id) + joined.run(ops).pending[id];
            joined.run(ops).latest matches Some(content) ==> stream.len() > 0 && stream.last()
                == content
        }),
{
    let joined = hub.register(id);
    lemma_stream_since_registration(hub, ops, id);
    lemma_latest_is_last_published(joined, ops);
}

/// Exactly-once fan-out, for one publication by an open hub: every
/// registered viewer gets `content` appended to its conduit once, and nobody
/// else gets a conduit.
pub proof fn lemma_publish_reaches_each_once(hub: HubModel, content: Seq<char>, id: ConnectionId)
    requires
        hub.open,
    ensures
        hub.publish(content).registered(id) == hub.registered(id),
        hub.registered(id) ==> hub.publish(content).pending[id] == hub.pending[id].push(content),
{
}

/// Order preservation: a viewer registered across two publications by an
/// open hub has the first before the second in its conduit, and the conduit
/// is served oldest first.
pub proof fn lemma_order_preserved(
    hub: HubModel,
    first: Seq<char>,
    second: Seq<char>,
    id: ConnectionId,
)
    requires
        hub.open,
        hub.registered(id),
    ensures
        ({
            let after = hub.publish(first).publish(second);
            let n = hub.pending[id].len() as int;
            &&& after.registered(id)
            &&& after.pending[id] == hub.pending[id].push(first).push(second)
            &&& after.pending[id][n] == first
            &&& after.pending[id][n + 1] == second
            &&& hub.pending[id].len() == 0 ==> after.polled(id) == after.deliver(id)
                && after.polled(id).pending[id] == seq![second]
        }),
{
    let after = hub.publish(first).publish(second);
    if hub.pending[id].len() == 0 {
        assert(after.pending[id] =~= seq![first, second]);
        assert(after.pending[id].drop_first() =~= seq![second]);
    }
}

/// Unregister idempotence: removing an id that is not registered changes
/// nothing, removing an id twice is removing it once, and a removal leaves
/// every other viewer and its conduit as they were.
pub proof fn lemma_unregister_idempotent(hub: HubModel, id: ConnectionId, other: ConnectionId)
    requires
        other != id,
    ensures
        !hub.registered(id) ==> hub.unregister(id) == hub,
        hub.unregister(id).unregister(id) == hub.unregister(id),
        !hub.unregister(id).registered(id),
        hub.unregister(id).registered(other) == hub.registered(other),
        hub.registered(other) ==> hub.unregister(id).pending[other] == hub.pending[other],
{
    assert(!hub.registered(id) ==> hub.unregister(id) =~= hub);
    assert(hub.unregister(id).unregister(id) =~= hub.unregister(id));
}

/// Isolation: once a viewer is removed, it receives nothing more, and every
/// other registered viewer goes on receiving what an open hub publishes.
pub proof fn lemma_removal_is_isolated(
    hub: HubModel,
    gone: ConnectionId,
    other: ConnectionId,
    content: Seq<char>,
)
    requires
        hub.open,
        hub.registered(other),
        other != gone,
    ensures
        ({
            let after = hub.unregister(gone).publish(content);
            &&& !after.registered(gone)
            &&& after.registered(other)
            &&& after.pending[other] == hub.pending[other].push(content)
        }),
{
}

/// The `n` requests in a row of the viewer `id` for its next content.
pub open spec fn polls(id: ConnectionId, n: nat) -> Seq<HubOp> {
    Seq::new(n, |i: int| HubOp::Deliver(id))
}

/// Graceful shutdown: a hub that was shut down accepts no publication, and
/// a registered viewer that goes on asking still receives everything that
/// was pending for it, in order, and is removed by the request after that.
pub proof fn lemma_shut_down_drains(hub: HubModel, content: Seq<char>, id: ConnectionId)
    requires
        hub.registered(id),
    ensures
        hub.shut_down().publish(content) == hub.shut_down(),
        ({
            let n = hub.pending[id].len();
            let drained = hub.shut_down().run(polls(id, n));
            &&& received(hub.shut_down(), polls(id, n), id) == hub.pending[id]
            &&& drained.registered(id)
            &&& drained.pending[id].len() == 0
            &&& !drained.polled(id).registered(id)
        }),
{
    lemma_polls(hub.shut_down(), id, hub.pending[id].len());
    assert(hub.pending[id].take(hub.pending[id].len() as int) =~= hub.pending[id]);
}

/// After `n` requests, a viewer with at least `n` pending contents has
/// received the first `n` of them and still has the others pending.
proof fn lemma_polls(hub: HubModel, id: ConnectionId, n: nat)
    requires
        hub.registered(id),
        n <= hub.pending[id].len(),
    ensures
        received(hub, polls(id, n), id) == hub.pending[id].take(n as int),
        hub.run(polls(id, n)).registered(id),
        hub.run(polls(id, n)).pending[id] == hub.pending[id].skip(n as int),
        hub.run(polls(id, n)).open == hub.open,
    decreases n,
{
    let ops = polls(id, n);
    if n == 0 {
        assert(hub.pending[id].take(0) =~= Seq::<Seq<char>>::empty());
        assert(hub.pending[id].skip(0) =~= hub.pending[id]);
    } else {
        let fewer = (n - 1) as nat;
        assert(ops.drop_last() =~= polls(id, fewer));
        assert(ops.last() == HubOp::Deliver(id));
        lemma_polls(hub, id, fewer);
        let before = hub.run(polls(id, fewer));
        let waiting = hub.pending[id];
        assert(before.pending[id][0] == waiting[fewer as int]);
        assert(waiting.take(fewer as int).push(waiting[fewer as int]) =~= waiting.take(n as int));
        assert(waiting.skip(fewer as int).drop_first() =~= waiting.skip(n as int));
    }
}

} // verus!
