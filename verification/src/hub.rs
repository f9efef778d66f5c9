//! The broadcast hub: the registry of live viewers and the latest content.

use crate::history::HubOp;
use std::collections::VecDeque;
use vstd::prelude::*;

verus! {

/// The token that names one registered viewer.
#[derive(Clone, Copy, Debug, PartialEq, Eq, Structural, Hash)]
pub struct ConnectionId(pub u128);

/// The hub as a mathematical value.
///
/// `pending` maps every registered viewer to the content that waits in its
/// outbound conduit, oldest first. `issued` holds every id that was ever
/// handed out, registered or not. `open` says that the hub still accepts
/// publications; it stops doing so when it is shut down.
#[verifier::ext_equal]
pub struct HubModel {
    pub latest: Option<Seq<char>>,
    pub pending: Map<ConnectionId, Seq<Seq<char>>>,
    pub issued: Set<ConnectionId>,
    pub open: bool,
}

impl HubModel {
    /// Every registered id was issued.
    pub open spec fn wf(self) -> bool {
        self.pending.dom().subset_of(self.issued)
    }

    /// The hub before anything happened.
    pub open spec fn empty() -> HubModel {
        HubModel { latest: None, pending: Map::empty(), issued: Set::empty(), open: true }
    }

    /// Whether `id` is registered.
    pub open spec fn registered(self, id: ConnectionId) -> bool {
        self.pending.dom().contains(id)
    }

    /// What a conduit holds when it is created: the latest content, if any.
    pub open spec fn catch_up(self) -> Seq<Seq<char>> {
        match self.latest {
            Some(content) => seq![content],
            None => Seq::empty(),
        }
    }

    /// Registration of a viewer under the id `id`.
    pub open spec fn register(self, id: ConnectionId) -> HubModel {
        HubModel {
            latest: self.latest,
            pending: self.pending.insert(id, self.catch_up()),
            issued: self.issued.insert(id),
            open: self.open,
        }
    }

    /// Removal of `id` from the registry.
    pub open spec fn unregister(self, id: ConnectionId) -> HubModel {
        HubModel {
            latest: self.latest,
            pending: self.pending.remove(id),
            issued: self.issued,
            open: self.open,
        }
    }

    /// Publication of `content`: it becomes the latest content and is
    /// appended to every conduit. A hub that was shut down accepts nothing
    /// and stays as it is.
    pub open spec fn publish(self, content: Seq<char>) -> HubModel {
        if self.open {
            HubModel {
                latest: Some(content),
                pending: self.pending.map_values(|queue: Seq<Seq<char>>| queue.push(content)),
                issued: self.issued,
                open: true,
            }
        } else {
            self
        }
    }

    /// The shutdown: from now on nothing is accepted for publication.
    pub open spec fn shut_down(self) -> HubModel {
        HubModel { latest: self.latest, pending: self.pending, issued: self.issued, open: false }
    }

    /// Removal of the oldest pending content of `id`.
    pub open spec fn deliver(self, id: ConnectionId) -> HubModel {
        HubModel {
            latest: self.latest,
            pending: self.pending.insert(id, self.pending[id].drop_first()),
            issued: self.issued,
            open: self.open,
        }
    }

    /// What a registration that offers the id `token` answers: the new id,
    /// or the refusal of an id that was issued before.
    pub open spec fn registration(self, token: u128) -> Result<ConnectionId, HubError> {
        if self.issued.contains(ConnectionId(token)) {
            Err(HubError::IdUnavailable)
        } else {
            Ok(ConnectionId(token))
        }
    }

    /// The hub after a registration that offers the id `token`: the viewer
    /// is registered under it, unless the id was issued before.
    pub open spec fn registered_with(self, token: u128) -> HubModel {
        if self.issued.contains(ConnectionId(token)) {
            self
        } else {
            self.register(ConnectionId(token))
        }
    }

    /// The hub after the viewer `id` has asked for its next content: the
    /// oldest pending content is taken out; a viewer for which nothing is
    /// pending is removed if the hub was shut down, since nothing more will
    /// come; in every other case nothing changes.
    pub open spec fn polled(self, id: ConnectionId) -> HubModel {
        if self.registered(id) && self.pending[id].len() > 0 {
            self.deliver(id)
        } else if self.registered(id) && !self.open {
            self.unregister(id)
        } else {
            self
        }
    }
}

/// Why the hub could not register a viewer.
#[derive(Clone, Copy, Debug, PartialEq, Eq, Structural)]
pub enum HubError {
    /// The id offered for the new viewer was issued before.
    IdUnavailable,
}

/// What a viewer's conduit yields when it is asked for its next content.
#[derive(Debug, PartialEq, Eq)]
pub enum Outbound {
    /// The oldest pending content, now removed from the conduit.
    Content(String),
    /// The viewer is registered and nothing is pending.
    Idle,
    /// The conduit is closed: the viewer is not registered, or the hub was
    /// shut down and has nothing more for it.
    Closed,
}

/// The bits of a token that say it is a random (version 4) UUID.
pub const RANDOM_UUID_MASK: u128 = 0x0000_0000_0000_f000_c000_0000_0000_0000u128;

/// What those bits hold in every random UUID.
pub const RANDOM_UUID_BITS: u128 = 0x0000_0000_0000_4000_8000_0000_0000_0000u128;

/// Calls `uuid::Uuid::new_v4` and hands the UUID back as the integer that
/// `Uuid::as_u128` gives for it.
///
/// Trusted: the token is random, so nothing is claimed of it but what the
/// uuid crate fixes in every version 4 UUID, the version and variant bits.
/// The uuid crate panics if the operating system's random source fails.
#[verifier::external_body]
pub(crate) fn random_token() -> (token: u128)
    ensures
        token & RANDOM_UUID_MASK == RANDOM_UUID_BITS,
{
    uuid::Uuid::new_v4().as_u128()
}

/// One registered viewer: its id and its outbound conduit, oldest first.
struct Conduit {
    id: ConnectionId,
    queue: VecDeque<String>,
}

impl Conduit {
    /// What waits in the conduit, oldest first.
    spec fn pending(self) -> Seq<Seq<char>> {
        self.queue@.map_values(|content: String| content@)
    }
}

/// Whether some conduit belongs to `id`.
spec fn has_slot(conduits: Seq<Conduit>, id: ConnectionId) -> bool {
    exists|i: int| 0 <= i < conduits.len() && #[trigger] conduits[i].id == id
}

/// The place of the conduit that belongs to `id`.
spec fn slot(conduits: Seq<Conduit>, id: ConnectionId) -> int {
    choose|i: int| 0 <= i < conduits.len() && #[trigger] conduits[i].id == id
}

/// No two conduits belong to the same id.
spec fn distinct(conduits: Seq<Conduit>) -> bool {
    forall|i: int, j: int|
        0 <= i < j < conduits.len() ==> #[trigger] conduits[i].id != #[trigger] conduits[j].id
}

/// The registry that a list of conduits stands for.
spec fn pending_map(conduits: Seq<Conduit>) -> Map<ConnectionId, Seq<Seq<char>>> {
    Map::new(
        |id: ConnectionId| has_slot(conduits, id),
        |id: ConnectionId| conduits[slot(conduits, id)].pending(),
    )
}

/// Among distinct conduits, the place of an id is the only place that holds
/// it.
proof fn lemma_slot(conduits: Seq<Conduit>, i: int)
    requires
        distinct(conduits),
        0 <= i < conduits.len(),
    ensures
        has_slot(conduits, conduits[i].id),
        slot(conduits, conduits[i].id) == i,
{
    let id = conduits[i].id;
    let j = slot(conduits, id);
    assert(0 <= j < conduits.len() && conduits[j].id == id);
}

/// A change that keeps every id in its place keeps the places of all ids.
proof fn lemma_same_ids(before: Seq<Conduit>, after: Seq<Conduit>)
    requires
        distinct(before),
        after.len() == before.len(),
        forall|k: int| 0 <= k < after.len() ==> (#[trigger] after[k]).id == before[k].id,
    ensures
        distinct(after),
        forall|id: ConnectionId| has_slot(after, id) == has_slot(before, id),
        forall|id: ConnectionId|
            has_slot(before, id) ==> #[trigger] slot(after, id) == slot(before, id),
{
    assert forall|i: int, j: int| 0 <= i < j < after.len() implies after[i].id != after[j].id by {
        assert(before[i].id != before[j].id);
    }
    assert forall|id: ConnectionId| has_slot(after, id) == has_slot(before, id) by {
        if has_slot(after, id) {
            let k = slot(after, id);
            assert(before[k].id == id);
        }
        if has_slot(before, id) {
            let k = slot(before, id);
            assert(after[k].id == id);
        }
    }
    assert forall|id: ConnectionId| has_slot(before, id) implies #[trigger] slot(after, id)
        == slot(before, id) by {
        let k = slot(before, id);
        assert(after[k].id == id);
        lemma_slot(after, k);
    }
}

/// Distinct conduits stand for a registry with as many entries.
proof fn lemma_registry_size(conduits: Seq<Conduit>)
    requires
        distinct(conduits),
    ensures
        pending_map(conduits).dom().finite(),
        pending_map(conduits).dom().len() == conduits.len(),
    decreases conduits.len(),
{
    let dom = pending_map(conduits).dom();
    if conduits.len() == 0 {
        assert(dom =~= Set::empty());
    } else {
        let front = conduits.drop_last();
        let last = conduits.last();
        assert forall|i: int, j: int| 0 <= i < j < front.len() implies front[i].id != front[j].id by {
            assert(conduits[i].id != conduits[j].id);
        }
        lemma_registry_size(front);
        let front_dom = pending_map(front).dom();
        assert(!front_dom.contains(last.id)) by {
            if has_slot(front, last.id) {
                let k = slot(front, last.id);
                assert(conduits[k].id == conduits[conduits.len() - 1].id);
            }
        }
        assert forall|id: ConnectionId| dom.contains(id) == front_dom.insert(last.id).contains(
            id,
        ) by {
            if has_slot(conduits, id) && id != last.id {
                let k = slot(conduits, id);
                assert(front[k].id == id);
            }
            if has_slot(front, id) {
                let k = slot(front, id);
                assert(conduits[k].id == id);
            }
            if id == last.id {
                assert(conduits[conduits.len() - 1].id == id);
            }
        }
        assert(dom =~= front_dom.insert(last.id));
    }
}

/// The broadcast hub.
///
/// It owns the registry of live viewers and the content that was published
/// last. A viewer's outbound conduit is a queue inside the hub, reached by
/// the viewer's id; it is unbounded, so that publishing never waits for a
/// slow viewer and never drops one. The hub remembers every id it has
/// issued, so that none is handed out twice.
pub struct Hub {
    latest: Option<String>,
    conduits: Vec<Conduit>,
    issued: Vec<ConnectionId>,
    open: bool,
}

impl View for Hub {
    type V = HubModel;

    closed spec fn view(&self) -> HubModel {
        HubModel {
            latest: match self.latest {
                Some(content) => Some(content@),
                None => None,
            },
            pending: pending_map(self.conduits@),
            issued: Set::new(|id: ConnectionId| self.issued@.contains(id)),
            open: self.open,
        }
    }
}

impl Hub {
    /// The representation invariant: no id is registered twice, and every
    /// registered id is among the issued ones.
    pub closed spec fn wf(&self) -> bool {
        &&& distinct(self.conduits@)
        &&& forall|i: int|
            0 <= i < self.conduits@.len() ==> self.issued@.contains(
                #[trigger] self.conduits@[i].id,
            )
    }

    /// A well-formed hub has a well-formed model.
    pub proof fn lemma_view_wf(&self)
        requires
            self.wf(),
        ensures
            self@.wf(),
    {
        assert forall|id: ConnectionId| self@.pending.dom().contains(id) implies self@.issued.contains(
            id,
        ) by {
            let i = slot(self.conduits@, id);
            assert(self.conduits@[i].id == id);
        }
    }

    /// A hub with no viewer and no content.
    pub fn new() -> (hub: Hub)
        ensures
            hub.wf(),
            hub@ == HubModel::empty(),
    {
        let hub = Hub { latest: None, conduits: Vec::new(), issued: Vec::new(), open: true };
        assert(hub@.pending =~= Map::empty());
        assert(hub@.issued =~= Set::empty());
        hub
    }

    /// The place of `id` in the registry, if it is registered.
    fn position(&self, id: ConnectionId) -> (place: Option<usize>)
        ensures
            match place {
                Some(i) => i < self.conduits@.len() && self.conduits@[i as int].id == id,
                None => !has_slot(self.conduits@, id),
            },
    {
        let mut i: usize = 0;
        while i < self.conduits.len()
            invariant
                i <= self.conduits@.len(),
                forall|j: int| 0 <= j < i ==> (#[trigger] self.conduits@[j]).id != id,
            decreases self.conduits@.len() - i,
        {
            if self.conduits[i].id == id {
                return Some(i);
            }
            i += 1;
        }
        None
    }

    /// Whether `id` is registered.
    pub fn is_registered(&self, id: ConnectionId) -> (registered: bool)
        ensures
            registered == self@.registered(id),
    {
        self.position(id).is_some()
    }

    /// The content published last, if any was.
    pub fn latest(&self) -> (content: Option<String>)
        ensures
            match content {
                Some(text) => self@.latest == Some(text@),
                None => self@.latest.is_none(),
            },
    {
        match &self.latest {
            Some(text) => Some(text.clone()),
            None => None,
        }
    }

    /// Whether the hub still accepts publications.
    pub fn is_open(&self) -> (open: bool)
        ensures
            open == self@.open,
    {
        self.open
    }

    /// Shuts the hub down: from now on nothing is accepted for publication.
    /// Every viewer still gets what is pending for it, and finds its
    /// conduit closed after that.
    pub fn shut_down(&mut self)
        requires
            old(self).wf(),
        ensures
            final(self).wf(),
            final(self)@ == old(self)@.shut_down(),
            final(self)@ == old(self)@.step(HubOp::ShutDown),
    {
        self.open = false;
    }

    /// How many viewers are registered.
    pub fn connection_count(&self) -> (count: usize)
        requires
            self.wf(),
        ensures
            count == self@.pending.dom().len(),
            self@.pending.dom().finite(),
    {
        proof {
            lemma_registry_size(self.conduits@);
        }
        self.conduits.len()
    }

    /// How much content waits in the conduit of `id`; `None` if `id` is not
    /// registered.
    pub fn pending_count(&self, id: ConnectionId) -> (count: Option<usize>)
        requires
            self.wf(),
        ensures
            match count {
                Some(n) => self@.registered(id) && n == self@.pending[id].len(),
                None => !self@.registered(id),
            },
    {
        match self.position(id) {
            Some(i) => {
                proof {
                    lemma_slot(self.conduits@, i as int);
                }
                Some(self.conduits[i].queue.len())
            },
            None => None,
        }
    }

    /// Registers a viewer under the id `token`, unless that id was issued
    /// before. The new conduit starts with the latest content, if there is
    /// any, so that a late joiner catches up at once.
    pub fn register_with(&mut self, token: u128) -> (outcome: Result<ConnectionId, HubError>)
        requires
            old(self).wf(),
        ensures
            final(self).wf(),
            match outcome {
                Ok(id) => {
                    &&& id == ConnectionId(token)
                    &&& !old(self)@.issued.contains(id)
                    &&& final(self)@ == old(self)@.register(id)
                },
                Err(e) => {
                    &&& e == HubError::IdUnavailable
                    &&& old(self)@.issued.contains(ConnectionId(token))
                    &&& final(self)@ == old(self)@
                },
            },
            outcome == old(self)@.registration(token),
            final(self)@ == old(self)@.registered_with(token),
            final(self)@ == old(self)@.step(HubOp::Register(ConnectionId(token))),
    {
        let id = ConnectionId(token);
        let mut i: usize = 0;
        while i < self.issued.len()
            invariant
                i <= self.issued@.len(),
                *self == *old(self),
                self.wf(),
                id == ConnectionId(token),
                forall|j: int| 0 <= j < i ==> #[trigger] self.issued@[j] != id,
            decreases self.issued@.len() - i,
        {
            if self.issued[i] == id {
                assert(self.issued@[i as int] == id);
                assert(self@.issued.contains(id));
                return Err(HubError::IdUnavailable);
            }
            i += 1;
        }
        let mut queue: VecDeque<String> = VecDeque::new();
        match &self.latest {
            Some(content) => {
                queue.push_back(content.clone());
            },
            None => {},
        }
        let conduit = Conduit { id, queue };
        assert(conduit.pending() =~= old(self)@.catch_up());
        self.conduits.push(conduit);
        self.issued.push(id);
        proof {
            let old_c = old(self).conduits@;
            let new_c = self.conduits@;
            let last = old_c.len() as int;
            assert(!has_slot(old_c, id)) by {
                if has_slot(old_c, id) {
                    let k = slot(old_c, id);
                    assert(old(self).issued@.contains(old_c[k].id));
                }
            }
            assert(distinct(new_c));
            assert forall|k: int| 0 <= k < new_c.len() implies self.issued@.contains(
                #[trigger] new_c[k].id,
            ) by {
                if k < last {
                    let w = choose|w: int|
                        0 <= w < old(self).issued@.len() && old(self).issued@[w] == old_c[k].id;
                    assert(self.issued@[w] == new_c[k].id);
                } else {
                    assert(self.issued@[old(self).issued@.len() as int] == id);
                }
            }
            assert forall|other: ConnectionId| has_slot(new_c, other) == (other == id || has_slot(
                old_c,
                other,
            )) by {
                if has_slot(new_c, other) && other != id {
                    let k = slot(new_c, other);
                    assert(old_c[k].id == other);
                }
                if has_slot(old_c, other) {
                    let k = slot(old_c, other);
                    assert(new_c[k].id == other);
                }
                if other == id {
                    assert(new_c[last].id == id);
                }
            }
            assert forall|other: ConnectionId| has_slot(new_c, other) implies pending_map(
                new_c,
            )[other] == old(self)@.register(id).pending[other] by {
                if other == id {
                    lemma_slot(new_c, last);
                } else {
                    let k = slot(old_c, other);
                    assert(new_c[k].id == other);
                    lemma_slot(new_c, k);
                }
            }
            assert(self@.pending =~= old(self)@.register(id).pending);
            assert forall|other: ConnectionId| self.issued@.contains(other) == (other == id || old(
                self,
            ).issued@.contains(other)) by {
                if self.issued@.contains(other) {
                    let w = choose|w: int| 0 <= w < self.issued@.len() && self.issued@[w] == other;
                    if w < old(self).issued@.len() {
                        assert(old(self).issued@[w] == other);
                    }
                }
                if old(self).issued@.contains(other) {
                    let w = choose|w: int|
                        0 <= w < old(self).issued@.len() && old(self).issued@[w] == other;
                    assert(self.issued@[w] == other);
                }
                if other == id {
                    assert(self.issued@[old(self).issued@.len() as int] == id);
                }
            }
            assert(self@.issued =~= old(self)@.register(id).issued);
        }
        Ok(id)
    }

    /// Registers a viewer under a freshly drawn random id.
    ///
    /// The id is a random version 4 UUID, so which one is offered is not
    /// determined; whichever it is, the answer and the hub afterwards are
    /// those of [`Hub::register_with`] on it. The registration is refused
    /// only where the id that was drawn had been issued before; a hub that
    /// has issued no such id registers the viewer.
    pub fn register(&mut self) -> (outcome: Result<ConnectionId, HubError>)
        requires
            old(self).wf(),
        ensures
            final(self).wf(),
            exists|token: u128|
                ({
                    &&& token & RANDOM_UUID_MASK == RANDOM_UUID_BITS
                    &&& outcome == #[trigger] old(self)@.registration(token)
                    &&& final(self)@ == old(self)@.registered_with(token)
                }),
            match outcome {
                Ok(id) => {
                    &&& !old(self)@.issued.contains(id)
                    &&& final(self)@ == old(self)@.register(id)
                },
                Err(e) => {
                    &&& e == HubError::IdUnavailable
                    &&& final(self)@ == old(self)@
                },
            },
    {
        let token = random_token();
        let outcome = self.register_with(token);
        assert(outcome == old(self)@.registration(token));
        outcome
    }

    /// Removes `id` from the registry and closes its conduit. Where `id` is
    /// not registered, nothing changes.
    pub fn unregister(&mut self, id: ConnectionId)
        requires
            old(self).wf(),
        ensures
            final(self).wf(),
            final(self)@ == old(self)@.unregister(id),
            final(self)@ == old(self)@.step(HubOp::Unregister(id)),
    {
        match self.position(id) {
            Some(i) => {
                let _ = self.conduits.remove(i);
                proof {
                    let old_c = old(self).conduits@;
                    let new_c = self.conduits@;
                    let gone = i as int;
                    lemma_slot(old_c, gone);
                    assert forall|k: int| 0 <= k < new_c.len() implies #[trigger] new_c[k]
                        == old_c[if k < gone { k } else { k + 1 }] by {}
                    assert(distinct(new_c)) by {
                        assert forall|a: int, b: int| 0 <= a < b < new_c.len() implies new_c[a].id
                            != new_c[b].id by {
                            let oa = if a < gone { a } else { a + 1 };
                            let ob = if b < gone { b } else { b + 1 };
                            assert(old_c[oa].id != old_c[ob].id);
                        }
                    }
                    assert forall|k: int| 0 <= k < new_c.len() implies self.issued@.contains(
                        #[trigger] new_c[k].id,
                    ) by {
                        let ok = if k < gone { k } else { k + 1 };
                        assert(self.issued@.contains(old_c[ok].id));
                    }
                    assert forall|other: ConnectionId| has_slot(new_c, other) == (other != id
                        && has_slot(old_c, other)) by {
                        if has_slot(new_c, other) {
                            let k = slot(new_c, other);
                            let ok = if k < gone { k } else { k + 1 };
                            assert(old_c[ok].id == other);
                            if other == id {
                                lemma_slot(old_c, ok);
                            }
                        }
                        if other != id && has_slot(old_c, other) {
                            let ok = slot(old_c, other);
                            let k = if ok < gone { ok } else { ok - 1 };
                            assert(new_c[k].id == other);
                        }
                    }
                    assert forall|other: ConnectionId| has_slot(new_c, other) implies pending_map(
                        new_c,
                    )[other] == old(self)@.unregister(id).pending[other] by {
                        let k = slot(new_c, other);
                        let ok = if k < gone { k } else { k + 1 };
                        assert(old_c[ok].id == other);
                        lemma_slot(old_c, ok);
                    }
                    assert(self@.pending =~= old(self)@.unregister(id).pending);
                }
            },
            None => {
                assert(self@.pending =~= old(self)@.unregister(id).pending);
            },
        }
    }

    /// Takes the oldest pending content out of the conduit of `id`.
    ///
    /// Where nothing is pending, the viewer is told to wait while the hub
    /// is open; once the hub was shut down the viewer is removed and finds
    /// its conduit closed, as a viewer does that is not registered.
    pub fn next_outbound(&mut self, id: ConnectionId) -> (next: Outbound)
        requires
            old(self).wf(),
        ensures
            final(self).wf(),
            final(self)@ == old(self)@.polled(id),
            final(self)@ == old(self)@.step(HubOp::Deliver(id)),
            match next {
                Outbound::Content(content) => {
                    &&& old(self)@.registered(id)
                    &&& old(self)@.pending[id].len() > 0
                    &&& content@ == old(self)@.pending[id][0]
                },
                Outbound::Idle => {
                    &&& old(self)@.registered(id)
                    &&& old(self)@.pending[id].len() == 0
                    &&& old(self)@.open
                },
                Outbound::Closed => {
                    old(self)@.registered(id) ==> old(self)@.pending[id].len() == 0 && !old(
                        self,
                    )@.open
                },
            },
    {
        match self.position(id) {
            Some(i) => {
                proof {
                    lemma_slot(self.conduits@, i as int);
                }
                let taken = self.conduits[i].queue.pop_front();
                proof {
                    let old_c = old(self).conduits@;
                    let new_c = self.conduits@;
                    let at = i as int;
                    assert forall|k: int| 0 <= k < new_c.len() implies (#[trigger] new_c[k]).id
                        == old_c[k].id by {}
                    lemma_same_ids(old_c, new_c);
                    if taken.is_some() {
                        assert(new_c[at].pending() =~= old_c[at].pending().drop_first());
                        assert(self@.pending =~= old(self)@.deliver(id).pending);
                    } else {
                        assert(new_c[at].pending() =~= old_c[at].pending());
                        assert(self@.pending =~= old(self)@.pending);
                    }
                }
                match taken {
                    Some(content) => Outbound::Content(content),
                    None => {
                        if self.open {
                            Outbound::Idle
                        } else {
                            let ghost drained = self@;
                            self.unregister(id);
                            assert(drained == old(self)@);
                            Outbound::Closed
                        }
                    },
                }
            },
            None => Outbound::Closed,
        }
    }

    /// Appends `content` to every conduit and makes it the latest content,
    /// and says `true`; a hub that was shut down accepts nothing, stays as
    /// it is, and says `false`.
    pub fn publish(&mut self, content: String) -> (accepted: bool)
        requires
            old(self).wf(),
        ensures
            final(self).wf(),
            accepted == old(self)@.open,
            final(self)@ == old(self)@.publish(content@),
            final(self)@ == old(self)@.step(HubOp::Publish(content@)),
    {
        if !self.open {
            return false;
        }
        let mut i: usize = 0;
        while i < self.conduits.len()
            invariant
                i <= self.conduits@.len(),
                self.conduits@.len() == old(self).conduits@.len(),
                self.issued == old(self).issued,
                self.open == old(self).open,
                forall|j: int|
                    0 <= j < self.conduits@.len() ==> (#[trigger] self.conduits@[j]).id == old(
                        self,
                    ).conduits@[j].id,
                forall|j: int|
                    0 <= j < i ==> (#[trigger] self.conduits@[j]).pending() == old(
                        self,
                    ).conduits@[j].pending().push(content@),
                forall|j: int|
                    i <= j < self.conduits@.len() ==> (#[trigger] self.conduits@[j]).pending()
                        == old(self).conduits@[j].pending(),
            decreases self.conduits@.len() - i,
        {
            let copy = content.clone();
            let ghost before = self.conduits@;
            self.conduits[i].queue.push_back(copy);
            assert(self.conduits@[i as int].pending() =~= before[i as int].pending().push(content@));
            i += 1;
        }
        self.latest = Some(content);
        proof {
            lemma_same_ids(old(self).conduits@, self.conduits@);
            assert(self@.pending =~= old(self)@.publish(content@).pending);
        }
        true
    }
}

} // verus!
