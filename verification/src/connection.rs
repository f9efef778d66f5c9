//! The connection handler: the life of one viewer connection, from the
//! opening handshake to the removal from the hub.
//!
//! The handler decides; the transport is somebody else's. Each function
//! takes what happened on the transport or in the hub and says what the
//! connection becomes and what is to be done next.

use crate::frame::{DecodeError, Frame, FrameView};
use crate::hub::{random_token, ConnectionId, Hub, HubModel, Outbound};
use crate::inbox::Inbox;
use vstd::prelude::*;
use vstd::utf8::encode_utf8;

verus! {

/// Where a connection stands in its life.
#[derive(Clone, Copy, Debug, PartialEq, Eq, Structural)]
pub enum Phase {
    /// The opening request has not been answered yet.
    Handshaking,
    /// The viewer is registered; both paths run.
    Open,
    /// A path has stopped; the connection waits until both have.
    Closing,
    /// The viewer is removed from the hub; nothing more happens.
    Closed,
}

/// A connection as a mathematical value.
pub struct ConnectionModel {
    pub phase: Phase,
    /// The id under which the viewer is registered, while it is.
    pub id: Option<ConnectionId>,
    /// Whether the inbound path runs.
    pub inbound: bool,
    /// Whether the outbound path runs.
    pub outbound: bool,
}

/// The sub-protocol that the server knows and echoes when it is offered.
pub open spec fn known_protocol() -> Seq<char> {
    "rust-websocket"@
}

/// The views of a list of strings.
pub open spec fn texts(list: Seq<String>) -> Seq<Seq<char>> {
    list.map_values(|text: String| text@)
}

/// The sub-protocol to answer with: the known one where it is among the
/// offered ones, none otherwise.
pub open spec fn negotiated(offered: Seq<Seq<char>>) -> Option<Seq<char>> {
    if offered.contains(known_protocol()) {
        Some(known_protocol())
    } else {
        None
    }
}

/// The view of an optional string.
pub open spec fn option_text(text: Option<String>) -> Option<Seq<char>> {
    match text {
        Some(t) => Some(t@),
        None => None,
    }
}

/// Picks the sub-protocol to answer with.
pub fn negotiate(offered: &Vec<String>) -> (chosen: Option<String>)
    ensures
        option_text(chosen) == negotiated(texts(offered@)),
{
    let known = "rust-websocket".to_owned();
    let mut i: usize = 0;
    while i < offered.len()
        invariant
            i <= offered@.len(),
            known@ == known_protocol(),
            forall|j: int| 0 <= j < i ==> #[trigger] texts(offered@)[j] != known_protocol(),
        decreases offered@.len() - i,
    {
        if offered[i] == known {
            assert(texts(offered@)[i as int] == known_protocol());
            return Some(known);
        }
        i += 1;
    }
    None
}

/// What the opening request of a connection was found to be.
#[derive(Debug, PartialEq, Eq)]
pub enum Opening {
    /// Not a valid upgrade request.
    Refused,
    /// A valid upgrade request that offers these sub-protocols.
    Upgrade(Vec<String>),
}

/// An opening request as a mathematical value.
pub enum OpeningView {
    Refused,
    Upgrade(Seq<Seq<char>>),
}

impl View for Opening {
    type V = OpeningView;

    open spec fn view(&self) -> OpeningView {
        match self {
            Opening::Refused => OpeningView::Refused,
            Opening::Upgrade(offered) => OpeningView::Upgrade(texts(offered@)),
        }
    }
}

/// The answer to an opening request.
#[derive(Debug, PartialEq, Eq)]
pub enum Answer {
    /// Accept the upgrade, with this sub-protocol if there is one.
    Accept(Option<String>),
    /// Reject the request; the hub was not touched.
    Reject,
    /// The hub could not take the viewer in; the listener is to be told.
    Unavailable,
    /// The connection was not waiting for an opening request.
    Nothing,
}

/// An answer as a mathematical value.
pub enum AnswerView {
    Accept(Option<Seq<char>>),
    Reject,
    Unavailable,
    Nothing,
}

impl View for Answer {
    type V = AnswerView;

    open spec fn view(&self) -> AnswerView {
        match self {
            Answer::Accept(protocol) => AnswerView::Accept(option_text(*protocol)),
            Answer::Reject => AnswerView::Reject,
            Answer::Unavailable => AnswerView::Unavailable,
            Answer::Nothing => AnswerView::Nothing,
        }
    }
}

/// What the inbound path got from the transport.
#[derive(Debug, PartialEq, Eq)]
pub enum Inbound {
    /// A frame.
    Frame(Frame),
    /// Bytes that are no frame.
    Undecodable(DecodeError),
    /// The transport failed or was reset.
    Failed,
}

/// An inbound event as a mathematical value.
pub enum InboundView {
    Frame(FrameView),
    Undecodable(DecodeError),
    Failed,
}

impl View for Inbound {
    type V = InboundView;

    open spec fn view(&self) -> InboundView {
        match self {
            Inbound::Frame(frame) => InboundView::Frame(frame@),
            Inbound::Undecodable(e) => InboundView::Undecodable(*e),
            Inbound::Failed => InboundView::Failed,
        }
    }
}

/// What the inbound path is to do next.
#[derive(Debug, PartialEq, Eq)]
pub enum Reaction {
    /// Write this frame at once, ahead of any pending content, and go on
    /// reading.
    Reply(Frame),
    /// Go on reading.
    Ignore,
    /// Write a close frame, then stop reading.
    EchoClose,
    /// Stop reading.
    Stop,
}

/// A reaction as a mathematical value.
pub enum ReactionView {
    Reply(FrameView),
    Ignore,
    EchoClose,
    Stop,
}

impl View for Reaction {
    type V = ReactionView;

    open spec fn view(&self) -> ReactionView {
        match self {
            Reaction::Reply(frame) => ReactionView::Reply(frame@),
            Reaction::Ignore => ReactionView::Ignore,
            Reaction::EchoClose => ReactionView::EchoClose,
            Reaction::Stop => ReactionView::Stop,
        }
    }
}

/// The views of a list of reactions.
pub open spec fn reaction_views(list: Seq<Reaction>) -> Seq<ReactionView> {
    list.map_values(|reaction: Reaction| reaction@)
}

/// What the outbound path is to do next.
#[derive(Debug, PartialEq, Eq)]
pub enum Transmission {
    /// Write this frame, then ask again.
    Send(Frame),
    /// Nothing is pending: wait for the hub, then ask again.
    Wait,
    /// Stop writing.
    Stop,
}

/// A transmission as a mathematical value.
pub enum TransmissionView {
    Send(FrameView),
    Wait,
    Stop,
}

impl View for Transmission {
    type V = TransmissionView;

    open spec fn view(&self) -> TransmissionView {
        match self {
            Transmission::Send(frame) => TransmissionView::Send(frame@),
            Transmission::Wait => TransmissionView::Wait,
            Transmission::Stop => TransmissionView::Stop,
        }
    }
}

impl ConnectionModel {
    /// What each phase means for the rest of the state.
    pub open spec fn wf(self) -> bool {
        match self.phase {
            Phase::Handshaking => self.id is None && !self.inbound && !self.outbound,
            Phase::Open => self.id is Some && self.inbound && self.outbound,
            Phase::Closing => self.id is Some,
            Phase::Closed => self.id is None && !self.inbound && !self.outbound,
        }
    }

    /// A connection whose opening request has not been answered.
    pub open spec fn fresh() -> ConnectionModel {
        ConnectionModel { phase: Phase::Handshaking, id: None, inbound: false, outbound: false }
    }

    /// A connection that is removed from the hub.
    pub open spec fn closed() -> ConnectionModel {
        ConnectionModel { phase: Phase::Closed, id: None, inbound: false, outbound: false }
    }

    /// The connection on its way out, with the inbound path stopped.
    pub open spec fn inbound_stopped(self) -> ConnectionModel {
        ConnectionModel {
            phase: Phase::Closing,
            id: self.id,
            inbound: false,
            outbound: self.outbound,
        }
    }

    /// The connection on its way out, with the outbound path stopped.
    pub open spec fn outbound_stopped(self) -> ConnectionModel {
        ConnectionModel {
            phase: Phase::Closing,
            id: self.id,
            inbound: self.inbound,
            outbound: false,
        }
    }

    /// The handshake. A connection that is not handshaking stays as it is.
    /// A request that is no valid upgrade closes the connection and leaves
    /// the hub alone. A valid one registers the viewer under `token`, unless
    /// the hub has issued that id before, and opens the connection.
    pub open spec fn after_opening(self, hub: HubModel, opening: OpeningView, token: u128) -> (
        ConnectionModel,
        HubModel,
        AnswerView,
    ) {
        let id = ConnectionId(token);
        if self.phase != Phase::Handshaking {
            (self, hub, AnswerView::Nothing)
        } else {
            match opening {
                OpeningView::Refused => (ConnectionModel::closed(), hub, AnswerView::Reject),
                OpeningView::Upgrade(offered) => if hub.issued.contains(id) {
                    (ConnectionModel::closed(), hub, AnswerView::Unavailable)
                } else {
                    (
                        ConnectionModel {
                            phase: Phase::Open,
                            id: Some(id),
                            inbound: true,
                            outbound: true,
                        },
                        hub.register(id),
                        AnswerView::Accept(negotiated(offered)),
                    )
                },
            }
        }
    }

    /// The inbound path. While the connection is open, a ping is answered
    /// with a pong of the same payload, a close frame is echoed and stops
    /// the path, other frames are passed over, and anything that is no
    /// frame stops the path. Once the connection is closing the path stops
    /// at the next event. A path that does not run is told to stop.
    pub open spec fn after_inbound(self, input: InboundView) -> (ConnectionModel, ReactionView) {
        if !self.inbound {
            (self, ReactionView::Stop)
        } else if self.phase == Phase::Open {
            match input {
                InboundView::Frame(FrameView::Ping(payload)) => (
                    self,
                    ReactionView::Reply(FrameView::Pong(payload)),
                ),
                InboundView::Frame(FrameView::Close) => (
                    self.inbound_stopped(),
                    ReactionView::EchoClose,
                ),
                InboundView::Frame(_) => (self, ReactionView::Ignore),
                _ => (self.inbound_stopped(), ReactionView::Stop),
            }
        } else {
            (self.inbound_stopped(), ReactionView::Stop)
        }
    }

    /// The inbound path over the bytes `buffered`, under the payload limit
    /// `limit`: frame after frame is taken from the front and reacted to,
    /// until the path stops or the bytes hold no further whole frame. Gives
    /// the connection after that, the bytes that are left, and the
    /// reactions in order. Bytes that are no frame are left where they are.
    pub open spec fn after_bytes(self, buffered: Seq<u8>, limit: nat) -> (
        ConnectionModel,
        Seq<u8>,
        Seq<ReactionView>,
    )
        decreases buffered.len(),
    {
        if !self.inbound {
            (self, buffered, Seq::empty())
        } else {
            match Inbox::taken(buffered, limit) {
                Ok((Some(frame), rest)) => if rest.len() < buffered.len() {
                    let (next, reaction) = self.after_inbound(InboundView::Frame(frame));
                    let (end, left, more) = next.after_bytes(rest, limit);
                    (end, left, seq![reaction] + more)
                } else {
                    (self, buffered, Seq::empty())
                },
                Ok((None, _)) => (self, buffered, Seq::empty()),
                Err(e) => {
                    let (next, reaction) = self.after_inbound(InboundView::Undecodable(e));
                    (next, buffered, seq![reaction])
                },
            }
        }
    }

    /// The outbound path. While the connection is open it asks the hub for
    /// the viewer's next content and sends it as a text frame, or waits
    /// where nothing is pending; a closed conduit stops the path. Once the
    /// connection is closing the path stops. A path that does not run is
    /// told to stop.
    pub open spec fn after_outbound(self, hub: HubModel) -> (
        ConnectionModel,
        HubModel,
        TransmissionView,
    ) {
        if !self.outbound || self.id is None {
            (self, hub, TransmissionView::Stop)
        } else if self.phase == Phase::Open {
            let id = self.id->0;
            if hub.registered(id) && hub.pending[id].len() > 0 {
                (
                    self,
                    hub.polled(id),
                    TransmissionView::Send(FrameView::Text(encode_utf8(hub.pending[id][0]))),
                )
            } else if hub.registered(id) && hub.open {
                (self, hub.polled(id), TransmissionView::Wait)
            } else {
                (self.outbound_stopped(), hub.polled(id), TransmissionView::Stop)
            }
        } else {
            (self.outbound_stopped(), hub, TransmissionView::Stop)
        }
    }

    /// A failed write on the outbound path stops that path.
    pub open spec fn after_write_failure(self) -> ConnectionModel {
        if self.outbound {
            self.outbound_stopped()
        } else {
            self
        }
    }

    /// Whether both paths of a closing connection have stopped.
    pub open spec fn can_finish(self) -> bool {
        self.phase == Phase::Closing && !self.inbound && !self.outbound
    }

    /// The end: where both paths of a closing connection have stopped, the
    /// viewer is removed from the hub and the connection is closed.
    pub open spec fn after_finish(self, hub: HubModel) -> (ConnectionModel, HubModel, bool) {
        if self.can_finish() {
            (
                ConnectionModel::closed(),
                match self.id {
                    Some(id) => hub.unregister(id),
                    None => hub,
                },
                true,
            )
        } else {
            (self, hub, false)
        }
    }
}

/// Ping and pong: on an open connection a ping is answered with a pong of
/// the same payload, at once and whatever content is pending, since the
/// answer depends on nothing the hub holds; the connection stays open.
pub proof fn lemma_ping_is_answered(connection: ConnectionModel, payload: Seq<u8>)
    requires
        connection.wf(),
        connection.phase == Phase::Open,
    ensures
        connection.after_inbound(InboundView::Frame(FrameView::Ping(payload))) == (
            connection,
            ReactionView::Reply(FrameView::Pong(payload)),
        ),
{
}

/// Isolation: an open connection that gets bytes that are no frame stops
/// both of its paths and closes, its viewer is removed from the hub, and
/// every other registered viewer keeps its pending content and goes on
/// receiving what is published.
pub proof fn lemma_malformed_frame_is_isolated(
    connection: ConnectionModel,
    hub: HubModel,
    error: DecodeError,
    other: ConnectionId,
    content: Seq<char>,
)
    requires
        connection.wf(),
        connection.phase == Phase::Open,
        hub.open,
        hub.registered(other),
        connection.id != Some(other),
    ensures
        ({
            let (refused, reaction) = connection.after_inbound(InboundView::Undecodable(error));
            let (stopped, hub_then, transmission) = refused.after_outbound(hub);
            let (ended, hub_after, done) = stopped.after_finish(hub_then);
            &&& reaction == ReactionView::Stop
            &&& transmission == TransmissionView::Stop
            &&& done
            &&& ended == ConnectionModel::closed()
            &&& !hub_after.registered(connection.id->0)
            &&& hub_after.registered(other)
            &&& hub_after.pending[other] == hub.pending[other]
            &&& hub_after.publish(content).pending[other] == hub.pending[other].push(content)
        }),
{
}

/// Whichever path stops first, the connection ends the same way: it cannot
/// finish while one path still runs, and once both have stopped it finishes
/// by removing its viewer and closing.
pub proof fn lemma_either_path_may_stop_first(
    connection: ConnectionModel,
    hub: HubModel,
    input: InboundView,
)
    requires
        connection.wf(),
        connection.phase == Phase::Open,
        input is Undecodable || input is Failed || input == InboundView::Frame(FrameView::Close),
    ensures
        ({
            let reading_over = connection.after_inbound(input).0;
            let (both_over, hub_then, _) = reading_over.after_outbound(hub);
            &&& reading_over.after_finish(hub) == (reading_over, hub, false)
            &&& hub_then == hub
            &&& both_over.after_finish(hub) == (
                ConnectionModel::closed(),
                hub.unregister(connection.id->0),
                true,
            )
        }),
        ({
            let writing_over = connection.after_write_failure();
            let both_over = writing_over.after_inbound(input).0;
            &&& writing_over.after_finish(hub) == (writing_over, hub, false)
            &&& both_over.after_finish(hub) == (
                ConnectionModel::closed(),
                hub.unregister(connection.id->0),
                true,
            )
        }),
{
}

/// The removal happens once: a closed connection stays closed, whatever
/// happens, and never touches the hub again.
pub proof fn lemma_closed_is_final(
    connection: ConnectionModel,
    hub: HubModel,
    opening: OpeningView,
    token: u128,
    input: InboundView,
)
    requires
        connection.phase == Phase::Closed,
        connection.wf(),
    ensures
        connection.after_opening(hub, opening, token) == (connection, hub, AnswerView::Nothing),
        connection.after_inbound(input) == (connection, ReactionView::Stop),
        connection.after_outbound(hub) == (connection, hub, TransmissionView::Stop),
        connection.after_write_failure() == connection,
        connection.after_finish(hub) == (connection, hub, false),
{
}

/// A failed handshake is local: a request that is no valid upgrade closes
/// the connection without registering anything, and the hub stays as it
/// was.
pub proof fn lemma_refused_handshake_leaves_hub(
    connection: ConnectionModel,
    hub: HubModel,
    token: u128,
)
    requires
        connection.phase == Phase::Handshaking,
    ensures
        connection.after_opening(hub, OpeningView::Refused, token) == (
            ConnectionModel::closed(),
            hub,
            AnswerView::Reject,
        ),
{
}

/// Every step keeps the connection well formed.
pub proof fn lemma_steps_keep_wf(
    connection: ConnectionModel,
    hub: HubModel,
    opening: OpeningView,
    token: u128,
    input: InboundView,
)
    requires
        connection.wf(),
    ensures
        connection.after_opening(hub, opening, token).0.wf(),
        connection.after_inbound(input).0.wf(),
        connection.after_outbound(hub).0.wf(),
        connection.after_write_failure().wf(),
        connection.after_finish(hub).0.wf(),
{
}

/// The handler of one viewer connection.
pub struct Connection {
    phase: Phase,
    id: Option<ConnectionId>,
    inbound: bool,
    outbound: bool,
}

impl View for Connection {
    type V = ConnectionModel;

    closed spec fn view(&self) -> ConnectionModel {
        ConnectionModel {
            phase: self.phase,
            id: self.id,
            inbound: self.inbound,
            outbound: self.outbound,
        }
    }
}

impl Connection {
    /// The representation invariant, that of the model.
    pub open spec fn wf(&self) -> bool {
        self@.wf()
    }

    /// A connection whose opening request has not been answered.
    pub fn new() -> (connection: Connection)
        ensures
            connection.wf(),
            connection@ == ConnectionModel::fresh(),
    {
        Connection { phase: Phase::Handshaking, id: None, inbound: false, outbound: false }
    }

    /// Where the connection stands.
    pub fn phase(&self) -> (phase: Phase)
        ensures
            phase == self@.phase,
    {
        self.phase
    }

    /// The id under which the viewer is registered, while it is.
    pub fn id(&self) -> (id: Option<ConnectionId>)
        ensures
            id == self@.id,
    {
        self.id
    }

    /// Whether the inbound path runs.
    pub fn inbound_running(&self) -> (running: bool)
        ensures
            running == self@.inbound,
    {
        self.inbound
    }

    /// Whether the outbound path runs.
    pub fn outbound_running(&self) -> (running: bool)
        ensures
            running == self@.outbound,
    {
        self.outbound
    }

    /// Answers the opening request, registering the viewer under the id
    /// `token` where the request is a valid upgrade.
    pub fn open_with(&mut self, hub: &mut Hub, opening: &Opening, token: u128) -> (answer: Answer)
        requires
            old(self).wf(),
            old(hub).wf(),
        ensures
            final(self).wf(),
            final(hub).wf(),
            (final(self)@, final(hub)@, answer@) == old(self)@.after_opening(
                old(hub)@,
                opening@,
                token,
            ),
    {
        if self.phase != Phase::Handshaking {
            return Answer::Nothing;
        }
        match opening {
            Opening::Refused => {
                self.phase = Phase::Closed;
                Answer::Reject
            },
            Opening::Upgrade(offered) => {
                match hub.register_with(token) {
                    Ok(id) => {
                        self.phase = Phase::Open;
                        self.id = Some(id);
                        self.inbound = true;
                        self.outbound = true;
                        Answer::Accept(negotiate(offered))
                    },
                    Err(_) => {
                        self.phase = Phase::Closed;
                        Answer::Unavailable
                    },
                }
            },
        }
    }

    /// Answers the opening request, registering the viewer under a freshly
    /// drawn random id where the request is a valid upgrade.
    ///
    /// Which id is drawn is not determined; whichever it is, the outcome is
    /// that of [`Connection::open_with`] on it. No id is drawn for a request
    /// that is refused.
    pub fn open(&mut self, hub: &mut Hub, opening: &Opening) -> (answer: Answer)
        requires
            old(self).wf(),
            old(hub).wf(),
        ensures
            final(self).wf(),
            final(hub).wf(),
            exists|token: u128|
                (final(self)@, final(hub)@, answer@) == #[trigger] old(self)@.after_opening(
                    old(hub)@,
                    opening@,
                    token,
                ),
    {
        let token = match opening {
            Opening::Upgrade(_) => random_token(),
            Opening::Refused => 0,
        };
        self.open_with(hub, opening, token)
    }

    /// Takes what the inbound path got and says what it is to do next.
    pub fn on_inbound(&mut self, input: Inbound) -> (reaction: Reaction)
        requires
            old(self).wf(),
        ensures
            final(self).wf(),
            (final(self)@, reaction@) == old(self)@.after_inbound(input@),
    {
        if !self.inbound {
            return Reaction::Stop;
        }
        if self.phase != Phase::Open {
            self.phase = Phase::Closing;
            self.inbound = false;
            return Reaction::Stop;
        }
        match input {
            Inbound::Frame(Frame::Ping(payload)) => Reaction::Reply(Frame::Pong(payload)),
            Inbound::Frame(Frame::Close) => {
                self.phase = Phase::Closing;
                self.inbound = false;
                Reaction::EchoClose
            },
            Inbound::Frame(_) => Reaction::Ignore,
            _ => {
                self.phase = Phase::Closing;
                self.inbound = false;
                Reaction::Stop
            },
        }
    }

    /// Takes the bytes that the transport has delivered, and reacts to
    /// every whole frame that the inbox now holds, in order, until the
    /// inbound path stops or the inbox holds no further whole frame.
    pub fn receive(&mut self, inbox: &mut Inbox, bytes: &[u8]) -> (reactions: Vec<Reaction>)
        requires
            old(self).wf(),
            old(inbox).wf(),
        ensures
            final(self).wf(),
            final(inbox).wf(),
            final(inbox).limit() == old(inbox).limit(),
            (final(self)@, final(inbox)@, reaction_views(reactions@)) == old(self)@.after_bytes(
                old(inbox)@ + bytes@,
                old(inbox).limit(),
            ),
    {
        inbox.feed(bytes);
        let mut reactions: Vec<Reaction> = Vec::new();
        let mut starved = false;
        let ghost limit = inbox.limit();
        let ghost goal = self@.after_bytes(inbox@, limit);
        assert(reaction_views(reactions@) + goal.2 =~= goal.2);
        while self.inbound && !starved
            invariant
                self.wf(),
                inbox.wf(),
                inbox.limit() == limit,
                starved ==> Inbox::taken(inbox@, limit) matches Ok((None, _)),
                goal.0 == self@.after_bytes(inbox@, limit).0,
                goal.1 == self@.after_bytes(inbox@, limit).1,
                goal.2 == reaction_views(reactions@) + self@.after_bytes(inbox@, limit).2,
            decreases inbox@.len() + if starved { 0int } else { 1int } + if self@.inbound {
                    1int
                } else {
                    0int
                },
        {
            let ghost before = self@;
            let ghost buffered = inbox@;
            let ghost done = reaction_views(reactions@);
            match inbox.next_frame() {
                Ok(Some(frame)) => {
                    let reaction = self.on_inbound(Inbound::Frame(frame));
                    reactions.push(reaction);
                    proof {
                        let rest = self@.after_bytes(inbox@, limit).2;
                        assert(reaction_views(reactions@) =~= done.push(reaction@));
                        assert(done.push(reaction@) + rest =~= done + (seq![reaction@] + rest));
                    }
                },
                Ok(None) => {
                    starved = true;
                },
                Err(e) => {
                    let reaction = self.on_inbound(Inbound::Undecodable(e));
                    reactions.push(reaction);
                    proof {
                        assert(!self@.inbound);
                        assert(reaction_views(reactions@) =~= done.push(reaction@));
                        assert(done.push(reaction@) + Seq::<ReactionView>::empty() =~= done
                            + seq![reaction@]);
                    }
                },
            }
        }
        proof {
            assert(self@.after_bytes(inbox@, limit).2 =~= Seq::<ReactionView>::empty());
            assert(reaction_views(reactions@) + Seq::<ReactionView>::empty() =~= reaction_views(
                reactions@,
            ));
        }
        reactions
    }

    /// Asks the hub for the viewer's next content and says what the
    /// outbound path is to do next.
    pub fn on_outbound(&mut self, hub: &mut Hub) -> (transmission: Transmission)
        requires
            old(self).wf(),
            old(hub).wf(),
        ensures
            final(self).wf(),
            final(hub).wf(),
            (final(self)@, final(hub)@, transmission@) == old(self)@.after_outbound(old(hub)@),
    {
        if !self.outbound {
            return Transmission::Stop;
        }
        let id = match self.id {
            Some(id) => id,
            None => {
                return Transmission::Stop;
            },
        };
        if self.phase != Phase::Open {
            self.phase = Phase::Closing;
            self.outbound = false;
            return Transmission::Stop;
        }
        match hub.next_outbound(id) {
            Outbound::Content(content) => Transmission::Send(Frame::text(content.as_str())),
            Outbound::Idle => Transmission::Wait,
            Outbound::Closed => {
                self.phase = Phase::Closing;
                self.outbound = false;
                Transmission::Stop
            },
        }
    }

    /// Records that a write on the outbound path failed.
    pub fn on_write_failure(&mut self)
        requires
            old(self).wf(),
        ensures
            final(self).wf(),
            final(self)@ == old(self)@.after_write_failure(),
    {
        if self.outbound {
            self.phase = Phase::Closing;
            self.outbound = false;
        }
    }

    /// Ends the connection once both of its paths have stopped: removes
    /// the viewer from the hub and says `true`, which is the signal to
    /// release the transport. In every other state nothing happens and the
    /// answer is `false`, so the removal happens once.
    pub fn finish(&mut self, hub: &mut Hub) -> (done: bool)
        requires
            old(self).wf(),
            old(hub).wf(),
        ensures
            final(self).wf(),
            final(hub).wf(),
            (final(self)@, final(hub)@, done) == old(self)@.after_finish(old(hub)@),
    {
        if self.phase == Phase::Closing && !self.inbound && !self.outbound {
            match self.id {
                Some(id) => {
                    hub.unregister(id);
                },
                None => {},
            }
            self.phase = Phase::Closed;
            self.id = None;
            true
        } else {
            false
        }
    }
}

} // verus!
