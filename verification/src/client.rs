//! The client as a state machine. It decides; the transport around it
//! performs: it writes the datagrams that `send` and `poll` hand out, feeds
//! every datagram it reads to `receive`, and reports how its own work went.

use crate::ack::{
    acknowledged, correlation_of, correlation_views, deadline_from, event_views, oldest_waiting,
    survivors, timer_events, AckTable, Correlation, CorrelationView, PendingAckView, RetryPolicy,
    TimerEvent, ACK_TYPE,
};
use crate::adapter::{MessageListener, MessageType, Serializable, StaticToken, Token};
use crate::error::{AuthError, BindError, FormatError, IoError, ReceiveError, SendError};
use crate::frame::{
    ack_byte, decode, decode_spec, encode, encode_spec, reported_size, Frame, FrameView,
    HEADER_LEN, PACKAGE_SIZE, TOKEN_LEN,
};
use crate::identity::{identity_bytes, IDENTITY_LEN};
use crate::registry::{
    codes_of, lemma_unregistered_type_reaches_nobody, matching, Invocation, Registration, Registry,
};
use uuid::Uuid;
use vstd::prelude::*;

verus! {

/// The wait for a first acknowledgment, unless a policy says otherwise.
pub const DEFAULT_ACK_TIMEOUT: u64 = 1000;

/// The number of resends, unless a policy says otherwise.
pub const DEFAULT_RETRIES: u32 = 3;

/// Where a client stands in its life.
#[derive(Debug, Clone, Copy, PartialEq, Eq, Structural)]
pub enum ClientState {
    /// Constructed; the transport has not reported a socket yet.
    Unbound,
    /// The socket is there: the client sends, nothing is read yet.
    Bound,
    /// The receive loop runs.
    Running,
    /// Shut down, for good.
    Closed,
}

/// A datagram for the transport to write to the destination, and the name
/// under which its acknowledgment is awaited, if one was asked for.
#[derive(Debug, PartialEq, Eq)]
pub struct Outbound {
    pub datagram: Vec<u8>,
    pub correlation: Option<Correlation>,
}

/// An outbound datagram as mathematics sees it.
pub struct OutboundView {
    pub datagram: Seq<u8>,
    pub correlation: Option<CorrelationView>,
}

impl View for Outbound {
    type V = OutboundView;

    open spec fn view(&self) -> OutboundView {
        OutboundView {
            datagram: self.datagram@,
            correlation: match self.correlation {
                Some(c) => Some(c@),
                None => None,
            },
        }
    }
}

/// What became of an inbound frame that was accepted.
#[derive(Debug, PartialEq, Eq)]
pub enum Received {
    /// It acknowledged the send of this name, which waits no more.
    Acknowledged(Correlation),
    /// It was an acknowledgment that no waiting send answers to.
    UnmatchedAck,
    /// It went to the listeners of its type; each one's answer is reported.
    Delivered(Vec<Invocation>),
}

/// What the client decides about an inbound datagram.
pub enum Disposition {
    /// Dropped: the receive loop does not run.
    NotRunning,
    /// Dropped: no frame.
    Malformed(FormatError),
    /// Dropped, silently: the token was not accepted.
    Unauthenticated,
    /// The acknowledgment of a waiting send.
    Acknowledged(CorrelationView),
    /// An acknowledgment without a waiting send.
    UnmatchedAck,
    /// Handed to the listeners at these positions, in this order.
    Routed(Seq<int>),
}

/// The client's state as mathematics sees it.
pub struct ClientView<A, K, L> {
    pub server_addr: A,
    pub token: K,
    pub identity: Seq<u8>,
    pub state: ClientState,
    pub registrations: Seq<Registration<L>>,
    pub pending: Seq<PendingAckView>,
    pub next_sequence: u64,
    pub policy: RetryPolicy,
}

/// The sequence number that follows `sequence`; after the largest comes 0.
pub open spec fn following(sequence: u64) -> u64 {
    if sequence == u64::MAX {
        0
    } else {
        (sequence + 1) as u64
    }
}

impl<A, K, L> ClientView<A, K, L> {
    /// A client can send while it is bound or running.
    pub open spec fn ready(self) -> bool {
        self.state == ClientState::Bound || self.state == ClientState::Running
    }

    /// The frame that a send of this client makes of its arguments.
    pub open spec fn frame(
        self,
        token: Seq<u8>,
        type_code: u8,
        payload: Seq<u8>,
        need_ack: bool,
    ) -> FrameView {
        FrameView { token, sender: self.identity, ack_requested: need_ack, type_code, payload }
    }

    /// What a send answers: an error where the frame does not fit one
    /// datagram, whatever state the client is in, and else while the client
    /// is not ready; otherwise the frame's bytes, with the next sequence
    /// number as correlation if an acknowledgment is asked for.
    pub open spec fn send_outcome(
        self,
        token: Seq<u8>,
        type_code: u8,
        payload: Seq<u8>,
        need_ack: bool,
    ) -> Result<OutboundView, SendError> {
        match encode_spec(self.frame(token, type_code, payload, need_ack)) {
            Err(e) => Err(SendError::Format(e)),
            Ok(datagram) => if !self.ready() {
                Err(SendError::NotReady)
            } else {
                Ok(
                    OutboundView {
                        datagram,
                        correlation: if need_ack {
                            Some(
                                CorrelationView {
                                    identity: self.identity,
                                    sequence: self.next_sequence,
                                },
                            )
                        } else {
                            None
                        },
                    },
                )
            },
        }
    }

    /// The client after a send with the given answer: a sequence number is
    /// used up where a correlation was handed out; nothing else changes.
    pub open spec fn after_send(self, outcome: Result<OutboundView, SendError>) -> Self {
        match outcome {
            Ok(outbound) => if outbound.correlation is Some {
                ClientView { next_sequence: following(self.next_sequence), ..self }
            } else {
                self
            },
            Err(_) => self,
        }
    }

    /// What the client answers when the transport has tried to write a
    /// datagram.
    pub open spec fn completion(self, written: Result<(), IoError>) -> Result<(), SendError> {
        match written {
            Err(e) => Err(SendError::Io(e)),
            Ok(_) => if self.ready() {
                Ok(())
            } else {
                Err(SendError::NotReady)
            },
        }
    }

    /// The client after that: a written datagram that asked for an
    /// acknowledgment now waits for it, with the deadline counted from `now`.
    pub open spec fn after_completion(
        self,
        outbound: OutboundView,
        written: Result<(), IoError>,
        now: u64,
    ) -> Self {
        match (self.completion(written), outbound.correlation) {
            (Ok(_), Some(correlation)) => ClientView {
                pending: self.pending.push(
                    PendingAckView {
                        correlation,
                        datagram: outbound.datagram,
                        deadline: deadline_from(now, self.policy.timeout),
                        timeout: self.policy.timeout,
                        retries_remaining: self.policy.retries,
                    },
                ),
                ..self
            },
            _ => self,
        }
    }

    /// What the client decides about a decoded frame, given whether its
    /// token was accepted.
    pub open spec fn disposition(self, frame: FrameView, token_valid: bool) -> Disposition {
        if self.state != ClientState::Running {
            Disposition::NotRunning
        } else if !token_valid {
            Disposition::Unauthenticated
        } else if frame.type_code == ACK_TYPE {
            match correlation_of(frame.payload) {
                Some(c) => if oldest_waiting(self.pending, c) is Some {
                    Disposition::Acknowledged(c)
                } else {
                    Disposition::UnmatchedAck
                },
                None => Disposition::UnmatchedAck,
            }
        } else {
            Disposition::Routed(matching(codes_of(self.registrations), frame.type_code))
        }
    }

    /// The client after a frame: the send that the frame acknowledges waits
    /// no more; nothing else ever changes.
    pub open spec fn after_frame(self, frame: FrameView, token_valid: bool) -> Self {
        match self.disposition(frame, token_valid) {
            Disposition::Acknowledged(c) => ClientView {
                pending: acknowledged(self.pending, c),
                ..self
            },
            _ => self,
        }
    }

    /// What the client decides about a datagram, given whether the token of
    /// the frame in it was accepted.
    pub open spec fn handling(self, datagram: Seq<u8>, token_valid: bool) -> Disposition {
        if self.state != ClientState::Running {
            Disposition::NotRunning
        } else {
            match decode_spec(datagram) {
                Err(e) => Disposition::Malformed(e),
                Ok(frame) => self.disposition(frame, token_valid),
            }
        }
    }

    /// The client after a datagram.
    pub open spec fn after_datagram(self, datagram: Seq<u8>, token_valid: bool) -> Self {
        match decode_spec(datagram) {
            Err(_) => self,
            Ok(frame) => self.after_frame(frame, token_valid),
        }
    }

    /// The client with one more listener, registered behind the others.
    pub open spec fn with_listener(self, type_code: u8, listener: L) -> Self {
        ClientView {
            registrations: self.registrations.push(Registration { type_code, listener }),
            ..self
        }
    }

    /// The client once it is closed: nothing waits any more.
    pub open spec fn closed(self) -> Self {
        ClientView {
            state: ClientState::Closed,
            pending: Seq::<PendingAckView>::empty(),
            ..self
        }
    }
}

/// A frame that would exceed one datagram is never sent: the send answers
/// with the size that was asked for and the ceiling, nothing is handed to the
/// transport, and the client is as it was.
pub proof fn lemma_oversized_send_is_refused<A, K, L>(
    client: ClientView<A, K, L>,
    token: Seq<u8>,
    type_code: u8,
    payload: Seq<u8>,
    need_ack: bool,
)
    requires
        HEADER_LEN + payload.len() > PACKAGE_SIZE,
    ensures
        client.send_outcome(token, type_code, payload, need_ack) == Err::<OutboundView, SendError>(
            SendError::Format(
                FormatError::PayloadTooLarge {
                    size: reported_size(HEADER_LEN + payload.len()),
                    limit: PACKAGE_SIZE,
                },
            ),
        ),
        client.after_send(client.send_outcome(token, type_code, payload, need_ack)) == client,
{
}

/// A frame whose token was not accepted reaches no listener, acknowledges
/// nothing, and leaves the client as it was.
pub proof fn lemma_invalid_token_is_dropped<A, K, L>(client: ClientView<A, K, L>, frame: FrameView)
    ensures
        client.disposition(frame, false) is NotRunning || client.disposition(frame, false)
            is Unauthenticated,
        client.state == ClientState::Running ==> client.disposition(frame, false)
            is Unauthenticated,
        client.after_frame(frame, false) == client,
{
}

/// A frame of a type that nobody listens for is accepted without error:
/// it is routed to no listener, and the client is as it was.
pub proof fn lemma_unlistened_type_is_accepted<A, K, L>(
    client: ClientView<A, K, L>,
    frame: FrameView,
)
    requires
        client.state == ClientState::Running,
        frame.type_code != ACK_TYPE,
        forall|i: int|
            0 <= i < client.registrations.len() ==> (#[trigger] client.registrations[i]).type_code
                != frame.type_code,
    ensures
        client.disposition(frame, true) == Disposition::Routed(Seq::<int>::empty()),
        client.after_frame(frame, true) == client,
{
    let codes = codes_of(client.registrations);
    assert forall|i: int| 0 <= i < codes.len() implies codes[i] != frame.type_code by {
        assert(codes[i] == client.registrations[i].type_code);
    }
    lemma_unregistered_type_reaches_nobody(codes, frame.type_code);
}

/// The answer of a send, with the outbound datagram seen as mathematics
/// sees it.
pub open spec fn sent_view(result: Result<Outbound, SendError>) -> Result<
    OutboundView,
    SendError,
> {
    match result {
        Ok(outbound) => Ok(outbound@),
        Err(e) => Err(e),
    }
}

/// Whether what `receive` answered is what the client decided.
pub open spec fn reflects(result: Result<Received, ReceiveError>, decided: Disposition) -> bool {
    match decided {
        Disposition::NotRunning => result matches Err(ReceiveError::NotRunning),
        Disposition::Malformed(e) => result matches Err(ReceiveError::Format(err)) && err == e,
        Disposition::Unauthenticated => result matches Err(ReceiveError::Auth(_)),
        Disposition::Acknowledged(c) => result matches Ok(Received::Acknowledged(r)) && r@ == c,
        Disposition::UnmatchedAck => result matches Ok(Received::UnmatchedAck),
        Disposition::Routed(listeners) => {
            &&& result matches Ok(Received::Delivered(report))
            &&& report@.len() == listeners.len()
            &&& forall|k: int|
                0 <= k < report@.len() ==> (#[trigger] report@[k]).listener == listeners[k]
        },
    }
}

/// The protocol core of one client: its identity, its destination, its
/// token adapter, its listeners and the sends that wait for an
/// acknowledgment.
pub struct Client<A, K, L> {
    server_addr: A,
    user_id: Uuid,
    token: K,
    state: ClientState,
    registry: Registry<L>,
    pending: AckTable,
    next_sequence: u64,
    policy: RetryPolicy,
}

impl<A, K, L> View for Client<A, K, L> {
    type V = ClientView<A, K, L>;

    closed spec fn view(&self) -> ClientView<A, K, L> {
        ClientView {
            server_addr: self.server_addr,
            token: self.token,
            identity: identity_bytes(self.user_id),
            state: self.state,
            registrations: self.registry@,
            pending: self.pending@,
            next_sequence: self.next_sequence,
            policy: self.policy,
        }
    }
}

impl<A, K: Token, L: MessageListener> Client<A, K, L> {
    /// A client for `server_addr` with the identity `user_id`, whose frames
    /// carry the credentials of `token`. It waits for the transport to
    /// report its socket.
    pub fn with_token(server_addr: A, user_id: Uuid, token: K) -> (client: Self)
        ensures
            client@ == (ClientView {
                server_addr,
                token,
                identity: identity_bytes(user_id),
                state: ClientState::Unbound,
                registrations: Seq::<Registration<L>>::empty(),
                pending: Seq::<PendingAckView>::empty(),
                next_sequence: 0,
                policy: RetryPolicy { timeout: DEFAULT_ACK_TIMEOUT, retries: DEFAULT_RETRIES },
            }),
    {
        Client {
            server_addr,
            user_id,
            token,
            state: ClientState::Unbound,
            registry: Registry::new(),
            pending: AckTable::new(),
            next_sequence: 0,
            policy: RetryPolicy { timeout: DEFAULT_ACK_TIMEOUT, retries: DEFAULT_RETRIES },
        }
    }

    /// Where the client stands.
    pub fn state(&self) -> (state: ClientState)
        ensures
            state == self@.state,
    {
        self.state
    }

    /// The identity under which the client sends.
    pub fn user_id(&self) -> (user_id: Uuid)
        ensures
            identity_bytes(user_id) == self@.identity,
    {
        self.user_id
    }

    /// The destination of every datagram that the client hands out.
    pub fn server_addr(&self) -> (server_addr: &A)
        ensures
            *server_addr == self@.server_addr,
    {
        &self.server_addr
    }

    /// Number of sends that wait for an acknowledgment.
    pub fn pending_count(&self) -> (n: usize)
        ensures
            n == self@.pending.len(),
    {
        self.pending.len()
    }

    /// Number of registered listeners.
    pub fn listener_count(&self) -> (n: usize)
        ensures
            n == self@.registrations.len(),
    {
        self.registry.len()
    }

    /// Sets the wait and the retries for the sends to come. Sends that wait
    /// already keep theirs.
    pub fn set_retry_policy(&mut self, policy: RetryPolicy)
        ensures
            final(self)@ == (ClientView { policy, ..old(self)@ }),
    {
        self.policy = policy;
    }

    /// Takes note of how the transport fared in acquiring the local socket.
    /// A client that waited for it is bound if there is one, and closed for
    /// good if not; any other client is left as it is.
    pub fn bind(&mut self, acquired: Result<(), IoError>) -> (result: Result<(), BindError>)
        ensures
            old(self)@.state != ClientState::Unbound ==> result == Err::<(), BindError>(
                BindError::NotUnbound,
            ) && final(self)@ == old(self)@,
            old(self)@.state == ClientState::Unbound ==> match acquired {
                Ok(_) => result is Ok && final(self)@ == (ClientView {
                    state: ClientState::Bound,
                    ..old(self)@
                }),
                Err(e) => result == Err::<(), BindError>(BindError::SocketUnavailable(e))
                    && final(self)@ == (ClientView { state: ClientState::Closed, ..old(self)@ }),
            },
    {
        match self.state {
            ClientState::Unbound => match acquired {
                Ok(_) => {
                    self.state = ClientState::Bound;
                    Ok(())
                },
                Err(e) => {
                    self.state = ClientState::Closed;
                    Err(BindError::SocketUnavailable(e))
                },
            },
            _ => Err(BindError::NotUnbound),
        }
    }

    /// Starts the receive loop of a bound client. Says whether it did: a
    /// client has one receive loop, and only once it is bound.
    pub fn start(&mut self) -> (started: bool)
        ensures
            started == (old(self)@.state == ClientState::Bound),
            final(self)@ == if started {
                ClientView { state: ClientState::Running, ..old(self)@ }
            } else {
                old(self)@
            },
    {
        match self.state {
            ClientState::Bound => {
                self.state = ClientState::Running;
                true
            },
            _ => false,
        }
    }

    /// Frames `payload` for the destination. Nothing is handed out, and
    /// nothing changes, where the frame would exceed one datagram or while
    /// the client is not ready. A send that asks for an acknowledgment
    /// gets the next sequence number as its correlation.
    pub fn send_frame(
        &mut self,
        token: &[u8; 500],
        type_code: u8,
        payload: &[u8],
        need_ack: bool,
    ) -> (result: Result<Outbound, SendError>)
        ensures
            sent_view(result) == old(self)@.send_outcome(token@, type_code, payload@, need_ack),
            final(self)@ == old(self)@.after_send(
                old(self)@.send_outcome(token@, type_code, payload@, need_ack),
            ),
            result matches Ok(out) ==> out.datagram@.len() == HEADER_LEN + payload@.len(),
    {
        let datagram = match encode(token, &self.user_id, need_ack, type_code, payload) {
            Ok(datagram) => datagram,
            Err(e) => {
                return Err(SendError::Format(e));
            },
        };
        match self.state {
            ClientState::Bound | ClientState::Running => {},
            _ => {
                return Err(SendError::NotReady);
            },
        }
        if need_ack {
            let correlation = Correlation { identity: self.user_id, sequence: self.next_sequence };
            self.next_sequence = self.next_sequence.wrapping_add(1);
            Ok(Outbound { datagram, correlation: Some(correlation) })
        } else {
            Ok(Outbound { datagram, correlation: None })
        }
    }

    /// Sends `data` as a message of type `msg_type`: the payload adapter
    /// gives the bytes, the token adapter the credential, and `send_frame`
    /// does the rest with whatever they gave.
    pub fn send<T: MessageType, S: Serializable>(
        &mut self,
        data: S,
        msg_type: T,
        need_ack: bool,
    ) -> (result: Result<Outbound, SendError>)
        ensures
            exists|token: Seq<u8>, type_code: u8, payload: Seq<u8>|
                {
                    &&& token.len() == TOKEN_LEN
                    &&& sent_view(result) == #[trigger] old(self)@.send_outcome(
                        token,
                        type_code,
                        payload,
                        need_ack,
                    )
                    &&& final(self)@ == old(self)@.after_send(
                        old(self)@.send_outcome(token, type_code, payload, need_ack),
                    )
                },
            result is Err ==> final(self)@ == old(self)@,
            result matches Ok(out) ==> {
                &&& old(self)@.ready()
                &&& HEADER_LEN <= out.datagram@.len() <= PACKAGE_SIZE
                &&& out.datagram@.subrange(TOKEN_LEN as int, TOKEN_LEN + IDENTITY_LEN) == old(
                    self,
                )@.identity
                &&& out.datagram@[TOKEN_LEN + IDENTITY_LEN] == ack_byte(need_ack)
                &&& out@.correlation == if need_ack {
                    Some(
                        CorrelationView {
                            identity: old(self)@.identity,
                            sequence: old(self)@.next_sequence,
                        },
                    )
                } else {
                    None
                }
            },
    {
        let payload = data.serialize();
        let type_code = msg_type.code()[0];
        let token: [u8; 500] = *self.token.as_bytes();
        let ghost before = self@;
        let result = self.send_frame(&token, type_code, payload, need_ack);
        proof {
            let outcome = before.send_outcome(token@, type_code, payload@, need_ack);
            assert(sent_view(result) == outcome);
            if result is Ok {
                let sent = result->Ok_0.datagram@;
                assert(sent == before.frame(token@, type_code, payload@, need_ack).to_bytes());
                assert(sent.subrange(TOKEN_LEN as int, TOKEN_LEN + IDENTITY_LEN)
                    =~= before.identity);
            }
        }
        result
    }

    /// Takes note of how the transport fared in writing `outbound`. A write
    /// that failed is the failure of the send. After a write that worked, a
    /// datagram that asked for an acknowledgment waits for it from `now` on.
    pub fn complete_send(
        &mut self,
        outbound: Outbound,
        written: Result<(), IoError>,
        now: u64,
    ) -> (result: Result<(), SendError>)
        ensures
            result == old(self)@.completion(written),
            final(self)@ == old(self)@.after_completion(outbound@, written, now),
    {
        if let Err(e) = written {
            return Err(SendError::Io(e));
        }
        match self.state {
            ClientState::Bound | ClientState::Running => {},
            _ => {
                return Err(SendError::NotReady);
            },
        }
        if let Some(correlation) = outbound.correlation {
            self.pending.track(correlation, outbound.datagram, now, self.policy);
        }
        Ok(())
    }

    /// Registers `listener` for the message type with code `type_code`,
    /// behind the listeners registered before.
    pub fn register_listener(&mut self, type_code: u8, listener: L)
        ensures
            final(self)@ == old(self)@.with_listener(type_code, listener),
    {
        self.registry.register(type_code, listener);
    }

    /// Registers `message_listener` for `message_type`, under whatever code
    /// the type gives.
    pub fn add_message_listener<MT: MessageType>(&mut self, message_type: MT, message_listener: L)
        ensures
            exists|type_code: u8|
                final(self)@ == #[trigger] old(self)@.with_listener(type_code, message_listener),
    {
        let type_code = message_type.code()[0];
        self.register_listener(type_code, message_listener);
    }

    /// Acts on a decoded frame, given whether its token was accepted. A frame
    /// with a token that was not accepted changes nothing and reaches no
    /// listener. An acknowledgment ends the wait of the send it names. Every
    /// other frame goes to the listeners of its type, in registration order.
    pub fn accept(&mut self, frame: &Frame, token_valid: bool) -> (result: Result<
        Received,
        ReceiveError,
    >)
        ensures
            reflects(result, old(self)@.disposition(frame@, token_valid)),
            final(self)@ == old(self)@.after_frame(frame@, token_valid),
    {
        match self.state {
            ClientState::Running => {},
            _ => {
                return Err(ReceiveError::NotRunning);
            },
        }
        if !token_valid {
            return Err(ReceiveError::Auth(AuthError));
        }
        let type_code = frame.message.msg_type.code()[0];
        if type_code == ACK_TYPE {
            match Correlation::from_bytes(frame.message.data) {
                Some(correlation) => {
                    if self.pending.acknowledge(&correlation) {
                        Ok(Received::Acknowledged(correlation))
                    } else {
                        Ok(Received::UnmatchedAck)
                    }
                },
                None => Ok(Received::UnmatchedAck),
            }
        } else {
            let report = self.registry.route(type_code, &frame.message.user_id, frame.message.data);
            Ok(Received::Delivered(report))
        }
    }

    /// Acts on a datagram that the transport read: decodes it, lets the
    /// token adapter judge its token, and accepts the frame accordingly.
    /// Whatever the adapter says, a datagram that is no frame is dropped, and
    /// so is every datagram while the receive loop does not run.
    pub fn receive(&mut self, datagram: &[u8]) -> (result: Result<Received, ReceiveError>)
        ensures
            exists|token_valid: bool|
                {
                    &&& reflects(result, #[trigger] old(self)@.handling(datagram@, token_valid))
                    &&& final(self)@ == old(self)@.after_datagram(datagram@, token_valid)
                },
            old(self)@.state != ClientState::Running ==> (result matches Err(
                ReceiveError::NotRunning,
            )) && final(self)@ == old(self)@,
            old(self)@.state == ClientState::Running ==> (decode_spec(datagram@) matches Err(e)
                ==> result == Err::<Received, ReceiveError>(ReceiveError::Format(e))
                && final(self)@ == old(self)@),
    {
        match self.state {
            ClientState::Running => {},
            _ => {
                let dropped = Err(ReceiveError::NotRunning);
                assert(reflects(dropped, self@.handling(datagram@, true)));
                return dropped;
            },
        }
        let frame = match decode(datagram) {
            Ok(frame) => frame,
            Err(e) => {
                let dropped = Err(ReceiveError::Format(e));
                assert(reflects(dropped, self@.handling(datagram@, true)));
                return dropped;
            },
        };
        let token_valid = self.token.validate(frame.token, &frame.message.user_id);
        let ghost before = self@;
        let result = self.accept(&frame, token_valid);
        assert(reflects(result, before.handling(datagram@, token_valid)));
        result
    }

    /// Looks at the clock: every send whose acknowledgment is overdue goes
    /// out again if it has a retry left, and has failed if it has none.
    pub fn poll(&mut self, now: u64) -> (events: Vec<TimerEvent>)
        ensures
            event_views(events@) == timer_events(old(self)@.pending, now),
            final(self)@ == (ClientView {
                pending: survivors(old(self)@.pending, now),
                ..old(self)@
            }),
    {
        self.pending.poll(now)
    }

    /// Shuts the client down. Every send that still waited is cancelled and
    /// named, oldest first.
    pub fn close(&mut self) -> (cancelled: Vec<Correlation>)
        ensures
            correlation_views(cancelled@) == old(self)@.pending.map_values(
                |p: PendingAckView| p.correlation,
            ),
            final(self)@ == old(self)@.closed(),
    {
        self.state = ClientState::Closed;
        self.pending.cancel_all()
    }

    /// Takes note that the transport failed to read. After a failure that may
    /// pass, the client goes on as it was; after one that will not, it is
    /// closed, and the sends that waited are cancelled and named.
    pub fn receive_failed(&mut self, error: IoError) -> (cancelled: Vec<Correlation>)
        ensures
            error == IoError::Transient ==> cancelled@.len() == 0 && final(self)@ == old(self)@,
            error == IoError::Persistent ==> correlation_views(cancelled@) == old(
                self,
            )@.pending.map_values(|p: PendingAckView| p.correlation) && final(self)@ == old(
                self,
            )@.closed(),
    {
        match error {
            IoError::Transient => Vec::new(),
            IoError::Persistent => self.close(),
        }
    }
}

impl<A, L: MessageListener> Client<A, StaticToken, L> {
    /// A client for `server_addr` with the identity `user_id`, whose frames
    /// carry the shared credential of 500 bytes 244.
    pub fn new(server_addr: A, user_id: Uuid) -> (client: Self)
        ensures
            client@.server_addr == server_addr,
            client@.token@ == Seq::new(TOKEN_LEN as nat, |i: int| 244u8),
            client@.identity == identity_bytes(user_id),
            client@.state == ClientState::Unbound,
            client@.registrations == Seq::<Registration<L>>::empty(),
            client@.pending == Seq::<PendingAckView>::empty(),
            client@.next_sequence == 0,
            client@.policy == (RetryPolicy {
                timeout: DEFAULT_ACK_TIMEOUT,
                retries: DEFAULT_RETRIES,
            }),
    {
        let bytes: [u8; 500] = [244u8; 500];
        assert(bytes@ =~= Seq::new(TOKEN_LEN as nat, |i: int| 244u8));
        Self::with_token(server_addr, user_id, StaticToken::new(bytes))
    }
}

} // verus!
