use datagram_client::{
    encode, AuthError, BindError, Client, ClientState, Correlation, FormatError, Invocation,
    IoError, ListenerError, MessageListener, MessageType, Outbound, ReceiveError, Received,
    RetryPolicy, SendError, Serializable, StaticToken, TimerEvent, Token, ACK_TYPE,
};
use std::cell::RefCell;
use std::rc::Rc;
use uuid::Uuid;

type Log = Rc<RefCell<Vec<(&'static str, Uuid, Vec<u8>)>>>;

struct Recorder {
    name: &'static str,
    log: Log,
    fails: bool,
}

impl MessageListener for Recorder {
    fn message_recived(&self, user_id: Uuid, data: &[u8]) -> Result<(), ListenerError> {
        self.log.borrow_mut().push((self.name, user_id, data.to_vec()));
        if self.fails {
            Err(ListenerError)
        } else {
            Ok(())
        }
    }
}

struct Text(&'static str);

impl Serializable for Text {
    fn serialize(&self) -> &[u8] {
        self.0.as_bytes()
    }
}

struct Blob(Vec<u8>);

impl Serializable for Blob {
    fn serialize(&self) -> &[u8] {
        &self.0
    }
}

struct Kind([u8; 1]);

impl MessageType for Kind {
    fn code(&self) -> &[u8; 1] {
        &self.0
    }
}

struct Badge {
    bytes: [u8; 500],
    trusted: Uuid,
}

impl Token for Badge {
    fn as_bytes(&self) -> &[u8; 500] {
        &self.bytes
    }

    fn validate(&self, token: &[u8], claimed_identity: &Uuid) -> bool {
        token == &self.bytes[..] && *claimed_identity == self.trusted
    }
}

fn own_identity() -> Uuid {
    Uuid::from_bytes([0x0c; 16])
}

fn server_identity() -> Uuid {
    Uuid::from_bytes([0x5e; 16])
}

fn new_log() -> Log {
    Rc::new(RefCell::new(Vec::new()))
}

fn listener(name: &'static str, log: &Log) -> Recorder {
    Recorder { name, log: log.clone(), fails: false }
}

fn bound_client() -> Client<&'static str, StaticToken, Recorder> {
    let mut client = Client::new("server.example:9000", own_identity());
    assert_eq!(client.bind(Ok(())), Ok(()));
    client
}

fn running_client() -> Client<&'static str, StaticToken, Recorder> {
    let mut client = bound_client();
    assert!(client.start());
    client
}

fn inbound(type_code: u8, payload: &[u8]) -> Vec<u8> {
    encode(&[244u8; 500], &server_identity(), false, type_code, payload).unwrap()
}

fn ack_for(correlation: &Correlation) -> Vec<u8> {
    inbound(ACK_TYPE, &correlation.to_bytes())
}

#[test]
fn it_works() {
    let user_id = Uuid::nil();
    let mut client: Client<&str, StaticToken, Recorder> = Client::new("", user_id);
    assert_eq!(client.bind(Ok(())).is_ok(), true)
}

#[test]
fn a_new_client_is_unbound_and_keeps_what_it_was_given() {
    let client: Client<&str, StaticToken, Recorder> = Client::new("host:1", own_identity());
    assert_eq!(client.state(), ClientState::Unbound);
    assert_eq!(client.user_id(), own_identity());
    assert_eq!(*client.server_addr(), "host:1");
    assert_eq!(client.pending_count(), 0);
    assert_eq!(client.listener_count(), 0);
}

#[test]
fn bind_moves_an_unbound_client_to_bound() {
    let mut client: Client<&str, StaticToken, Recorder> = Client::new("", own_identity());
    assert_eq!(client.bind(Ok(())), Ok(()));
    assert_eq!(client.state(), ClientState::Bound);
    assert_eq!(client.bind(Ok(())), Err(BindError::NotUnbound));
    assert_eq!(client.state(), ClientState::Bound);
}

#[test]
fn a_failed_bind_is_fatal() {
    let mut client: Client<&str, StaticToken, Recorder> = Client::new("", own_identity());
    assert_eq!(
        client.bind(Err(IoError::Persistent)),
        Err(BindError::SocketUnavailable(IoError::Persistent))
    );
    assert_eq!(client.state(), ClientState::Closed);
    assert_eq!(client.bind(Ok(())), Err(BindError::NotUnbound));
    assert_eq!(client.send(Text("ping"), Kind([1]), false), Err(SendError::NotReady));
}

#[test]
fn start_runs_one_receive_loop() {
    let mut client: Client<&str, StaticToken, Recorder> = Client::new("", own_identity());
    assert!(!client.start());
    assert_eq!(client.state(), ClientState::Unbound);
    client.bind(Ok(())).unwrap();
    assert!(client.start());
    assert_eq!(client.state(), ClientState::Running);
    assert!(!client.start());
    assert_eq!(client.state(), ClientState::Running);
    client.close();
    assert!(!client.start());
    assert_eq!(client.state(), ClientState::Closed);
}

#[test]
fn ping_goes_out_as_one_datagram_of_522_bytes() {
    let identity = Uuid::from_bytes([
        0x10, 0x11, 0x12, 0x13, 0x14, 0x15, 0x16, 0x17, 0x18, 0x19, 0x1a, 0x1b, 0x1c, 0x1d, 0x1e,
        0x1f,
    ]);
    let mut client: Client<&str, StaticToken, Recorder> = Client::new("203.0.113.7:4000", identity);
    client.bind(Ok(())).unwrap();

    let outbound = client.send(Text("ping"), Kind([0x01]), false).unwrap();
    assert_eq!(*client.server_addr(), "203.0.113.7:4000");
    assert_eq!(outbound.correlation, None);
    assert_eq!(outbound.datagram.len(), 522);
    assert_eq!(&outbound.datagram[..500], &[244u8; 500][..]);
    assert_eq!(&outbound.datagram[500..516], &identity.as_bytes()[..]);
    assert_eq!(outbound.datagram[516], 0);
    assert_eq!(outbound.datagram[517], 0x01);
    assert_eq!(&outbound.datagram[518..], b"ping");

    assert_eq!(client.complete_send(outbound, Ok(()), 0), Ok(()));
    assert_eq!(client.pending_count(), 0);
    assert!(client.poll(u64::MAX).is_empty());
}

#[test]
fn send_works_while_running_too() {
    let mut client = running_client();
    let outbound = client.send(Text("ping"), Kind([0x01]), false).unwrap();
    assert_eq!(outbound.datagram.len(), 522);
}

#[test]
fn send_carries_the_token_of_the_adapter() {
    let badge = Badge { bytes: [0x42; 500], trusted: server_identity() };
    let mut client: Client<&str, Badge, Recorder> =
        Client::with_token("peer", own_identity(), badge);
    client.bind(Ok(())).unwrap();
    let outbound = client.send(Text("hi"), Kind([0x03]), true).unwrap();
    assert_eq!(&outbound.datagram[..500], &[0x42u8; 500][..]);
    assert_eq!(outbound.datagram[516], 1);
    assert_eq!(&outbound.datagram[518..], b"hi");
}

#[test]
fn an_oversized_payload_is_refused_and_nothing_is_handed_out() {
    let mut client = bound_client();
    let result = client.send(Blob(vec![0u8; 507]), Kind([0x01]), true);
    assert_eq!(
        result,
        Err(SendError::Format(FormatError::PayloadTooLarge { size: 1025, limit: 1024 }))
    );
    assert_eq!(client.pending_count(), 0);
    assert_eq!(client.state(), ClientState::Bound);

    let next = client.send(Text("ok"), Kind([0x01]), true).unwrap();
    assert_eq!(next.correlation, Some(Correlation { identity: own_identity(), sequence: 0 }));
}

#[test]
fn an_oversized_payload_is_refused_in_every_state() {
    let too_large = Err(SendError::Format(FormatError::PayloadTooLarge {
        size: 518 + 600,
        limit: 1024,
    }));
    let mut client: Client<&str, StaticToken, Recorder> = Client::new("", own_identity());
    assert_eq!(client.send(Blob(vec![1u8; 600]), Kind([0x01]), false), too_large);
    client.bind(Ok(())).unwrap();
    assert_eq!(client.send(Blob(vec![1u8; 600]), Kind([0x01]), false), too_large);
    client.start();
    assert_eq!(client.send(Blob(vec![1u8; 600]), Kind([0x01]), false), too_large);
    client.close();
    assert_eq!(client.send(Blob(vec![1u8; 600]), Kind([0x01]), false), too_large);
}

#[test]
fn the_largest_payload_fills_the_datagram() {
    let mut client = bound_client();
    let outbound = client.send(Blob(vec![7u8; 506]), Kind([0x01]), false).unwrap();
    assert_eq!(outbound.datagram.len(), 1024);
}

#[test]
fn send_needs_a_socket() {
    let mut client: Client<&str, StaticToken, Recorder> = Client::new("", own_identity());
    assert_eq!(client.send(Text("ping"), Kind([1]), false), Err(SendError::NotReady));
    client.bind(Ok(())).unwrap();
    assert!(client.send(Text("ping"), Kind([1]), false).is_ok());
    client.close();
    assert_eq!(client.send(Text("ping"), Kind([1]), true), Err(SendError::NotReady));
    assert_eq!(
        client.send_frame(&[0u8; 500], 1, b"ping", false),
        Err(SendError::NotReady)
    );
}

#[test]
fn send_frame_takes_the_token_as_given() {
    let mut client = bound_client();
    let outbound = client.send_frame(&[0x99u8; 500], 0x21, b"raw", false).unwrap();
    assert_eq!(
        outbound,
        Outbound {
            datagram: encode(&[0x99u8; 500], &own_identity(), false, 0x21, b"raw").unwrap(),
            correlation: None,
        }
    );
}

#[test]
fn sends_that_ask_for_an_ack_are_numbered_in_turn() {
    let mut client = bound_client();
    let first = client.send(Text("a"), Kind([1]), true).unwrap();
    let plain = client.send(Text("b"), Kind([1]), false).unwrap();
    let second = client.send(Text("c"), Kind([1]), true).unwrap();
    assert_eq!(first.correlation, Some(Correlation { identity: own_identity(), sequence: 0 }));
    assert_eq!(plain.correlation, None);
    assert_eq!(second.correlation, Some(Correlation { identity: own_identity(), sequence: 1 }));
}

#[test]
fn a_written_send_waits_for_its_ack() {
    let mut client = running_client();
    let outbound = client.send(Text("ping"), Kind([1]), true).unwrap();
    let datagram = outbound.datagram.clone();
    let correlation = outbound.correlation.unwrap();
    assert_eq!(client.pending_count(), 0);
    assert_eq!(client.complete_send(outbound, Ok(()), 500), Ok(()));
    assert_eq!(client.pending_count(), 1);

    assert!(client.poll(1499).is_empty());
    assert_eq!(client.poll(1500), vec![TimerEvent::Resend { correlation, datagram }]);
}

#[test]
fn a_failed_write_is_the_failure_of_the_send() {
    let mut client = bound_client();
    let outbound = client.send(Text("ping"), Kind([1]), true).unwrap();
    assert_eq!(
        client.complete_send(outbound, Err(IoError::Transient), 0),
        Err(SendError::Io(IoError::Transient))
    );
    assert_eq!(client.pending_count(), 0);

    let outbound = client.send(Text("ping"), Kind([1]), true).unwrap();
    assert_eq!(
        client.complete_send(outbound, Err(IoError::Persistent), 0),
        Err(SendError::Io(IoError::Persistent))
    );
    assert_eq!(client.pending_count(), 0);
}

#[test]
fn nothing_waits_on_a_closed_client() {
    let mut client = bound_client();
    let outbound = client.send(Text("ping"), Kind([1]), true).unwrap();
    client.close();
    assert_eq!(client.complete_send(outbound, Ok(()), 0), Err(SendError::NotReady));
    assert_eq!(client.pending_count(), 0);
}

#[test]
fn an_ack_resolves_the_send_it_names() {
    let mut client = running_client();
    let outbound = client.send(Text("ping"), Kind([1]), true).unwrap();
    let correlation = outbound.correlation.unwrap();
    client.complete_send(outbound, Ok(()), 0).unwrap();

    assert_eq!(client.receive(&ack_for(&correlation)), Ok(Received::Acknowledged(correlation)));
    assert_eq!(client.pending_count(), 0);
    assert!(client.poll(u64::MAX).is_empty());
    assert_eq!(client.receive(&ack_for(&correlation)), Ok(Received::UnmatchedAck));
}

#[test]
fn an_ack_for_something_else_resolves_nothing() {
    let mut client = running_client();
    let outbound = client.send(Text("ping"), Kind([1]), true).unwrap();
    client.complete_send(outbound, Ok(()), 0).unwrap();

    let other_sequence = Correlation { identity: own_identity(), sequence: 41 };
    let other_identity = Correlation { identity: server_identity(), sequence: 0 };
    assert_eq!(client.receive(&ack_for(&other_sequence)), Ok(Received::UnmatchedAck));
    assert_eq!(client.receive(&ack_for(&other_identity)), Ok(Received::UnmatchedAck));
    assert_eq!(client.receive(&inbound(ACK_TYPE, b"short")), Ok(Received::UnmatchedAck));
    assert_eq!(client.pending_count(), 1);
}

#[test]
fn acks_are_not_handed_to_listeners() {
    let log = new_log();
    let mut client = running_client();
    client.register_listener(ACK_TYPE, listener("acks", &log));
    let stray = Correlation { identity: own_identity(), sequence: 3 };
    assert_eq!(client.receive(&ack_for(&stray)), Ok(Received::UnmatchedAck));
    assert!(log.borrow().is_empty());
}

#[test]
fn a_send_that_is_never_acknowledged_fails_exactly_once() {
    let mut client = running_client();
    let outbound = client.send(Text("ping"), Kind([1]), true).unwrap();
    let datagram = outbound.datagram.clone();
    let correlation = outbound.correlation.unwrap();
    client.complete_send(outbound, Ok(()), 0).unwrap();

    let mut log = Vec::new();
    for now in [999u64, 1000, 2999, 3000, 6999, 7000, 14999, 15000, 15001, 1 << 40, u64::MAX] {
        for event in client.poll(now) {
            log.push((now, event));
        }
    }
    let resend = || TimerEvent::Resend { correlation, datagram: datagram.clone() };
    assert_eq!(
        log,
        vec![
            (1000, resend()),
            (3000, resend()),
            (7000, resend()),
            (15000, TimerEvent::DeliveryFailure { correlation }),
        ]
    );
    assert_eq!(client.pending_count(), 0);
}

#[test]
fn the_retry_policy_applies_to_later_sends() {
    let mut client = running_client();
    client.set_retry_policy(RetryPolicy { timeout: 20, retries: 1 });
    let outbound = client.send(Text("ping"), Kind([1]), true).unwrap();
    let datagram = outbound.datagram.clone();
    let correlation = outbound.correlation.unwrap();
    client.complete_send(outbound, Ok(()), 100).unwrap();
    assert!(client.poll(119).is_empty());
    assert_eq!(client.poll(120), vec![TimerEvent::Resend { correlation, datagram }]);
    assert!(client.poll(159).is_empty());
    assert_eq!(client.poll(160), vec![TimerEvent::DeliveryFailure { correlation }]);
}

#[test]
fn two_listeners_both_get_the_frame() {
    let log = new_log();
    let mut client = running_client();
    client.add_message_listener(Kind([0x02]), listener("l1", &log));
    client.add_message_listener(Kind([0x02]), listener("l2", &log));
    assert_eq!(client.listener_count(), 2);

    let result = client.receive(&inbound(0x02, b"x"));
    assert_eq!(
        result,
        Ok(Received::Delivered(vec![
            Invocation { listener: 0, outcome: Ok(()) },
            Invocation { listener: 1, outcome: Ok(()) },
        ]))
    );
    assert_eq!(
        *log.borrow(),
        vec![("l1", server_identity(), b"x".to_vec()), ("l2", server_identity(), b"x".to_vec())]
    );
}

#[test]
fn listeners_are_called_in_registration_order() {
    let log = new_log();
    let mut client = running_client();
    client.register_listener(0x07, listener("first", &log));
    client.register_listener(0x08, listener("elsewhere", &log));
    client.register_listener(0x07, listener("second", &log));
    client.register_listener(0x07, listener("third", &log));

    let result = client.receive(&inbound(0x07, b"payload"));
    assert_eq!(
        result,
        Ok(Received::Delivered(vec![
            Invocation { listener: 0, outcome: Ok(()) },
            Invocation { listener: 2, outcome: Ok(()) },
            Invocation { listener: 3, outcome: Ok(()) },
        ]))
    );
    let names: Vec<&str> = log.borrow().iter().map(|entry| entry.0).collect();
    assert_eq!(names, vec!["first", "second", "third"]);
    for entry in log.borrow().iter() {
        assert_eq!(entry.1, server_identity());
        assert_eq!(entry.2, b"payload".to_vec());
    }
}

#[test]
fn a_frame_without_listener_is_accepted_quietly() {
    let log = new_log();
    let mut client = running_client();
    client.register_listener(0x02, listener("l", &log));
    assert_eq!(client.receive(&inbound(0x03, b"later")), Ok(Received::Delivered(vec![])));
    assert!(log.borrow().is_empty());
    assert_eq!(client.state(), ClientState::Running);
}

#[test]
fn a_frame_with_a_wrong_token_reaches_nobody() {
    let log = new_log();
    let mut client = running_client();
    client.register_listener(0x02, listener("l", &log));
    let outbound = client.send(Text("ping"), Kind([1]), true).unwrap();
    let correlation = outbound.correlation.unwrap();
    client.complete_send(outbound, Ok(()), 0).unwrap();

    let forged = encode(&[243u8; 500], &server_identity(), false, 0x02, b"x").unwrap();
    assert_eq!(client.receive(&forged), Err(ReceiveError::Auth(AuthError)));
    let forged_ack =
        encode(&[0u8; 500], &server_identity(), false, ACK_TYPE, &correlation.to_bytes()).unwrap();
    assert_eq!(client.receive(&forged_ack), Err(ReceiveError::Auth(AuthError)));

    assert!(log.borrow().is_empty());
    assert_eq!(client.pending_count(), 1);
    assert_eq!(client.state(), ClientState::Running);
}

#[test]
fn the_adapter_judges_token_and_claimed_identity() {
    let log = new_log();
    let badge = Badge { bytes: [0x42; 500], trusted: server_identity() };
    let mut client: Client<&str, Badge, Recorder> =
        Client::with_token("peer", own_identity(), badge);
    client.bind(Ok(())).unwrap();
    client.start();
    client.register_listener(0x02, listener("l", &log));

    let good = encode(&[0x42u8; 500], &server_identity(), false, 0x02, b"x").unwrap();
    let stranger = encode(&[0x42u8; 500], &own_identity(), false, 0x02, b"x").unwrap();
    assert_eq!(client.receive(&stranger), Err(ReceiveError::Auth(AuthError)));
    assert!(log.borrow().is_empty());
    assert_eq!(
        client.receive(&good),
        Ok(Received::Delivered(vec![Invocation { listener: 0, outcome: Ok(()) }]))
    );
    assert_eq!(*log.borrow(), vec![("l", server_identity(), b"x".to_vec())]);
}

#[test]
fn a_malformed_datagram_is_dropped() {
    let log = new_log();
    let mut client = running_client();
    client.register_listener(0x00, listener("l", &log));
    assert_eq!(
        client.receive(&[244u8; 517]),
        Err(ReceiveError::Format(FormatError::Truncated))
    );
    assert_eq!(
        client.receive(&[244u8; 1025]),
        Err(ReceiveError::Format(FormatError::PayloadTooLarge { size: 1025, limit: 1024 }))
    );
    assert!(log.borrow().is_empty());
    assert_eq!(client.state(), ClientState::Running);
}

#[test]
fn nothing_is_received_unless_the_loop_runs() {
    let log = new_log();
    let mut client = bound_client();
    client.register_listener(0x02, listener("l", &log));
    assert_eq!(client.receive(&inbound(0x02, b"x")), Err(ReceiveError::NotRunning));
    assert_eq!(client.receive(&[0u8; 3]), Err(ReceiveError::NotRunning));
    client.start();
    assert!(client.receive(&inbound(0x02, b"x")).is_ok());
    client.close();
    assert_eq!(client.receive(&inbound(0x02, b"x")), Err(ReceiveError::NotRunning));
    assert_eq!(log.borrow().len(), 1);
}

#[test]
fn a_failing_listener_is_reported_and_the_rest_still_run() {
    let log = new_log();
    let mut client = running_client();
    client.register_listener(0x02, Recorder { name: "bad", log: log.clone(), fails: true });
    client.register_listener(0x02, listener("good", &log));
    assert_eq!(
        client.receive(&inbound(0x02, b"x")),
        Ok(Received::Delivered(vec![
            Invocation { listener: 0, outcome: Err(ListenerError) },
            Invocation { listener: 1, outcome: Ok(()) },
        ]))
    );
    assert_eq!(log.borrow().len(), 2);
    assert_eq!(client.state(), ClientState::Running);
}

#[test]
fn close_cancels_what_still_waits() {
    let mut client = running_client();
    let first = client.send(Text("a"), Kind([1]), true).unwrap();
    let second = client.send(Text("b"), Kind([1]), true).unwrap();
    let names = vec![first.correlation.unwrap(), second.correlation.unwrap()];
    client.complete_send(first, Ok(()), 0).unwrap();
    client.complete_send(second, Ok(()), 0).unwrap();

    assert_eq!(client.close(), names);
    assert_eq!(client.state(), ClientState::Closed);
    assert_eq!(client.pending_count(), 0);
    assert!(client.poll(u64::MAX).is_empty());
    assert!(client.close().is_empty());
    assert_eq!(client.state(), ClientState::Closed);
}

#[test]
fn a_passing_read_failure_changes_nothing() {
    let mut client = running_client();
    let outbound = client.send(Text("a"), Kind([1]), true).unwrap();
    client.complete_send(outbound, Ok(()), 0).unwrap();
    assert!(client.receive_failed(IoError::Transient).is_empty());
    assert_eq!(client.state(), ClientState::Running);
    assert_eq!(client.pending_count(), 1);
}

#[test]
fn a_lasting_read_failure_closes_the_client() {
    let mut client = running_client();
    let outbound = client.send(Text("a"), Kind([1]), true).unwrap();
    let correlation = outbound.correlation.unwrap();
    client.complete_send(outbound, Ok(()), 0).unwrap();
    assert_eq!(client.receive_failed(IoError::Persistent), vec![correlation]);
    assert_eq!(client.state(), ClientState::Closed);
    assert_eq!(client.pending_count(), 0);
}

#[test]
fn the_static_token_accepts_only_its_own_bytes() {
    let token = StaticToken::new([7u8; 500]);
    assert_eq!(token.as_bytes(), &[7u8; 500]);
    assert!(token.validate(&[7u8; 500], &Uuid::nil()));
    assert!(token.validate(&[7u8; 500], &own_identity()));
    let mut other = [7u8; 500];
    other[499] = 8;
    assert!(!token.validate(&other, &Uuid::nil()));
    assert!(!token.validate(&[7u8; 499], &Uuid::nil()));
    assert!(!token.validate(&[7u8; 501], &Uuid::nil()));
}
