//! Sends that wait for an acknowledgment: their deadlines, their retries,
//! and what becomes of them.

use crate::identity::{identity_as_bytes, identity_bytes, identity_from_bytes, IDENTITY_LEN};
use uuid::Uuid;
use vstd::bytes::{
    lemma_auto_spec_u64_to_from_le_bytes, spec_u64_from_le_bytes, spec_u64_to_le_bytes,
    u64_from_le_bytes, u64_to_le_bytes,
};
use vstd::prelude::*;
use vstd::slice::{slice_subrange, slice_to_vec};

verus! {

/// The message type that marks a frame as an acknowledgment.
pub const ACK_TYPE: u8 = 0;

/// Width of a correlation identifier on the wire: the sender's identity, then
/// the sequence number as eight little-endian bytes.
pub const CORRELATION_LEN: usize = 24;

/// How long to wait for an acknowledgment, and how often to send again.
#[derive(Debug, Clone, Copy, PartialEq, Eq, Structural)]
pub struct RetryPolicy {
    /// Time allowed for the first acknowledgment; doubled on every resend.
    pub timeout: u64,
    /// How many times a frame is sent again before delivery has failed.
    pub retries: u32,
}

/// Names one send that asked for an acknowledgment.
#[derive(Debug, Clone, Copy, PartialEq, Eq)]
pub struct Correlation {
    pub identity: Uuid,
    pub sequence: u64,
}

/// A correlation as mathematics sees it.
pub struct CorrelationView {
    pub identity: Seq<u8>,
    pub sequence: u64,
}

impl View for Correlation {
    type V = CorrelationView;

    open spec fn view(&self) -> CorrelationView {
        CorrelationView { identity: identity_bytes(self.identity), sequence: self.sequence }
    }
}

impl CorrelationView {
    /// The identifier as an acknowledgment carries it.
    pub open spec fn to_bytes(self) -> Seq<u8> {
        self.identity + spec_u64_to_le_bytes(self.sequence)
    }
}

/// The correlation that a payload names, if it has the width of one.
pub open spec fn correlation_of(payload: Seq<u8>) -> Option<CorrelationView> {
    if payload.len() == CORRELATION_LEN {
        Some(
            CorrelationView {
                identity: payload.subrange(0, IDENTITY_LEN as int),
                sequence: spec_u64_from_le_bytes(
                    payload.subrange(IDENTITY_LEN as int, CORRELATION_LEN as int),
                ),
            },
        )
    } else {
        None
    }
}

/// Reading back what `to_bytes` wrote gives the correlation.
pub proof fn lemma_correlation_round_trip(c: CorrelationView)
    requires
        c.identity.len() == IDENTITY_LEN,
    ensures
        correlation_of(c.to_bytes()) == Some(c),
{
    lemma_auto_spec_u64_to_from_le_bytes();
    let bytes = c.to_bytes();
    assert(bytes.subrange(0, IDENTITY_LEN as int) =~= c.identity);
    assert(bytes.subrange(IDENTITY_LEN as int, CORRELATION_LEN as int) =~= spec_u64_to_le_bytes(
        c.sequence,
    ));
}

impl Correlation {
    /// The identifier as the payload of an acknowledgment.
    pub fn to_bytes(&self) -> (bytes: Vec<u8>)
        ensures
            bytes@ == self@.to_bytes(),
            bytes@.len() == CORRELATION_LEN,
    {
        let mut bytes: Vec<u8> = Vec::with_capacity(CORRELATION_LEN);
        bytes.extend_from_slice(identity_as_bytes(&self.identity).as_slice());
        let mut sequence = u64_to_le_bytes(self.sequence);
        bytes.append(&mut sequence);
        bytes
    }

    /// Reads the payload of an acknowledgment: a correlation if the payload
    /// has the width of one, nothing otherwise.
    pub fn from_bytes(payload: &[u8]) -> (result: Option<Correlation>)
        ensures
            match correlation_of(payload@) {
                Some(c) => result matches Some(r) && r@ == c,
                None => result is None,
            },
    {
        if payload.len() != CORRELATION_LEN {
            return None;
        }
        let mut identity: [u8; 16] = [0u8; 16];
        let mut i: usize = 0;
        while i < IDENTITY_LEN
            invariant
                i <= IDENTITY_LEN,
                payload@.len() == CORRELATION_LEN,
                forall|j: int| 0 <= j < i ==> identity@[j] == payload@[j],
            decreases IDENTITY_LEN - i,
        {
            identity[i] = payload[i];
            i += 1;
        }
        assert(identity@ =~= payload@.subrange(0, IDENTITY_LEN as int));
        let sequence = u64_from_le_bytes(slice_subrange(payload, IDENTITY_LEN, CORRELATION_LEN));
        Some(Correlation { identity: identity_from_bytes(identity), sequence })
    }

    /// Whether two correlations name the same send.
    pub fn same(&self, other: &Correlation) -> (equal: bool)
        ensures
            equal == (self@ == other@),
    {
        if self.sequence != other.sequence {
            return false;
        }
        let a = identity_as_bytes(&self.identity);
        let b = identity_as_bytes(&other.identity);
        let mut i: usize = 0;
        while i < IDENTITY_LEN
            invariant
                i <= IDENTITY_LEN,
                self.sequence == other.sequence,
                a@ == identity_bytes(self.identity),
                b@ == identity_bytes(other.identity),
                forall|j: int| 0 <= j < i ==> a@[j] == b@[j],
            decreases IDENTITY_LEN - i,
        {
            if a[i] != b[i] {
                assert(a@[i as int] != b@[i as int]);
                return false;
            }
            i += 1;
        }
        assert(a@ =~= b@);
        true
    }
}

/// One send that waits for its acknowledgment.
#[derive(Debug, PartialEq, Eq)]
pub struct PendingAck {
    pub correlation: Correlation,
    /// The frame as it was sent, kept for sending it again.
    pub datagram: Vec<u8>,
    /// The instant from which the acknowledgment is overdue.
    pub deadline: u64,
    /// The wait that led to `deadline`.
    pub timeout: u64,
    /// How many more times the frame may be sent again.
    pub retries_remaining: u32,
}

/// A pending send as mathematics sees it.
pub struct PendingAckView {
    pub correlation: CorrelationView,
    pub datagram: Seq<u8>,
    pub deadline: u64,
    pub timeout: u64,
    pub retries_remaining: u32,
}

impl View for PendingAck {
    type V = PendingAckView;

    open spec fn view(&self) -> PendingAckView {
        PendingAckView {
            correlation: self.correlation@,
            datagram: self.datagram@,
            deadline: self.deadline,
            timeout: self.timeout,
            retries_remaining: self.retries_remaining,
        }
    }
}

/// What the timer asks of the transport or tells the caller.
#[derive(Debug, PartialEq, Eq)]
pub enum TimerEvent {
    /// The acknowledgment is overdue: send the frame again.
    Resend { correlation: Correlation, datagram: Vec<u8> },
    /// The acknowledgment never came and no retry is left.
    DeliveryFailure { correlation: Correlation },
}

/// A timer event as mathematics sees it.
pub enum TimerEventView {
    Resend { correlation: CorrelationView, datagram: Seq<u8> },
    DeliveryFailure { correlation: CorrelationView },
}

impl View for TimerEvent {
    type V = TimerEventView;

    open spec fn view(&self) -> TimerEventView {
        match *self {
            TimerEvent::Resend { correlation, datagram } => TimerEventView::Resend {
                correlation: correlation@,
                datagram: datagram@,
            },
            TimerEvent::DeliveryFailure { correlation } => TimerEventView::DeliveryFailure {
                correlation: correlation@,
            },
        }
    }
}

/// The position of the oldest send in `table` that `correlation` names.
pub open spec fn oldest_waiting(table: Seq<PendingAckView>, correlation: CorrelationView) -> Option<
    int,
>
    decreases table.len(),
{
    if table.len() == 0 {
        None
    } else if table.first().correlation == correlation {
        Some(0)
    } else {
        match oldest_waiting(table.drop_first(), correlation) {
            Some(i) => Some(i + 1),
            None => None,
        }
    }
}

/// The table once an acknowledgment for `correlation` has come in: without
/// the oldest send of that name, or as it was if there is none.
pub open spec fn acknowledged(
    table: Seq<PendingAckView>,
    correlation: CorrelationView,
) -> Seq<PendingAckView> {
    match oldest_waiting(table, correlation) {
        Some(i) => table.remove(i),
        None => table,
    }
}

/// `oldest_waiting` finds a send of the given name with none of that name
/// before it, and finds none only where the table holds none.
pub proof fn lemma_oldest_waiting_is_first(table: Seq<PendingAckView>, correlation: CorrelationView)
    ensures
        match oldest_waiting(table, correlation) {
            Some(i) => {
                &&& 0 <= i < table.len()
                &&& table[i].correlation == correlation
                &&& forall|j: int| 0 <= j < i ==> (#[trigger] table[j]).correlation != correlation
            },
            None => forall|j: int|
                0 <= j < table.len() ==> (#[trigger] table[j]).correlation != correlation,
        },
    decreases table.len(),
{
    if table.len() > 0 && table.first().correlation != correlation {
        let rest = table.drop_first();
        lemma_oldest_waiting_is_first(rest, correlation);
        assert forall|j: int| 0 < j < table.len() implies table[j] == rest[j - 1] by {}
        match oldest_waiting(rest, correlation) {
            Some(i) => {
                assert forall|j: int| 0 <= j < i + 1 implies (#[trigger] table[j]).correlation
                    != correlation by {
                    if j > 0 {
                        assert(table[j] == rest[j - 1]);
                    }
                }
            },
            None => {
                assert forall|j: int| 0 <= j < table.len() implies (#[trigger] table[j]).correlation
                    != correlation by {
                    if j > 0 {
                        assert(table[j] == rest[j - 1]);
                    }
                }
            },
        }
    }
}

/// What one look at the clock means for one pending send.
pub enum Expiry {
    /// The deadline lies ahead.
    Waiting,
    /// The deadline has passed: the frame goes out again and the send waits
    /// on, as given.
    Resend(PendingAckView),
    /// The deadline has passed and no retry is left.
    Failed,
}

/// The instant at which a wait of `timeout` that starts at `now` is over.
pub open spec fn deadline_from(now: u64, timeout: u64) -> u64 {
    now.saturating_add(timeout)
}

/// The wait that follows a wait of `timeout`: twice as long.
pub open spec fn backed_off(timeout: u64) -> u64 {
    timeout.saturating_add(timeout)
}

/// A pending send is overdue from its deadline on. An overdue send with a
/// retry left is sent again, with one retry less and twice the wait, counted
/// from `now`; one without has failed.
pub open spec fn expire(pending: PendingAckView, now: u64) -> Expiry {
    if now < pending.deadline {
        Expiry::Waiting
    } else if pending.retries_remaining > 0 {
        Expiry::Resend(
            PendingAckView {
                correlation: pending.correlation,
                datagram: pending.datagram,
                deadline: deadline_from(now, backed_off(pending.timeout)),
                timeout: backed_off(pending.timeout),
                retries_remaining: (pending.retries_remaining - 1) as u32,
            },
        )
    } else {
        Expiry::Failed
    }
}

/// The pending sends that are left after a look at the clock, in their order.
pub open spec fn survivors(table: Seq<PendingAckView>, now: u64) -> Seq<PendingAckView>
    decreases table.len(),
{
    if table.len() == 0 {
        Seq::<PendingAckView>::empty()
    } else {
        let earlier = survivors(table.drop_last(), now);
        match expire(table.last(), now) {
            Expiry::Waiting => earlier.push(table.last()),
            Expiry::Resend(next) => earlier.push(next),
            Expiry::Failed => earlier,
        }
    }
}

/// The events that a look at the clock brings, in the order of the table.
pub open spec fn timer_events(table: Seq<PendingAckView>, now: u64) -> Seq<TimerEventView>
    decreases table.len(),
{
    if table.len() == 0 {
        Seq::<TimerEventView>::empty()
    } else {
        let earlier = timer_events(table.drop_last(), now);
        match expire(table.last(), now) {
            Expiry::Waiting => earlier,
            Expiry::Resend(next) => earlier.push(
                TimerEventView::Resend {
                    correlation: next.correlation,
                    datagram: next.datagram,
                },
            ),
            Expiry::Failed => earlier.push(
                TimerEventView::DeliveryFailure { correlation: table.last().correlation },
            ),
        }
    }
}

/// What a series of looks at the clock makes of one send that nobody
/// acknowledges.
pub struct Course {
    /// The send as it still waits, if it does.
    pub pending: Option<PendingAckView>,
    /// How often the frame went out again.
    pub resends: nat,
    /// How often delivery was reported as failed.
    pub failures: nat,
}

/// The course of one pending send under looks at the clock at `instants`,
/// taken in turn, with no acknowledgment arriving.
pub open spec fn course(pending: PendingAckView, instants: Seq<u64>) -> Course
    decreases instants.len(),
{
    if instants.len() == 0 {
        Course { pending: Some(pending), resends: 0, failures: 0 }
    } else {
        match expire(pending, instants.first()) {
            Expiry::Waiting => course(pending, instants.drop_first()),
            Expiry::Resend(next) => {
                let rest = course(next, instants.drop_first());
                Course { pending: rest.pending, resends: rest.resends + 1, failures: rest.failures }
            },
            Expiry::Failed => Course { pending: None, resends: 0, failures: 1 },
        }
    }
}

/// Every look at the clock finds the send overdue, for as long as it waits.
pub open spec fn always_overdue(pending: PendingAckView, instants: Seq<u64>) -> bool
    decreases instants.len(),
{
    if instants.len() == 0 {
        true
    } else {
        match expire(pending, instants.first()) {
            Expiry::Waiting => false,
            Expiry::Resend(next) => always_overdue(next, instants.drop_first()),
            Expiry::Failed => true,
        }
    }
}

/// Whenever the clock is looked at, a send that nobody acknowledges is
/// reported as failed at most once, and exactly when it has left the table;
/// it is never sent again more often than it had retries.
pub proof fn lemma_fails_at_most_once(pending: PendingAckView, instants: Seq<u64>)
    ensures
        course(pending, instants).failures <= 1,
        course(pending, instants).failures == 1 <==> course(pending, instants).pending is None,
        course(pending, instants).resends <= pending.retries_remaining,
    decreases instants.len(),
{
    if instants.len() > 0 {
        match expire(pending, instants.first()) {
            Expiry::Waiting => lemma_fails_at_most_once(pending, instants.drop_first()),
            Expiry::Resend(next) => lemma_fails_at_most_once(next, instants.drop_first()),
            Expiry::Failed => {},
        }
    }
}

/// A send that nobody acknowledges does not wait for ever: once the clock
/// has found it overdue one time more than it had retries, it has gone out
/// again once per retry, delivery has been reported as failed exactly once,
/// and it waits no more.
pub proof fn lemma_unacknowledged_send_fails(pending: PendingAckView, instants: Seq<u64>)
    requires
        always_overdue(pending, instants),
        instants.len() > pending.retries_remaining,
    ensures
        course(pending, instants) == (Course {
            pending: None,
            resends: pending.retries_remaining as nat,
            failures: 1,
        }),
    decreases instants.len(),
{
    match expire(pending, instants.first()) {
        Expiry::Waiting => {},
        Expiry::Resend(next) => lemma_unacknowledged_send_fails(next, instants.drop_first()),
        Expiry::Failed => {},
    }
}

/// The table treats each send by itself: one look at the clock keeps a send
/// that waits, replaces one that is sent again, and drops one that failed,
/// and the events say so.
pub proof fn lemma_poll_of_one(pending: PendingAckView, now: u64)
    ensures
        survivors(seq![pending], now) == match expire(pending, now) {
            Expiry::Waiting => seq![pending],
            Expiry::Resend(next) => seq![next],
            Expiry::Failed => Seq::<PendingAckView>::empty(),
        },
        timer_events(seq![pending], now) == match expire(pending, now) {
            Expiry::Waiting => Seq::<TimerEventView>::empty(),
            Expiry::Resend(next) => seq![
                TimerEventView::Resend { correlation: next.correlation, datagram: next.datagram },
            ],
            Expiry::Failed => seq![
                TimerEventView::DeliveryFailure { correlation: pending.correlation },
            ],
        },
{
    let table = seq![pending];
    assert(table.drop_last() =~= Seq::<PendingAckView>::empty());
    assert(table.last() == pending);
    assert(survivors(table.drop_last(), now) =~= Seq::<PendingAckView>::empty());
    assert(timer_events(table.drop_last(), now) =~= Seq::<TimerEventView>::empty());
}

/// The views of a run of timer events.
pub open spec fn event_views(events: Seq<TimerEvent>) -> Seq<TimerEventView> {
    events.map_values(|e: TimerEvent| e@)
}

/// The views of a run of correlations.
pub open spec fn correlation_views(correlations: Seq<Correlation>) -> Seq<CorrelationView> {
    correlations.map_values(|c: Correlation| c@)
}

/// The sends that wait for an acknowledgment, oldest first.
pub struct AckTable {
    entries: Vec<PendingAck>,
}

impl View for AckTable {
    type V = Seq<PendingAckView>;

    closed spec fn view(&self) -> Seq<PendingAckView> {
        self.entries@.map_values(|p: PendingAck| p@)
    }
}

impl AckTable {
    /// A table in which nothing waits.
    pub fn new() -> (table: AckTable)
        ensures
            table@ == Seq::<PendingAckView>::empty(),
    {
        let table = AckTable { entries: Vec::new() };
        assert(table@ =~= Seq::<PendingAckView>::empty());
        table
    }

    /// Number of sends that wait.
    pub fn len(&self) -> (n: usize)
        ensures
            n == self@.len(),
    {
        self.entries.len()
    }

    /// Starts the wait for the acknowledgment of a frame that went out at
    /// `now`.
    pub fn track(
        &mut self,
        correlation: Correlation,
        datagram: Vec<u8>,
        now: u64,
        policy: RetryPolicy,
    )
        ensures
            final(self)@ == old(self)@.push(
                PendingAckView {
                    correlation: correlation@,
                    datagram: datagram@,
                    deadline: deadline_from(now, policy.timeout),
                    timeout: policy.timeout,
                    retries_remaining: policy.retries,
                },
            ),
    {
        let pending = PendingAck {
            correlation,
            datagram,
            deadline: now.saturating_add(policy.timeout),
            timeout: policy.timeout,
            retries_remaining: policy.retries,
        };
        self.entries.push(pending);
        assert(self@ =~= old(self)@.push(pending@));
    }

    /// Ends the wait of the oldest send that `correlation` names. Says
    /// whether there was one.
    pub fn acknowledge(&mut self, correlation: &Correlation) -> (found: bool)
        ensures
            found == oldest_waiting(old(self)@, correlation@).is_some(),
            final(self)@ == acknowledged(old(self)@, correlation@),
    {
        let mut i: usize = 0;
        assert(self@.skip(0) =~= self@);
        while i < self.entries.len()
            invariant
                i <= self.entries@.len(),
                self@ == old(self)@,
                oldest_waiting(self@, correlation@) == match oldest_waiting(
                    self@.skip(i as int),
                    correlation@,
                ) {
                    Some(j) => Some(j + i),
                    None => None,
                },
            decreases self.entries@.len() - i,
        {
            let ghost before = self@;
            proof {
                assert(before.skip(i as int).first() == before[i as int]);
                assert(before.skip(i as int).drop_first() =~= before.skip(i + 1));
            }
            if self.entries[i].correlation.same(correlation) {
                self.entries.remove(i);
                assert(self@ =~= before.remove(i as int));
                return true;
            }
            i += 1;
        }
        false
    }

    /// Looks at the clock: every overdue send is sent again if it has a retry
    /// left, and has failed, and leaves the table, if it has none.
    pub fn poll(&mut self, now: u64) -> (events: Vec<TimerEvent>)
        ensures
            final(self)@ == survivors(old(self)@, now),
            event_views(events@) == timer_events(old(self)@, now),
    {
        let ghost table = self@;
        let ghost mut seen: int = 0;
        let mut events: Vec<TimerEvent> = Vec::new();
        let mut i: usize = 0;
        assert(table.take(0) =~= Seq::<PendingAckView>::empty());
        assert(self@ =~= survivors(table.take(0), now) + table.skip(0));
        assert(event_views(events@) =~= timer_events(table.take(0), now));
        while i < self.entries.len()
            invariant
                0 <= seen <= table.len(),
                i == survivors(table.take(seen), now).len(),
                self@ == survivors(table.take(seen), now) + table.skip(seen),
                event_views(events@) == timer_events(table.take(seen), now),
            decreases table.len() - seen,
        {
            let ghost before = self@;
            let ghost events_before = events@;
            proof {
                assert(before.len() == i + (table.len() - seen));
                assert(before[i as int] == table.skip(seen)[0]);
                assert(table.take(seen + 1).drop_last() =~= table.take(seen));
                assert(table.take(seen + 1).last() == table[seen]);
            }
            if now < self.entries[i].deadline {
                proof {
                    assert(expire(table[seen], now) is Waiting);
                    assert(self@ =~= survivors(table.take(seen + 1), now) + table.skip(seen + 1));
                }
                i += 1;
            } else if self.entries[i].retries_remaining > 0 {
                let timeout = self.entries[i].timeout.saturating_add(self.entries[i].timeout);
                self.entries[i].timeout = timeout;
                self.entries[i].deadline = now.saturating_add(timeout);
                self.entries[i].retries_remaining = self.entries[i].retries_remaining - 1;
                events.push(
                    TimerEvent::Resend {
                        correlation: self.entries[i].correlation,
                        datagram: self.entries[i].datagram.clone(),
                    },
                );
                proof {
                    assert(expire(table[seen], now) is Resend);
                    assert(self@[i as int] == expire(table[seen], now)->Resend_0);
                    assert(event_views(events@) =~= event_views(events_before).push(
                        events@.last()@,
                    ));
                    assert(self@ =~= before.update(i as int, self@[i as int]));
                    assert(self@ =~= survivors(table.take(seen + 1), now) + table.skip(seen + 1));
                }
                i += 1;
            } else {
                let failed = self.entries.remove(i);
                events.push(TimerEvent::DeliveryFailure { correlation: failed.correlation });
                proof {
                    assert(expire(table[seen], now) is Failed);
                    assert(event_views(events@) =~= event_views(events_before).push(
                        events@.last()@,
                    ));
                    assert(self@ =~= before.remove(i as int));
                    assert(self@ =~= survivors(table.take(seen + 1), now) + table.skip(seen + 1));
                }
            }
            proof {
                seen = seen + 1;
            }
        }
        assert(table.take(seen) =~= table);
        assert(self@ =~= survivors(table, now));
        events
    }

    /// Gives up every wait: the table is empty afterwards, and the sends it
    /// held are named, oldest first.
    pub fn cancel_all(&mut self) -> (cancelled: Vec<Correlation>)
        ensures
            final(self)@ == Seq::<PendingAckView>::empty(),
            correlation_views(cancelled@) == old(self)@.map_values(
                |p: PendingAckView| p.correlation,
            ),
    {
        let mut cancelled: Vec<Correlation> = Vec::new();
        let mut i: usize = 0;
        while i < self.entries.len()
            invariant
                i <= self.entries@.len(),
                self@ == old(self)@,
                cancelled@.len() == i,
                forall|j: int|
                    0 <= j < i ==> (#[trigger] cancelled@[j])@ == self@[j].correlation,
            decreases self.entries@.len() - i,
        {
            cancelled.push(self.entries[i].correlation);
            i += 1;
        }
        self.entries.clear();
        assert(self@ =~= Seq::<PendingAckView>::empty());
        assert(correlation_views(cancelled@) =~= old(self)@.map_values(
            |p: PendingAckView| p.correlation,
        ));
        cancelled
    }
}

} // verus!
