//! Listeners by message type, in the order in which they were registered.

use crate::adapter::MessageListener;
use crate::error::ListenerError;
use uuid::Uuid;
use vstd::prelude::*;

verus! {

/// One listener and the message type it listens for.
pub struct Registration<L> {
    pub type_code: u8,
    pub listener: L,
}

/// What became of handing one message to one listener.
#[derive(Debug, PartialEq, Eq)]
pub struct Invocation {
    /// Position of the listener in registration order.
    pub listener: usize,
    /// What the listener answered.
    pub outcome: Result<(), ListenerError>,
}

/// The positions, in ascending order, at which `codes` holds `type_code`.
pub open spec fn matching(codes: Seq<u8>, type_code: u8) -> Seq<int>
    decreases codes.len(),
{
    if codes.len() == 0 {
        Seq::<int>::empty()
    } else if codes.last() == type_code {
        matching(codes.drop_last(), type_code).push(codes.len() - 1)
    } else {
        matching(codes.drop_last(), type_code)
    }
}

/// The type codes of a sequence of registrations, position by position.
pub open spec fn codes_of<L>(registrations: Seq<Registration<L>>) -> Seq<u8> {
    registrations.map_values(|r: Registration<L>| r.type_code)
}

/// `matching` names exactly the positions that hold the type, each once, in
/// ascending order.
pub proof fn lemma_matching_is_exact(codes: Seq<u8>, type_code: u8)
    ensures
        forall|k: int|
            0 <= k < matching(codes, type_code).len() ==> {
                &&& 0 <= #[trigger] matching(codes, type_code)[k] < codes.len()
                &&& codes[matching(codes, type_code)[k]] == type_code
            },
        forall|j: int, k: int|
            0 <= j < k < matching(codes, type_code).len() ==> matching(codes, type_code)[j]
                < matching(codes, type_code)[k],
        forall|i: int|
            0 <= i < codes.len() && codes[i] == type_code ==> matching(codes, type_code).contains(
                i,
            ),
    decreases codes.len(),
{
    if codes.len() > 0 {
        let rest = matching(codes.drop_last(), type_code);
        let all = matching(codes, type_code);
        lemma_matching_is_exact(codes.drop_last(), type_code);
        assert forall|i: int| 0 <= i < codes.len() && codes[i] == type_code implies all.contains(
            i,
        ) by {
            if i < codes.len() - 1 {
                assert(codes.drop_last()[i] == type_code);
                let k = choose|k: int| 0 <= k < rest.len() && rest[k] == i;
                assert(all[k] == i);
            } else {
                assert(all[all.len() - 1] == i);
            }
        }
    }
}

/// Registering two listeners for one type, one after the other, puts both
/// behind every earlier listener of that type, the first before the second:
/// a frame of that type reaches them in registration order.
pub proof fn lemma_registration_order<L>(
    before: Seq<Registration<L>>,
    type_code: u8,
    first: L,
    second: L,
)
    ensures
        matching(
            codes_of(
                before.push(Registration { type_code, listener: first }).push(
                    Registration { type_code, listener: second },
                ),
            ),
            type_code,
        ) == matching(codes_of(before), type_code).push(before.len() as int).push(
            before.len() as int + 1,
        ),
{
    let one = before.push(Registration { type_code, listener: first });
    let two = one.push(Registration { type_code, listener: second });
    assert(codes_of(one).drop_last() =~= codes_of(before));
    assert(codes_of(one).last() == type_code);
    assert(matching(codes_of(one), type_code) == matching(codes_of(before), type_code).push(
        before.len() as int,
    ));
    assert(codes_of(two).drop_last() =~= codes_of(one));
    assert(codes_of(two).last() == type_code);
}

/// A registration for another type changes nothing about where a type is
/// routed.
pub proof fn lemma_other_type_is_ignored<L>(
    before: Seq<Registration<L>>,
    registered: u8,
    listener: L,
    type_code: u8,
)
    requires
        registered != type_code,
    ensures
        matching(codes_of(before.push(Registration { type_code: registered, listener })), type_code)
            == matching(codes_of(before), type_code),
{
    let after = before.push(Registration { type_code: registered, listener });
    assert(codes_of(after).drop_last() =~= codes_of(before));
    assert(codes_of(after).last() == registered);
}

/// A type that nobody registered for is routed to no listener.
pub proof fn lemma_unregistered_type_reaches_nobody(codes: Seq<u8>, type_code: u8)
    requires
        forall|i: int| 0 <= i < codes.len() ==> codes[i] != type_code,
    ensures
        matching(codes, type_code) == Seq::<int>::empty(),
    decreases codes.len(),
{
    if codes.len() > 0 {
        lemma_unregistered_type_reaches_nobody(codes.drop_last(), type_code);
    }
}

/// Append-only table of listener registrations.
pub struct Registry<L> {
    entries: Vec<Registration<L>>,
}

impl<L> View for Registry<L> {
    type V = Seq<Registration<L>>;

    closed spec fn view(&self) -> Seq<Registration<L>> {
        self.entries@
    }
}

impl<L: MessageListener> Registry<L> {
    /// The registered type codes, in registration order.
    pub open spec fn codes(&self) -> Seq<u8> {
        codes_of(self@)
    }

    /// A registry without registrations.
    pub fn new() -> (registry: Self)
        ensures
            registry@ == Seq::<Registration<L>>::empty(),
    {
        Registry { entries: Vec::new() }
    }

    /// Number of registrations.
    pub fn len(&self) -> (n: usize)
        ensures
            n == self@.len(),
    {
        self.entries.len()
    }

    /// Appends `listener` under `type_code`. Earlier registrations keep their
    /// positions; several listeners may share one type.
    pub fn register(&mut self, type_code: u8, listener: L)
        ensures
            final(self)@ == old(self)@.push(Registration { type_code, listener }),
    {
        self.entries.push(Registration { type_code, listener });
    }

    /// Hands `(sender, payload)` to every listener registered for
    /// `type_code`, in registration order, and reports each answer. A failing
    /// listener does not keep the later ones from being called; a type without
    /// listeners gives an empty report.
    pub fn route(&self, type_code: u8, sender: &Uuid, payload: &[u8]) -> (report: Vec<Invocation>)
        ensures
            report@.len() == matching(self.codes(), type_code).len(),
            forall|k: int|
                0 <= k < report@.len() ==> #[trigger] report@[k].listener == matching(
                    self.codes(),
                    type_code,
                )[k],
    {
        let mut report: Vec<Invocation> = Vec::new();
        let n = self.entries.len();
        let mut i: usize = 0;
        while i < n
            invariant
                i <= n,
                n == self@.len(),
                report@.len() == matching(self.codes().take(i as int), type_code).len(),
                forall|k: int|
                    0 <= k < report@.len() ==> #[trigger] report@[k].listener == matching(
                        self.codes().take(i as int),
                        type_code,
                    )[k],
            decreases n - i,
        {
            proof {
                let codes = self.codes();
                assert(codes.take(i + 1).drop_last() =~= codes.take(i as int));
                assert(codes.take(i + 1).last() == self@[i as int].type_code);
            }
            if self.entries[i].type_code == type_code {
                let outcome = self.entries[i].listener.message_recived(*sender, payload);
                report.push(Invocation { listener: i, outcome });
            }
            i += 1;
        }
        assert(self.codes().take(n as int) =~= self.codes());
        report
    }
}

} // verus!
