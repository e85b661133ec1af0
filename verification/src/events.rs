use vstd::prelude::*;

use crate::session::{LocalSession, SessionView};
use crate::session_common::{Delivery, DeliveryView};
use crate::types::{clone_event, Event, EventView, UID};

verus! {

/// `std::time::SystemTime`, carried along as an opaque value: nothing here
/// looks inside a time.
#[verifier::external_type_specification]
#[verifier::external_body]
pub struct ExSystemTime(std::time::SystemTime);

/// Calls `SystemTime::now`; nothing is claimed of the time it gives.
#[verifier::external_body]
fn now() -> std::time::SystemTime {
    std::time::SystemTime::now()
}

impl SessionView {
    /// What telling each of `subs` of `event`, in order, does: a subscriber
    /// that a lookup finds is kept and the event is delivered to it (a
    /// module is skipped); one that is not found is dropped. Gives the
    /// session after it, the subscribers kept and what each delivery came
    /// to.
    pub open spec fn tell_subscribers(self, subs: Seq<UID>, event: EventView) -> (
        SessionView,
        Seq<UID>,
        Seq<DeliveryView>,
    )
        decreases subs.len(),
    {
        if subs.len() == 0 {
            (self, Seq::empty(), Seq::empty())
        } else {
            let got = self.get(subs[0]);
            match got.1 {
                Err(_) => got.0.tell_subscribers(subs.drop_first(), event),
                Ok(_) => {
                    let d = got.0.deliver(subs[0], event, false);
                    let rest = d.0.tell_subscribers(subs.drop_first(), event);
                    (rest.0, seq![subs[0]] + rest.1, seq![d.1] + rest.2)
                },
            }
        }
    }
}

/// How many events the log keeps.
pub const EVENT_SLOTS: usize = 20;

#[derive(Debug)]
/// The last events of a node, each with the time it was logged, in a ring of
/// twenty slots, and the nodes subscribed to it.
pub struct Events {
    pub events: [Option<(std::time::SystemTime, Event)>; 20],
    pub cursour: usize,
    pub subscribers: Vec<UID>,
}

impl Events {
    /// The cursor points at a slot.
    pub open spec fn wf(&self) -> bool {
        self.cursour < EVENT_SLOTS
    }

    /// An empty log without subscribers.
    pub fn new() -> (e: Self)
        ensures
            e.wf(),
            e.cursour == 0,
            e.subscribers@.len() == 0,
            forall|i: int| 0 <= i < EVENT_SLOTS ==> #[trigger] e.events@[i] is None,
    {
        Events {
            events: [
                None, None, None, None, None, None, None, None, None, None, None, None, None, None,
                None, None, None, None, None, None,
            ],
            cursour: 0,
            subscribers: Vec::new(),
        }
    }

    /// Logs `event`, with the current time, in the slot under the cursor,
    /// and moves the cursor on, back to the first slot after the last. Then
    /// tells each subscriber of it, in order: one that `session` can find is
    /// kept and the event is delivered to it; one that it cannot find is
    /// dropped. Returns what each delivery came to, with the calls that
    /// modules have to handle (their answers are not looked at).
    pub fn new_event(&mut self, event: Event, session: &mut LocalSession) -> (r: Vec<Delivery>)
        requires
            old(self).wf(),
            old(session).wf(),
        ensures
            final(self).wf(),
            final(session).wf(),
            final(self).cursour == if old(self).cursour + 1 > 19 {
                0
            } else {
                old(self).cursour + 1
            },
            final(self).events@.len() == EVENT_SLOTS,
            final(self).events@[old(self).cursour as int] matches Some(p) && p.1@ == event@,
            forall|i: int|
                0 <= i < EVENT_SLOTS && i != old(self).cursour ==> #[trigger] final(self).events@[i]
                    == old(self).events@[i],
            ({
                let told = old(session)@.tell_subscribers(old(self).subscribers@, event@);
                &&& final(session)@ == told.0
                &&& final(self).subscribers@ == told.1
                &&& r@.map_values(|d: Delivery| d@) == told.2
            }),
    {
        let time = now();
        let c = self.cursour;
        let logged = clone_event(&event);
        self.events[c] = Some((time, logged));
        self.cursour = self.cursour + 1;
        if self.cursour > 19 {
            self.cursour = 0;
        }
        let ghost s0 = session@;
        let ghost subs = self.subscribers@;
        let mut kept: Vec<UID> = Vec::new();
        let mut deliveries: Vec<Delivery> = Vec::new();
        let mut k: usize = 0;
        assert(subs.skip(0) =~= subs);
        while k < self.subscribers.len()
            invariant
                session.wf(),
                self.subscribers@ == subs,
                k <= subs.len(),
                s0.tell_subscribers(subs, event@) == ({
                    let rest = session@.tell_subscribers(subs.skip(k as int), event@);
                    (rest.0, kept@ + rest.1, deliveries@.map_values(|d: Delivery| d@) + rest.2)
                }),
            decreases subs.len() - k,
        {
            let sub = self.subscribers[k];
            assert(subs.skip(k as int)[0] == sub);
            assert(subs.skip(k as int).drop_first() =~= subs.skip(k + 1));
            let ghost before_kept = kept@;
            let ghost before_d = deliveries@.map_values(|d: Delivery| d@);
            match session.get(sub) {
                Err(_) => {},
                Ok(_) => {
                    let d = session.deliver(sub, &event, false);
                    kept.push(sub);
                    deliveries.push(d);
                    assert(deliveries@.map_values(|d: Delivery| d@) =~= before_d.push(d@));
                    proof {
                        let rest = session@.tell_subscribers(subs.skip(k + 1), event@);
                        assert(before_kept + (seq![sub] + rest.1) =~= kept@ + rest.1);
                        assert(before_d + (seq![d@] + rest.2) =~= deliveries@.map_values(|d: Delivery| d@) + rest.2);
                    }
                },
            }
            k = k + 1;
        }
        proof {
            assert(subs.skip(k as int) =~= Seq::<UID>::empty());
            assert(kept@ + Seq::<UID>::empty() =~= kept@);
            assert(deliveries@.map_values(|d: Delivery| d@) + Seq::<DeliveryView>::empty()
                =~= deliveries@.map_values(|d: Delivery| d@));
        }
        self.subscribers = kept;
        deliveries
    }

    /// Whether `r` is subscribed.
    pub fn is_subscribed(&self, r: &UID) -> (b: bool)
        ensures
            b == self.subscribers@.contains(*r),
    {
        let mut i: usize = 0;
        while i < self.subscribers.len()
            invariant
                i <= self.subscribers@.len(),
                forall|j: int| 0 <= j < i ==> self.subscribers@[j] != *r,
            decreases self.subscribers@.len() - i,
        {
            if self.subscribers[i] == *r {
                assert(self.subscribers@[i as int] == *r);
                return true;
            }
            i = i + 1;
        }
        false
    }

    /// Subscribes `r`; `false`, and no change, when it already is.
    pub fn subscribe(&mut self, r: UID) -> (b: bool)
        ensures
            b == !old(self).subscribers@.contains(r),
            b ==> final(self).subscribers@ == old(self).subscribers@.push(r),
            !b ==> final(self).subscribers@ == old(self).subscribers@,
            final(self).events == old(self).events,
            final(self).cursour == old(self).cursour,
    {
        if self.is_subscribed(&r) {
            return false;
        }
        self.subscribers.push(r);
        true
    }

    /// Unsubscribes `r`; `false`, and no change, when it is not subscribed.
    pub fn unsubscribe(&mut self, r: UID) -> (b: bool)
        ensures
            b == old(self).subscribers@.contains(r),
            b ==> final(self).subscribers@ == old(self).subscribers@.filter(
                crate::session_common::other_than(r),
            ),
            !b ==> final(self).subscribers@ == old(self).subscribers@,
            final(self).events == old(self).events,
            final(self).cursour == old(self).cursour,
    {
        if !self.is_subscribed(&r) {
            return false;
        }
        let ghost pred = crate::session_common::other_than(r);
        let mut kept: Vec<UID> = Vec::new();
        let mut i: usize = 0;
        while i < self.subscribers.len()
            invariant
                i <= self.subscribers@.len(),
                pred == crate::session_common::other_than(r),
                kept@ == self.subscribers@.take(i as int).filter(pred),
            decreases self.subscribers@.len() - i,
        {
            let x = self.subscribers[i];
            assert(self.subscribers@.take(i + 1).drop_last() =~= self.subscribers@.take(i as int));
            assert(self.subscribers@.take(i + 1).last() == x);
            if x != r {
                kept.push(x);
                assert(self.subscribers@.take(i + 1).filter(pred) == self.subscribers@.take(
                    i as int,
                ).filter(pred).push(x)) by {
                    reveal_with_fuel(Seq::<_>::filter, 1);
                }
            } else {
                assert(self.subscribers@.take(i + 1).filter(pred) == self.subscribers@.take(
                    i as int,
                ).filter(pred)) by {
                    reveal_with_fuel(Seq::<_>::filter, 1);
                }
            }
            i = i + 1;
        }
        assert(self.subscribers@.take(self.subscribers@.len() as int) =~= self.subscribers@);
        self.subscribers = kept;
        true
    }
}

impl Default for Events {
    fn default() -> (e: Self)
        ensures
            e.wf(),
            e.cursour == 0,
            e.subscribers@.len() == 0,
            forall|i: int| 0 <= i < EVENT_SLOTS ==> #[trigger] e.events@[i] is None,
    {
        Events::new()
    }
}

} // verus!
