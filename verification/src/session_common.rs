use vstd::prelude::*;

use crate::error::{SessionError, SessionResult};
use crate::session::{ElementNode, LocalSession, LocationNode, NodeEventsView, SessionView, Wraper};
use crate::types::{clone_event, Event, EventView, UID};

verus! {

#[derive(Debug)]
/// A call that the module with position `module` in the session has to
/// handle: `event` reached `target`, which uses that module.
pub struct ModuleCall {
    pub module: usize,
    pub target: Wraper,
    pub event: Event,
}

#[derive(Debug)]
/// What delivering an event to one node came to.
pub enum Delivery {
    /// Queued; the node has no module to tell.
    Delivered,
    /// The node, or its module, could not be found.
    Failed(SessionError),
    /// Queued; the node's module has to be told.
    Call(ModuleCall),
}

/// What a [`Delivery`] stands for.
pub enum DeliveryView {
    Delivered,
    Failed(SessionError),
    Call(usize, Wraper, EventView),
}

impl View for Delivery {
    type V = DeliveryView;

    open spec fn view(&self) -> DeliveryView {
        match self {
            Delivery::Delivered => DeliveryView::Delivered,
            Delivery::Failed(e) => DeliveryView::Failed(*e),
            Delivery::Call(c) => DeliveryView::Call(c.module, c.target, c.event@),
        }
    }
}

/// `s` with `x` added, unless it is there already.
pub open spec fn set_insert(s: Seq<UID>, x: UID) -> Seq<UID> {
    if s.contains(x) {
        s
    } else {
        s.push(x)
    }
}

/// Whether a UID is not `x`.
pub open spec fn other_than(x: UID) -> spec_fn(UID) -> bool {
    |y: UID| y != x
}

/// `s` without `x`.
pub open spec fn set_remove(s: Seq<UID>, x: UID) -> Seq<UID> {
    s.filter(other_than(x))
}

/// Leaving out the UIDs equal to one keeps the others, each as often as
/// before.
pub proof fn lemma_set_remove(subs: Seq<UID>, x: UID)
    requires
        subs.no_duplicates(),
    ensures
        set_remove(subs, x).no_duplicates(),
        !set_remove(subs, x).contains(x),
        forall|y: UID| y != x ==> (#[trigger] set_remove(subs, x).contains(y) <==> subs.contains(y)),
    decreases subs.len(),
{
    reveal_with_fuel(Seq::<_>::filter, 1);
    if subs.len() > 0 {
        let init = subs.drop_last();
        assert(init.no_duplicates());
        lemma_set_remove(init, x);
        let kept = set_remove(init, x);
        assert forall|y: UID| y != x implies (#[trigger] set_remove(subs, x).contains(y) <==> subs.contains(y)) by {
            if subs.contains(y) && !init.contains(y) {
                let i = choose|i: int| 0 <= i < subs.len() && subs[i] == y;
                if i < subs.len() - 1 {
                    assert(init[i] == y);
                }
                assert(set_remove(subs, x).last() == y);
            }
            if set_remove(subs, x).contains(y) && !kept.contains(y) {
                assert(y == subs.last());
            }
            if init.contains(y) {
                let i = choose|i: int| 0 <= i < init.len() && init[i] == y;
                assert(subs[i] == y);
            }
        }
        if subs.last() != x {
            assert(!kept.contains(subs.last())) by {
                if kept.contains(subs.last()) {
                    let i = choose|i: int| 0 <= i < init.len() && init[i] == subs.last();
                    assert(subs[i] == subs[subs.len() - 1]);
                }
            }
        }
    }
}

impl SessionView {
    /// The name of a node.
    pub open spec fn name_of(self, w: Wraper) -> Seq<char> {
        match w {
            Wraper::Element(i) => self.elements[i as int].element.name,
            Wraper::Location(i) => self.locations[i as int].location.name,
            Wraper::Module(i) => self.modules[i as int].module.name,
        }
    }

    /// The description of a node.
    pub open spec fn desc_of(self, w: Wraper) -> Seq<char> {
        match w {
            Wraper::Element(i) => self.elements[i as int].element.desc,
            Wraper::Location(i) => self.locations[i as int].location.desc,
            Wraper::Module(i) => self.modules[i as int].module.desc,
        }
    }

    /// The session with the name of a node replaced.
    pub open spec fn with_name(self, w: Wraper, name: Seq<char>) -> SessionView {
        match w {
            Wraper::Element(i) => {
                let n = self.elements[i as int];
                SessionView {
                    elements: self.elements.update(
                        i as int,
                        ElementNode { element: crate::element::ElementView { name, ..n.element }, ..n },
                    ),
                    ..self
                }
            },
            Wraper::Location(i) => {
                let n = self.locations[i as int];
                SessionView {
                    locations: self.locations.update(
                        i as int,
                        LocationNode {
                            location: crate::location::LocationView { name, ..n.location },
                            ..n
                        },
                    ),
                    ..self
                }
            },
            Wraper::Module(i) => {
                let n = self.modules[i as int];
                SessionView {
                    modules: self.modules.update(
                        i as int,
                        crate::session::ModuleNode {
                            module: crate::module::ModuleView { name, ..n.module },
                            ..n
                        },
                    ),
                    ..self
                }
            },
        }
    }

    /// The session with the description of a node replaced.
    pub open spec fn with_desc(self, w: Wraper, desc: Seq<char>) -> SessionView {
        match w {
            Wraper::Element(i) => {
                let n = self.elements[i as int];
                SessionView {
                    elements: self.elements.update(
                        i as int,
                        ElementNode { element: crate::element::ElementView { desc, ..n.element }, ..n },
                    ),
                    ..self
                }
            },
            Wraper::Location(i) => {
                let n = self.locations[i as int];
                SessionView {
                    locations: self.locations.update(
                        i as int,
                        LocationNode {
                            location: crate::location::LocationView { desc, ..n.location },
                            ..n
                        },
                    ),
                    ..self
                }
            },
            Wraper::Module(i) => {
                let n = self.modules[i as int];
                SessionView {
                    modules: self.modules.update(
                        i as int,
                        crate::session::ModuleNode {
                            module: crate::module::ModuleView { desc, ..n.module },
                            ..n
                        },
                    ),
                    ..self
                }
            },
        }
    }

    /// The events and subscribers of an element or location.
    pub open spec fn events_of(self, w: Wraper) -> NodeEventsView {
        match w {
            Wraper::Element(i) => self.elements[i as int].events,
            Wraper::Location(i) => self.locations[i as int].events,
            Wraper::Module(_) => crate::session::no_events(),
        }
    }

    /// The session with the events and subscribers of an element or location
    /// replaced.
    pub open spec fn with_events(self, w: Wraper, ev: NodeEventsView) -> SessionView {
        match w {
            Wraper::Element(i) => {
                let n = self.elements[i as int];
                SessionView { elements: self.elements.update(i as int, ElementNode { events: ev, ..n }), ..self }
            },
            Wraper::Location(i) => {
                let n = self.locations[i as int];
                SessionView { locations: self.locations.update(i as int, LocationNode { events: ev, ..n }), ..self }
            },
            Wraper::Module(_) => self,
        }
    }

    /// The module that an element or location uses, if any.
    pub open spec fn module_of(self, w: Wraper) -> Option<crate::helper::ModuleId> {
        match w {
            Wraper::Element(i) => self.elements[i as int].element.module,
            Wraper::Location(i) => self.locations[i as int].location.module,
            Wraper::Module(_) => None,
        }
    }

    /// Delivers `event` to the node behind `to`: it is queued on an element
    /// or location, and when that node uses a module, the module is looked
    /// up to be told. A module as the target fails when `module_fails`, and
    /// is skipped otherwise.
    pub open spec fn deliver(self, to: UID, event: EventView, module_fails: bool) -> (
        SessionView,
        DeliveryView,
    ) {
        let got = self.get(to);
        let s1 = got.0;
        match got.1 {
            Err(e) => (s1, DeliveryView::Failed(e)),
            Ok(Wraper::Module(_)) => (
                s1,
                if module_fails {
                    DeliveryView::Failed(SessionError::IsNotAnElementOrLocation)
                } else {
                    DeliveryView::Delivered
                },
            ),
            Ok(w) => {
                let ev = s1.events_of(w);
                let s2 = s1.with_events(w, NodeEventsView { events: ev.events.push(event), ..ev });
                match s2.module_of(w) {
                    None => (s2, DeliveryView::Delivered),
                    Some(m) => {
                        let found = s2.module(m.uid);
                        match found.1 {
                            Ok(mi) => (found.0, DeliveryView::Call(mi, w, event)),
                            Err(e) => (found.0, DeliveryView::Failed(e)),
                        }
                    },
                }
            },
        }
    }

    /// Delivers `event` to each of `subs` in turn (a module among them is
    /// skipped), and collects what each delivery came to.
    pub open spec fn deliver_all(self, subs: Seq<UID>, event: EventView) -> (
        SessionView,
        Seq<DeliveryView>,
    )
        decreases subs.len(),
    {
        if subs.len() == 0 {
            (self, Seq::empty())
        } else {
            let first = self.deliver(subs[0], event, false);
            let rest = first.0.deliver_all(subs.drop_first(), event);
            (rest.0, seq![first.1] + rest.1)
        }
    }
}

/// The errors among `outcomes`, in order.
pub open spec fn errors_of(outcomes: Seq<SessionResult<()>>) -> Seq<SessionError>
    decreases outcomes.len(),
{
    if outcomes.len() == 0 {
        Seq::empty()
    } else {
        let rest = errors_of(outcomes.drop_first());
        match outcomes[0] {
            Err(e) => seq![e] + rest,
            Ok(_) => rest,
        }
    }
}

/// Combines the outcome of every delivery of an emitted event, in order:
/// `Ok` when all succeeded, else the list of errors, wrapped as an error of
/// `emit`.
pub fn finish_emit(outcomes: Vec<SessionResult<()>>) -> (r: SessionResult<()>)
    ensures
        errors_of(outcomes@).len() == 0 ==> r == Ok::<(), SessionError>(()),
        errors_of(outcomes@).len() > 0 ==> (r matches Err(SessionError::Emit(b)) && (*b matches SessionError::Errors(v) && v@ == errors_of(outcomes@))),
{
    let mut outcomes = outcomes;
    let ghost all = outcomes@;
    let mut errors: Vec<SessionError> = Vec::new();
    let ghost mut i: int = 0;
    while outcomes.len() > 0
        invariant
            0 <= i <= all.len(),
            i + outcomes@.len() == all.len(),
            outcomes@ == all.skip(i),
            errors_of(all) == errors@ + errors_of(outcomes@),
        decreases outcomes@.len(),
    {
        let ghost before = outcomes@;
        assert(before.drop_first() =~= all.skip(i + 1));
        let o = outcomes.remove(0);
        assert(outcomes@ =~= before.drop_first());
        match o {
            Err(e) => {
                errors.push(e);
            },
            Ok(_) => {},
        }
        proof {
            i = i + 1;
        }
        assert(errors_of(all) =~= errors@ + errors_of(outcomes@));
    }
    assert(errors_of(outcomes@) =~= Seq::empty());
    assert(errors@ =~= errors_of(all));
    if errors.len() == 0 {
        Ok(())
    } else {
        Err(SessionError::Emit(Box::new(SessionError::Errors(errors))))
    }
}

impl SessionView {
    /// What emitting `event` from the node behind `uid` does: it is wrapped
    /// as coming from that node and delivered to each of its subscribers.
    pub open spec fn emit(self, uid: UID, event: EventView) -> (
        SessionView,
        SessionResult<Seq<DeliveryView>>,
    ) {
        let got = self.get(uid);
        let s1 = got.0;
        match got.1 {
            Err(e) => (s1, Err(SessionError::Emit(Box::new(e)))),
            Ok(Wraper::Module(_)) => (
                s1,
                Err(SessionError::Emit(Box::new(SessionError::IsNotAnElementOrLocation))),
            ),
            Ok(w) => {
                let id = match w {
                    Wraper::Element(i) => s1.elements[i as int].element.id.uid,
                    Wraper::Location(i) => s1.locations[i as int].location.id.uid,
                    Wraper::Module(_) => 0,
                };
                let d = s1.deliver_all(
                    s1.events_of(w).subscribers,
                    EventView::From(id, Box::new(event)),
                );
                (d.0, Ok(d.1))
            },
        }
    }

    /// What changing the subscribers of the node behind `to` does; `add`
    /// tells whether `uid` is added or removed.
    pub open spec fn change_subscription(self, uid: UID, to: UID, add: bool) -> (
        SessionView,
        SessionResult<()>,
    ) {
        let got = self.get(to);
        let s1 = got.0;
        match got.1 {
            Err(e) => (s1, Err(SessionError::Subscribe(Box::new(e)))),
            Ok(Wraper::Module(_)) => (
                s1,
                Err(SessionError::Subscribe(Box::new(SessionError::IsNotAnElementOrLocation))),
            ),
            Ok(w) => {
                let ev = s1.events_of(w);
                let subs = if add {
                    set_insert(ev.subscribers, uid)
                } else {
                    set_remove(ev.subscribers, uid)
                };
                (s1.with_events(w, NodeEventsView { subscribers: subs, ..ev }), Ok(()))
            },
        }
    }
}

/// A copy of a list of bytes.
pub fn copy_bytes(v: &[u8]) -> (r: Vec<u8>)
    ensures
        r@ == v@,
{
    let mut r: Vec<u8> = Vec::new();
    let mut i: usize = 0;
    while i < v.len()
        invariant
            i <= v@.len(),
            r@ == v@.take(i as int),
        decreases v@.len() - i,
    {
        r.push(v[i]);
        i = i + 1;
        assert(r@ =~= v@.take(i as int));
    }
    assert(v@.take(v@.len() as int) =~= v@);
    r
}

/// The error of `notify` when the module it had to tell failed.
pub fn notify_module_result(res: SessionResult<()>) -> (r: SessionResult<()>)
    ensures
        res is Ok ==> r == Ok::<(), SessionError>(()),
        res matches Err(e) ==> r == Err::<(), SessionError>(SessionError::Notify(Box::new(e))),
{
    match res {
        Ok(()) => Ok(()),
        Err(e) => Err(SessionError::Notify(Box::new(e))),
    }
}

/// The result of `write` of `n` bytes once the module it had to tell
/// answered.
pub fn write_module_result(res: SessionResult<()>, n: usize) -> (r: SessionResult<usize>)
    ensures
        res is Ok ==> r == Ok::<usize, SessionError>(n),
        res matches Err(e) ==> r == Err::<usize, SessionError>(SessionError::Write(Box::new(e))),
{
    match res {
        Ok(()) => Ok(n),
        Err(e) => Err(SessionError::Write(Box::new(e))),
    }
}

impl crate::session::NodeEvents {
    /// Adds a subscriber, unless it is there already.
    pub fn insert_subscriber(&mut self, uid: UID)
        ensures
            final(self)@.events == old(self)@.events,
            final(self)@.subscribers == set_insert(old(self)@.subscribers, uid),
    {
        let mut i: usize = 0;
        while i < self.subscribers.len()
            invariant
                i <= self.subscribers@.len(),
                forall|j: int| 0 <= j < i ==> self.subscribers@[j] != uid,
            decreases self.subscribers@.len() - i,
        {
            if self.subscribers[i] == uid {
                assert(self.subscribers@[i as int] == uid);
                return;
            }
            i = i + 1;
        }
        self.subscribers.push(uid);
    }

    /// Removes a subscriber.
    pub fn remove_subscriber(&mut self, uid: UID)
        ensures
            final(self)@.events == old(self)@.events,
            final(self)@.subscribers == set_remove(old(self)@.subscribers, uid),
    {
        let ghost pred = other_than(uid);
        let mut kept: Vec<UID> = Vec::new();
        let mut i: usize = 0;
        while i < self.subscribers.len()
            invariant
                i <= self.subscribers@.len(),
                pred == other_than(uid),
                kept@ == self.subscribers@.take(i as int).filter(pred),
            decreases self.subscribers@.len() - i,
        {
            let x = self.subscribers[i];
            assert(self.subscribers@.take(i + 1).drop_last() =~= self.subscribers@.take(i as int));
            assert(self.subscribers@.take(i + 1).last() == x);
            if x != uid {
                kept.push(x);
                assert(self.subscribers@.take(i + 1).filter(pred) == self.subscribers@.take(
                    i as int,
                ).filter(pred).push(x)) by {
                    reveal_with_fuel(Seq::<_>::filter, 1);
                }
            } else {
                assert(self.subscribers@.take(i + 1).filter(pred) == self.subscribers@.take(
                    i as int,
                ).filter(pred)) by {
                    reveal_with_fuel(Seq::<_>::filter, 1);
                }
            }
            i = i + 1;
        }
        assert(self.subscribers@.take(self.subscribers@.len() as int) =~= self.subscribers@);
        self.subscribers = kept;
    }
}

impl LocalSession {
    /// The name of the node behind `uid`.
    pub fn get_name(&mut self, uid: UID) -> (r: SessionResult<String>)
        requires
            old(self).wf(),
        ensures
            final(self).wf(),
            final(self)@ == old(self)@.get(uid).0,
            match old(self)@.get(uid).1 {
                Ok(w) => r matches Ok(n) && n@ == final(self)@.name_of(w),
                Err(e) => r == Err::<String, SessionError>(SessionError::GetName(Box::new(e))),
            },
    {
        match self.get(uid) {
            Ok(Wraper::Element(i)) => Ok(self.elements[i].element.name.clone()),
            Ok(Wraper::Location(i)) => Ok(self.locations[i].location.name.clone()),
            Ok(Wraper::Module(i)) => Ok(self.modules[i].module.name.clone()),
            Err(e) => Err(SessionError::GetName(Box::new(e))),
        }
    }

    /// Renames the node behind `uid`.
    pub fn set_name(&mut self, uid: UID, name: String) -> (r: SessionResult<()>)
        requires
            old(self).wf(),
        ensures
            final(self).wf(),
            match old(self)@.get(uid).1 {
                Ok(w) => r == Ok::<(), SessionError>(()) && final(self)@ == old(self)@.get(
                    uid,
                ).0.with_name(w, name@),
                Err(e) => r == Err::<(), SessionError>(SessionError::SetName(Box::new(e)))
                    && final(self)@ == old(self)@.get(uid).0,
            },
    {
        match self.get(uid) {
            Ok(Wraper::Element(i)) => {
                let ghost before = self@;
                self.elements[i].element.name = name;
                assert(self@.elements =~= before.with_name(Wraper::Element(i), name@).elements);
            },
            Ok(Wraper::Location(i)) => {
                let ghost before = self@;
                self.locations[i].location.name = name;
                assert(self@.locations =~= before.with_name(Wraper::Location(i), name@).locations);
            },
            Ok(Wraper::Module(i)) => {
                let ghost before = self@;
                self.modules[i].module.name = name;
                assert(self@.modules =~= before.with_name(Wraper::Module(i), name@).modules);
            },
            Err(e) => {
                return Err(SessionError::SetName(Box::new(e)));
            },
        }
        Ok(())
    }

    /// The description of the node behind `uid`.
    pub fn get_desc(&mut self, uid: UID) -> (r: SessionResult<String>)
        requires
            old(self).wf(),
        ensures
            final(self).wf(),
            final(self)@ == old(self)@.get(uid).0,
            match old(self)@.get(uid).1 {
                Ok(w) => r matches Ok(n) && n@ == final(self)@.desc_of(w),
                Err(e) => r == Err::<String, SessionError>(SessionError::GetDesc(Box::new(e))),
            },
    {
        match self.get(uid) {
            Ok(Wraper::Element(i)) => Ok(self.elements[i].element.desc.clone()),
            Ok(Wraper::Location(i)) => Ok(self.locations[i].location.desc.clone()),
            Ok(Wraper::Module(i)) => Ok(self.modules[i].module.desc.clone()),
            Err(e) => Err(SessionError::GetDesc(Box::new(e))),
        }
    }

    /// Changes the description of the node behind `uid`; a failed lookup is
    /// reported as an error of `set_name`.
    pub fn set_desc(&mut self, uid: UID, desc: String) -> (r: SessionResult<()>)
        requires
            old(self).wf(),
        ensures
            final(self).wf(),
            match old(self)@.get(uid).1 {
                Ok(w) => r == Ok::<(), SessionError>(()) && final(self)@ == old(self)@.get(
                    uid,
                ).0.with_desc(w, desc@),
                Err(e) => r == Err::<(), SessionError>(SessionError::SetName(Box::new(e)))
                    && final(self)@ == old(self)@.get(uid).0,
            },
    {
        match self.get(uid) {
            Ok(Wraper::Element(i)) => {
                let ghost before = self@;
                self.elements[i].element.desc = desc;
                assert(self@.elements =~= before.with_desc(Wraper::Element(i), desc@).elements);
            },
            Ok(Wraper::Location(i)) => {
                let ghost before = self@;
                self.locations[i].location.desc = desc;
                assert(self@.locations =~= before.with_desc(Wraper::Location(i), desc@).locations);
            },
            Ok(Wraper::Module(i)) => {
                let ghost before = self@;
                self.modules[i].module.desc = desc;
                assert(self@.modules =~= before.with_desc(Wraper::Module(i), desc@).modules);
            },
            Err(e) => {
                return Err(SessionError::SetName(Box::new(e)));
            },
        }
        Ok(())
    }

    /// Delivers `event` to the node behind `to`; see [`SessionView::deliver`].
    pub fn deliver(&mut self, to: UID, event: &Event, module_fails: bool) -> (d: Delivery)
        requires
            old(self).wf(),
        ensures
            final(self).wf(),
            (final(self)@, d@) == old(self)@.deliver(to, event@, module_fails),
            d matches Delivery::Call(c) ==> c.module < final(self)@.modules.len(),
    {
        match self.get(to) {
            Err(e) => Delivery::Failed(e),
            Ok(Wraper::Module(_)) => {
                if module_fails {
                    Delivery::Failed(SessionError::IsNotAnElementOrLocation)
                } else {
                    Delivery::Delivered
                }
            },
            Ok(Wraper::Element(i)) => {
                let ghost before = self@;
                self.elements[i].events.events.push(clone_event(event));
                proof {
                    let ev = before.events_of(Wraper::Element(i));
                    let after = before.with_events(
                        Wraper::Element(i),
                        NodeEventsView { events: ev.events.push(event@), ..ev },
                    );
                    assert(self@.elements[i as int].events.events =~= ev.events.push(event@));
                    assert(self@.elements =~= after.elements);
                }
                match self.elements[i].element.module {
                    None => Delivery::Delivered,
                    Some(m) => match self.module(m.uid) {
                        Ok(mi) => Delivery::Call(
                            ModuleCall { module: mi, target: Wraper::Element(i), event: clone_event(event) },
                        ),
                        Err(e) => Delivery::Failed(e),
                    },
                }
            },
            Ok(Wraper::Location(i)) => {
                let ghost before = self@;
                self.locations[i].events.events.push(clone_event(event));
                proof {
                    let ev = before.events_of(Wraper::Location(i));
                    let after = before.with_events(
                        Wraper::Location(i),
                        NodeEventsView { events: ev.events.push(event@), ..ev },
                    );
                    assert(self@.locations[i as int].events.events =~= ev.events.push(event@));
                    assert(self@.locations =~= after.locations);
                }
                match self.locations[i].location.module {
                    None => Delivery::Delivered,
                    Some(m) => match self.module(m.uid) {
                        Ok(mi) => Delivery::Call(
                            ModuleCall { module: mi, target: Wraper::Location(i), event: clone_event(event) },
                        ),
                        Err(e) => Delivery::Failed(e),
                    },
                }
            },
        }
    }
}

impl LocalSession {
    /// Queues `event`, as sent by `uid`, on the node behind `to`. When that
    /// node uses a module, the call the module has to handle is returned;
    /// its answer goes through [`notify_module_result`].
    pub fn notify(&mut self, uid: UID, to: UID, event: Event) -> (r: SessionResult<Option<ModuleCall>>)
        requires
            old(self).wf(),
        ensures
            final(self).wf(),
            ({
                let d = old(self)@.deliver(to, EventView::From(uid, Box::new(event@)), true);
                &&& final(self)@ == d.0
                &&& match d.1 {
                    DeliveryView::Delivered => r matches Ok(None),
                    DeliveryView::Call(m, w, e) => r matches Ok(Some(c)) && c.module == m
                        && c.target == w && c.event@ == e,
                    DeliveryView::Failed(e) => r == Err::<Option<ModuleCall>, SessionError>(
                        SessionError::Notify(Box::new(e)),
                    ),
                }
            }),
    {
        let ev = Event::From(uid, Box::new(event));
        match self.deliver(to, &ev, true) {
            Delivery::Delivered => Ok(None),
            Delivery::Call(c) => Ok(Some(c)),
            Delivery::Failed(e) => Err(SessionError::Notify(Box::new(e))),
        }
    }

    /// Emits `event` from the node behind `uid` to its subscribers, in the
    /// order they subscribed; returns what each delivery came to, for the
    /// module calls to be made and the outcomes to go through
    /// [`finish_emit`].
    pub fn emit(&mut self, uid: UID, event: Event) -> (r: SessionResult<Vec<Delivery>>)
        requires
            old(self).wf(),
        ensures
            final(self).wf(),
            final(self)@ == old(self)@.emit(uid, event@).0,
            match old(self)@.emit(uid, event@).1 {
                Ok(ds) => r matches Ok(v) && v@.map_values(|d: Delivery| d@) == ds,
                Err(e) => r == Err::<Vec<Delivery>, SessionError>(e),
            },
    {
        let (id, subs) = match self.get(uid) {
            Err(e) => {
                return Err(SessionError::Emit(Box::new(e)));
            },
            Ok(Wraper::Module(_)) => {
                return Err(SessionError::Emit(Box::new(SessionError::IsNotAnElementOrLocation)));
            },
            Ok(Wraper::Element(i)) => (
                self.elements[i].element.id.uid,
                copy_uids(self.elements[i].events.subscribers.as_slice()),
            ),
            Ok(Wraper::Location(i)) => (
                self.locations[i].location.id.uid,
                copy_uids(self.locations[i].events.subscribers.as_slice()),
            ),
        };
        let ev = Event::From(id, Box::new(event));
        let ghost s1 = self@;
        let mut deliveries: Vec<Delivery> = Vec::new();
        let mut k: usize = 0;
        assert(subs@.skip(0) =~= subs@);
        while k < subs.len()
            invariant
                self.wf(),
                k <= subs@.len(),
                s1.deliver_all(subs@, ev@) == ({
                    let rest = self@.deliver_all(subs@.skip(k as int), ev@);
                    (rest.0, deliveries@.map_values(|d: Delivery| d@) + rest.1)
                }),
            decreases subs@.len() - k,
        {
            assert(subs@.skip(k as int)[0] == subs@[k as int]);
            assert(subs@.skip(k as int).drop_first() =~= subs@.skip(k + 1));
            let ghost before = deliveries@.map_values(|d: Delivery| d@);
            let d = self.deliver(subs[k], &ev, false);
            deliveries.push(d);
            assert(deliveries@.map_values(|d: Delivery| d@) =~= before.push(d@));
            k = k + 1;
            proof {
                let rest = self@.deliver_all(subs@.skip(k as int), ev@);
                assert(before + (seq![d@] + rest.1) =~= before.push(d@) + rest.1);
            }
        }
        proof {
            assert(subs@.skip(k as int) =~= Seq::<UID>::empty());
            assert(deliveries@.map_values(|d: Delivery| d@) + Seq::<DeliveryView>::empty()
                =~= deliveries@.map_values(|d: Delivery| d@));
        }
        Ok(deliveries)
    }

    /// Subscribes `uid` to the node behind `to`.
    pub fn subscribe(&mut self, uid: UID, to: UID) -> (r: SessionResult<()>)
        requires
            old(self).wf(),
        ensures
            final(self).wf(),
            (final(self)@, r) == old(self)@.change_subscription(uid, to, true),
    {
        match self.get(to) {
            Err(e) => Err(SessionError::Subscribe(Box::new(e))),
            Ok(Wraper::Module(_)) => Err(
                SessionError::Subscribe(Box::new(SessionError::IsNotAnElementOrLocation)),
            ),
            Ok(Wraper::Element(i)) => {
                let ghost before = self@;
                self.elements[i].events.insert_subscriber(uid);
                assert(self@.elements =~= old(self)@.change_subscription(uid, to, true).0.elements) by {
                    assert(self@.elements[i as int].events =~= old(self)@.change_subscription(
                        uid,
                        to,
                        true,
                    ).0.elements[i as int].events);
                }
                Ok(())
            },
            Ok(Wraper::Location(i)) => {
                let ghost before = self@;
                self.locations[i].events.insert_subscriber(uid);
                assert(self@.locations =~= old(self)@.change_subscription(uid, to, true).0.locations) by {
                    assert(self@.locations[i as int].events =~= old(self)@.change_subscription(
                        uid,
                        to,
                        true,
                    ).0.locations[i as int].events);
                }
                Ok(())
            },
        }
    }

    /// Unsubscribes `uid` from the node behind `from`; a failure is reported
    /// as an error of `subscribe`.
    pub fn unsubscribe(&mut self, uid: UID, from: UID) -> (r: SessionResult<()>)
        requires
            old(self).wf(),
        ensures
            final(self).wf(),
            (final(self)@, r) == old(self)@.change_subscription(uid, from, false),
    {
        match self.get(from) {
            Err(e) => Err(SessionError::Subscribe(Box::new(e))),
            Ok(Wraper::Module(_)) => Err(
                SessionError::Subscribe(Box::new(SessionError::IsNotAnElementOrLocation)),
            ),
            Ok(Wraper::Element(i)) => {
                let ghost before = self@;
                proof {
                    lemma_set_remove(self@.elements[i as int].events.subscribers, uid);
                }
                self.elements[i].events.remove_subscriber(uid);
                assert(self@.elements =~= old(self)@.change_subscription(uid, from, false).0.elements) by {
                    assert(self@.elements[i as int].events =~= old(self)@.change_subscription(
                        uid,
                        from,
                        false,
                    ).0.elements[i as int].events);
                }
                Ok(())
            },
            Ok(Wraper::Location(i)) => {
                let ghost before = self@;
                proof {
                    lemma_set_remove(self@.locations[i as int].events.subscribers, uid);
                }
                self.locations[i].events.remove_subscriber(uid);
                assert(self@.locations =~= old(self)@.change_subscription(uid, from, false).0.locations) by {
                    assert(self@.locations[i as int].events =~= old(self)@.change_subscription(
                        uid,
                        from,
                        false,
                    ).0.locations[i as int].events);
                }
                Ok(())
            },
        }
    }

    /// Queues the written bytes, as a `NewData` event, on the node behind
    /// `uid`, and returns how many there were, with the call that the node's
    /// module has to handle, if it uses one; the module's answer goes
    /// through [`write_module_result`].
    pub fn write(&mut self, uid: UID, data: &[u8]) -> (r: SessionResult<(usize, Option<ModuleCall>)>)
        requires
            old(self).wf(),
        ensures
            final(self).wf(),
            ({
                let d = old(self)@.deliver(uid, EventView::NewData(data@), true);
                &&& final(self)@ == d.0
                &&& match d.1 {
                    DeliveryView::Delivered => r matches Ok((n, None)) && n == data@.len(),
                    DeliveryView::Call(m, w, e) => r matches Ok((n, Some(c))) && n == data@.len()
                        && c.module == m && c.target == w && c.event@ == e,
                    DeliveryView::Failed(e) => r == Err::<(usize, Option<ModuleCall>), SessionError>(
                        SessionError::Write(Box::new(e)),
                    ),
                }
            }),
    {
        let ev = Event::NewData(copy_bytes(data));
        match self.deliver(uid, &ev, true) {
            Delivery::Delivered => Ok((data.len(), None)),
            Delivery::Call(c) => Ok((data.len(), Some(c))),
            Delivery::Failed(e) => Err(SessionError::Write(Box::new(e))),
        }
    }
}

/// A copy of a list of UIDs.
pub fn copy_uids(v: &[UID]) -> (r: Vec<UID>)
    ensures
        r@ == v@,
{
    let mut r: Vec<UID> = Vec::new();
    let mut i: usize = 0;
    while i < v.len()
        invariant
            i <= v@.len(),
            r@ == v@.take(i as int),
        decreases v@.len() - i,
    {
        r.push(v[i]);
        i = i + 1;
        assert(r@ =~= v@.take(i as int));
    }
    assert(v@.take(v@.len() as int) =~= v@);
    r
}

} // verus!
