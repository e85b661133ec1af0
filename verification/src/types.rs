use vstd::prelude::*;

verus! {

/// The number under which a session knows an element, a location or a module.
pub type UID = u64;

#[derive(Debug)]
/// Something that happened to an element or a location.
pub enum Event {
    /// Data was written to the element or location.
    NewData(Vec<u8>),
    ProgressChanged(UID),
    Completed(UID),
    Error(UID),
    /// An event that the node with this UID sent.
    From(UID, Box<Event>),
}

/// What an [`Event`] stands for.
pub enum EventView {
    NewData(Seq<u8>),
    ProgressChanged(UID),
    Completed(UID),
    Error(UID),
    From(UID, Box<EventView>),
}

/// What an event stands for.
pub open spec fn event_view(e: Event) -> EventView
    decreases e,
{
    match e {
        Event::NewData(d) => EventView::NewData(d@),
        Event::ProgressChanged(u) => EventView::ProgressChanged(u),
        Event::Completed(u) => EventView::Completed(u),
        Event::Error(u) => EventView::Error(u),
        Event::From(u, b) => EventView::From(u, Box::new(event_view(*b))),
    }
}

impl View for Event {
    type V = EventView;

    open spec fn view(&self) -> EventView {
        event_view(*self)
    }
}

/// A copy of an event.
pub fn clone_event(e: &Event) -> (r: Event)
    ensures
        r@ == e@,
    decreases e,
{
    match e {
        Event::NewData(d) => {
            let c = d.clone();
            assert(c@ =~= d@);
            Event::NewData(c)
        },
        Event::ProgressChanged(u) => Event::ProgressChanged(*u),
        Event::Completed(u) => Event::Completed(*u),
        Event::Error(u) => Event::Error(*u),
        Event::From(u, b) => Event::From(*u, Box::new(clone_event(b))),
    }
}

impl Clone for Event {
    fn clone(&self) -> (r: Self)
        ensures
            r@ == self@,
    {
        clone_event(self)
    }
}

} // verus!
