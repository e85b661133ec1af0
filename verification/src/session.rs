use vstd::prelude::*;

use crate::element::{fresh_element, Element, ElementView};
use crate::error::{SessionError, SessionResult};
use crate::helper::{ElementId, LocationId, ModuleId};
use crate::location::{fresh_location, Location, LocationView};
use crate::module::{Module, ModuleView};
use crate::settings::Settings;
use crate::types::{Event, EventView, UID};

verus! {

#[derive(Debug)]
/// Where the node behind a UID sits: an element by the path of its location
/// and its index there, a location by the indices that lead to it from the
/// default location, a module by its index.
pub enum UIDPath {
    Element(Vec<usize>, usize),
    Location(Vec<usize>),
    Module(usize),
    Destroyed,
}

/// What a [`UIDPath`] stands for.
pub enum UIDPathView {
    Element(Seq<usize>, usize),
    Location(Seq<usize>),
    Module(usize),
    Destroyed,
}

impl View for UIDPath {
    type V = UIDPathView;

    open spec fn view(&self) -> UIDPathView {
        match self {
            UIDPath::Element(p, i) => UIDPathView::Element(p@, *i),
            UIDPath::Location(p) => UIDPathView::Location(p@),
            UIDPath::Module(i) => UIDPathView::Module(*i),
            UIDPath::Destroyed => UIDPathView::Destroyed,
        }
    }
}

/// A copy of a list of indices.
pub fn copy_indices(v: &[usize]) -> (r: Vec<usize>)
    ensures
        r@ == v@,
{
    let mut r: Vec<usize> = Vec::new();
    let mut i: usize = 0;
    while i < v.len()
        invariant
            i <= v@.len(),
            r@ == v@.take(i as int),
        decreases v@.len() - i,
    {
        r.push(v[i]);
        i = i + 1;
        assert(r@ =~= v@.take(i as int));
    }
    assert(v@.take(v@.len() as int) =~= v@);
    r
}

impl UIDPath {
    /// A copy of this path.
    pub fn duplicate(&self) -> (r: UIDPath)
        ensures
            r@ == self@,
    {
        match self {
            UIDPath::Element(p, i) => UIDPath::Element(copy_indices(p.as_slice()), *i),
            UIDPath::Location(p) => UIDPath::Location(copy_indices(p.as_slice())),
            UIDPath::Module(i) => UIDPath::Module(*i),
            UIDPath::Destroyed => UIDPath::Destroyed,
        }
    }
}

#[derive(Debug)]
/// The events an element or location received, and the UIDs subscribed to
/// it (each at most once, in the order they subscribed).
pub struct NodeEvents {
    pub events: Vec<Event>,
    pub subscribers: Vec<UID>,
}

/// What a [`NodeEvents`] stands for.
pub struct NodeEventsView {
    pub events: Seq<EventView>,
    pub subscribers: Seq<UID>,
}

impl View for NodeEvents {
    type V = NodeEventsView;

    open spec fn view(&self) -> NodeEventsView {
        NodeEventsView {
            events: self.events@.map_values(|e: Event| e@),
            subscribers: self.subscribers@,
        }
    }
}

/// No events, no subscribers.
pub open spec fn no_events() -> NodeEventsView {
    NodeEventsView { events: Seq::empty(), subscribers: Seq::empty() }
}

impl NodeEvents {
    /// No events, no subscribers.
    pub fn new() -> (e: Self)
        ensures
            e@ == no_events(),
    {
        let e = NodeEvents { events: Vec::new(), subscribers: Vec::new() };
        assert(e@.events =~= Seq::<EventView>::empty());
        e
    }
}

#[derive(Debug)]
/// An element as the session keeps it.
pub struct ElementWraper {
    pub element: Element,
    pub path: UIDPath,
    pub events: NodeEvents,
}

#[derive(Debug)]
/// A location as the session keeps it, with the positions (in the session's
/// lists) of the locations and elements it holds.
pub struct LocationWraper {
    pub location: Location,
    pub locations: Vec<usize>,
    pub elements: Vec<usize>,
    pub path: UIDPath,
    pub events: NodeEvents,
}

#[derive(Debug)]
/// A module as the session keeps it.
pub struct ModuleWraper {
    pub module: Module,
    pub path: UIDPath,
}

/// What an [`ElementWraper`] stands for.
pub struct ElementNode {
    pub element: ElementView,
    pub path: UIDPathView,
    pub events: NodeEventsView,
}

/// What a [`LocationWraper`] stands for.
pub struct LocationNode {
    pub location: LocationView,
    pub locations: Seq<usize>,
    pub elements: Seq<usize>,
    pub path: UIDPathView,
    pub events: NodeEventsView,
}

/// What a [`ModuleWraper`] stands for.
pub struct ModuleNode {
    pub module: ModuleView,
    pub path: UIDPathView,
}

impl View for ElementWraper {
    type V = ElementNode;

    open spec fn view(&self) -> ElementNode {
        ElementNode { element: self.element@, path: self.path@, events: self.events@ }
    }
}

impl View for LocationWraper {
    type V = LocationNode;

    open spec fn view(&self) -> LocationNode {
        LocationNode {
            location: self.location@,
            locations: self.locations@,
            elements: self.elements@,
            path: self.path@,
            events: self.events@,
        }
    }
}

impl View for ModuleWraper {
    type V = ModuleNode;

    open spec fn view(&self) -> ModuleNode {
        ModuleNode { module: self.module@, path: self.path@ }
    }
}

/// A node that a UID resolved to, by its position in the session's lists.
#[derive(Clone, Copy, Debug, PartialEq, Eq, Structural)]
pub enum Wraper {
    Element(usize),
    Location(usize),
    Module(usize),
}

#[derive(Debug)]
/// A session that keeps everything in this process: the tree of locations
/// under the default location (at position 0), the elements, the modules,
/// and for each UID the path of its node.
pub struct LocalSession {
    pub locations: Vec<LocationWraper>,
    pub elements: Vec<ElementWraper>,
    pub refs: Vec<UIDPath>,
    pub modules: Vec<ModuleWraper>,
}

/// What a [`LocalSession`] stands for.
pub struct SessionView {
    pub locations: Seq<LocationNode>,
    pub elements: Seq<ElementNode>,
    pub refs: Seq<UIDPathView>,
    pub modules: Seq<ModuleNode>,
}

impl View for LocalSession {
    type V = SessionView;

    open spec fn view(&self) -> SessionView {
        SessionView {
            locations: self.locations@.map_values(|w: LocationWraper| w@),
            elements: self.elements@.map_values(|w: ElementWraper| w@),
            refs: self.refs@.map_values(|p: UIDPath| p@),
            modules: self.modules@.map_values(|w: ModuleWraper| w@),
        }
    }
}

impl SessionView {
    /// There is a default location, every location holds only locations and
    /// elements that exist, each location's record lists as many locations
    /// and elements as the session keeps for it, and no node has a
    /// subscriber twice.
    pub open spec fn wf(self) -> bool {
        &&& self.locations.len() >= 1
        &&& forall|l: int|
            0 <= l < self.locations.len() ==> (#[trigger] self.locations[l]).location.elements.len()
                == self.locations[l].elements.len() && self.locations[l].location.locations.len()
                == self.locations[l].locations.len()
                && self.locations[l].events.subscribers.no_duplicates()
        &&& forall|e: int|
            0 <= e < self.elements.len() ==> (#[trigger] self.elements[e]).events.subscribers.no_duplicates()
        &&& forall|l: int, j: int|
            0 <= l < self.locations.len() && 0 <= j < self.locations[l].locations.len()
                ==> #[trigger] self.locations[l].locations[j] < self.locations.len()
        &&& forall|l: int, j: int|
            0 <= l < self.locations.len() && 0 <= j < self.locations[l].elements.len()
                ==> #[trigger] self.locations[l].elements[j] < self.elements.len()
    }

    /// Each location lists, at each position, the handle of the location
    /// and of the element that it holds at that position.
    pub open spec fn handles_match(self) -> bool {
        &&& forall|l: int, j: int|
            0 <= l < self.locations.len() && 0 <= j < self.locations[l].locations.len()
                ==> #[trigger] self.locations[l].location.locations[j]
                == self.locations[self.locations[l].locations[j] as int].location.id
        &&& forall|l: int, j: int|
            0 <= l < self.locations.len() && 0 <= j < self.locations[l].elements.len()
                ==> #[trigger] self.locations[l].location.elements[j]
                == self.elements[self.locations[l].elements[j] as int].element.id
    }

    /// The location that `path` leads to from the default location.
    pub open spec fn walk(self, path: Seq<usize>) -> Option<int>
        decreases path.len(),
    {
        if path.len() == 0 {
            Some(0)
        } else {
            match self.walk(path.drop_last()) {
                Some(n) => if path.last() < self.locations[n].locations.len() {
                    Some(self.locations[n].locations[path.last() as int] as int)
                } else {
                    None
                },
                None => None,
            }
        }
    }

    /// Adds a new location named `name` inside the location at `parent`,
    /// under a new UID whose path is `path`.
    pub open spec fn add_location(self, parent: int, name: Seq<char>, path: Seq<usize>) -> (
        SessionView,
        int,
    ) {
        let uid = self.refs.len() as u64;
        let idx = self.locations.len() as int;
        let p = self.locations[parent];
        let node = LocationNode {
            location: fresh_location(name, Seq::empty(), LocationId { uid }, Some(p.location.id)),
            locations: Seq::empty(),
            elements: Seq::empty(),
            path: UIDPathView::Location(path),
            events: no_events(),
        };
        let p2 = LocationNode {
            locations: p.locations.push(idx as usize),
            location: LocationView {
                locations: p.location.locations.push(LocationId { uid }),
                ..p.location
            },
            ..p
        };
        (
            SessionView {
                locations: self.locations.push(node).update(parent, p2),
                refs: self.refs.push(UIDPathView::Location(path)),
                ..self
            },
            idx,
        )
    }

    /// Follows `rest` from the location at `cur`; where an index has no
    /// location, a new one named `name` is added at the end of the current
    /// location and followed instead. `traversed` holds the indices asked
    /// for so far; a new location records them, with its own position last.
    pub open spec fn chain(
        self,
        name: Seq<char>,
        rest: Seq<usize>,
        traversed: Seq<usize>,
        cur: int,
    ) -> (SessionView, int)
        decreases rest.len(),
    {
        if rest.len() == 0 {
            (self, cur)
        } else {
            let index = rest[0];
            let children = self.locations[cur].locations;
            if index < children.len() {
                self.chain(name, rest.drop_first(), traversed.push(index), children[index as int] as int)
            } else {
                let added = self.add_location(cur, name, traversed.push(children.len() as usize));
                added.0.chain(name, rest.drop_first(), traversed.push(index), added.1)
            }
        }
    }

    /// A path whose prefix leads nowhere leads nowhere.
    pub proof fn lemma_walk_prefix_none(self, path: Seq<usize>, k: int)
        requires
            0 <= k <= path.len(),
            self.walk(path.take(k)) is None,
        ensures
            self.walk(path) is None,
        decreases path.len() - k,
    {
        if k < path.len() {
            assert(path.take(k + 1).drop_last() =~= path.take(k));
            self.lemma_walk_prefix_none(path, k + 1);
        } else {
            assert(path.take(k) =~= path);
        }
    }

    /// Following or creating locations never touches the elements or the
    /// modules, and only appends UIDs.
    pub proof fn lemma_chain_keeps(
        self,
        name: Seq<char>,
        rest: Seq<usize>,
        traversed: Seq<usize>,
        cur: int,
    )
        ensures
            self.chain(name, rest, traversed, cur).0.elements == self.elements,
            self.chain(name, rest, traversed, cur).0.modules == self.modules,
            self.chain(name, rest, traversed, cur).0.refs.len() >= self.refs.len(),
            self.chain(name, rest, traversed, cur).0.refs.take(self.refs.len() as int) == self.refs,
        decreases rest.len(),
    {
        if rest.len() > 0 {
            let index = rest[0];
            let children = self.locations[cur].locations;
            if index < children.len() {
                self.lemma_chain_keeps(name, rest.drop_first(), traversed.push(index), children[index as int] as int);
            } else {
                let added = self.add_location(cur, name, traversed.push(children.len() as usize));
                added.0.lemma_chain_keeps(name, rest.drop_first(), traversed.push(index), added.1);
                assert(added.0.refs.take(self.refs.len() as int) =~= self.refs);
                let fin = added.0.chain(name, rest.drop_first(), traversed.push(index), added.1).0;
                assert(fin.refs.take(self.refs.len() as int) =~= fin.refs.take(added.0.refs.len() as int).take(self.refs.len() as int));
            }
        } else {
            assert(self.refs.take(self.refs.len() as int) =~= self.refs);
        }
    }

    /// Where a new element is stored does not matter when the element is
    /// already there.
    pub proof fn lemma_create_element_epath(self, name: Seq<char>, path: Seq<usize>, e1: Seq<char>, e2: Seq<char>)
        requires
            path.len() > 0,
            ({
                let c = self.create_element(name, path, e1);
                c.1 >= self.elements.len() ==> c.0.elements[c.1].element.path == e2
                    && c.1 == c.0.elements.len() - 1
            }),
            self.create_element(name, path, e1).0.elements[self.create_element(name, path, e1).1].element.path == e1,
        ensures
            self.create_element(name, path, e1) == self.create_element(name, path, e2),
    {
        let prefix = path.drop_last();
        self.lemma_chain_keeps("Need an element"@, prefix, Seq::empty(), 0);
    }

    /// The location at `path`, created (with every missing location on the
    /// way named `name`) where it is missing.
    pub open spec fn create_location(self, name: Seq<char>, path: Seq<usize>) -> (SessionView, int) {
        self.chain(name, path, Seq::empty(), 0)
    }

    /// Adds a new element named `name`, stored at `epath`, to the location at
    /// `loc`, whose path is `prefix`.
    pub open spec fn add_element(self, loc: int, name: Seq<char>, epath: Seq<char>, prefix: Seq<usize>) -> (
        SessionView,
        int,
    ) {
        let uid = self.refs.len() as u64;
        let idx = self.elements.len() as int;
        let l = self.locations[loc];
        let upath = UIDPathView::Element(prefix, l.elements.len() as usize);
        let node = ElementNode {
            element: fresh_element(name, epath, ElementId { uid }, l.location.id),
            path: upath,
            events: no_events(),
        };
        let l2 = LocationNode {
            elements: l.elements.push(idx as usize),
            location: LocationView { elements: l.location.elements.push(ElementId { uid }), ..l.location },
            ..l
        };
        (
            SessionView {
                elements: self.elements.push(node),
                locations: self.locations.update(loc, l2),
                refs: self.refs.push(upath),
                ..self
            },
            idx,
        )
    }

    /// The element at index `path.last()` of the location at
    /// `path.drop_last()` (created, with missing locations named "Need an
    /// element", where missing); a new element is stored at `epath`.
    pub open spec fn create_element(self, name: Seq<char>, path: Seq<usize>, epath: Seq<char>) -> (
        SessionView,
        int,
    ) {
        let prefix = path.drop_last();
        let created = self.create_location("Need an element"@, prefix);
        let s1 = created.0;
        let l = created.1;
        if path.last() < s1.locations[l].elements.len() {
            (s1, s1.locations[l].elements[path.last() as int] as int)
        } else {
            s1.add_element(l, name, epath, prefix)
        }
    }

    /// What looking up `uid` does: the session after it (an element's
    /// location is looked up by creating it where missing) and the node.
    pub open spec fn get(self, uid: UID) -> (SessionView, SessionResult<Wraper>) {
        if uid as usize >= self.refs.len() {
            (self, Err(SessionError::InvalidUID))
        } else {
            match self.refs[uid as usize as int] {
                UIDPathView::Element(path, index) => {
                    let created = self.create_location("Trying to find element"@, path);
                    let s1 = created.0;
                    let l = created.1;
                    if index < s1.locations[l].elements.len() {
                        (s1, Ok(Wraper::Element(s1.locations[l].elements[index as int])))
                    } else {
                        (s1, Err(SessionError::InvalidUID))
                    }
                },
                UIDPathView::Location(path) => match self.walk(path) {
                    Some(n) => (self, Ok(Wraper::Location(n as usize))),
                    None => (self, Err(SessionError::UIDIsNotALocation)),
                },
                UIDPathView::Module(index) => if index < self.modules.len() {
                    (self, Ok(Wraper::Module(index)))
                } else {
                    (self, Err(SessionError::InvalidUID))
                },
                UIDPathView::Destroyed => (self, Err(SessionError::UIDWasDestroyed)),
            }
        }
    }
}

/// Whether `c` separates the parts of a path on some platform.
pub open spec fn is_separator(c: char) -> bool {
    c == '/' || c == '\\'
}

/// A path that every platform joins onto in the same way: no drive or
/// verbatim prefix (no `:`, no `?`).
pub open spec fn plain_base(s: Seq<char>) -> bool {
    !s.contains(':') && !s.contains('?')
}

/// A path that every platform appends as it is: no root (it does not start
/// with a separator) and no drive (no `:`).
pub open spec fn plain_name(s: Seq<char>) -> bool {
    &&& s.len() > 0 ==> !is_separator(s[0])
    &&& !s.contains(':')
}

/// What `Path::join` of `name` onto `base` gives, as far as the platforms
/// agree: `name` itself onto an empty base; otherwise, for plain paths,
/// `base`, then a separator unless `base` ends in one (`/` is one
/// everywhere, `\` only on some platforms), then `name`.
pub open spec fn joins(base: Seq<char>, name: Seq<char>, r: Seq<char>) -> bool {
    &&& base.len() == 0 ==> r == name
    &&& base.len() > 0 && plain_base(base) && plain_name(name) ==> if base.last() == '/' {
        r == base + name
    } else if base.last() == '\\' {
        r == base + name || r == base + seq!['/'] + name
    } else {
        r == base + seq!['/'] + name || r == base + seq!['\\'] + name
    }
}

/// Calls `Path::join` on `base` and `name`, through `Path` and back to text
/// (lossless, as both are UTF-8). Its contract claims what holds on every
/// platform (see [`joins`]); which separator is put in depends on the
/// platform, and paths with a drive, a verbatim prefix or a root in `name`
/// are left unstated.
#[verifier::external_body]
fn join_path(base: &String, name: &String) -> (r: String)
    ensures
        joins(base@, name@, r@),
{
    std::path::Path::new(base.as_str()).join(name.as_str()).to_string_lossy().into_owned()
}

impl SessionView {
    /// Looking `uid` up as a location.
    pub open spec fn location(self, uid: UID) -> (SessionView, SessionResult<usize>) {
        let got = self.get(uid);
        (
            got.0,
            match got.1 {
                Ok(Wraper::Location(n)) => Ok(n),
                Ok(_) => Err(SessionError::UIDIsNotALocation),
                Err(e) => Err(e),
            },
        )
    }

    /// Looking `uid` up as an element.
    pub open spec fn element(self, uid: UID) -> (SessionView, SessionResult<usize>) {
        let got = self.get(uid);
        (
            got.0,
            match got.1 {
                Ok(Wraper::Element(n)) => Ok(n),
                Ok(_) => Err(SessionError::UIDIsNotAElement),
                Err(e) => Err(e),
            },
        )
    }

    /// Looking `uid` up as a module.
    pub open spec fn module(self, uid: UID) -> (SessionView, SessionResult<usize>) {
        let got = self.get(uid);
        (
            got.0,
            match got.1 {
                Ok(Wraper::Module(n)) => Ok(n),
                Ok(_) => Err(SessionError::UIDIsNotAModule),
                Err(e) => Err(e),
            },
        )
    }
}

impl LocalSession {
    /// The session view is well formed, and so are the settings and data
    /// maps of its records.
    pub open spec fn wf(&self) -> bool {
        &&& self@.wf()
        &&& forall|i: int|
            0 <= i < self.elements@.len() ==> (#[trigger] self.elements@[i]).element.settings.wf()
                && self.elements@[i].element.data.wf()
        &&& forall|i: int|
            0 <= i < self.locations@.len() ==> (#[trigger] self.locations@[i]).location.settings.wf()
                && self.locations@[i].location.data.wf()
        &&& forall|i: int|
            0 <= i < self.modules@.len() ==> (#[trigger] self.modules@[i]).module.element_settings.wf()
                && self.modules@[i].module.location_settings.wf()
    }

    /// A session with only the default location.
    pub fn new() -> (s: Self)
        ensures
            s.wf(),
            s@.locations.len() == 1,
            s@.locations[0] == (LocationNode {
                location: fresh_location(
                    "Default Location"@,
                    "This is the default location of the muzzman session"@,
                    LocationId { uid: 0 },
                    None,
                ),
                locations: Seq::empty(),
                elements: Seq::empty(),
                path: UIDPathView::Location(Seq::empty()),
                events: no_events(),
            }),
            s@.elements.len() == 0,
            s@.modules.len() == 0,
            s@.refs == seq![UIDPathView::Location(Seq::empty())],
            s@.handles_match(),
    {
        let location = LocationWraper {
            location: Location::fresh(
                String::from_str("Default Location"),
                String::from_str("This is the default location of the muzzman session"),
                LocationId { uid: 0 },
                None,
            ),
            locations: Vec::new(),
            elements: Vec::new(),
            path: UIDPath::Location(Vec::new()),
            events: NodeEvents::new(),
        };
        let mut locations: Vec<LocationWraper> = Vec::new();
        locations.push(location);
        let mut refs: Vec<UIDPath> = Vec::new();
        refs.push(UIDPath::Location(Vec::new()));
        let s = LocalSession { locations, elements: Vec::new(), refs, modules: Vec::new() };
        assert(s@.locations[0].locations =~= Seq::empty());
        assert(s@.locations[0].elements =~= Seq::empty());
        assert(s@.refs =~= seq![UIDPathView::Location(Seq::empty())]);
        assert(s@.refs[0] == UIDPathView::Location(Seq::empty()));
        s
    }

    /// Records a path under the next UID, and returns that UID.
    pub fn register_path(&mut self, path: UIDPath) -> (uid: UID)
        ensures
            uid == old(self).refs@.len(),
            final(self).refs@ == old(self).refs@.push(path),
            final(self).locations == old(self).locations,
            final(self).elements == old(self).elements,
            final(self).modules == old(self).modules,
    {
        let id = self.refs.len();
        self.refs.push(path);
        id as UID
    }

    /// The location that `path` leads to from the default location.
    pub fn walk(&self, path: &[usize]) -> (r: Option<usize>)
        requires
            self.wf(),
        ensures
            match r {
                Some(n) => self@.walk(path@) == Some(n as int) && n < self@.locations.len(),
                None => self@.walk(path@) is None,
            },
    {
        let mut cur: usize = 0;
        let mut i: usize = 0;
        while i < path.len()
            invariant
                self.wf(),
                i <= path@.len(),
                cur < self@.locations.len(),
                self@.walk(path@.take(i as int)) == Some(cur as int),
            decreases path@.len() - i,
        {
            let index = path[i];
            assert(path@.take(i + 1).drop_last() =~= path@.take(i as int));
            assert(path@.take(i + 1).last() == index);
            if index < self.locations[cur].locations.len() {
                cur = self.locations[cur].locations[index];
            } else {
                proof {
                    self@.lemma_walk_prefix_none(path@, i + 1);
                }
                return None;
            }
            i = i + 1;
        }
        assert(path@.take(path@.len() as int) =~= path@);
        Some(cur)
    }

    /// The location at `path`, created where missing, every location it
    /// creates named `name`; see [`SessionView::create_location`].
    pub fn create_location_at(&mut self, name: String, path: &[usize]) -> (r: usize)
        requires
            old(self).wf(),
        ensures
            final(self).wf(),
            (final(self)@, r as int) == old(self)@.create_location(name@, path@),
            r < final(self)@.locations.len(),
            old(self)@.handles_match() ==> final(self)@.handles_match(),
    {
        let mut cur: usize = 0;
        let mut traversed: Vec<usize> = Vec::new();
        let mut i: usize = 0;
        assert(path@.skip(0) =~= path@);
        assert(traversed@ =~= path@.take(0));
        while i < path.len()
            invariant
                self.wf(),
                old(self)@.handles_match() ==> self@.handles_match(),
                i <= path@.len(),
                cur < self@.locations.len(),
                traversed@ == path@.take(i as int),
                old(self)@.create_location(name@, path@) == self@.chain(
                    name@,
                    path@.skip(i as int),
                    traversed@,
                    cur as int,
                ),
            decreases path@.len() - i,
        {
            let index = path[i];
            assert(path@.skip(i as int)[0] == index);
            assert(path@.skip(i as int).drop_first() =~= path@.skip(i + 1));
            if index < self.locations[cur].locations.len() {
                cur = self.locations[cur].locations[index];
            } else {
                let ghost before = self@;
                let pos = self.locations[cur].locations.len();
                let mut p = copy_indices(traversed.as_slice());
                p.push(pos);
                let p2 = copy_indices(p.as_slice());
                let uid = self.register_path(UIDPath::Location(p));
                let parent_id = self.locations[cur].location.id;
                let new_idx = self.locations.len();
                let node = LocationWraper {
                    location: Location::fresh(
                        name.clone(),
                        String::new(),
                        LocationId { uid },
                        Some(parent_id),
                    ),
                    locations: Vec::new(),
                    elements: Vec::new(),
                    path: UIDPath::Location(p2),
                    events: NodeEvents::new(),
                };
                assert(node@.locations =~= Seq::empty());
                assert(node@.elements =~= Seq::empty());
                self.locations.push(node);
                self.locations[cur].locations.push(new_idx);
                self.locations[cur].location.locations.push(LocationId { uid });
                proof {
                    let added = before.add_location(cur as int, name@, traversed@.push(pos));
                    assert(self@.refs =~= added.0.refs);
                    assert(self@.locations[cur as int] == added.0.locations[cur as int]);
                    assert(self@.locations =~= added.0.locations);
                    assert(self@ == added.0);
                }
                cur = new_idx;
            }
            traversed.push(index);
            i = i + 1;
            assert(traversed@ =~= path@.take(i as int));
        }
        cur
    }

    /// The element at index `path.last()` of the location at
    /// `path.drop_last()`, created where missing; see
    /// [`SessionView::create_element`]. A new element is stored at its
    /// location's path joined with its name.
    pub fn create_element_at(&mut self, name: String, path: &[usize]) -> (r: usize)
        requires
            old(self).wf(),
            path@.len() > 0,
        ensures
            final(self).wf(),
            r < final(self)@.elements.len(),
            old(self)@.handles_match() ==> final(self)@.handles_match(),
            r >= old(self)@.elements.len() ==> r == final(self)@.elements.len() - 1,
            (final(self)@, r as int) == old(self)@.create_element(
                name@,
                path@,
                final(self)@.elements[r as int].element.path,
            ),
            ({
                let l = old(self)@.create_location("Need an element"@, path@.drop_last()).1;
                r >= old(self)@.elements.len() ==> joins(
                    final(self)@.locations[l].location.path,
                    name@,
                    final(self)@.elements[r as int].element.path,
                )
            }),
    {
        let element_index = path[path.len() - 1];
        let mut prefix = copy_indices(path);
        prefix.pop();
        assert(prefix@ =~= path@.drop_last());
        let l = self.create_location_at(String::from_str("Need an element"), prefix.as_slice());
        proof {
            old(self)@.lemma_chain_keeps("Need an element"@, path@.drop_last(), Seq::empty(), 0);
        }
        if element_index < self.locations[l].elements.len() {
            let r = self.locations[l].elements[element_index];
            assert(self@.locations[l as int].elements[element_index as int] == r);
            return r;
        }
        let ghost s1 = self@;
        let pos = self.locations[l].elements.len();
        let recorded = copy_indices(prefix.as_slice());
        let uid = self.register_path(UIDPath::Element(recorded, pos));
        let epath = join_path(&self.locations[l].location.path, &name);
        let id = ElementId { uid };
        let parent = self.locations[l].location.id;
        let node = ElementWraper {
            element: Element::fresh(name, epath, id, parent),
            path: UIDPath::Element(prefix, pos),
            events: NodeEvents::new(),
        };
        let idx = self.elements.len();
        self.elements.push(node);
        self.locations[l].elements.push(idx);
        self.locations[l].location.elements.push(id);
        proof {
            let added = s1.add_element(l as int, name@, self@.elements[idx as int].element.path, path@.drop_last());
            assert(self@.refs =~= added.0.refs);
            assert(self@.elements =~= added.0.elements);
            assert(self@.locations[l as int] == added.0.locations[l as int]);
            assert(self@.locations =~= added.0.locations);
            assert(self@ == added.0);
        }
        idx
    }

    /// Looks up the node behind `uid`; see [`SessionView::get`].
    pub fn get(&mut self, uid: UID) -> (r: SessionResult<Wraper>)
        requires
            old(self).wf(),
        ensures
            final(self).wf(),
            (final(self)@, r) == old(self)@.get(uid),
            r matches Ok(Wraper::Element(n)) ==> n < final(self)@.elements.len(),
            r matches Ok(Wraper::Location(n)) ==> n < final(self)@.locations.len(),
            r matches Ok(Wraper::Module(n)) ==> n < final(self)@.modules.len(),
    {
        if uid as usize >= self.refs.len() {
            return Err(SessionError::InvalidUID);
        }
        let path = self.refs[uid as usize].duplicate();
        match path {
            UIDPath::Element(p, index) => {
                let l = self.create_location_at(
                    String::from_str("Trying to find element"),
                    p.as_slice(),
                );
                if index < self.locations[l].elements.len() {
                    Ok(Wraper::Element(self.locations[l].elements[index]))
                } else {
                    Err(SessionError::InvalidUID)
                }
            },
            UIDPath::Location(p) => match self.walk(p.as_slice()) {
                Some(n) => Ok(Wraper::Location(n)),
                None => Err(SessionError::UIDIsNotALocation),
            },
            UIDPath::Module(index) => {
                if index < self.modules.len() {
                    Ok(Wraper::Module(index))
                } else {
                    Err(SessionError::InvalidUID)
                }
            },
            UIDPath::Destroyed => Err(SessionError::UIDWasDestroyed),
        }
    }

    /// Looks up `uid` as a location.
    pub fn location(&mut self, uid: UID) -> (r: SessionResult<usize>)
        requires
            old(self).wf(),
        ensures
            final(self).wf(),
            (final(self)@, r) == old(self)@.location(uid),
            r matches Ok(n) ==> n < final(self)@.locations.len(),
    {
        match self.get(uid)? {
            Wraper::Location(n) => Ok(n),
            _ => Err(SessionError::UIDIsNotALocation),
        }
    }

    /// Looks up `uid` as an element.
    pub fn element(&mut self, uid: UID) -> (r: SessionResult<usize>)
        requires
            old(self).wf(),
        ensures
            final(self).wf(),
            (final(self)@, r) == old(self)@.element(uid),
            r matches Ok(n) ==> n < final(self)@.elements.len(),
    {
        match self.get(uid)? {
            Wraper::Element(n) => Ok(n),
            _ => Err(SessionError::UIDIsNotAElement),
        }
    }

    /// Looks up `uid` as a module.
    pub fn module(&mut self, uid: UID) -> (r: SessionResult<usize>)
        requires
            old(self).wf(),
        ensures
            final(self).wf(),
            (final(self)@, r) == old(self)@.module(uid),
            r matches Ok(n) ==> n < final(self)@.modules.len(),
    {
        match self.get(uid)? {
            Wraper::Module(n) => Ok(n),
            _ => Err(SessionError::UIDIsNotAModule),
        }
    }

    /// The handle of the default location.
    pub fn default_location(&self) -> (r: SessionResult<LocationId>)
        requires
            self.wf(),
        ensures
            r == Ok::<LocationId, SessionError>(self@.locations[0].location.id),
    {
        Ok(self.locations[0].location.id)
    }

    /// Records a module, under a new UID whose path is the position of the
    /// first recorded module with the same identity (or the end of the list),
    /// and appends it to the list.
    pub fn add_module(
        &mut self,
        name: String,
        desc: String,
        id: u64,
        element_settings: Settings,
        location_settings: Settings,
    ) -> (r: ModuleId)
        requires
            old(self).wf(),
            element_settings.wf(),
            location_settings.wf(),
        ensures
            final(self).wf(),
            r.uid == old(self)@.refs.len(),
            final(self)@.locations == old(self)@.locations,
            final(self)@.elements == old(self)@.elements,
            final(self)@.modules.len() == old(self)@.modules.len() + 1,
            final(self)@.modules.drop_last() == old(self)@.modules,
            final(self)@.modules.last().module == (ModuleView {
                name: name@,
                desc: desc@,
                proxy: 0,
                id,
                element_settings: element_settings.entries_view(),
                location_settings: location_settings.entries_view(),
            }),
            final(self)@.refs == old(self)@.refs.push(final(self)@.modules.last().path),
            final(self)@.modules.last().path matches UIDPathView::Module(index) && index <= old(
                self,
            )@.modules.len() && (forall|j: int|
                0 <= j < index ==> #[trigger] old(self)@.modules[j].module.id != id) && (index < old(
                self,
            )@.modules.len() ==> old(self)@.modules[index as int].module.id == id),
    {
        let mut index = self.modules.len();
        let mut i: usize = 0;
        while i < self.modules.len()
            invariant_except_break
                index == self.modules@.len(),
            invariant
                i <= self.modules@.len(),
                forall|j: int| 0 <= j < i ==> #[trigger] self@.modules[j].module.id != id,
            ensures
                index <= self.modules@.len(),
                forall|j: int| 0 <= j < index ==> #[trigger] self@.modules[j].module.id != id,
                index < self.modules@.len() ==> self@.modules[index as int].module.id == id,
            decreases self.modules@.len() - i,
        {
            if self.modules[i].module.id == id {
                index = i;
                break;
            }
            i = i + 1;
        }
        let uid = self.register_path(UIDPath::Module(index));
        let module = ModuleWraper {
            module: Module { name, desc, proxy: 0, id, element_settings, location_settings },
            path: UIDPath::Module(index),
        };
        self.modules.push(module);
        proof {
            assert(self@.modules.drop_last() =~= old(self)@.modules);
            assert(self@.refs =~= old(self)@.refs.push(self@.modules.last().path));
            assert(self@.locations =~= old(self)@.locations);
            assert(self@.elements =~= old(self)@.elements);
        }
        ModuleId { uid }
    }
}

} // verus!
