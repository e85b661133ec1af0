use vstd::prelude::*;

use crate::error::SessionError;
use crate::helper::{ElementId, LocationId};
use crate::session::{NodeEventsView, SessionView, UIDPathView, Wraper};
use crate::session_common::{lemma_set_remove, set_insert, set_remove, DeliveryView};
use crate::types::{EventView, UID};

verus! {

impl SessionView {
    /// The location that `rest` leads to from the location at `cur`.
    pub open spec fn walk_from(self, cur: int, rest: Seq<usize>) -> Option<int>
        decreases rest.len(),
    {
        if rest.len() == 0 {
            Some(cur)
        } else if rest[0] < self.locations[cur].locations.len() {
            self.walk_from(self.locations[cur].locations[rest[0] as int] as int, rest.drop_first())
        } else {
            None
        }
    }

    /// Two sessions with the same tree: the same number of locations,
    /// holding the same locations and elements, the same UID paths and as
    /// many modules.
    pub open spec fn same_tree(self, other: SessionView) -> bool {
        &&& self.same_shape(other)
        &&& forall|l: int|
            0 <= l < self.locations.len() ==> #[trigger] self.locations[l].elements
                == other.locations[l].elements
        &&& self.refs == other.refs
        &&& self.modules.len() == other.modules.len()
    }

    /// Two sessions whose locations hold the same locations.
    pub open spec fn same_shape(self, other: SessionView) -> bool {
        &&& self.locations.len() == other.locations.len()
        &&& forall|l: int|
            0 <= l < self.locations.len() ==> #[trigger] self.locations[l].locations
                == other.locations[l].locations
    }

    /// `other` keeps what lookups in this session read: its locations still
    /// hold the locations they held (more may follow) and the same
    /// elements, the UIDs handed out keep their paths, and there are as many
    /// modules.
    pub open spec fn grows_into(self, other: SessionView) -> bool {
        &&& self.locations.len() <= other.locations.len()
        &&& forall|l: int|
            0 <= l < self.locations.len() ==> #[trigger] self.locations[l].locations.is_prefix_of(
                other.locations[l].locations,
            )
        &&& forall|l: int|
            0 <= l < self.locations.len() ==> #[trigger] other.locations[l].elements
                == self.locations[l].elements
        &&& self.refs.is_prefix_of(other.refs)
        &&& self.modules.len() == other.modules.len()
    }

    /// `other` has the same elements, and its first locations have the
    /// events and subscribers that this session's locations have.
    pub open spec fn keeps_events_in(self, other: SessionView) -> bool {
        &&& self.locations.len() <= other.locations.len()
        &&& forall|l: int|
            0 <= l < self.locations.len() ==> #[trigger] other.locations[l].events
                == self.locations[l].events
        &&& other.elements == self.elements
    }

    /// The node exists in this session.
    pub open spec fn holds(self, w: Wraper) -> bool {
        match w {
            Wraper::Element(i) => i < self.elements.len(),
            Wraper::Location(i) => i < self.locations.len(),
            Wraper::Module(i) => i < self.modules.len(),
        }
    }
}

/// Walking the whole path is walking its first `k` steps, then the rest.
proof fn lemma_walk_split(s: SessionView, path: Seq<usize>, k: int)
    requires
        s.wf(),
        0 <= k <= path.len(),
        s.walk(path.take(k)) is Some,
    ensures
        s.walk(path) == s.walk_from(s.walk(path.take(k))->0, path.skip(k)),
    decreases path.len() - k,
{
    let c = s.walk(path.take(k))->0;
    lemma_walk_in_range(s, path.take(k));
    if k == path.len() {
        assert(path.take(k) =~= path);
        assert(path.skip(k) =~= Seq::<usize>::empty());
    } else {
        assert(path.take(k + 1).drop_last() =~= path.take(k));
        assert(path.take(k + 1).last() == path[k]);
        assert(path.skip(k)[0] == path[k]);
        assert(path.skip(k).drop_first() =~= path.skip(k + 1));
        if path[k] < s.locations[c].locations.len() {
            lemma_walk_split(s, path, k + 1);
        } else {
            s.lemma_walk_prefix_none(path, k + 1);
        }
    }
}

/// A walk ends at a location that exists.
proof fn lemma_walk_in_range(s: SessionView, path: Seq<usize>)
    requires
        s.wf(),
    ensures
        s.walk(path) matches Some(n) ==> 0 <= n < s.locations.len(),
    decreases path.len(),
{
    if path.len() > 0 {
        lemma_walk_in_range(s, path.drop_last());
    }
}

/// Following or creating locations either creates nothing, ending where the
/// walk ends, or ends at a new, empty location, the last one.
proof fn lemma_chain_result(
    s: SessionView,
    name: Seq<char>,
    rest: Seq<usize>,
    traversed: Seq<usize>,
    cur: int,
)
    requires
        s.wf(),
        0 <= cur < s.locations.len(),
    ensures
        ({
            let c = s.chain(name, rest, traversed, cur);
            &&& c.0.wf()
            &&& 0 <= c.1 < c.0.locations.len()
            &&& c.1 < s.locations.len() ==> c.0 == s && s.walk_from(cur, rest) == Some(c.1)
            &&& c.1 >= s.locations.len() ==> c.1 == c.0.locations.len() - 1
                && c.0.locations[c.1].elements.len() == 0
        }),
    decreases rest.len(),
{
    if rest.len() > 0 {
        let index = rest[0];
        let children = s.locations[cur].locations;
        if index < children.len() {
            lemma_chain_result(s, name, rest.drop_first(), traversed.push(index), children[index as int] as int);
        } else {
            let added = s.add_location(cur, name, traversed.push(children.len() as usize));
            lemma_add_location_wf(s, cur, name, traversed.push(children.len() as usize));
            lemma_chain_result(added.0, name, rest.drop_first(), traversed.push(index), added.1);
        }
    }
}

/// Adding a location keeps the session well formed.
proof fn lemma_add_location_wf(s: SessionView, parent: int, name: Seq<char>, path: Seq<usize>)
    requires
        s.wf(),
        0 <= parent < s.locations.len(),
    ensures
        s.add_location(parent, name, path).0.wf(),
        s.add_location(parent, name, path).1 == s.locations.len(),
        s.add_location(parent, name, path).0.locations.len() == s.locations.len() + 1,
        s.add_location(parent, name, path).0.locations[s.locations.len() as int].elements.len() == 0,
{
    let a = s.add_location(parent, name, path).0;
    assert forall|l: int, j: int|
        0 <= l < a.locations.len() && 0 <= j < a.locations[l].locations.len() implies #[trigger] a.locations[l].locations[j]
        < a.locations.len() by {
        if l == parent {
            if j < s.locations[l].locations.len() {
                assert(a.locations[l].locations[j] == s.locations[l].locations[j]);
            }
        } else if l < s.locations.len() {
            assert(a.locations[l] == s.locations[l]);
        }
    }
    assert forall|l: int, j: int|
        0 <= l < a.locations.len() && 0 <= j < a.locations[l].elements.len() implies #[trigger] a.locations[l].elements[j]
        < a.elements.len() by {
        if l < s.locations.len() {
            assert(a.locations[l].elements == s.locations[l].elements);
        }
    }
}

/// Walking only looks at which locations hold which.
proof fn lemma_walk_from_same_shape(s: SessionView, t: SessionView, cur: int, rest: Seq<usize>)
    requires
        s.wf(),
        s.same_shape(t),
        0 <= cur < s.locations.len(),
    ensures
        s.walk_from(cur, rest) == t.walk_from(cur, rest),
    decreases rest.len(),
{
    if rest.len() > 0 {
        assert(s.locations[cur].locations == t.locations[cur].locations);
        if rest[0] < s.locations[cur].locations.len() {
            lemma_walk_from_same_shape(s, t, s.locations[cur].locations[rest[0] as int] as int, rest.drop_first());
        }
    }
}

/// When the walk reaches a location, following or creating locations on
/// that path creates nothing and ends there.
proof fn lemma_chain_walk(
    s: SessionView,
    name: Seq<char>,
    rest: Seq<usize>,
    traversed: Seq<usize>,
    cur: int,
)
    requires
        s.wf(),
        0 <= cur < s.locations.len(),
        s.walk_from(cur, rest) is Some,
    ensures
        s.chain(name, rest, traversed, cur) == (s, s.walk_from(cur, rest)->0),
    decreases rest.len(),
{
    if rest.len() > 0 {
        let children = s.locations[cur].locations;
        lemma_chain_walk(s, name, rest.drop_first(), traversed.push(rest[0]), children[rest[0] as int] as int);
    }
}

/// The walk from the default location is the walk from position 0.
proof fn lemma_walk_is_walk_from(s: SessionView, path: Seq<usize>)
    requires
        s.wf(),
    ensures
        s.walk(path) == s.walk_from(0, path),
{
    assert(s.walk(path.take(0)) == Some(0int)) by {
        assert(path.take(0) =~= Seq::<usize>::empty());
    }
    lemma_walk_split(s, path, 0);
    assert(path.skip(0) =~= path);
}

/// A lookup that succeeds changes nothing, and a second lookup of the same
/// UID, in a session with the same tree, finds the same node.
pub proof fn law_lookup_is_stable(s: SessionView, t: SessionView, uid: UID)
    requires
        s.wf(),
        t.wf(),
        s.get(uid).1 is Ok,
        s.same_tree(t),
    ensures
        s.get(uid).0 == s,
        t.get(uid) == (t, s.get(uid).1),
{
    if (uid as usize) < s.refs.len() {
        match s.refs[uid as usize as int] {
            UIDPathView::Element(path, index) => {
                let name = "Trying to find element"@;
                lemma_chain_result(s, name, path, Seq::empty(), 0);
                let c = s.create_location(name, path);
                assert(c.1 < s.locations.len());
                lemma_walk_from_same_shape(s, t, 0, path);
                lemma_chain_walk(t, name, path, Seq::empty(), 0);
                assert(s.locations[c.1].elements == t.locations[c.1].elements);
            },
            UIDPathView::Location(path) => {
                lemma_walk_is_walk_from(s, path);
                lemma_walk_is_walk_from(t, path);
                lemma_walk_from_same_shape(s, t, 0, path);
            },
            _ => {},
        }
    }
}

/// A node that a lookup finds exists.
proof fn lemma_get_in_range(s: SessionView, uid: UID)
    requires
        s.wf(),
    ensures
        s.get(uid).1 matches Ok(w) ==> s.holds(w),
{
    if (uid as usize) < s.refs.len() {
        match s.refs[uid as usize as int] {
            UIDPathView::Element(path, index) => {
                lemma_chain_result(s, "Trying to find element"@, path, Seq::empty(), 0);
            },
            UIDPathView::Location(path) => {
                lemma_walk_in_range(s, path);
            },
            _ => {},
        }
    }
}

/// Renaming a node, or changing its description, keeps the tree.
proof fn lemma_relabel_same_tree(s: SessionView, w: Wraper, text: Seq<char>)
    requires
        s.wf(),
        s.holds(w),
    ensures
        s.with_name(w, text).wf(),
        s.same_tree(s.with_name(w, text)),
        s.with_desc(w, text).wf(),
        s.same_tree(s.with_desc(w, text)),
{
    let a = s.with_name(w, text);
    let b = s.with_desc(w, text);
    assert forall|l: int| 0 <= l < s.locations.len() implies #[trigger] s.locations[l].locations
        == a.locations[l].locations && s.locations[l].locations == b.locations[l].locations by {}
    assert forall|l: int| 0 <= l < s.locations.len() implies #[trigger] s.locations[l].elements
        == a.locations[l].elements && s.locations[l].elements == b.locations[l].elements by {}
    assert forall|l: int, j: int|
        0 <= l < a.locations.len() && 0 <= j < a.locations[l].locations.len() implies #[trigger] a.locations[l].locations[j]
        < a.locations.len() by {
        assert(s.locations[l].locations == a.locations[l].locations);
    }
    assert forall|l: int, j: int|
        0 <= l < a.locations.len() && 0 <= j < a.locations[l].elements.len() implies #[trigger] a.locations[l].elements[j]
        < a.elements.len() by {
        assert(s.locations[l].elements == a.locations[l].elements);
    }
    assert forall|l: int, j: int|
        0 <= l < b.locations.len() && 0 <= j < b.locations[l].locations.len() implies #[trigger] b.locations[l].locations[j]
        < b.locations.len() by {
        assert(s.locations[l].locations == b.locations[l].locations);
    }
    assert forall|l: int, j: int|
        0 <= l < b.locations.len() && 0 <= j < b.locations[l].elements.len() implies #[trigger] b.locations[l].elements[j]
        < b.elements.len() by {
        assert(s.locations[l].elements == b.locations[l].elements);
    }
}

/// After renaming the node behind a UID, looking the UID up again finds the
/// same node, and its name is the new one; every other node keeps its name.
pub proof fn law_name_read_after_write(s: SessionView, uid: UID, name: Seq<char>)
    requires
        s.wf(),
        s.get(uid).1 is Ok,
    ensures
        ({
            let w = s.get(uid).1->Ok_0;
            let renamed = s.get(uid).0.with_name(w, name);
            &&& renamed.get(uid) == (renamed, s.get(uid).1)
            &&& renamed.name_of(w) == name
            &&& forall|v: Wraper| v != w && #[trigger] s.holds(v) ==> renamed.name_of(v) == s.name_of(v)
        }),
{
    let w = s.get(uid).1->Ok_0;
    lemma_get_in_range(s, uid);
    lemma_relabel_same_tree(s, w, name);
    law_lookup_is_stable(s, s.with_name(w, name), uid);
}

/// After changing the description of the node behind a UID, looking the
/// UID up again finds the same node, and its description is the new one;
/// every other node keeps its description.
pub proof fn law_desc_read_after_write(s: SessionView, uid: UID, desc: Seq<char>)
    requires
        s.wf(),
        s.get(uid).1 is Ok,
    ensures
        ({
            let w = s.get(uid).1->Ok_0;
            let changed = s.get(uid).0.with_desc(w, desc);
            &&& changed.get(uid) == (changed, s.get(uid).1)
            &&& changed.desc_of(w) == desc
            &&& forall|v: Wraper| v != w && #[trigger] s.holds(v) ==> changed.desc_of(v) == s.desc_of(v)
        }),
{
    let w = s.get(uid).1->Ok_0;
    lemma_get_in_range(s, uid);
    lemma_relabel_same_tree(s, w, desc);
    law_lookup_is_stable(s, s.with_desc(w, desc), uid);
}

/// Adding an element keeps the session well formed and which locations
/// hold which.
proof fn lemma_add_element_wf(s: SessionView, loc: int, name: Seq<char>, epath: Seq<char>, prefix: Seq<usize>)
    requires
        s.wf(),
        0 <= loc < s.locations.len(),
    ensures
        s.add_element(loc, name, epath, prefix).0.wf(),
        s.same_shape(s.add_element(loc, name, epath, prefix).0),
{
    let a = s.add_element(loc, name, epath, prefix).0;
    assert forall|l: int| 0 <= l < s.locations.len() implies #[trigger] s.locations[l].locations
        == a.locations[l].locations by {}
    assert forall|l: int, j: int|
        0 <= l < a.locations.len() && 0 <= j < a.locations[l].locations.len() implies #[trigger] a.locations[l].locations[j]
        < a.locations.len() by {
        assert(s.locations[l].locations == a.locations[l].locations);
    }
    assert forall|l: int, j: int|
        0 <= l < a.locations.len() && 0 <= j < a.locations[l].elements.len() implies #[trigger] a.locations[l].elements[j]
        < a.elements.len() by {
        if l == loc {
            if j < s.locations[l].elements.len() {
                assert(a.locations[l].elements[j] == s.locations[l].elements[j]);
            }
        } else {
            assert(a.locations[l] == s.locations[l]);
        }
    }
    assert forall|l: int| 0 <= l < a.locations.len() implies (#[trigger] a.locations[l]).location.elements.len()
        == a.locations[l].elements.len() && a.locations[l].location.locations.len()
        == a.locations[l].locations.len() by {
        if l != loc {
            assert(a.locations[l] == s.locations[l]);
        } else {
            assert(s.locations[l].location.elements.len() == s.locations[l].elements.len());
        }
    }
}

/// Creating an element in a location that its own path leads back to adds
/// a new element at the end of the session and of that location, under the
/// next UID, with the given name, that location as parent and the path of
/// that location followed by the element's index there; looking the new
/// UID up as an element then finds it, and every path leads where it led.
pub proof fn law_created_element_is_found(
    s: SessionView,
    location: LocationId,
    name: Seq<char>,
    epath: Seq<char>,
)
    requires
        s.wf(),
        s.refs.len() < usize::MAX,
        s.elements.len() < usize::MAX,
        s.location(location.uid).1 is Ok,
        ({
            let n = s.location(location.uid).1->Ok_0 as int;
            &&& s.locations[n].elements.len() < usize::MAX
            &&& s.locations[n].path matches UIDPathView::Location(p) && s.walk(p) == Some(n)
        }),
    ensures
        ({
            let n = s.location(location.uid).1->Ok_0 as int;
            let p = s.locations[n].path->Location_0;
            let index = s.locations[n].elements.len();
            let e = s.elements.len() as int;
            let uid = s.refs.len() as u64;
            let c = s.create_element_in(location, name, epath);
            &&& c.1 == Ok::<ElementId, SessionError>(ElementId { uid })
            &&& c.0.elements.len() == e + 1
            &&& c.0.elements.take(e) == s.elements
            &&& c.0.elements[e].element.name == name
            &&& c.0.elements[e].element.parent == s.locations[n].location.id
            &&& c.0.elements[e].element.path == epath
            &&& c.0.elements[e].path == UIDPathView::Element(p, index as usize)
            &&& c.0.locations[n].elements == s.locations[n].elements.push(e as usize)
            &&& c.0.locations[n].location.elements == s.locations[n].location.elements.push(ElementId { uid })
            &&& c.0.refs == s.refs.push(UIDPathView::Element(p, index as usize))
            &&& c.0.element(uid) == (c.0, Ok::<usize, SessionError>(e as usize))
            &&& forall|q: Seq<usize>| #[trigger] c.0.walk(q) == s.walk(q)
        }),
{
    law_lookup_is_stable(s, s, location.uid);
    lemma_get_in_range(s, location.uid);
    let n = s.location(location.uid).1->Ok_0 as int;
    let p = s.locations[n].path->Location_0;
    let index = s.locations[n].location.elements.len() as usize;
    let full = p.push(index);
    assert(full.drop_last() =~= p);
    lemma_walk_is_walk_from(s, p);
    lemma_chain_walk(s, "Need an element"@, p, Seq::empty(), 0);
    let a = s.add_element(n, name, epath, p);
    lemma_add_element_wf(s, n, name, epath, p);
    assert(a.0.elements.take(s.elements.len() as int) =~= s.elements);
    let uid = s.refs.len() as u64;
    assert(uid as usize == s.refs.len());
    lemma_walk_is_walk_from(a.0, p);
    lemma_walk_from_same_shape(s, a.0, 0, p);
    lemma_chain_walk(a.0, "Trying to find element"@, p, Seq::empty(), 0);
    assert forall|q: Seq<usize>| #[trigger] a.0.walk(q) == s.walk(q) by {
        lemma_walk_is_walk_from(s, q);
        lemma_walk_is_walk_from(a.0, q);
        lemma_walk_from_same_shape(s, a.0, 0, q);
    }
}

/// Following or creating locations along a path whose first part `rest`
/// leads to a location follows that part, then goes on from there.
proof fn lemma_chain_append(
    s: SessionView,
    name: Seq<char>,
    rest: Seq<usize>,
    more: Seq<usize>,
    traversed: Seq<usize>,
    cur: int,
)
    requires
        s.wf(),
        0 <= cur < s.locations.len(),
        s.walk_from(cur, rest) is Some,
    ensures
        s.chain(name, rest + more, traversed, cur) == s.chain(
            name,
            more,
            traversed + rest,
            s.walk_from(cur, rest)->0,
        ),
    decreases rest.len(),
{
    if rest.len() == 0 {
        assert(rest + more =~= more);
        assert(traversed + rest =~= traversed);
    } else {
        let children = s.locations[cur].locations;
        assert((rest + more)[0] == rest[0]);
        assert((rest + more).drop_first() =~= rest.drop_first() + more);
        assert(traversed.push(rest[0]) + rest.drop_first() =~= traversed + rest);
        lemma_chain_append(s, name, rest.drop_first(), more, traversed.push(rest[0]), children[rest[0] as int] as int);
    }
}

/// A walk that reaches a location still reaches it in a session whose
/// locations hold at least the locations they held before, in the same
/// order.
proof fn lemma_walk_from_extends(s: SessionView, t: SessionView, cur: int, rest: Seq<usize>)
    requires
        s.wf(),
        0 <= cur < s.locations.len(),
        s.locations.len() <= t.locations.len(),
        forall|l: int|
            0 <= l < s.locations.len() ==> #[trigger] s.locations[l].locations.is_prefix_of(
                t.locations[l].locations,
            ),
        s.walk_from(cur, rest) is Some,
    ensures
        t.walk_from(cur, rest) == s.walk_from(cur, rest),
    decreases rest.len(),
{
    if rest.len() > 0 {
        let sc = s.locations[cur].locations;
        let tc = t.locations[cur].locations;
        assert(sc.is_prefix_of(tc));
        assert(tc[rest[0] as int] == tc.subrange(0, sc.len() as int)[rest[0] as int]);
        lemma_walk_from_extends(s, t, sc[rest[0] as int] as int, rest.drop_first());
    }
}

/// Creating a location in a location that its own path leads back to adds
/// a new location at the end of the session and of that location, under
/// the next UID, with the given name and that location as parent; looking
/// the new UID up as a location then finds it, its own path leads back to
/// it, and every path that led to a location still leads there.
pub proof fn law_created_location_is_found(s: SessionView, location: LocationId, name: Seq<char>)
    requires
        s.wf(),
        s.refs.len() < usize::MAX,
        s.locations.len() < usize::MAX,
        s.location(location.uid).1 is Ok,
        ({
            let n = s.location(location.uid).1->Ok_0 as int;
            &&& s.locations[n].locations.len() < usize::MAX
            &&& s.locations[n].path matches UIDPathView::Location(p) && s.walk(p) == Some(n)
        }),
    ensures
        ({
            let n = s.location(location.uid).1->Ok_0 as int;
            let p = s.locations[n].path->Location_0;
            let index = s.locations[n].locations.len();
            let k = s.locations.len() as int;
            let uid = s.refs.len() as u64;
            let c = s.create_location_in(location, name);
            &&& c.1 == Ok::<LocationId, SessionError>(LocationId { uid })
            &&& c.0.locations.len() == k + 1
            &&& c.0.locations[k].location.name == name
            &&& c.0.locations[k].location.parent == Some(s.locations[n].location.id)
            &&& c.0.locations[k].locations.len() == 0
            &&& c.0.locations[k].elements.len() == 0
            &&& c.0.locations[n].locations == s.locations[n].locations.push(k as usize)
            &&& c.0.locations[n].location.locations == s.locations[n].location.locations.push(
                LocationId { uid },
            )
            &&& c.0.locations[k].location.id == LocationId { uid }
            &&& c.0.elements == s.elements
            &&& c.0.refs == s.refs.push(UIDPathView::Location(p.push(index as usize)))
            &&& c.0.location(uid) == (c.0, Ok::<usize, SessionError>(k as usize))
            &&& c.0.locations[k].path == UIDPathView::Location(p.push(index as usize))
            &&& c.0.walk(p.push(index as usize)) == Some(k)
            &&& forall|q: Seq<usize>| s.walk(q) is Some ==> #[trigger] c.0.walk(q) == s.walk(q)
        }),
{
    law_lookup_is_stable(s, s, location.uid);
    lemma_get_in_range(s, location.uid);
    let n = s.location(location.uid).1->Ok_0 as int;
    let p = s.locations[n].path->Location_0;
    let index = s.locations[n].locations.len() as usize;
    lemma_walk_is_walk_from(s, p);
    lemma_chain_append(s, name, p, seq![usize::MAX], Seq::empty(), 0);
    assert(p + seq![usize::MAX] =~= p.push(usize::MAX));
    assert(Seq::<usize>::empty() + p =~= p);
    let a = s.add_location(n, name, p.push(index));
    lemma_add_location_wf(s, n, name, p.push(index));
    assert(seq![usize::MAX].drop_first() =~= Seq::<usize>::empty());
    assert(s.chain(name, seq![usize::MAX], p, n) == a.0.chain(name, Seq::<usize>::empty(), p.push(usize::MAX), a.1));
    assert(s.create_location(name, p.push(usize::MAX)) == a);
    let uid = s.refs.len() as u64;
    assert(uid as usize == s.refs.len());
    assert forall|l: int| 0 <= l < s.locations.len() implies #[trigger] s.locations[l].locations.is_prefix_of(
        a.0.locations[l].locations,
    ) by {
        if l == n {
            assert(a.0.locations[l].locations.subrange(0, s.locations[l].locations.len() as int) =~= s.locations[l].locations);
        } else {
            assert(a.0.locations[l] == s.locations[l]);
        }
    }
    lemma_walk_from_extends(s, a.0, 0, p);
    lemma_walk_is_walk_from(a.0, p);
    let q = p.push(index);
    assert(q.drop_last() =~= p);
    assert forall|q: Seq<usize>| s.walk(q) is Some implies #[trigger] a.0.walk(q) == s.walk(q) by {
        lemma_walk_is_walk_from(s, q);
        lemma_walk_is_walk_from(a.0, q);
        lemma_walk_from_extends(s, a.0, 0, q);
    }
}

/// Subscribing to, or unsubscribing from, an element or location that a
/// lookup finds succeeds and touches only its subscribers: looking it up
/// again finds it, the subscriber is then among them exactly when it was
/// added, each of the others is there as before, no subscriber is there
/// twice, and its events are kept.
pub proof fn law_subscription(s: SessionView, uid: UID, to: UID, add: bool)
    requires
        s.wf(),
        s.get(to).1 matches Ok(w) && !(w is Module),
    ensures
        ({
            let w = s.get(to).1->Ok_0;
            let before = s.events_of(w);
            let c = s.change_subscription(uid, to, add);
            let after = c.0.events_of(w);
            &&& c.1 == Ok::<(), SessionError>(())
            &&& c.0.get(to) == (c.0, Ok::<Wraper, SessionError>(w))
            &&& after.subscribers.contains(uid) == add
            &&& forall|y: UID| y != uid ==> (#[trigger] after.subscribers.contains(y) <==> before.subscribers.contains(y))
            &&& after.subscribers.no_duplicates()
            &&& after.events == before.events
        }),
{
    let w = s.get(to).1->Ok_0;
    law_lookup_is_stable(s, s, to);
    lemma_get_in_range(s, to);
    let before = s.events_of(w);
    match w {
        Wraper::Element(i) => assert(s.elements[i as int].events.subscribers.no_duplicates()),
        Wraper::Location(i) => assert(s.locations[i as int].events.subscribers.no_duplicates()),
        Wraper::Module(_) => {},
    }
    lemma_set_remove(before.subscribers, uid);
    let subs = if add {
        set_insert(before.subscribers, uid)
    } else {
        set_remove(before.subscribers, uid)
    };
    let c = s.with_events(w, NodeEventsView { subscribers: subs, ..before });
    assert forall|l: int| 0 <= l < s.locations.len() implies #[trigger] s.locations[l].locations
        == c.locations[l].locations by {}
    assert forall|l: int| 0 <= l < s.locations.len() implies #[trigger] s.locations[l].elements
        == c.locations[l].elements by {}
    assert(c.wf()) by {
        assert forall|l: int, j: int|
            0 <= l < c.locations.len() && 0 <= j < c.locations[l].locations.len() implies #[trigger] c.locations[l].locations[j]
            < c.locations.len() by {
            assert(s.locations[l].locations == c.locations[l].locations);
        }
        assert forall|l: int, j: int|
            0 <= l < c.locations.len() && 0 <= j < c.locations[l].elements.len() implies #[trigger] c.locations[l].elements[j]
            < c.elements.len() by {
            assert(s.locations[l].elements == c.locations[l].elements);
        }
    }
    law_lookup_is_stable(s, c, to);
    if add {
        assert forall|y: UID| y != uid implies (#[trigger] subs.contains(y) <==> before.subscribers.contains(y)) by {
            if !before.subscribers.contains(uid) && subs.contains(y) {
                let i = choose|i: int| 0 <= i < subs.len() && subs[i] == y;
                if i < before.subscribers.len() {
                    assert(before.subscribers[i] == y);
                }
            }
            if !before.subscribers.contains(uid) && before.subscribers.contains(y) {
                let i = choose|i: int| 0 <= i < before.subscribers.len() && before.subscribers[i] == y;
                assert(subs[i] == y);
            }
        }
        if !before.subscribers.contains(uid) {
            assert(subs[subs.len() - 1] == uid);
        }
    }
}

/// Looking up a UID keeps every UID that was handed out, with its path.
proof fn lemma_get_keeps_uids(s: SessionView, uid: UID)
    requires
        s.wf(),
    ensures
        s.get(uid).0.wf(),
        s.refs.is_prefix_of(s.get(uid).0.refs),
{
    if (uid as usize) < s.refs.len() {
        match s.refs[uid as usize as int] {
            UIDPathView::Element(path, index) => {
                lemma_chain_result(s, "Trying to find element"@, path, Seq::empty(), 0);
                s.lemma_chain_keeps("Trying to find element"@, path, Seq::empty(), 0);
            },
            _ => {},
        }
    }
}

/// Every UID that was handed out keeps its path: looking a UID up, or
/// creating an element or a location, only adds UIDs after the others.
pub proof fn law_uids_are_never_reassigned(
    s: SessionView,
    uid: UID,
    location: LocationId,
    name: Seq<char>,
    epath: Seq<char>,
)
    requires
        s.wf(),
    ensures
        s.refs.is_prefix_of(s.get(uid).0.refs),
        s.refs.is_prefix_of(s.create_element_in(location, name, epath).0.refs),
        s.refs.is_prefix_of(s.create_location_in(location, name).0.refs),
{
    lemma_get_keeps_uids(s, uid);
    lemma_get_keeps_uids(s, location.uid);
    let s1 = s.get(location.uid).0;
    match s.location(location.uid).1 {
        Ok(n) => {
            match s1.locations[n as int].path {
                UIDPathView::Location(p) => {
                    let index = s1.locations[n as int].location.elements.len() as usize;
                    let full = p.push(index);
                    let prefix = full.drop_last();
                    s1.lemma_chain_keeps("Need an element"@, prefix, Seq::empty(), 0);
                    s1.lemma_chain_keeps(name, p.push(usize::MAX), Seq::empty(), 0);
                    let c = s1.create_location("Need an element"@, prefix);
                    let a = s1.create_element(name, full, epath);
                    assert(s.refs.is_prefix_of(c.0.refs)) by {
                        assert(c.0.refs.subrange(0, s.refs.len() as int) =~= c.0.refs.subrange(
                            0,
                            s1.refs.len() as int,
                        ).subrange(0, s.refs.len() as int));
                    }
                    assert(s.refs.is_prefix_of(a.0.refs)) by {
                        assert(a.0.refs.subrange(0, s.refs.len() as int) =~= c.0.refs.subrange(
                            0,
                            s.refs.len() as int,
                        ));
                    }
                    let l = s1.create_location(name, p.push(usize::MAX)).0;
                    assert(s.refs.is_prefix_of(l.refs)) by {
                        assert(l.refs.subrange(0, s.refs.len() as int) =~= l.refs.subrange(
                            0,
                            s1.refs.len() as int,
                        ).subrange(0, s.refs.len() as int));
                    }
                },
                _ => {},
            }
        },
        Err(_) => {},
    }
}

/// Asking for the location at a path that leads to one creates nothing and
/// gives that location.
pub proof fn law_existing_path_is_found(s: SessionView, name: Seq<char>, path: Seq<usize>)
    requires
        s.wf(),
        s.walk(path) is Some,
    ensures
        s.create_location(name, path) == (s, s.walk(path)->0),
{
    lemma_walk_is_walk_from(s, path);
    lemma_chain_walk(s, name, path, Seq::empty(), 0);
}

/// Delivering to a list of UIDs gives one outcome for each, in order.
proof fn lemma_deliver_all_len(s: SessionView, subs: Seq<UID>, event: EventView)
    ensures
        s.deliver_all(subs, event).1.len() == subs.len(),
    decreases subs.len(),
{
    if subs.len() > 0 {
        let first = s.deliver(subs[0], event, false);
        lemma_deliver_all_len(first.0, subs.drop_first(), event);
    }
}

/// Emitting from an element or location that a lookup finds succeeds and
/// gives one delivery for each of its subscribers, the first for the one
/// that subscribed first.
pub proof fn law_emit_reaches_every_subscriber(s: SessionView, uid: UID, event: EventView)
    requires
        s.wf(),
        s.get(uid).1 matches Ok(w) && !(w is Module),
    ensures
        ({
            let w = s.get(uid).1->Ok_0;
            let subs = s.events_of(w).subscribers;
            let e = s.emit(uid, event);
            &&& e.1 matches Ok(ds) && ds.len() == subs.len()
            &&& subs.len() > 0 ==> e.1->Ok_0[0] == s.deliver(
                subs[0],
                EventView::From(
                    match w {
                        Wraper::Element(i) => s.elements[i as int].element.id.uid,
                        Wraper::Location(i) => s.locations[i as int].location.id.uid,
                        Wraper::Module(_) => 0,
                    },
                    Box::new(event),
                ),
                false,
            ).1
        }),
{
    law_lookup_is_stable(s, s, uid);
    let w = s.get(uid).1->Ok_0;
    let id = match w {
        Wraper::Element(i) => s.elements[i as int].element.id.uid,
        Wraper::Location(i) => s.locations[i as int].location.id.uid,
        Wraper::Module(_) => 0,
    };
    lemma_deliver_all_len(s, s.events_of(w).subscribers, EventView::From(id, Box::new(event)));
}

/// A prefix of a prefix is a prefix.
proof fn lemma_prefix_trans<A>(a: Seq<A>, b: Seq<A>, c: Seq<A>)
    requires
        a.is_prefix_of(b),
        b.is_prefix_of(c),
    ensures
        a.is_prefix_of(c),
{
    assert forall|i: int| 0 <= i < a.len() implies a[i] == c[i] by {
        assert(a[i] == b.subrange(0, a.len() as int)[i]);
        assert(b[i] == c.subrange(0, b.len() as int)[i]);
    }
    assert(a =~= c.subrange(0, a.len() as int));
}

/// A session grows into itself and keeps its own events.
proof fn lemma_grows_refl(s: SessionView)
    ensures
        s.grows_into(s),
        s.keeps_events_in(s),
{
    assert forall|l: int| 0 <= l < s.locations.len() implies #[trigger] s.locations[l].locations.is_prefix_of(
        s.locations[l].locations,
    ) by {
        assert(s.locations[l].locations =~= s.locations[l].locations.subrange(0, s.locations[l].locations.len() as int));
    }
    assert(s.refs =~= s.refs.subrange(0, s.refs.len() as int));
}

/// Growing, and keeping events, carry over.
proof fn lemma_grows_trans(a: SessionView, b: SessionView, c: SessionView)
    requires
        a.grows_into(b),
        b.grows_into(c),
    ensures
        a.grows_into(c),
        a.keeps_events_in(b) && b.keeps_events_in(c) ==> a.keeps_events_in(c),
{
    assert forall|l: int| 0 <= l < a.locations.len() implies #[trigger] a.locations[l].locations.is_prefix_of(
        c.locations[l].locations,
    ) by {
        assert(a.locations[l].locations.is_prefix_of(b.locations[l].locations));
        assert(b.locations[l].locations.is_prefix_of(c.locations[l].locations));
        lemma_prefix_trans(a.locations[l].locations, b.locations[l].locations, c.locations[l].locations);
    }
    assert forall|l: int| 0 <= l < a.locations.len() implies #[trigger] c.locations[l].elements
        == a.locations[l].elements by {
        assert(b.locations[l].elements == a.locations[l].elements);
        assert(c.locations[l].elements == b.locations[l].elements);
    }
    lemma_prefix_trans(a.refs, b.refs, c.refs);
    if a.keeps_events_in(b) && b.keeps_events_in(c) {
        assert forall|l: int| 0 <= l < a.locations.len() implies #[trigger] c.locations[l].events
            == a.locations[l].events by {
            assert(b.locations[l].events == a.locations[l].events);
            assert(c.locations[l].events == b.locations[l].events);
        }
    }
}

/// Adding a location grows the session and keeps the events.
proof fn lemma_add_location_grows(s: SessionView, parent: int, name: Seq<char>, path: Seq<usize>)
    requires
        s.wf(),
        0 <= parent < s.locations.len(),
    ensures
        s.grows_into(s.add_location(parent, name, path).0),
        s.keeps_events_in(s.add_location(parent, name, path).0),
{
    let a = s.add_location(parent, name, path).0;
    assert forall|l: int| 0 <= l < s.locations.len() implies #[trigger] s.locations[l].locations.is_prefix_of(
        a.locations[l].locations,
    ) by {
        if l == parent {
            assert(s.locations[l].locations =~= a.locations[l].locations.subrange(0, s.locations[l].locations.len() as int));
        } else {
            assert(a.locations[l] == s.locations[l]);
            assert(s.locations[l].locations =~= a.locations[l].locations.subrange(0, s.locations[l].locations.len() as int));
        }
    }
    assert forall|l: int| 0 <= l < s.locations.len() implies #[trigger] a.locations[l].elements
        == s.locations[l].elements by {
        if l != parent {
            assert(a.locations[l] == s.locations[l]);
        }
    }
    assert forall|l: int| 0 <= l < s.locations.len() implies #[trigger] a.locations[l].events
        == s.locations[l].events by {
        if l != parent {
            assert(a.locations[l] == s.locations[l]);
        }
    }
    assert(s.refs =~= a.refs.subrange(0, s.refs.len() as int));
}

/// Following or creating locations grows the session and keeps the events.
proof fn lemma_chain_grows(s: SessionView, name: Seq<char>, rest: Seq<usize>, traversed: Seq<usize>, cur: int)
    requires
        s.wf(),
        0 <= cur < s.locations.len(),
    ensures
        s.grows_into(s.chain(name, rest, traversed, cur).0),
        s.keeps_events_in(s.chain(name, rest, traversed, cur).0),
    decreases rest.len(),
{
    if rest.len() == 0 {
        lemma_grows_refl(s);
    } else {
        let index = rest[0];
        let children = s.locations[cur].locations;
        if index < children.len() {
            lemma_chain_grows(s, name, rest.drop_first(), traversed.push(index), children[index as int] as int);
        } else {
            let added = s.add_location(cur, name, traversed.push(children.len() as usize));
            lemma_add_location_wf(s, cur, name, traversed.push(children.len() as usize));
            lemma_add_location_grows(s, cur, name, traversed.push(children.len() as usize));
            lemma_chain_grows(added.0, name, rest.drop_first(), traversed.push(index), added.1);
            lemma_grows_trans(s, added.0, added.0.chain(name, rest.drop_first(), traversed.push(index), added.1).0);
        }
    }
}

/// A lookup keeps the session well formed, grows it and keeps its events.
proof fn lemma_get_grows(s: SessionView, uid: UID)
    requires
        s.wf(),
    ensures
        s.get(uid).0.wf(),
        s.grows_into(s.get(uid).0),
        s.keeps_events_in(s.get(uid).0),
{
    lemma_get_keeps_uids(s, uid);
    lemma_grows_refl(s);
    if (uid as usize) < s.refs.len() {
        match s.refs[uid as usize as int] {
            UIDPathView::Element(path, index) => {
                lemma_chain_grows(s, "Trying to find element"@, path, Seq::empty(), 0);
            },
            _ => {},
        }
    }
}

/// A lookup that succeeds finds the same node, changing nothing, in any
/// session the first one grows into.
proof fn lemma_get_stable(s: SessionView, t: SessionView, uid: UID)
    requires
        s.wf(),
        t.wf(),
        s.grows_into(t),
        s.get(uid).1 is Ok,
    ensures
        t.get(uid) == (t, s.get(uid).1),
{
    let i = uid as usize as int;
    assert(t.refs[i] == t.refs.subrange(0, s.refs.len() as int)[i]);
    assert(t.refs[i] == s.refs[i]);
    match s.refs[i] {
        UIDPathView::Element(path, index) => {
            let name = "Trying to find element"@;
            lemma_chain_result(s, name, path, Seq::empty(), 0);
            let c = s.create_location(name, path);
            assert(c.1 < s.locations.len());
            lemma_walk_from_extends(s, t, 0, path);
            lemma_chain_walk(t, name, path, Seq::empty(), 0);
            assert(t.locations[c.1].elements == s.locations[c.1].elements);
        },
        UIDPathView::Location(path) => {
            lemma_walk_is_walk_from(s, path);
            lemma_walk_is_walk_from(t, path);
            lemma_walk_from_extends(s, t, 0, path);
        },
        _ => {},
    }
}

/// Replacing the events of a node keeps the tree and the well-formedness,
/// when no subscriber is there twice.
proof fn lemma_with_events_grows(s: SessionView, w: Wraper, ev: NodeEventsView)
    requires
        s.wf(),
        s.holds(w),
        ev.subscribers.no_duplicates(),
    ensures
        s.with_events(w, ev).wf(),
        s.grows_into(s.with_events(w, ev)),
{
    let a = s.with_events(w, ev);
    lemma_grows_refl(s);
    assert forall|l: int| 0 <= l < s.locations.len() implies #[trigger] s.locations[l].locations
        == a.locations[l].locations && s.locations[l].elements == a.locations[l].elements by {}
    assert forall|l: int| 0 <= l < s.locations.len() implies #[trigger] s.locations[l].locations.is_prefix_of(
        a.locations[l].locations,
    ) by {
        assert(s.locations[l].locations == a.locations[l].locations);
        assert(s.locations[l].locations =~= a.locations[l].locations.subrange(0, s.locations[l].locations.len() as int));
    }
    assert forall|l: int| 0 <= l < s.locations.len() implies #[trigger] a.locations[l].elements
        == s.locations[l].elements by {
        assert(s.locations[l].elements == a.locations[l].elements);
    }
    assert(a.wf()) by {
        assert forall|l: int, j: int|
            0 <= l < a.locations.len() && 0 <= j < a.locations[l].locations.len() implies #[trigger] a.locations[l].locations[j]
            < a.locations.len() by {
            assert(s.locations[l].locations == a.locations[l].locations);
        }
        assert forall|l: int, j: int|
            0 <= l < a.locations.len() && 0 <= j < a.locations[l].elements.len() implies #[trigger] a.locations[l].elements[j]
            < a.elements.len() by {
            assert(s.locations[l].elements == a.locations[l].elements);
        }
    }
}

/// Delivering an event keeps the session well formed and grows it.
proof fn lemma_deliver_grows(s: SessionView, to: UID, event: EventView, module_fails: bool)
    requires
        s.wf(),
    ensures
        s.deliver(to, event, module_fails).0.wf(),
        s.grows_into(s.deliver(to, event, module_fails).0),
{
    lemma_get_grows(s, to);
    let got = s.get(to);
    match got.1 {
        Ok(w) => {
            if !(w is Module) {
                law_lookup_is_stable(s, s, to);
                lemma_get_in_range(s, to);
                let ev = s.events_of(w);
                match w {
                    Wraper::Element(i) => assert(s.elements[i as int].events.subscribers.no_duplicates()),
                    Wraper::Location(i) => assert(s.locations[i as int].events.subscribers.no_duplicates()),
                    Wraper::Module(_) => {},
                }
                let s2 = s.with_events(w, NodeEventsView { events: ev.events.push(event), ..ev });
                lemma_with_events_grows(s, w, NodeEventsView { events: ev.events.push(event), ..ev });
                match s2.module_of(w) {
                    Some(m) => {
                        lemma_get_grows(s2, m.uid);
                        lemma_grows_trans(s, s2, s2.get(m.uid).0);
                    },
                    None => {},
                }
            }
        },
        Err(_) => {},
    }
}

/// Delivering an event to an element or location that a lookup finds
/// queues it there, after the events it had, whether or not the node uses
/// a module, and keeps the node's subscribers; the delivery is a call to
/// the node's module when it has one that can be found.
pub proof fn law_deliver_queues_event(s: SessionView, to: UID, event: EventView, module_fails: bool)
    requires
        s.wf(),
        s.get(to).1 matches Ok(w) && !(w is Module),
    ensures
        ({
            let w = s.get(to).1->Ok_0;
            let d = s.deliver(to, event, module_fails);
            &&& d.0.events_of(w).events == s.events_of(w).events.push(event)
            &&& d.0.events_of(w).subscribers == s.events_of(w).subscribers
            &&& s.module_of(w) is None ==> d.1 == DeliveryView::Delivered
            &&& d.1 matches DeliveryView::Call(_, target, e) ==> target == w && e == event
        }),
{
    let w = s.get(to).1->Ok_0;
    law_lookup_is_stable(s, s, to);
    lemma_get_in_range(s, to);
    let ev = s.events_of(w);
    let s2 = s.with_events(w, NodeEventsView { events: ev.events.push(event), ..ev });
    match w {
        Wraper::Element(i) => assert(s.elements[i as int].events.subscribers.no_duplicates()),
        Wraper::Location(i) => assert(s.locations[i as int].events.subscribers.no_duplicates()),
        Wraper::Module(_) => {},
    }
    lemma_with_events_grows(s, w, NodeEventsView { events: ev.events.push(event), ..ev });
    match s2.module_of(w) {
        Some(m) => {
            lemma_get_grows(s2, m.uid);
            match w {
                Wraper::Element(i) => assert(s2.get(m.uid).0.elements[i as int] == s2.elements[i as int]),
                Wraper::Location(i) => assert(s2.get(m.uid).0.locations[i as int].events == s2.locations[i as int].events),
                Wraper::Module(_) => {},
            }
        },
        None => {},
    }
}

/// Telling subscribers of an event keeps the session well formed and grows
/// it; the subscribers kept are among those asked, with one delivery for
/// each, and every subscriber that a lookup finds (whatever kind of node
/// it is) is kept.
pub proof fn law_told_subscribers(s: SessionView, subs: Seq<UID>, event: EventView)
    requires
        s.wf(),
    ensures
        ({
            let t = s.tell_subscribers(subs, event);
            &&& t.0.wf()
            &&& s.grows_into(t.0)
            &&& t.2.len() == t.1.len()
            &&& t.1.len() <= subs.len()
            &&& forall|x: UID| #[trigger] t.1.contains(x) ==> subs.contains(x)
            &&& forall|i: int| 0 <= i < subs.len() && (#[trigger] s.get(subs[i])).1 is Ok ==> t.1.contains(subs[i])
        }),
    decreases subs.len(),
{
    let t = s.tell_subscribers(subs, event);
    if subs.len() == 0 {
        lemma_grows_refl(s);
    } else {
        let rest_subs = subs.drop_first();
        lemma_get_grows(s, subs[0]);
        let got = s.get(subs[0]);
        let g = got.0;
        let next = match got.1 {
            Err(_) => g,
            Ok(_) => g.deliver(subs[0], event, false).0,
        };
        match got.1 {
            Err(_) => {
                lemma_grows_refl(g);
            },
            Ok(_) => {
                lemma_deliver_grows(g, subs[0], event, false);
            },
        }
        lemma_grows_trans(s, g, next);
        law_told_subscribers(next, rest_subs, event);
        let r = next.tell_subscribers(rest_subs, event);
        lemma_grows_trans(s, next, r.0);
        assert forall|x: UID| #[trigger] t.1.contains(x) implies subs.contains(x) by {
            if r.1.contains(x) {
                assert(rest_subs.contains(x));
                let j = choose|j: int| 0 <= j < rest_subs.len() && rest_subs[j] == x;
                assert(subs[j + 1] == x);
            } else {
                let j = choose|j: int| 0 <= j < t.1.len() && t.1[j] == x;
                if j > 0 {
                    assert(r.1[j - 1] == x);
                }
                assert(subs[0] == x);
            }
        }
        assert forall|i: int| 0 <= i < subs.len() && (#[trigger] s.get(subs[i])).1 is Ok implies t.1.contains(
            subs[i],
        ) by {
            if i == 0 {
                assert(t.1[0] == subs[0]);
            } else {
                lemma_get_stable(s, next, subs[i]);
                assert(rest_subs[i - 1] == subs[i]);
                assert(next.get(rest_subs[i - 1]).1 is Ok);
                assert(r.1.contains(subs[i]));
                let j = choose|j: int| 0 <= j < r.1.len() && r.1[j] == subs[i];
                match got.1 {
                    Err(_) => {},
                    Ok(_) => {
                        assert(t.1[j + 1] == subs[i]);
                    },
                }
            }
        }
    }
}

} // verus!
