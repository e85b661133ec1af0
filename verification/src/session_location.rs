use vstd::prelude::*;

use crate::error::{SessionError, SessionResult};
use crate::helper::{ElementId, LocationId};
use crate::location::LocationView;
use crate::session::{copy_indices, LocalSession, LocationNode, SessionView, UIDPath, UIDPathView};

verus! {

impl SessionView {
    /// The session with the record of the location at `i` replaced.
    pub open spec fn with_location(self, i: int, l: LocationView) -> SessionView {
        SessionView {
            locations: self.locations.update(i, LocationNode { location: l, ..self.locations[i] }),
            ..self
        }
    }

    /// What creating a location named `name` in the location behind
    /// `location` does: a new location is always added at its end.
    pub open spec fn create_location_in(self, location: LocationId, name: Seq<char>) -> (
        SessionView,
        SessionResult<LocationId>,
    ) {
        let found = self.location(location.uid);
        let s1 = found.0;
        match found.1 {
            Err(e) => (s1, Err(SessionError::CreateLocation(Box::new(e)))),
            Ok(n) => match s1.locations[n as int].path {
                UIDPathView::Location(p) => {
                    let created = s1.create_location(name, p.push(usize::MAX));
                    (created.0, Ok(created.0.locations[created.1].location.id))
                },
                _ => (s1, Err(SessionError::CreateLocation(Box::new(SessionError::UIDIsNotALocation)))),
            },
        }
    }
}

/// A copy of the inclusive range `start..=end` of a list of location handles.
pub fn copy_location_ids(v: &Vec<LocationId>, start: usize, end: usize) -> (r: Vec<LocationId>)
    requires
        end < v@.len(),
        start <= end + 1,
    ensures
        r@ == v@.subrange(start as int, end + 1),
{
    let mut r: Vec<LocationId> = Vec::new();
    let mut i: usize = start;
    assert(end < v.len());
    while i <= end
        invariant
            start <= i <= end + 1,
            end < usize::MAX,
            end < v@.len(),
            r@ == v@.subrange(start as int, i as int),
        decreases end + 1 - i,
    {
        r.push(v[i]);
        i = i + 1;
        assert(r@ =~= v@.subrange(start as int, i as int));
    }
    r
}

/// A copy of the inclusive range `start..=end` of a list of element handles.
pub fn copy_element_ids(v: &Vec<ElementId>, start: usize, end: usize) -> (r: Vec<ElementId>)
    requires
        end < v@.len(),
        start <= end + 1,
    ensures
        r@ == v@.subrange(start as int, end + 1),
{
    let mut r: Vec<ElementId> = Vec::new();
    let mut i: usize = start;
    assert(end < v.len());
    while i <= end
        invariant
            start <= i <= end + 1,
            end < usize::MAX,
            end < v@.len(),
            r@ == v@.subrange(start as int, i as int),
        decreases end + 1 - i,
    {
        r.push(v[i]);
        i = i + 1;
        assert(r@ =~= v@.subrange(start as int, i as int));
    }
    r
}

/// A copy of a list of strings.
fn copy_strings(v: &Vec<String>) -> (r: Vec<String>)
    ensures
        r@ == v@,
{
    crate::enums::clone_strings(v)
}

impl LocalSession {
    /// Creates a location named `name` at the end of the location behind
    /// `location`; see [`SessionView::create_location_in`].
    pub fn create_location(&mut self, location: LocationId, name: String) -> (r: SessionResult<LocationId>)
        requires
            old(self).wf(),
        ensures
            final(self).wf(),
            (final(self)@, r) == old(self)@.create_location_in(location, name@),
    {
        let n = match self.location(location.uid) {
            Err(e) => {
                return Err(SessionError::CreateLocation(Box::new(e)));
            },
            Ok(n) => n,
        };
        let mut path = match &self.locations[n].path {
            UIDPath::Location(p) => copy_indices(p.as_slice()),
            _ => {
                return Err(SessionError::CreateLocation(Box::new(SessionError::UIDIsNotALocation)));
            },
        };
        path.push(usize::MAX);
        let l = self.create_location_at(name, path.as_slice());
        Ok(self.locations[l].location.id)
    }

    /// The location at `path`, created where missing with the name
    /// "Get Location".
    pub fn get_location(&mut self, path: Vec<usize>) -> (r: SessionResult<LocationId>)
        requires
            old(self).wf(),
        ensures
            final(self).wf(),
            ({
                let created = old(self)@.create_location("Get Location"@, path@);
                final(self)@ == created.0 && r == Ok::<LocationId, SessionError>(
                    created.0.locations[created.1].location.id,
                )
            }),
    {
        let l = self.create_location_at(String::from_str("Get Location"), path.as_slice());
        Ok(self.locations[l].location.id)
    }

    /// The handle of the default location.
    pub fn get_default_location(&self) -> (r: SessionResult<LocationId>)
        requires
            self.wf(),
        ensures
            r == Ok::<LocationId, SessionError>(self@.locations[0].location.id),
    {
        self.default_location()
    }

    /// The location that holds the location behind `location`, if any.
    pub fn location_get_parent(&mut self, location: LocationId) -> (r: SessionResult<Option<LocationId>>)
        requires
            old(self).wf(),
        ensures
            final(self).wf(),
            final(self)@ == old(self)@.location(location.uid).0,
            match old(self)@.location(location.uid).1 {
                Err(e) => r == Err::<Option<LocationId>, SessionError>(SessionError::LocationGetParent(Box::new(e))),
                Ok(i) => r == Ok::<Option<LocationId>, SessionError>(final(self)@.locations[i as int].location.parent),
            },
    {
        match self.location(location.uid) {
            Err(e) => Err(SessionError::LocationGetParent(Box::new(e))),
            Ok(i) => Ok(self.locations[i].location.parent),
        }
    }

    /// How many locations the location behind `location` holds.
    pub fn location_get_locations_len(&mut self, location: LocationId) -> (r: SessionResult<usize>)
        requires
            old(self).wf(),
        ensures
            final(self).wf(),
            final(self)@ == old(self)@.location(location.uid).0,
            match old(self)@.location(location.uid).1 {
                Err(e) => r == Err::<usize, SessionError>(SessionError::LocationGetLocationsLen(Box::new(e))),
                Ok(i) => r == Ok::<usize, SessionError>(final(self)@.locations[i as int].locations.len() as usize),
            },
    {
        match self.location(location.uid) {
            Err(e) => Err(SessionError::LocationGetLocationsLen(Box::new(e))),
            Ok(i) => Ok(self.locations[i].locations.len()),
        }
    }

    /// The locations held by the location behind `location`, from `start`
    /// to `end` inclusive. Refused when `start < end` and there are at most
    /// `end` locations.
    pub fn location_get_locations(&mut self, location: LocationId, start: usize, end: usize) -> (r: SessionResult<Vec<LocationId>>)
        requires
            old(self).wf(),
            ({
                let found = old(self)@.location(location.uid);
                found.1 matches Ok(n) ==> {
                    let ids = found.0.locations[n as int].location.locations;
                    (start < end && ids.len() <= end) || (end < ids.len() && start <= end + 1)
                }
            }),
        ensures
            final(self).wf(),
            final(self)@ == old(self)@.location(location.uid).0,
            match old(self)@.location(location.uid).1 {
                Err(e) => r == Err::<Vec<LocationId>, SessionError>(SessionError::LocationGetLocations(Box::new(e))),
                Ok(i) => {
                    let ids = final(self)@.locations[i as int].location.locations;
                    if start < end && ids.len() <= end {
                        r == Err::<Vec<LocationId>, SessionError>(SessionError::LocationGetLocations(
                            Box::new(SessionError::LocationGetLocations(Box::new(SessionError::ThereAreLessLocations))),
                        ))
                    } else {
                        r matches Ok(v) && v@ == ids.subrange(start as int, end + 1)
                    }
                },
            },
    {
        let i = match self.location(location.uid) {
            Err(e) => {
                return Err(SessionError::LocationGetLocations(Box::new(e)));
            },
            Ok(i) => i,
        };
        if start < end && self.locations[i].location.locations.len() <= end {
            Err(SessionError::LocationGetLocations(
                Box::new(SessionError::LocationGetLocations(Box::new(SessionError::ThereAreLessLocations))),
            ))
        } else {
            Ok(copy_location_ids(&self.locations[i].location.locations, start, end))
        }
    }

    /// How many elements the location behind `location` holds.
    pub fn location_get_elements_len(&mut self, location: LocationId) -> (r: SessionResult<usize>)
        requires
            old(self).wf(),
        ensures
            final(self).wf(),
            final(self)@ == old(self)@.location(location.uid).0,
            match old(self)@.location(location.uid).1 {
                Err(e) => r == Err::<usize, SessionError>(SessionError::LocationGetElementsLen(Box::new(e))),
                Ok(i) => r == Ok::<usize, SessionError>(final(self)@.locations[i as int].elements.len() as usize),
            },
    {
        match self.location(location.uid) {
            Err(e) => Err(SessionError::LocationGetElementsLen(Box::new(e))),
            Ok(i) => Ok(self.locations[i].elements.len()),
        }
    }

    /// The elements held by the location behind `location`, from `start` to
    /// `end` inclusive (`start` 0 and `end` 2 give the first three). Refused
    /// when the location holds at most `end` elements.
    pub fn location_get_elements(&mut self, location: LocationId, start: usize, end: usize) -> (r: SessionResult<Vec<ElementId>>)
        requires
            old(self).wf(),
            ({
                let found = old(self)@.location(location.uid);
                found.1 matches Ok(n) ==> {
                    let l = found.0.locations[n as int].location;
                    end < l.elements.len() ==> start <= end + 1
                }
            }),
        ensures
            final(self).wf(),
            final(self)@ == old(self)@.location(location.uid).0,
            match old(self)@.location(location.uid).1 {
                Err(e) => r == Err::<Vec<ElementId>, SessionError>(SessionError::LocationGetElements(Box::new(e))),
                Ok(i) => {
                    let l = final(self)@.locations[i as int].location;
                    if l.elements.len() <= end {
                        r == Err::<Vec<ElementId>, SessionError>(SessionError::LocationGetElements(
                            Box::new(SessionError::ThereAreLessElements),
                        ))
                    } else {
                        r matches Ok(v) && v@ == l.elements.subrange(start as int, end + 1)
                    }
                },
            },
    {
        let i = match self.location(location.uid) {
            Err(e) => {
                return Err(SessionError::LocationGetElements(Box::new(e)));
            },
            Ok(i) => i,
        };
        if self.locations[i].location.elements.len() <= end {
            Err(SessionError::LocationGetElements(Box::new(SessionError::ThereAreLessElements)))
        } else {
            Ok(copy_element_ids(&self.locations[i].location.elements, start, end))
        }
    }

    /// Whether the location behind `location` is enabled.
    pub fn location_get_enabled(&mut self, location: LocationId) -> (r: SessionResult<bool>)
        requires
            old(self).wf(),
        ensures
            final(self).wf(),
            final(self)@ == old(self)@.location(location.uid).0,
            match old(self)@.location(location.uid).1 {
                Err(e) => r == Err::<bool, SessionError>(SessionError::LocationGetEnabled(Box::new(e))),
                Ok(i) => r == Ok::<bool, SessionError>(final(self)@.locations[i as int].location.enabled),
            },
    {
        match self.location(location.uid) {
            Err(e) => Err(SessionError::LocationGetEnabled(Box::new(e))),
            Ok(i) => Ok(self.locations[i].location.enabled),
        }
    }

    /// Looks the location behind `location` up and changes nothing else;
    /// starting or stopping a location is not done yet. A failed lookup is
    /// reported as an error of `location_get_enabled`.
    pub fn location_set_enabled(&mut self, location: LocationId, enabled: bool) -> (r: SessionResult<()>)
        requires
            old(self).wf(),
        ensures
            final(self).wf(),
            final(self)@ == old(self)@.location(location.uid).0,
            match old(self)@.location(location.uid).1 {
                Err(e) => r == Err::<(), SessionError>(SessionError::LocationGetEnabled(Box::new(e))),
                Ok(_) => r == Ok::<(), SessionError>(()),
            },
    {
        match self.location(location.uid) {
            Err(e) => Err(SessionError::LocationGetEnabled(Box::new(e))),
            Ok(_) => Ok(()),
        }
    }

    /// The path of the location behind `location`.
    pub fn location_get_path(&mut self, location: LocationId) -> (r: SessionResult<String>)
        requires
            old(self).wf(),
        ensures
            final(self).wf(),
            final(self)@ == old(self)@.location(location.uid).0,
            match old(self)@.location(location.uid).1 {
                Err(e) => r == Err::<String, SessionError>(SessionError::LocationGetPath(Box::new(e))),
                Ok(i) => r matches Ok(p) && p@ == final(self)@.locations[i as int].location.path,
            },
    {
        match self.location(location.uid) {
            Err(e) => Err(SessionError::LocationGetPath(Box::new(e))),
            Ok(i) => Ok(self.locations[i].location.path.clone()),
        }
    }

    /// Sets the path of the location behind `location`.
    pub fn location_set_path(&mut self, location: LocationId, path: String) -> (r: SessionResult<()>)
        requires
            old(self).wf(),
        ensures
            final(self).wf(),
            ({
                let found = old(self)@.location(location.uid);
                match found.1 {
                    Err(e) => final(self)@ == found.0 && r == Err::<(), SessionError>(
                        SessionError::LocationSetPath(Box::new(e)),
                    ),
                    Ok(i) => final(self)@ == found.0.with_location(
                        i as int,
                        LocationView { path: path@, ..found.0.locations[i as int].location },
                    ) && r == Ok::<(), SessionError>(()),
                }
            }),
    {
        match self.location(location.uid) {
            Err(e) => Err(SessionError::LocationSetPath(Box::new(e))),
            Ok(i) => {
                let ghost before = self@;
                self.locations[i].location.path = path;
                assert(self@.locations =~= before.with_location(
                    i as int,
                    LocationView { path: path@, ..before.locations[i as int].location },
                ).locations);
                Ok(())
            },
        }
    }

    /// Whether the location behind `location` is completed.
    pub fn location_is_completed(&mut self, location: LocationId) -> (r: SessionResult<bool>)
        requires
            old(self).wf(),
        ensures
            final(self).wf(),
            final(self)@ == old(self)@.location(location.uid).0,
            match old(self)@.location(location.uid).1 {
                Err(e) => r == Err::<bool, SessionError>(SessionError::LocationIsCompleted(Box::new(e))),
                Ok(i) => r == Ok::<bool, SessionError>(final(self)@.locations[i as int].location.is_completed),
            },
    {
        match self.location(location.uid) {
            Err(e) => Err(SessionError::LocationIsCompleted(Box::new(e))),
            Ok(i) => Ok(self.locations[i].location.is_completed),
        }
    }

    /// Whether the location behind `location` failed.
    pub fn location_is_error(&mut self, location: LocationId) -> (r: SessionResult<bool>)
        requires
            old(self).wf(),
        ensures
            final(self).wf(),
            final(self)@ == old(self)@.location(location.uid).0,
            match old(self)@.location(location.uid).1 {
                Err(e) => r == Err::<bool, SessionError>(SessionError::LocationIsError(Box::new(e))),
                Ok(i) => r == Ok::<bool, SessionError>(final(self)@.locations[i as int].location.is_error),
            },
    {
        match self.location(location.uid) {
            Err(e) => Err(SessionError::LocationIsError(Box::new(e))),
            Ok(i) => Ok(self.locations[i].location.is_error),
        }
    }

    /// The status texts of the location behind `location`.
    pub fn location_get_statuses(&mut self, location: LocationId) -> (r: SessionResult<Vec<String>>)
        requires
            old(self).wf(),
        ensures
            final(self).wf(),
            final(self)@ == old(self)@.location(location.uid).0,
            match old(self)@.location(location.uid).1 {
                Err(e) => r == Err::<Vec<String>, SessionError>(SessionError::LocationGetStatuses(Box::new(e))),
                Ok(i) => r matches Ok(v) && v@.map_values(|s: String| s@) == final(self)@.locations[i as int].location.statuses,
            },
    {
        match self.location(location.uid) {
            Err(e) => Err(SessionError::LocationGetStatuses(Box::new(e))),
            Ok(i) => Ok(copy_strings(&self.locations[i].location.statuses)),
        }
    }

    /// Sets the status texts of the location behind `location`.
    pub fn location_set_statuses(&mut self, location: LocationId, statuses: Vec<String>) -> (r: SessionResult<()>)
        requires
            old(self).wf(),
        ensures
            final(self).wf(),
            ({
                let found = old(self)@.location(location.uid);
                match found.1 {
                    Err(e) => final(self)@ == found.0 && r == Err::<(), SessionError>(
                        SessionError::LocationSetStatuses(Box::new(e)),
                    ),
                    Ok(i) => final(self)@ == found.0.with_location(
                        i as int,
                        LocationView {
                            statuses: statuses@.map_values(|s: String| s@),
                            ..found.0.locations[i as int].location
                        },
                    ) && r == Ok::<(), SessionError>(()),
                }
            }),
    {
        match self.location(location.uid) {
            Err(e) => Err(SessionError::LocationSetStatuses(Box::new(e))),
            Ok(i) => {
                let ghost before = self@;
                let ghost sv = statuses@.map_values(|s: String| s@);
                self.locations[i].location.statuses = statuses;
                assert(self@.locations =~= before.with_location(
                    i as int,
                    LocationView { statuses: sv, ..before.locations[i as int].location },
                ).locations);
                Ok(())
            },
        }
    }

    /// The status of the location behind `location`.
    pub fn location_get_status(&mut self, location: LocationId) -> (r: SessionResult<usize>)
        requires
            old(self).wf(),
        ensures
            final(self).wf(),
            final(self)@ == old(self)@.location(location.uid).0,
            match old(self)@.location(location.uid).1 {
                Err(e) => r == Err::<usize, SessionError>(SessionError::LocationGetStatus(Box::new(e))),
                Ok(i) => r == Ok::<usize, SessionError>(final(self)@.locations[i as int].location.status),
            },
    {
        match self.location(location.uid) {
            Err(e) => Err(SessionError::LocationGetStatus(Box::new(e))),
            Ok(i) => Ok(self.locations[i].location.status),
        }
    }

    /// Sets the status of the location behind `location`.
    pub fn location_set_status(&mut self, location: LocationId, status: usize) -> (r: SessionResult<()>)
        requires
            old(self).wf(),
        ensures
            final(self).wf(),
            ({
                let found = old(self)@.location(location.uid);
                match found.1 {
                    Err(e) => final(self)@ == found.0 && r == Err::<(), SessionError>(
                        SessionError::LocationSetStatus(Box::new(e)),
                    ),
                    Ok(i) => final(self)@ == found.0.with_location(
                        i as int,
                        LocationView { status, ..found.0.locations[i as int].location },
                    ) && r == Ok::<(), SessionError>(()),
                }
            }),
    {
        match self.location(location.uid) {
            Err(e) => Err(SessionError::LocationSetStatus(Box::new(e))),
            Ok(i) => {
                let ghost before = self@;
                self.locations[i].location.status = status;
                assert(self@.locations =~= before.with_location(
                    i as int,
                    LocationView { status, ..before.locations[i as int].location },
                ).locations);
                Ok(())
            },
        }
    }

    /// The text of the current status of the location behind `location`;
    /// refused when the status has no text. Failures are reported as errors
    /// of `location_get_statuses`.
    pub fn location_get_status_str(&mut self, location: LocationId) -> (r: SessionResult<String>)
        requires
            old(self).wf(),
        ensures
            final(self).wf(),
            final(self)@ == old(self)@.location(location.uid).0,
            match old(self)@.location(location.uid).1 {
                Err(e) => r == Err::<String, SessionError>(SessionError::LocationGetStatuses(Box::new(e))),
                Ok(i) => {
                    let l = final(self)@.locations[i as int].location;
                    if l.status < l.statuses.len() {
                        r matches Ok(s) && s@ == l.statuses[l.status as int]
                    } else {
                        r == Err::<String, SessionError>(SessionError::LocationGetStatuses(Box::new(SessionError::InvalidStatus)))
                    }
                },
            },
    {
        match self.location(location.uid) {
            Err(e) => Err(SessionError::LocationGetStatuses(Box::new(e))),
            Ok(i) => {
                let l = &self.locations[i].location;
                if l.status < l.statuses.len() {
                    Ok(l.statuses[l.status].clone())
                } else {
                    Err(SessionError::LocationGetStatuses(Box::new(SessionError::InvalidStatus)))
                }
            },
        }
    }

    /// The version of this kind of session.
    pub fn version(&self) -> (r: SessionResult<u64>)
        ensures
            r == Ok::<u64, SessionError>(1),
    {
        Ok(1)
    }

    /// The version of this kind of session, as text.
    pub fn version_str(&self) -> (r: SessionResult<String>)
        ensures
            r matches Ok(s) && s@ == "LocalSession: 1"@,
    {
        Ok(String::from_str("LocalSession: 1"))
    }
}

} // verus!
