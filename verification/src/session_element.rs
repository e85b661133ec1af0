use vstd::prelude::*;

use crate::element::ElementView;
use crate::error::{SessionError, SessionResult};
use crate::helper::{ElementId, LocationId, ModuleId};
use crate::session::{copy_indices, joins, ElementNode, LocalSession, SessionView, UIDPath, UIDPathView};

verus! {

/// What has to happen to the worker of an element after a change of its
/// enabled state.
#[derive(Clone, Copy, Debug, PartialEq, Eq, Structural)]
pub enum WorkerAction {
    /// Nothing changed.
    Nothing,
    /// The element was disabled: its worker has to be taken and stopped.
    Stop,
    /// The element was enabled: a worker has to be started for it.
    Start,
}

impl SessionView {
    /// The session with a field of the element at `i` replaced.
    pub open spec fn with_element(self, i: int, e: ElementView) -> SessionView {
        SessionView {
            elements: self.elements.update(i, ElementNode { element: e, ..self.elements[i] }),
            ..self
        }
    }

    /// What creating an element named `name` in the location behind
    /// `location` does: the element goes at the end of that location, whose
    /// path must be a location path; `epath` is where a new element is
    /// stored.
    pub open spec fn create_element_in(self, location: LocationId, name: Seq<char>, epath: Seq<char>) -> (
        SessionView,
        SessionResult<ElementId>,
    ) {
        let found = self.location(location.uid);
        let s1 = found.0;
        match found.1 {
            Err(e) => (s1, Err(SessionError::CreateElement(Box::new(e)))),
            Ok(n) => match s1.locations[n as int].path {
                UIDPathView::Location(p) => {
                    let index = s1.locations[n as int].location.elements.len() as usize;
                    let created = s1.create_element(name, p.push(index), epath);
                    (created.0, Ok(created.0.elements[created.1].element.id))
                },
                _ => (s1, Err(SessionError::CreateElement(Box::new(SessionError::UIDIsNotALocation)))),
            },
        }
    }
}

impl LocalSession {
    /// Creates an element named `name` at the end of the location behind
    /// `location`; see [`SessionView::create_element_in`].
    pub fn create_element(&mut self, location: LocationId, name: String) -> (r: SessionResult<ElementId>)
        requires
            old(self).wf(),
        ensures
            final(self).wf(),
            ({
                let expect = old(self)@.create_element_in(
                    location,
                    name@,
                    final(self)@.elements.last().element.path,
                );
                final(self)@ == expect.0 && r == expect.1
            }),
            ({
                let found = old(self)@.location(location.uid);
                r is Ok && final(self)@.elements.len() > old(self)@.elements.len() ==> (found.1 matches Ok(n)
                    && found.0.locations[n as int].path matches UIDPathView::Location(p) && joins(
                    final(self)@.locations[found.0.create_location("Need an element"@, p).1].location.path,
                    name@,
                    final(self)@.elements.last().element.path,
                ))
            }),
    {
        let n = match self.location(location.uid) {
            Err(e) => {
                return Err(SessionError::CreateElement(Box::new(e)));
            },
            Ok(n) => n,
        };
        let mut path = match &self.locations[n].path {
            UIDPath::Location(p) => copy_indices(p.as_slice()),
            _ => {
                return Err(SessionError::CreateElement(Box::new(SessionError::UIDIsNotALocation)));
            },
        };
        let index = self.locations[n].location.elements.len();
        let ghost prefix = path@;
        path.push(index);
        assert(path@.drop_last() =~= prefix);
        let ghost s1 = self@;
        let e = self.create_element_at(name, path.as_slice());
        proof {
            s1.lemma_chain_keeps("Need an element"@, path@.drop_last(), Seq::empty(), 0);
            s1.lemma_create_element_epath(name@, path@, self@.elements[e as int].element.path, self@.elements.last().element.path);
        }
        Ok(self.elements[e].element.id)
    }
}

impl LocalSession {
    /// The path of the element behind `element`: its location's path
    /// followed by its index there. A failure is reported as an error of
    /// `create_element`.
    pub fn element_path(&mut self, element: ElementId) -> (r: SessionResult<Vec<usize>>)
        requires
            old(self).wf(),
        ensures
            final(self).wf(),
            final(self)@ == old(self)@.element(element.uid).0,
            match old(self)@.element(element.uid).1 {
                Err(e) => r == Err::<Vec<usize>, SessionError>(SessionError::CreateElement(Box::new(e))),
                Ok(i) => match final(self)@.elements[i as int].path {
                    UIDPathView::Element(p, index) => r matches Ok(v) && v@ == p.push(index),
                    _ => r == Err::<Vec<usize>, SessionError>(
                        SessionError::CreateElement(Box::new(SessionError::UIDIsNotAElement)),
                    ),
                },
            },
    {
        let i = match self.element(element.uid) {
            Err(e) => {
                return Err(SessionError::CreateElement(Box::new(e)));
            },
            Ok(i) => i,
        };
        match &self.elements[i].path {
            UIDPath::Element(p, index) => {
                let mut v = copy_indices(p.as_slice());
                v.push(*index);
                Ok(v)
            },
            _ => Err(SessionError::CreateElement(Box::new(SessionError::UIDIsNotAElement))),
        }
    }

    /// The location that holds the element behind `element`.
    pub fn element_get_parent(&mut self, element: ElementId) -> (r: SessionResult<LocationId>)
        requires
            old(self).wf(),
        ensures
            final(self).wf(),
            final(self)@ == old(self)@.element(element.uid).0,
            match old(self)@.element(element.uid).1 {
                Err(e) => r == Err::<LocationId, SessionError>(SessionError::ElementGetParent(Box::new(e))),
                Ok(i) => r == Ok::<LocationId, SessionError>(final(self)@.elements[i as int].element.parent),
            },
    {
        match self.element(element.uid) {
            Err(e) => Err(SessionError::ElementGetParent(Box::new(e))),
            Ok(i) => Ok(self.elements[i].element.parent),
        }
    }

    /// Whether the element behind `element` is enabled.
    pub fn element_get_enabled(&mut self, element: ElementId) -> (r: SessionResult<bool>)
        requires
            old(self).wf(),
        ensures
            final(self).wf(),
            final(self)@ == old(self)@.element(element.uid).0,
            match old(self)@.element(element.uid).1 {
                Err(e) => r == Err::<bool, SessionError>(SessionError::ElementGetEnabled(Box::new(e))),
                Ok(i) => r == Ok::<bool, SessionError>(final(self)@.elements[i as int].element.enabled),
            },
    {
        match self.element(element.uid) {
            Err(e) => Err(SessionError::ElementGetEnabled(Box::new(e))),
            Ok(i) => Ok(self.elements[i].element.enabled),
        }
    }

    /// Enables or disables the element behind `element`. Enabling needs a
    /// module that can be found; the element is marked enabled before its
    /// settings are checked, and stays so when they are refused. The result
    /// says what has to happen to the element's worker.
    pub fn element_set_enabled(&mut self, element: ElementId, enabled: bool) -> (r: SessionResult<WorkerAction>)
        requires
            old(self).wf(),
        ensures
            final(self).wf(),
            ({
                let found = old(self)@.element(element.uid);
                let s1 = found.0;
                match found.1 {
                    Err(e) => final(self)@ == s1 && r == Err::<WorkerAction, SessionError>(
                        SessionError::ElementSetEnabled(Box::new(e)),
                    ),
                    Ok(i) => {
                        let el = s1.elements[i as int].element;
                        if el.enabled == enabled {
                            final(self)@ == s1 && r == Ok::<WorkerAction, SessionError>(WorkerAction::Nothing)
                        } else if !enabled {
                            final(self)@ == s1.with_element(i as int, ElementView { enabled: false, ..el })
                                && r == Ok::<WorkerAction, SessionError>(WorkerAction::Stop)
                        } else {
                            match el.module {
                                None => final(self)@ == s1 && r == Err::<WorkerAction, SessionError>(
                                    SessionError::ElementSetEnabled(Box::new(SessionError::NoModule)),
                                ),
                                Some(m) => {
                                    let fm = s1.module(m.uid);
                                    match fm.1 {
                                        Err(e) => final(self)@ == fm.0 && r == Err::<WorkerAction, SessionError>(
                                            SessionError::ElementSetEnabled(Box::new(e)),
                                        ),
                                        Ok(_) => {
                                            let el2 = fm.0.elements[i as int].element;
                                            let invalid = final(self).elements@[i as int].element.settings.invalid_names();
                                            &&& final(self)@ == fm.0.with_element(i as int, ElementView { enabled: true, ..el2 })
                                            &&& invalid.len() == 0 ==> r == Ok::<WorkerAction, SessionError>(WorkerAction::Start)
                                            &&& invalid.len() > 0 ==> (r matches Err(SessionError::ElementSetEnabled(b))
                                                && (*b matches SessionError::InvalidSettings(v)
                                                && v@.map_values(|s: String| s@) == invalid))
                                        },
                                    }
                                },
                            }
                        }
                    },
                }
            }),
    {
        let i = match self.element(element.uid) {
            Err(e) => {
                return Err(SessionError::ElementSetEnabled(Box::new(e)));
            },
            Ok(i) => i,
        };
        if self.elements[i].element.enabled == enabled {
            return Ok(WorkerAction::Nothing);
        }
        if !enabled {
            let ghost before = self@;
            self.elements[i].element.enabled = false;
            assert(self@.elements =~= before.with_element(
                i as int,
                ElementView { enabled: false, ..before.elements[i as int].element },
            ).elements);
            return Ok(WorkerAction::Stop);
        }
        let module_id = match self.elements[i].element.module {
            None => {
                return Err(SessionError::ElementSetEnabled(Box::new(SessionError::NoModule)));
            },
            Some(m) => m,
        };
        match self.module(module_id.uid) {
            Err(e) => {
                return Err(SessionError::ElementSetEnabled(Box::new(e)));
            },
            Ok(_) => {},
        }
        let ghost before = self@;
        self.elements[i].element.enabled = true;
        assert(self@.elements =~= before.with_element(
            i as int,
            ElementView { enabled: true, ..before.elements[i as int].element },
        ).elements);
        let errors = self.elements[i].element.settings.validate();
        if errors.len() > 0 {
            return Err(SessionError::ElementSetEnabled(Box::new(SessionError::InvalidSettings(errors))));
        }
        Ok(WorkerAction::Start)
    }

    /// The URL of the element behind `element`.
    pub fn element_get_url(&mut self, element: ElementId) -> (r: SessionResult<String>)
        requires
            old(self).wf(),
        ensures
            final(self).wf(),
            final(self)@ == old(self)@.element(element.uid).0,
            match old(self)@.element(element.uid).1 {
                Err(e) => r == Err::<String, SessionError>(SessionError::ElementGetUrl(Box::new(e))),
                Ok(i) => r matches Ok(u) && u@ == final(self)@.elements[i as int].element.url,
            },
    {
        match self.element(element.uid) {
            Err(e) => Err(SessionError::ElementGetUrl(Box::new(e))),
            Ok(i) => Ok(self.elements[i].element.url.clone()),
        }
    }

    /// Sets the URL of the element behind `element`.
    pub fn element_set_url(&mut self, element: ElementId, url: String) -> (r: SessionResult<()>)
        requires
            old(self).wf(),
        ensures
            final(self).wf(),
            ({
                let found = old(self)@.element(element.uid);
                match found.1 {
                    Err(e) => final(self)@ == found.0 && r == Err::<(), SessionError>(
                        SessionError::ElementSetUrl(Box::new(e)),
                    ),
                    Ok(i) => final(self)@ == found.0.with_element(
                        i as int,
                        ElementView { url: url@, ..found.0.elements[i as int].element },
                    ) && r == Ok::<(), SessionError>(()),
                }
            }),
    {
        match self.element(element.uid) {
            Err(e) => Err(SessionError::ElementSetUrl(Box::new(e))),
            Ok(i) => {
                let ghost before = self@;
                self.elements[i].element.url = url;
                assert(self@.elements =~= before.with_element(
                    i as int,
                    ElementView { url: url@, ..before.elements[i as int].element },
                ).elements);
                Ok(())
            },
        }
    }

    /// Sets the module of the element behind `element`; a failed lookup is
    /// returned as it is.
    pub fn element_set_module(&mut self, element: ElementId, module_id: Option<ModuleId>) -> (r: SessionResult<()>)
        requires
            old(self).wf(),
        ensures
            final(self).wf(),
            ({
                let found = old(self)@.element(element.uid);
                match found.1 {
                    Err(e) => final(self)@ == found.0 && r == Err::<(), SessionError>(e),
                    Ok(i) => final(self)@ == found.0.with_element(
                        i as int,
                        ElementView { module: module_id, ..found.0.elements[i as int].element },
                    ) && r == Ok::<(), SessionError>(()),
                }
            }),
    {
        let i = self.element(element.uid)?;
        let ghost before = self@;
        self.elements[i].element.module = module_id;
        assert(self@.elements =~= before.with_element(
            i as int,
            ElementView { module: module_id, ..before.elements[i as int].element },
        ).elements);
        Ok(())
    }
}

} // verus!
