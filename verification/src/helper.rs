use vstd::prelude::*;

use crate::types::UID;

verus! {

/// The handle of an element: its UID in the session.
#[derive(Clone, Copy, Debug, PartialEq, Eq, Structural)]
pub struct ElementId {
    pub uid: UID,
}

/// The handle of a location: its UID in the session.
#[derive(Clone, Copy, Debug, PartialEq, Eq, Structural)]
pub struct LocationId {
    pub uid: UID,
}

/// The handle of a module: its UID in the session.
#[derive(Clone, Copy, Debug, PartialEq, Eq, Structural)]
pub struct ModuleId {
    pub uid: UID,
}

} // verus!
