//! Core data structures of the MuzzMan download manager: per-node storage,
//! typed key/value data, settings, enums, event logs and the local session
//! that keeps the tree of locations, elements and modules.

pub mod storage;
pub mod strmap;
pub mod settings;
pub mod data;
pub mod enums;
pub mod events;
pub mod error;
pub mod types;
pub mod helper;
pub mod element;
pub mod location;
pub mod module;
pub mod session;
pub mod session_common;
pub mod session_element;
pub mod session_location;
pub mod laws;
pub mod container_laws;
pub mod raw_module;

pub use storage::Storage;

