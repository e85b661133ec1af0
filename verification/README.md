# muzzman_lib

The core of the MuzzMan download manager: the records of elements (single
downloads), locations (folders of elements and of other locations) and
modules (the plug-ins that do the work), the typed data and settings they
carry, and `LocalSession`, the in-process session that keeps the tree of
locations and hands out a UID for every node.

## Layout

- `src/` — the library, verified with Verus. Every public function states
  its result over a mathematical model (`SessionView` for the session,
  `Map`s for the keyed stores, `Seq`s for buffers and lists).
  - `session.rs`: the session model, lookups by UID, and the creation of
    locations and elements along index paths.
  - `session_common.rs`, `session_element.rs`, `session_location.rs`: the
    operations on nodes. Where a module has to be told of an event, the
    operation returns the call to make; the caller makes it and hands the
    answer back (`notify_module_result`, `write_module_result`,
    `finish_emit`).
  - `laws.rs`, `container_laws.rs`: properties that relate several
    operations (a lookup finds what was created, a rename is read back,
    UIDs are never reused, ...), proved as proof functions.
  - `data.rs`, `settings.rs`, `enums.rs`, `strmap.rs`, `storage.rs`,
    `events.rs`: the value stores.
  - `location.rs`: the location record and the byte encoding of a server
    location, written and read through `bytes_kman`.
  - `raw_module.rs`: which symbols a module library must export, and the
    error for the first one it lacks.
- `app/` — the process side, not verified: loading module libraries with
  `libloading`, the session shared between threads behind a lock (which
  makes the module calls the library asks for), handles that carry their
  session, file streams, and the logger.
- `tests/` — tests of the library on concrete values.
