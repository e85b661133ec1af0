use vstd::prelude::*;

use crate::error::RawLibraryError;

verus! {

/// How many symbols a module library has to export.
pub const SYMBOL_COUNT: usize = 13;

/// The error for a library that lacks the `i`-th required symbol.
pub open spec fn symbol_error(i: int) -> RawLibraryError {
    if i == 0 {
        RawLibraryError::DontHaveSymbolName
    } else if i == 1 {
        RawLibraryError::DontHaveSymbolDesc
    } else if i == 2 {
        RawLibraryError::DontHaveSymbolId
    } else if i == 3 {
        RawLibraryError::DontHaveSymbolVersion
    } else if i == 4 {
        RawLibraryError::DontHaveSymbolSupportedVersions
    } else if i == 5 {
        RawLibraryError::DontHaveSymbolPollElement
    } else if i == 6 {
        RawLibraryError::DontHaveSymbolPollLocation
    } else if i == 7 {
        RawLibraryError::DontHaveSymbolElementOnEvent
    } else if i == 8 {
        RawLibraryError::DontHaveSymbolLocationOnEvent
    } else if i == 9 {
        RawLibraryError::DontHaveSymbolDefaultElementSettings
    } else if i == 10 {
        RawLibraryError::DontHaveSymbolDefaultLocationSettings
    } else if i == 11 {
        RawLibraryError::DontHaveSymbolSupportsProtocols
    } else {
        RawLibraryError::DontHaveSymbolSupportsExtensions
    }
}

/// The names of the symbols a module library has to export, in the order
/// they are looked up.
pub fn required_symbols() -> (r: Vec<&'static str>)
    ensures
        r@.len() == SYMBOL_COUNT,
        r@ == seq![
            "name",
            "desc",
            "id",
            "version",
            "supported_versions",
            "poll_element",
            "poll_location",
            "element_on_event",
            "location_on_event",
            "default_element_settings",
            "default_location_settings",
            "supports_protocols",
            "supports_extensions",
        ],
{
    let r = vec![
        "name",
        "desc",
        "id",
        "version",
        "supported_versions",
        "poll_element",
        "poll_location",
        "element_on_event",
        "location_on_event",
        "default_element_settings",
        "default_location_settings",
        "supports_protocols",
        "supports_extensions",
    ];
    r
}

/// The error for a library that lacks the `i`-th required symbol.
pub fn missing_symbol_error(i: usize) -> (e: RawLibraryError)
    ensures
        e == symbol_error(i as int),
{
    match i {
        0 => RawLibraryError::DontHaveSymbolName,
        1 => RawLibraryError::DontHaveSymbolDesc,
        2 => RawLibraryError::DontHaveSymbolId,
        3 => RawLibraryError::DontHaveSymbolVersion,
        4 => RawLibraryError::DontHaveSymbolSupportedVersions,
        5 => RawLibraryError::DontHaveSymbolPollElement,
        6 => RawLibraryError::DontHaveSymbolPollLocation,
        7 => RawLibraryError::DontHaveSymbolElementOnEvent,
        8 => RawLibraryError::DontHaveSymbolLocationOnEvent,
        9 => RawLibraryError::DontHaveSymbolDefaultElementSettings,
        10 => RawLibraryError::DontHaveSymbolDefaultLocationSettings,
        11 => RawLibraryError::DontHaveSymbolSupportsProtocols,
        _ => RawLibraryError::DontHaveSymbolSupportsExtensions,
    }
}

/// Whether a module library can be used: `loaded` tells whether it could be
/// opened, and `found[i]` whether it exports the `i`-th required symbol. A
/// library that could not be opened is not found; else the first symbol
/// it lacks, in lookup order, gives the error.
pub fn check_library(loaded: bool, found: &[bool]) -> (r: Result<(), RawLibraryError>)
    requires
        loaded ==> found@.len() == SYMBOL_COUNT,
    ensures
        !loaded ==> r == Err::<(), RawLibraryError>(RawLibraryError::NotFound),
        loaded ==> (r is Ok <==> forall|i: int| 0 <= i < SYMBOL_COUNT ==> #[trigger] found@[i]),
        loaded ==> (r matches Err(e) ==> exists|i: int|
            0 <= i < SYMBOL_COUNT && !found@[i] && e == symbol_error(i) && forall|j: int|
                0 <= j < i ==> #[trigger] found@[j]),
{
    if !loaded {
        return Err(RawLibraryError::NotFound);
    }
    let mut i: usize = 0;
    while i < found.len()
        invariant
            loaded,
            i <= found@.len(),
            found@.len() == SYMBOL_COUNT,
            forall|j: int| 0 <= j < i ==> #[trigger] found@[j],
        decreases found@.len() - i,
    {
        if !found[i] {
            return Err(missing_symbol_error(i));
        }
        i = i + 1;
    }
    Ok(())
}

/// What follows the last `.` of a name; the whole name when it has none.
pub open spec fn after_last_dot(s: Seq<char>) -> Seq<char>
    decreases s.len(),
{
    if s.len() == 0 {
        s
    } else if s.last() == '.' {
        Seq::empty()
    } else {
        after_last_dot(s.drop_last()).push(s.last())
    }
}

/// Whether what follows the last `.` of `path` is `extension`: how a
/// module library is told apart among the files of a directory.
pub fn has_extension(path: &str, extension: &str) -> (r: bool)
    ensures
        r == (after_last_dot(path@) == extension@),
{
    let n = path.unicode_len();
    let mut start: usize = 0;
    let mut i: usize = 0;
    while i < n
        invariant
            n == path@.len(),
            i <= n,
            start <= i,
            after_last_dot(path@.take(i as int)) == path@.subrange(start as int, i as int),
        decreases n - i,
    {
        let c = path.get_char(i);
        assert(path@.take(i + 1).drop_last() =~= path@.take(i as int));
        assert(path@.take(i + 1).last() == c);
        if c == '.' {
            start = i + 1;
            assert(path@.subrange(start as int, i + 1) =~= Seq::<char>::empty());
        } else {
            assert(path@.subrange(start as int, i + 1) =~= path@.subrange(start as int, i as int).push(c));
        }
        i = i + 1;
    }
    assert(path@.take(n as int) =~= path@);
    let m = extension.unicode_len();
    if n - start != m {
        return false;
    }
    let mut j: usize = 0;
    while j < m
        invariant
            n == path@.len(),
            m == extension@.len(),
            start + m == n,
            after_last_dot(path@) == path@.subrange(start as int, n as int),
            j <= m,
            forall|k: int| 0 <= k < j ==> path@[start + k] == extension@[k],
        decreases m - j,
    {
        if path.get_char(start + j) != extension.get_char(j) {
            assert(path@.subrange(start as int, n as int)[j as int] != extension@[j as int]);
            return false;
        }
        j = j + 1;
    }
    assert(path@.subrange(start as int, n as int) =~= extension@);
    true
}

} // verus!
