use vstd::prelude::*;

use crate::strmap::StrMap;

verus! {

/// Whether `c` has the Unicode White_Space property, which is what
/// `char::is_whitespace` tests.
pub open spec fn is_white_space(c: char) -> bool {
    ||| '\u{9}' <= c <= '\u{d}'
    ||| c == ' '
    ||| c == '\u{85}'
    ||| c == '\u{a0}'
    ||| c == '\u{1680}'
    ||| '\u{2000}' <= c <= '\u{200a}'
    ||| c == '\u{2028}'
    ||| c == '\u{2029}'
    ||| c == '\u{202f}'
    ||| c == '\u{205f}'
    ||| c == '\u{3000}'
}

/// The text without its leading white space.
pub open spec fn trim_start(s: Seq<char>) -> Seq<char>
    decreases s.len(),
{
    if s.len() > 0 && is_white_space(s[0]) {
        trim_start(s.drop_first())
    } else {
        s
    }
}

/// The text without its trailing white space.
pub open spec fn trim_end(s: Seq<char>) -> Seq<char>
    decreases s.len(),
{
    if s.len() > 0 && is_white_space(s.last()) {
        trim_end(s.drop_last())
    } else {
        s
    }
}

/// What `str::trim` returns for a text: the text without leading and
/// trailing white space.
pub open spec fn trimmed(s: Seq<char>) -> Seq<char> {
    trim_end(trim_start(s))
}

/// A text that neither starts nor ends with white space is its own trimmed
/// text.
pub proof fn lemma_trimmed_plain(s: Seq<char>)
    requires
        s.len() > 0,
        !is_white_space(s[0]),
        !is_white_space(s.last()),
    ensures
        trimmed(s) == s,
{
}

/// Calls `str::trim`; its contract claims that the result is the text
/// without leading and trailing white space (see [`trimmed`]).
#[verifier::external_body]
fn trim(s: &str) -> (r: String)
    ensures
        r@ == trimmed(s@),
{
    s.trim().to_string()
}

/// The texts of a list of strings.
pub open spec fn texts(v: Seq<String>) -> Seq<Seq<char>> {
    v.map_values(|s: String| s@)
}

/// A copy of a list of strings.
pub fn clone_strings(v: &Vec<String>) -> (r: Vec<String>)
    ensures
        r@ == v@,
{
    let mut r: Vec<String> = Vec::new();
    let mut i: usize = 0;
    while i < v.len()
        invariant
            i <= v@.len(),
            r@ == v@.take(i as int),
        decreases v@.len() - i,
    {
        r.push(v[i].clone());
        i = i + 1;
        assert(r@ =~= v@.take(i as int));
    }
    assert(v@.take(v@.len() as int) =~= v@);
    r
}

#[derive(Debug)]
/// An enumeration whose fields are named at run time, with at most one of
/// them active.
pub struct CustomEnum {
    pub data: Vec<String>,
    pub active: Option<usize>,
    pub locked: bool,
}

impl CustomEnum {
    /// Whether some field has the same text as `field` once both are trimmed.
    pub open spec fn spec_has(&self, field: Seq<char>) -> bool {
        exists|i: int|
            0 <= i < self.data@.len() && trimmed(#[trigger] self.data@[i]@) == trimmed(field)
    }

    /// The active field, when there is one, is a field.
    pub open spec fn active_in_range(&self) -> bool {
        self.active matches Some(a) ==> a < self.data@.len()
    }

    /// No fields, none active, unlocked.
    pub fn new() -> (e: Self)
        ensures
            e.data@.len() == 0,
            e.active is None,
            !e.locked,
    {
        CustomEnum { data: Vec::new(), active: None, locked: false }
    }

    /// Adds a field, unless one with the same trimmed text is there or the
    /// enum is locked.
    pub fn add(&mut self, field: &str)
        ensures
            final(self).active == old(self).active,
            final(self).locked == old(self).locked,
            !old(self).spec_has(field@) && !old(self).locked ==> texts(final(self).data@) == texts(
                old(self).data@,
            ).push(field@),
            old(self).spec_has(field@) || old(self).locked ==> final(self).data@ == old(self).data@,
    {
        if !self.has(field) && !self.locked {
            self.data.push(field.to_owned());
            assert(texts(self.data@) =~= texts(old(self).data@).push(field@));
        }
    }

    /// Whether some field has the same text as `field` once both are trimmed.
    pub fn has(&self, field: &str) -> (r: bool)
        ensures
            r == self.spec_has(field@),
    {
        let f = trim(field);
        let mut i: usize = 0;
        while i < self.data.len()
            invariant
                i <= self.data@.len(),
                f@ == trimmed(field@),
                forall|j: int| 0 <= j < i ==> trimmed(#[trigger] self.data@[j]@) != trimmed(field@),
            decreases self.data@.len() - i,
        {
            let t = trim(self.data[i].as_str());
            if t == f {
                return true;
            }
            i = i + 1;
        }
        false
    }

    /// A copy of the fields.
    pub fn get_fields(&self) -> (r: Vec<String>)
        ensures
            r@ == self.data@,
    {
        clone_strings(&self.data)
    }

    /// The active field, if one is active.
    pub fn get_active(&self) -> (r: Option<String>)
        requires
            self.active_in_range(),
        ensures
            match self.active {
                Some(a) => r == Some(self.data@[a as int]),
                None => r is None,
            },
    {
        if let Some(active) = self.active {
            return Some(self.data[active].clone());
        }
        None
    }

    /// Makes the field at `active` the active one, or none; refused, with
    /// `false` and no change, when there is no field at that position.
    pub fn set_active(&mut self, active: Option<usize>) -> (r: bool)
        ensures
            final(self).data == old(self).data,
            final(self).locked == old(self).locked,
            match active {
                Some(a) => if a < old(self).data@.len() {
                    r && final(self).active == Some(a)
                } else {
                    !r && final(self).active == old(self).active
                },
                None => r && final(self).active is None,
            },
    {
        if let Some(active) = active {
            if self.data.len() > active {
                self.active = Some(active);
                return true;
            }
            return false;
        }
        self.active = active;
        true
    }

    /// Stops further fields from being added.
    pub fn lock(&mut self)
        ensures
            final(self).locked,
            final(self).data == old(self).data,
            final(self).active == old(self).active,
    {
        self.locked = true;
    }
}

impl PartialEq for CustomEnum {
    fn eq(&self, other: &Self) -> (r: bool) {
        if self.data.len() != other.data.len() {
            return false;
        }
        let mut i: usize = 0;
        while i < self.data.len()
            invariant
                i <= self.data@.len(),
                self.data@.len() == other.data@.len(),
                forall|j: int| 0 <= j < i ==> #[trigger] self.data@[j]@ == other.data@[j]@,
            decreases self.data@.len() - i,
        {
            if self.data[i] != other.data[i] {
                assert(texts(self.data@)[i as int] != texts(other.data@)[i as int]);
                return false;
            }
            i = i + 1;
        }
        assert(texts(self.data@) =~= texts(other.data@));
        true
    }
}

impl vstd::std_specs::cmp::PartialEqSpecImpl for CustomEnum {
    open spec fn obeys_eq_spec() -> bool {
        true
    }

    open spec fn eq_spec(&self, other: &CustomEnum) -> bool {
        texts(self.data@) == texts(other.data@)
    }
}

impl Clone for CustomEnum {
    fn clone(&self) -> (r: Self)
        ensures
            r.data@ == self.data@,
            r.active == self.active,
            !r.locked,
    {
        CustomEnum { data: clone_strings(&self.data), active: self.active, locked: false }
    }
}

impl Default for CustomEnum {
    fn default() -> (e: Self)
        ensures
            e.data@.len() == 0,
            e.active is None,
            !e.locked,
    {
        CustomEnum::new()
    }
}

#[derive(Debug)]
/// Named switches, each on or off.
pub struct AdvanceEnum {
    pub data: StrMap<bool>,
}

impl AdvanceEnum {
    /// No switches.
    pub fn new() -> (e: Self)
        ensures
            e.data.wf(),
            e.data@ == Map::<Seq<char>, bool>::empty(),
    {
        AdvanceEnum { data: StrMap::new() }
    }

    /// Whether the switch `key` is on; a missing switch is off.
    pub fn is_active(&self, key: &str) -> (r: bool)
        requires
            self.data.wf(),
        ensures
            r == (self.data@.contains_key(key@) && self.data@[key@]),
    {
        match self.data.get(key) {
            Some(has) => *has,
            None => false,
        }
    }

    /// Sets the switch `key` and returns its previous state, if it had one.
    pub fn set(&mut self, key: String, value: bool) -> (r: Option<bool>)
        requires
            old(self).data.wf(),
        ensures
            final(self).data.wf(),
            final(self).data@ == old(self).data@.insert(key@, value),
            old(self).data@.contains_key(key@) ==> r == Some(old(self).data@[key@]),
            !old(self).data@.contains_key(key@) ==> r is None,
    {
        self.data.insert(key, value)
    }
}

} // verus!
