use vstd::prelude::*;

use crate::strmap::StrMap;

verus! {

#[derive(Debug)]
/// A plain setting or data value.
///
/// `F` holds the bit pattern of a 64-bit float: two `F` values are equal
/// here when their bits are.
pub enum Atom {
    I(i64),
    U(u64),
    F(u64),
    S(String),
}

/// What an [`Atom`] stands for.
pub enum AtomView {
    I(i64),
    U(u64),
    F(u64),
    S(Seq<char>),
}

/// The kind of an [`Atom`], without its value.
#[derive(Clone, Copy, Debug, PartialEq, Eq, Structural)]
pub enum AtomTag {
    I,
    U,
    F,
    S,
}

impl View for Atom {
    type V = AtomView;

    open spec fn view(&self) -> AtomView {
        match self {
            Atom::I(v) => AtomView::I(*v),
            Atom::U(v) => AtomView::U(*v),
            Atom::F(v) => AtomView::F(*v),
            Atom::S(v) => AtomView::S(v@),
        }
    }
}

impl Atom {
    /// The kind of this value.
    pub open spec fn spec_tag(&self) -> AtomTag {
        match self {
            Atom::I(_) => AtomTag::I,
            Atom::U(_) => AtomTag::U,
            Atom::F(_) => AtomTag::F,
            Atom::S(_) => AtomTag::S,
        }
    }

    /// The kind of this value.
    pub fn to_tag(&self) -> (t: AtomTag)
        ensures
            t == self.spec_tag(),
    {
        match self {
            Atom::I(_) => AtomTag::I,
            Atom::U(_) => AtomTag::U,
            Atom::F(_) => AtomTag::F,
            Atom::S(_) => AtomTag::S,
        }
    }

    /// Whether two values are the same.
    pub fn same(&self, other: &Atom) -> (r: bool)
        ensures
            r == (self@ == other@),
    {
        match (self, other) {
            (Atom::I(a), Atom::I(b)) => *a == *b,
            (Atom::U(a), Atom::U(b)) => *a == *b,
            (Atom::F(a), Atom::F(b)) => *a == *b,
            (Atom::S(a), Atom::S(b)) => *a == *b,
            _ => false,
        }
    }

    /// A copy of this value.
    pub fn duplicate(&self) -> (r: Atom)
        ensures
            r == *self,
    {
        match self {
            Atom::I(v) => Atom::I(*v),
            Atom::U(v) => Atom::U(*v),
            Atom::F(v) => Atom::F(*v),
            Atom::S(v) => Atom::S(v.clone()),
        }
    }
}

impl From<String> for Atom {
    fn from(value: String) -> (a: Self) {
        Atom::S(value)
    }
}

impl vstd::std_specs::convert::FromSpecImpl<String> for Atom {
    open spec fn obeys_from_spec() -> bool {
        true
    }

    open spec fn from_spec(value: String) -> Atom {
        Atom::S(value)
    }
}

impl From<i64> for Atom {
    fn from(value: i64) -> (a: Self) {
        Atom::I(value)
    }
}

impl vstd::std_specs::convert::FromSpecImpl<i64> for Atom {
    open spec fn obeys_from_spec() -> bool {
        true
    }

    open spec fn from_spec(value: i64) -> Atom {
        Atom::I(value)
    }
}

impl From<i32> for Atom {
    fn from(value: i32) -> (a: Self) {
        Atom::I(value as i64)
    }
}

impl vstd::std_specs::convert::FromSpecImpl<i32> for Atom {
    open spec fn obeys_from_spec() -> bool {
        true
    }

    open spec fn from_spec(value: i32) -> Atom {
        Atom::I(value as i64)
    }
}

impl From<u64> for Atom {
    fn from(value: u64) -> (a: Self) {
        Atom::U(value)
    }
}

impl vstd::std_specs::convert::FromSpecImpl<u64> for Atom {
    open spec fn obeys_from_spec() -> bool {
        true
    }

    open spec fn from_spec(value: u64) -> Atom {
        Atom::U(value)
    }
}

/// The name of a value kind, as it appears in messages.
pub open spec fn tag_name(t: AtomTag) -> Seq<char> {
    match t {
        AtomTag::I => "I"@,
        AtomTag::U => "U"@,
        AtomTag::F => "F"@,
        AtomTag::S => "S"@,
    }
}

impl AtomTag {
    /// The name of this kind, as it appears in messages.
    pub fn name(&self) -> (r: &'static str)
        ensures
            r@ == tag_name(*self),
    {
        match self {
            AtomTag::I => "I",
            AtomTag::U => "U",
            AtomTag::F => "F",
            AtomTag::S => "S",
        }
    }
}

#[derive(Debug)]
/// One setting: a value, the value it falls back to, and the values it may
/// take (any value when that list is empty).
pub struct Setting {
    pub value: Atom,
    pub default: Atom,
    pub variants: Vec<Atom>,
    pub description: String,
}

impl Setting {
    /// Whether the value is one of the allowed variants (always, when no
    /// variant is listed).
    pub open spec fn spec_valid(&self) -> bool {
        self.variants@.len() == 0 || exists|i: int|
            0 <= i < self.variants@.len() && #[trigger] self.variants@[i]@ == self.value@
    }

    /// A setting whose value starts at its default.
    pub fn new(default: Atom, variants: Vec<Atom>, desc: String) -> (s: Self)
        ensures
            s.value == default,
            s.default == default,
            s.variants == variants,
            s.description == desc,
    {
        Setting { value: default.duplicate(), default, variants, description: desc }
    }

    /// Whether the value is allowed.
    pub fn validate(&self) -> (r: bool)
        ensures
            r == self.spec_valid(),
    {
        if self.variants.len() == 0 {
            return true;
        }
        let mut i: usize = 0;
        while i < self.variants.len()
            invariant
                i <= self.variants@.len(),
                forall|j: int| 0 <= j < i ==> #[trigger] self.variants@[j]@ != self.value@,
            decreases self.variants@.len() - i,
        {
            if self.variants[i].same(&self.value) {
                return true;
            }
            i = i + 1;
        }
        false
    }

    /// Puts the value back to the default.
    pub fn set_default(&mut self)
        ensures
            final(self).value == old(self).default,
            final(self).default == old(self).default,
            final(self).variants == old(self).variants,
            final(self).description == old(self).description,
    {
        self.value = self.default.duplicate();
    }
}

#[derive(Debug)]
/// Named settings of an element, a location or a module.
pub struct Settings {
    pub settings: StrMap<Setting>,
}

impl Settings {
    /// The setting map keeps its keys distinct.
    pub open spec fn wf(&self) -> bool {
        self.settings.wf()
    }

    /// No settings.
    pub fn new() -> (s: Self)
        ensures
            s.wf(),
            s.settings@ == Map::<Seq<char>, Setting>::empty(),
            s.settings.entries().len() == 0,
    {
        Settings { settings: StrMap::new() }
    }

    /// Adds a setting, or replaces the one of that name.
    pub fn add(&mut self, name: String, setting: Setting)
        requires
            old(self).wf(),
        ensures
            final(self).wf(),
            final(self).settings@ == old(self).settings@.insert(name@, setting),
    {
        self.settings.insert(name, setting);
    }

    /// The setting of that name.
    pub fn get(&self, name: &str) -> (r: Option<&Setting>)
        requires
            self.wf(),
        ensures
            match r {
                Some(s) => self.settings@.contains_key(name@) && *s == self.settings@[name@],
                None => !self.settings@.contains_key(name@),
            },
    {
        self.settings.get(name)
    }

    /// The names of the settings whose value is not allowed, in order.
    pub open spec fn invalid_names(&self) -> Seq<Seq<char>> {
        self.settings.entries().filter(|e: (String, Setting)| !e.1.spec_valid()).map_values(
            |e: (String, Setting)| e.0@,
        )
    }

    /// The names of the settings whose value is not allowed, in order.
    pub fn validate(&self) -> (errors: Vec<String>)
        requires
            self.wf(),
        ensures
            errors@.map_values(|s: String| s@) == self.invalid_names(),
    {
        let mut errors: Vec<String> = Vec::new();
        let entries = self.settings.as_slice();
        let ghost pred = |e: (String, Setting)| !e.1.spec_valid();
        let mut i: usize = 0;
        while i < entries.len()
            invariant
                i <= entries@.len(),
                entries@ == self.settings.entries(),
                pred == (|e: (String, Setting)| !e.1.spec_valid()),
                errors@.map_values(|s: String| s@) == entries@.take(i as int).filter(pred).map_values(
                    |e: (String, Setting)| e.0@,
                ),
            decreases entries@.len() - i,
        {
            assert(entries@.take(i + 1).drop_last() =~= entries@.take(i as int));
            assert(entries@.take(i + 1).last() == entries@[i as int]);
            let valid = entries[i].1.validate();
            assert(pred(entries@[i as int]) == !valid);
            if !valid {
                let ghost before = errors@;
                let name = entries[i].0.clone();
                errors.push(name);
                assert(errors@ == before.push(entries@[i as int].0));
                assert(errors@.map_values(|s: String| s@) =~= before.map_values(|s: String| s@).push(
                    entries@[i as int].0@,
                ));
                assert(entries@.take(i + 1).filter(pred) == entries@.take(i as int).filter(
                    pred,
                ).push(entries@[i as int])) by {
                    reveal_with_fuel(Seq::<_>::filter, 1);
                }
                assert(errors@.map_values(|s: String| s@) =~= entries@.take(i + 1).filter(
                    pred,
                ).map_values(|e: (String, Setting)| e.0@));
            } else {
                assert(entries@.take(i + 1).filter(pred) == entries@.take(i as int).filter(
                    pred,
                )) by {
                    reveal_with_fuel(Seq::<_>::filter, 1);
                }
            }
            i = i + 1;
        }
        proof {
            assert(entries@.take(entries@.len() as int) =~= entries@);
        }
        errors
    }

    /// Puts the setting of that name, if there is one, back to its default.
    pub fn set_default(&mut self, name: &str)
        requires
            old(self).wf(),
        ensures
            final(self).wf(),
            old(self).settings@.contains_key(name@) ==> final(self).settings@ == old(
                self,
            ).settings@.insert(
                name@,
                Setting {
                    value: old(self).settings@[name@].default,
                    ..old(self).settings@[name@]
                },
            ),
            !old(self).settings@.contains_key(name@) ==> final(self).settings@ == old(
                self,
            ).settings@,
    {
        match self.settings.get_mut(name) {
            Some(setting) => setting.set_default(),
            None => {},
        }
    }
}

impl Default for Settings {
    fn default() -> (s: Self)
        ensures
            s.wf(),
            s.settings@ == Map::<Seq<char>, Setting>::empty(),
    {
        Settings::new()
    }
}

/// What a [`Setting`] stands for.
pub struct SettingView {
    pub value: AtomView,
    pub default: AtomView,
    pub variants: Seq<AtomView>,
    pub description: Seq<char>,
}

impl View for Setting {
    type V = SettingView;

    open spec fn view(&self) -> SettingView {
        SettingView {
            value: self.value@,
            default: self.default@,
            variants: self.variants@.map_values(|a: Atom| a@),
            description: self.description@,
        }
    }
}

/// The entries of a map of atoms, as plain values, in order.
pub open spec fn atom_entries(m: StrMap<Atom>) -> Seq<(Seq<char>, AtomView)> {
    m.entries().map_values(|e: (String, Atom)| (e.0@, e.1@))
}

impl Settings {
    /// The settings, as plain values, in order.
    pub open spec fn entries_view(&self) -> Seq<(Seq<char>, SettingView)> {
        self.settings.entries().map_values(|e: (String, Setting)| (e.0@, e.1@))
    }
}

} // verus!
