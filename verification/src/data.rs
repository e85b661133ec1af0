use vstd::prelude::*;

use crate::settings::{tag_name, Atom, AtomTag, AtomView};
use crate::strmap::{keys_of, StrMap};

verus! {

#[derive(Debug)]
/// An in-memory byte buffer with a cursor.
pub struct Bytes {
    pub data: Vec<u8>,
    pub coursor: usize,
    pub fast_invert: bool,
}

#[derive(Debug)]
/// Where a seek starts from.
pub enum SeekFrom {
    Start(u64),
    End(i64),
    Current(i64),
}

/// One byte written at the cursor: at the end it is appended and the cursor
/// stays; elsewhere it overwrites the byte under the cursor, which advances.
pub open spec fn write_step(data: Seq<u8>, cursor: int, b: u8) -> (Seq<u8>, int) {
    if data.len() == cursor {
        (data.push(b), cursor)
    } else {
        (data.update(cursor, b), cursor + 1)
    }
}

/// The buffer and cursor after writing `buf` byte by byte.
pub open spec fn written(data: Seq<u8>, cursor: int, buf: Seq<u8>) -> (Seq<u8>, int)
    decreases buf.len(),
{
    if buf.len() == 0 {
        (data, cursor)
    } else {
        let prev = written(data, cursor, buf.drop_last());
        write_step(prev.0, prev.1, buf.last())
    }
}

/// How many bytes a read into a buffer of `want` bytes takes: none when the
/// cursor is at the start or at (or past) the end, else as many as fit.
pub open spec fn read_count(len: int, cursor: int, want: int) -> int {
    if cursor == 0 || cursor >= len {
        0
    } else if want < len - cursor {
        want
    } else {
        len - cursor
    }
}

/// The byte that the `i`-th step of a read takes.
pub open spec fn read_byte(data: Seq<u8>, cursor: int, fast_invert: bool, i: int) -> u8 {
    if fast_invert {
        data[data.len() - (cursor + i)]
    } else {
        data[cursor + i]
    }
}

/// The error code of a seek past the end from the start or the cursor.
pub const SEEK_PAST_END: i32 = 25;

/// The error code of a seek past the end from the end.
pub const SEEK_PAST_END_FROM_END: i32 = 24;

impl Bytes {
    /// The cursor is not past the end.
    pub open spec fn cursor_in_range(&self) -> bool {
        self.coursor <= self.data@.len()
    }

    /// An empty buffer with the cursor at the start.
    pub fn new() -> (b: Self)
        ensures
            b.data@ == Seq::<u8>::empty(),
            b.coursor == 0,
            !b.fast_invert,
    {
        Bytes { data: Vec::new(), coursor: 0, fast_invert: false }
    }

    /// A buffer holding a copy of `value`, with the cursor at its end.
    pub fn from_slice(value: &[u8]) -> (b: Self)
        ensures
            b.data@ == value@,
            b.coursor == value@.len(),
            !b.fast_invert,
    {
        let mut data: Vec<u8> = Vec::new();
        let mut i: usize = 0;
        while i < value.len()
            invariant
                i <= value@.len(),
                data@ == value@.take(i as int),
            decreases value@.len() - i,
        {
            data.push(value[i]);
            i = i + 1;
            assert(data@ =~= value@.take(i as int));
        }
        assert(value@.take(value@.len() as int) =~= value@);
        Bytes { coursor: value.len(), data, fast_invert: false }
    }

    /// Writes `buf` at the cursor, byte by byte, and returns its length.
    pub fn write(&mut self, buf: &[u8]) -> (n: usize)
        requires
            old(self).cursor_in_range(),
        ensures
            n == buf@.len(),
            (final(self).data@, final(self).coursor as int) == written(
                old(self).data@,
                old(self).coursor as int,
                buf@,
            ),
            final(self).cursor_in_range(),
            final(self).fast_invert == old(self).fast_invert,
    {
        let len = buf.len();
        let mut i: usize = 0;
        while i < buf.len()
            invariant
                i <= buf@.len(),
                self.cursor_in_range(),
                self.fast_invert == old(self).fast_invert,
                (self.data@, self.coursor as int) == written(
                    old(self).data@,
                    old(self).coursor as int,
                    buf@.take(i as int),
                ),
            decreases buf@.len() - i,
        {
            let b = buf[i];
            assert(buf@.take(i + 1).drop_last() =~= buf@.take(i as int));
            if self.data.len() == self.coursor {
                self.data.push(b);
            } else {
                self.data.set(self.coursor, b);
                self.coursor = self.coursor + 1;
            }
            i = i + 1;
        }
        assert(buf@.take(buf@.len() as int) =~= buf@);
        len
    }

    /// Nothing to flush.
    pub fn flush(&mut self)
        ensures
            *final(self) == *old(self),
    {
    }

    /// Reads from the cursor into `buf`, advancing the cursor; returns how
    /// many bytes were read.
    pub fn read(&mut self, buf: &mut [u8]) -> (n: usize)
        requires
            old(buf)@.len() == 0 || old(self).cursor_in_range(),
        ensures
            n == read_count(old(self).data@.len() as int, old(self).coursor as int, old(buf)@.len() as int),
            final(self).coursor == old(self).coursor + n,
            final(self).data@ == old(self).data@,
            final(self).fast_invert == old(self).fast_invert,
            final(buf)@.len() == old(buf)@.len(),
            forall|i: int|
                0 <= i < n ==> #[trigger] final(buf)@[i] == read_byte(
                    old(self).data@,
                    old(self).coursor as int,
                    old(self).fast_invert,
                    i,
                ),
            forall|i: int| n <= i < old(buf)@.len() ==> #[trigger] final(buf)@[i] == old(buf)@[i],
    {
        let ghost c0 = self.coursor as int;
        let ghost len = self.data@.len() as int;
        let mut readed: usize = 0;
        let mut i: usize = 0;
        while i < buf.len()
            invariant
                i <= buf@.len(),
                readed == i,
                self.coursor == c0 + i,
                self.data@ == old(self).data@,
                self.fast_invert == old(self).fast_invert,
                len == self.data@.len(),
                c0 == old(self).coursor,
                buf@.len() == old(buf)@.len(),
                old(buf)@.len() == 0 || c0 <= len,
                i > 0 ==> 0 < c0 && self.coursor <= len,
                forall|j: int|
                    0 <= j < i ==> #[trigger] buf@[j] == read_byte(
                        self.data@,
                        c0,
                        self.fast_invert,
                        j,
                    ),
                forall|j: int| i <= j < buf@.len() ==> #[trigger] buf@[j] == old(buf)@[j],
            ensures
                readed == read_count(len, c0, buf@.len() as int),
                self.coursor == c0 + readed,
                self.data@ == old(self).data@,
                self.fast_invert == old(self).fast_invert,
                buf@.len() == old(buf)@.len(),
                forall|j: int|
                    0 <= j < readed ==> #[trigger] buf@[j] == read_byte(
                        self.data@,
                        c0,
                        self.fast_invert,
                        j,
                    ),
                forall|j: int| readed <= j < buf@.len() ==> #[trigger] buf@[j] == old(buf)@[j],
            decreases buf@.len() - i,
        {
            if self.coursor == self.data.len() {
                break;
            }
            if self.coursor == 0 {
                break;
            }
            let b = if self.fast_invert {
                self.data[self.data.len() - self.coursor]
            } else {
                self.data[self.coursor]
            };
            buf[i] = b;
            readed = readed + 1;
            self.coursor = self.coursor + 1;
            i = i + 1;
            if self.coursor == self.data.len() {
                break;
            }
            if self.coursor == 0 {
                break;
            }
        }
        readed
    }

    /// Moves the cursor; seeking to or past the end is refused with an error
    /// code and leaves the cursor where it was.
    pub fn seek(&mut self, pos: SeekFrom) -> (r: Result<u64, i32>)
        requires
            match pos {
                SeekFrom::Start(_) => true,
                SeekFrom::End(p) => old(self).data@.len() <= i64::MAX && i64::MIN <= old(
                    self,
                ).data@.len() + p <= i64::MAX,
                SeekFrom::Current(p) => old(self).data@.len() <= i64::MAX && i64::MIN <= (old(
                    self,
                ).coursor as i64) + p <= i64::MAX,
            },
        ensures
            final(self).data@ == old(self).data@,
            final(self).fast_invert == old(self).fast_invert,
            match pos {
                SeekFrom::Start(p) => if p >= old(self).data@.len() {
                    r == Err::<u64, i32>(SEEK_PAST_END) && final(self).coursor == old(self).coursor
                } else {
                    r == Ok::<u64, i32>(p) && final(self).coursor == p
                },
                SeekFrom::End(p) => if old(self).data@.len() + p >= old(self).data@.len() {
                    r == Err::<u64, i32>(SEEK_PAST_END_FROM_END) && final(self).coursor == old(
                        self,
                    ).coursor
                } else {
                    r == Ok::<u64, i32>((old(self).data@.len() + p) as u64) && final(self).coursor
                        == (old(self).data@.len() + p) as usize
                },
                SeekFrom::Current(p) => if (old(self).coursor as i64) + p >= old(self).data@.len() {
                    r == Err::<u64, i32>(SEEK_PAST_END) && final(self).coursor == old(self).coursor
                } else {
                    r == Ok::<u64, i32>(((old(self).coursor as i64) + p) as u64)
                        && final(self).coursor == ((old(self).coursor as i64) + p) as usize
                },
            },
    {
        match pos {
            SeekFrom::Start(pos) => {
                let res: u64 = pos;
                if res >= self.data.len() as u64 {
                    Err(SEEK_PAST_END)
                } else {
                    self.coursor = res as usize;
                    Ok(res)
                }
            },
            SeekFrom::End(pos) => {
                let res: i64 = (self.data.len() as i64) + pos;
                if res >= self.data.len() as i64 {
                    Err(SEEK_PAST_END_FROM_END)
                } else {
                    self.coursor = res as usize;
                    Ok(res as u64)
                }
            },
            SeekFrom::Current(pos) => {
                let res: i64 = pos + self.coursor as i64;
                if res >= self.data.len() as i64 {
                    Err(SEEK_PAST_END)
                } else {
                    self.coursor = res as usize;
                    Ok(res as u64)
                }
            },
        }
    }
}

impl From<Vec<u8>> for Bytes {
    /// A buffer holding `value`, with the cursor at its end.
    fn from(value: Vec<u8>) -> (b: Self) {
        let coursor = value.len();
        Bytes { coursor, data: value, fast_invert: false }
    }
}

impl vstd::std_specs::convert::FromSpecImpl<Vec<u8>> for Bytes {
    open spec fn obeys_from_spec() -> bool {
        true
    }

    open spec fn from_spec(value: Vec<u8>) -> Bytes {
        Bytes { coursor: value@.len() as usize, data: value, fast_invert: false }
    }
}

#[derive(Debug)]
/// A check that a value should pass; kept with the value, not yet applied.
pub struct TypeValidation {
    pub desc: String,
}

#[derive(Debug)]
/// One entry of [`Data`]: the value, the kinds it may have, its default and
/// a description.
pub struct Value {
    pub value: Atom,
    pub should_be: Vec<AtomTag>,
    pub validators: Vec<TypeValidation>,
    pub default: Atom,
    pub desc: String,
    pub editabile: bool,
}

impl Value {
    /// Whether the value has one of the kinds it may have.
    pub open spec fn has_correct_type(&self) -> bool {
        self.should_be@.contains(self.value.spec_tag())
    }

    /// A value that starts at, and falls back to, `value`.
    pub fn new(
        value: Atom,
        should_be: Vec<AtomTag>,
        validators: Vec<TypeValidation>,
        editabile: bool,
        desc: String,
    ) -> (v: Self)
        ensures
            v.value == value,
            v.default == value,
            v.should_be == should_be,
            v.validators == validators,
            v.editabile == editabile,
            v.desc == desc,
    {
        Value { value: value.duplicate(), default: value, should_be, validators, desc, editabile }
    }

    /// A value that may only have the kind of `value`, editable, without
    /// description.
    pub fn from_atom(value: Atom) -> (v: Self)
        ensures
            v.value == value,
            v.default == value,
            v.should_be@ == seq![value.spec_tag()],
            v.validators@.len() == 0,
            v.desc@ == Seq::<char>::empty(),
            v.editabile,
    {
        let mut should_be: Vec<AtomTag> = Vec::new();
        should_be.push(value.to_tag());
        Value {
            value: value.duplicate(),
            should_be,
            validators: Vec::new(),
            default: value,
            desc: String::new(),
            editabile: true,
        }
    }
}

/// The kinds, by name, separated by commas.
pub open spec fn join_tags(tags: Seq<AtomTag>) -> Seq<char>
    decreases tags.len(),
{
    if tags.len() == 0 {
        Seq::empty()
    } else if tags.len() == 1 {
        tag_name(tags[0])
    } else {
        join_tags(tags.drop_last()) + ","@ + tag_name(tags.last())
    }
}

/// The message for a value under `key` that has none of the kinds `tags`.
pub open spec fn type_error(key: Seq<char>, tags: Seq<AtomTag>) -> Seq<char> {
    "`"@ + key + "` should be: "@ + join_tags(tags)
}

#[derive(Debug)]
/// The entries of a data map, in order, that a module reads and the user
/// may change.
pub struct Data {
    pub data: StrMap<Value>,
    pub locked: bool,
}

impl Data {
    /// The entry map keeps its keys distinct.
    pub open spec fn wf(&self) -> bool {
        self.data.wf()
    }

    /// The current value under `k`.
    pub open spec fn value_of(&self, k: Seq<char>) -> Atom {
        self.data@[k].value
    }

    /// No entries, unlocked.
    pub fn new() -> (d: Self)
        ensures
            d.wf(),
            d.data@ == Map::<Seq<char>, Value>::empty(),
            d.data.entries().len() == 0,
            !d.locked,
    {
        Data { data: StrMap::new(), locked: false }
    }

    /// Replaces the current value under `key` and returns the one it had;
    /// `None`, and no change, when there is no such entry.
    pub fn set(&mut self, key: &str, value: Atom) -> (r: Option<Atom>)
        requires
            old(self).wf(),
        ensures
            final(self).wf(),
            final(self).locked == old(self).locked,
            final(self).data.keys() == old(self).data.keys(),
            old(self).data@.contains_key(key@) ==> r == Some(old(self).value_of(key@))
                && final(self).data@ == old(self).data@.insert(
                key@,
                Value { value: value, ..old(self).data@[key@] },
            ),
            !old(self).data@.contains_key(key@) ==> r is None && final(self).data@ == old(
                self,
            ).data@,
    {
        match self.data.get_mut(key) {
            Some(data) => {
                let mut value = value;
                std::mem::swap(&mut data.value, &mut value);
                Some(value)
            },
            None => None,
        }
    }

    /// Puts the value under `key` back to its default and returns the one it
    /// had; `None`, and no change, when there is no such entry.
    pub fn reset(&mut self, key: &str) -> (r: Option<Atom>)
        requires
            old(self).wf(),
        ensures
            final(self).wf(),
            final(self).locked == old(self).locked,
            final(self).data.keys() == old(self).data.keys(),
            old(self).data@.contains_key(key@) ==> r == Some(old(self).value_of(key@))
                && final(self).data@ == old(self).data@.insert(
                key@,
                Value { value: old(self).data@[key@].default, ..old(self).data@[key@] },
            ),
            !old(self).data@.contains_key(key@) ==> r is None && final(self).data@ == old(
                self,
            ).data@,
    {
        let default = match self.data.get(key) {
            Some(data) => data.default.duplicate(),
            None => {
                return None;
            },
        };
        self.set(key, default)
    }

    /// The current value under `key`.
    pub fn get(&self, key: &str) -> (r: Option<&Atom>)
        requires
            self.wf(),
        ensures
            match r {
                Some(v) => self.data@.contains_key(key@) && *v == self.value_of(key@),
                None => !self.data@.contains_key(key@),
            },
    {
        match self.data.get(key) {
            Some(data) => Some(&data.value),
            None => None,
        }
    }

    /// A mutable reference to the current value under `key`.
    pub fn get_mut(&mut self, key: &str) -> (r: Option<&mut Atom>)
        requires
            old(self).wf(),
        ensures
            final(self).wf(),
            final(self).locked == old(self).locked,
            final(self).data.keys() == old(self).data.keys(),
            match r {
                Some(v) => old(self).data@.contains_key(key@) && *v == old(self).value_of(key@)
                    && final(self).data@ == old(self).data@.insert(
                    key@,
                    Value { value: *final(v), ..old(self).data@[key@] },
                ),
                None => !old(self).data@.contains_key(key@) && final(self).data@ == old(
                    self,
                ).data@,
            },
    {
        match self.data.get_mut(key) {
            Some(data) => Some(&mut data.value),
            None => None,
        }
    }

    /// Checks that every value has one of the kinds it may have. `None` when
    /// all do; else the message for the first entry, in order, that does not.
    pub fn validate(&self) -> (r: Option<String>)
        requires
            self.wf(),
        ensures
            r is None <==> forall|i: int|
                0 <= i < self.data.entries().len()
                    ==> #[trigger] self.data.entries()[i].1.has_correct_type(),
            r matches Some(msg) ==> exists|j: int|
                0 <= j < self.data.entries().len() && !self.data.entries()[j].1.has_correct_type()
                    && (forall|i: int|
                    0 <= i < j ==> #[trigger] self.data.entries()[i].1.has_correct_type())
                    && msg@ == type_error(
                    self.data.entries()[j].0@,
                    self.data.entries()[j].1.should_be@,
                ),
    {
        let entries = self.data.as_slice();
        let mut i: usize = 0;
        while i < entries.len()
            invariant
                i <= entries@.len(),
                entries@ == self.data.entries(),
                forall|j: int| 0 <= j < i ==> #[trigger] entries@[j].1.has_correct_type(),
            decreases entries@.len() - i,
        {
            let key = &entries[i].0;
            let value = &entries[i].1;
            let t = value.value.to_tag();
            let mut has_correct_type = false;
            let mut k: usize = 0;
            while k < value.should_be.len()
                invariant_except_break
                    !has_correct_type,
                invariant
                    k <= value.should_be@.len(),
                    t == value.value.spec_tag(),
                    forall|m: int| 0 <= m < k ==> value.should_be@[m] != t,
                ensures
                    has_correct_type <==> value.should_be@.contains(t),
                decreases value.should_be@.len() - k,
            {
                if value.should_be[k] == t {
                    has_correct_type = true;
                    break;
                }
                k = k + 1;
            }
            if !has_correct_type {
                let mut buff = String::new();
                buff.append("`");
                buff.append(key.as_str());
                buff.append("` should be: ");
                let ghost prefix = buff@;
                let mut n: usize = 0;
                while n < value.should_be.len()
                    invariant
                        n <= value.should_be@.len(),
                        buff@ == prefix + join_tags(value.should_be@.take(n as int)),
                    decreases value.should_be@.len() - n,
                {
                    let ghost before = buff@;
                    if n > 0 {
                        buff.append(",");
                    }
                    buff.append(value.should_be[n].name());
                    assert(value.should_be@.take(n + 1).drop_last() =~= value.should_be@.take(
                        n as int,
                    ));
                    n = n + 1;
                    assert(buff@ =~= prefix + join_tags(value.should_be@.take(n as int)));
                }
                assert(value.should_be@.take(value.should_be@.len() as int)
                    =~= value.should_be@);
                let mut errors = String::new();
                errors.append(buff.as_str());
                assert(errors@ =~= type_error(key@, value.should_be@));
                assert(!self.data.entries()[i as int].1.has_correct_type());
                return Some(errors);
            }
            i = i + 1;
        }
        None
    }

    /// The whole entry under `key`.
    pub fn get_value(&self, key: &str) -> (r: Option<&Value>)
        requires
            self.wf(),
        ensures
            match r {
                Some(v) => self.data@.contains_key(key@) && *v == self.data@[key@],
                None => !self.data@.contains_key(key@),
            },
    {
        self.data.get(key)
    }

    /// A mutable reference to the whole entry under `key`.
    pub fn get_mut_value(&mut self, key: &str) -> (r: Option<&mut Value>)
        requires
            old(self).wf(),
        ensures
            final(self).wf(),
            final(self).locked == old(self).locked,
            final(self).data.keys() == old(self).data.keys(),
            match r {
                Some(v) => old(self).data@.contains_key(key@) && *v == old(self).data@[key@]
                    && final(self).data@ == old(self).data@.insert(key@, *final(v)),
                None => !old(self).data@.contains_key(key@) && final(self).data@ == old(
                    self,
                ).data@,
            },
    {
        self.data.get_mut(key)
    }

    /// Removes the entry under `key` and returns it.
    pub fn remove(&mut self, key: &str) -> (r: Option<Value>)
        requires
            old(self).wf(),
        ensures
            final(self).wf(),
            final(self).locked == old(self).locked,
            final(self).data@ == old(self).data@.remove(key@),
            old(self).data@.contains_key(key@) ==> r == Some(old(self).data@[key@]),
            !old(self).data@.contains_key(key@) ==> r is None,
    {
        self.data.remove(key)
    }

    /// Adds, or replaces, the entry under `key`, unless the data is locked.
    pub fn add(&mut self, key: &str, value: Value)
        requires
            old(self).wf(),
        ensures
            final(self).wf(),
            final(self).locked == old(self).locked,
            !old(self).locked ==> final(self).data@ == old(self).data@.insert(key@, value),
            old(self).locked ==> final(self).data@ == old(self).data@ && final(self).data.entries()
                == old(self).data.entries(),
    {
        if !self.locked {
            self.data.insert(key.to_owned(), value);
        }
    }

    /// Stops further entries from being added.
    pub fn lock(&mut self)
        ensures
            final(self).locked,
            final(self).data == old(self).data,
    {
        self.locked = true;
    }

    /// Lets entries be added again.
    pub fn unlock(&mut self)
        ensures
            !final(self).locked,
            final(self).data == old(self).data,
    {
        self.locked = false;
    }

    /// The entries, in order.
    pub fn iter(&self) -> (r: &[(String, Value)])
        ensures
            r@ == self.data.entries(),
    {
        self.data.as_slice()
    }

    /// A mutable reference to the entry at position `index`; only its value
    /// can be changed, not its key.
    pub fn iter_mut(&mut self, index: usize) -> (r: Option<&mut Value>)
        requires
            old(self).wf(),
        ensures
            final(self).wf(),
            final(self).locked == old(self).locked,
            final(self).data.keys() == old(self).data.keys(),
            index < old(self).data.entries().len() ==> (r matches Some(v) && *v == old(
                self,
            ).data.entries()[index as int].1 && final(self).data@ == old(self).data@.insert(
                old(self).data.entries()[index as int].0@,
                *final(v),
            )),
            index >= old(self).data.entries().len() ==> r is None && final(self).data.entries()
                == old(self).data.entries(),
    {
        self.data.value_at_mut(index)
    }
}

} // verus!
