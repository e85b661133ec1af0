use vstd::prelude::*;

verus! {

#[derive(Debug)]
/// A growable list of values that a module keeps beside an element or a
/// location while it works on it.
pub struct Storage<T> {
    data: Vec<T>,
}

impl<T> View for Storage<T> {
    type V = Seq<T>;

    open spec fn view(&self) -> Seq<T> {
        self.spec_data()
    }
}

impl<T> Storage<T> {
    /// The stored values, in order.
    pub closed spec fn spec_data(&self) -> Seq<T> {
        self.data@
    }

    /// An empty storage.
    pub fn new() -> (s: Self)
        ensures
            s@ == Seq::<T>::empty(),
    {
        Storage { data: Vec::new() }
    }

    /// The number of stored values.
    pub fn len(&self) -> (n: usize)
        ensures
            n == self@.len(),
    {
        self.data.len()
    }

    /// Appends a value at the end.
    pub fn push(&mut self, data: T)
        ensures
            final(self)@ == old(self)@.push(data),
    {
        self.data.push(data)
    }

    /// The value at `index`, if there is one.
    pub fn get(&self, index: usize) -> (r: Option<&T>)
        ensures
            index < self@.len() ==> r == Some(&self@[index as int]),
            index >= self@.len() ==> r is None,
    {
        if index < self.data.len() {
            Some(&self.data[index])
        } else {
            None
        }
    }

    /// A mutable reference to the value at `index`, if there is one.
    pub fn get_mut(&mut self, index: usize) -> (r: Option<&mut T>)
        ensures
            index < old(self)@.len() ==> (r matches Some(e) && *e == old(self)@[index as int]
                && final(self)@ == old(self)@.update(index as int, *final(e))),
            index >= old(self)@.len() ==> r is None && final(self)@ == old(self)@,
    {
        if index < self.data.len() {
            Some(&mut self.data[index])
        } else {
            None
        }
    }

    /// Removes and returns the value at `index`, shifting the later ones down;
    /// `None`, and no change, when `index` is past the end.
    pub fn remove(&mut self, index: usize) -> (r: Option<T>)
        ensures
            index < old(self)@.len() ==> r == Some(old(self)@[index as int])
                && final(self)@ == old(self)@.remove(index as int),
            index >= old(self)@.len() ==> r is None && final(self)@ == old(self)@,
    {
        if self.data.len() > index {
            Some(self.data.remove(index))
        } else {
            None
        }
    }

    /// Inserts a value at `index`, shifting the later ones up.
    pub fn insert(&mut self, index: usize, data: T)
        requires
            index <= old(self)@.len(),
        ensures
            final(self)@ == old(self)@.insert(index as int, data),
    {
        self.data.insert(index, data)
    }

    /// Removes and returns the last value.
    pub fn pop(&mut self) -> (r: Option<T>)
        ensures
            old(self)@.len() > 0 ==> r == Some(old(self)@.last()) && final(self)@ == old(
                self,
            )@.drop_last(),
            old(self)@.len() == 0 ==> r is None && final(self)@ == old(self)@,
    {
        self.data.pop()
    }

    /// All stored values, in order.
    pub fn iter(&self) -> (r: &[T])
        ensures
            r@ == self@,
    {
        self.data.as_slice()
    }

    /// All stored values, to be changed in place.
    pub fn iter_mut(&mut self) -> (r: &mut Vec<T>)
        ensures
            r@ == old(self)@,
            final(self)@ == final(r)@,
    {
        &mut self.data
    }
}

impl<T> Default for Storage<T> {
    fn default() -> (s: Self)
        ensures
            s@ == Seq::<T>::empty(),
    {
        Storage::new()
    }
}

} // verus!
