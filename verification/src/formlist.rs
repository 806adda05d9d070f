//! The form list's size counter: between one and a configurable maximum
//! number of visible fields, grown and shrunk one at a time.

use vstd::prelude::*;

verus! {

/// How many of the list's fields are shown, and how many there can be.
#[derive(Clone, Copy, PartialEq, Eq, Structural, Debug)]
pub struct FormListState {
    pub max_size: usize,
    pub current_size: usize,
}

impl FormListState {
    /// A list showing `current_size` fields, with the maximum defaulting to
    /// one until the content sets it.
    pub fn new(current_size: usize) -> (r: Self)
        ensures
            r.max_size == 1,
            r.current_size == current_size,
    {
        FormListState { max_size: 1, current_size }
    }

    /// The maximum number of fields.
    pub fn get_max_size(&self) -> (r: usize)
        ensures
            r == self.max_size,
    {
        self.max_size
    }

    /// Sets the maximum number of fields.
    pub fn set_max_size(&mut self, max_size: usize)
        ensures
            final(self).max_size == max_size,
            final(self).current_size == old(self).current_size,
    {
        self.max_size = max_size;
    }

    /// The number of fields currently shown.
    pub fn get_current_size(&self) -> (r: usize)
        ensures
            r == self.current_size,
    {
        self.current_size
    }

    /// Shows one more field, never exceeding the maximum.
    pub fn add_one(&mut self)
        ensures
            old(self).current_size < old(self).max_size ==> final(self).current_size == old(self).current_size + 1,
            old(self).current_size >= old(self).max_size ==> final(self).current_size == old(self).current_size,
            final(self).max_size == old(self).max_size,
    {
        if self.current_size < self.max_size {
            self.current_size = self.current_size + 1;
        }
    }

    /// Hides one field, never dropping below one.
    pub fn remove_one(&mut self)
        ensures
            old(self).current_size > 1 ==> final(self).current_size == old(self).current_size - 1,
            old(self).current_size <= 1 ==> final(self).current_size == old(self).current_size,
            final(self).max_size == old(self).max_size,
    {
        if self.current_size > 1 {
            self.current_size = self.current_size - 1;
        }
    }
}

} // verus!
