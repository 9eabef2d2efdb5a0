//! A row of column values, as a store hands records back.

use vstd::prelude::*;

verus! {

/// The values of one row, by column index.
pub struct Row<T> {
    pub values: Vec<T>,
}

impl<T: Copy> Row<T> {
    /// The value in column `index`.
    pub fn get(&self, index: usize) -> (r: T)
        requires
            index < self.values@.len(),
        ensures
            r == self.values@[index as int],
    {
        self.values[index]
    }
}

} // verus!
