//! Taking the single item out of a sequence that should hold exactly one.

use vstd::prelude::*;

verus! {

/// Why a sequence did not hold exactly one item.
#[derive(Clone, Debug, PartialEq, Eq)]
pub enum SingleIterError<T> {
    /// There was no item.
    NoItem,
    /// There were at least two items; these are the first two.
    MultipleItems { first: T, second: T },
}

impl<T> SingleIterError<T> {
    /// The description of the error.
    pub fn message(&self) -> (res: &'static str)
        ensures
            self is NoItem ==> res@ == "iterator returned no item"@,
            self is MultipleItems ==> res@ == "iterator returned more than one item"@,
    {
        match self {
            SingleIterError::NoItem => "iterator returned no item",
            SingleIterError::MultipleItems { .. } => "iterator returned more than one item",
        }
    }
}

/// Takes the only item out of a sequence of items.
pub trait SingleIterExt<T> {
    /// Takes the first item, and checks that no second one follows; up to
    /// two items are taken out either way.
    fn single(&mut self) -> Result<T, SingleIterError<T>>;
}

impl<T> SingleIterExt<T> for Vec<T> {
    fn single(&mut self) -> (res: Result<T, SingleIterError<T>>)
        ensures
            old(self)@.len() == 0 ==> res == Err::<T, SingleIterError<T>>(SingleIterError::NoItem)
                && final(self)@ == old(self)@,
            old(self)@.len() == 1 ==> res == Ok::<T, SingleIterError<T>>(old(self)@[0]) && final(self)@
                == Seq::<T>::empty(),
            old(self)@.len() >= 2 ==> res == Err::<T, SingleIterError<T>>(SingleIterError::MultipleItems {
                first: old(self)@[0],
                second: old(self)@[1],
            }) && final(self)@ == old(self)@.subrange(2, old(self)@.len() as int),
    {
        if self.len() == 0 {
            return Err(SingleIterError::NoItem);
        }
        let first = self.remove(0);
        if self.len() == 0 {
            return Ok(first);
        }
        let second = self.remove(0);
        Err(SingleIterError::MultipleItems { first, second })
    }
}

} // verus!
