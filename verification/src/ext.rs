//! Extensions for collections.

use vstd::prelude::*;

verus! {

/// Extension for collections that are consumed item by item.
pub trait IteratorExt<T>: Sized {
    /// The items, in order.
    spec fn items(self) -> Seq<T>;

    /// Consumes the collection and returns its one item
    ///
    /// Returns the item if and only if the collection holds exactly one.
    /// Otherwise, returns `None`.
    fn single(self) -> (result: Option<T>)
        ensures
            result == (if self.items().len() == 1 {
                Some(self.items()[0])
            } else {
                None
            }),
    ;
}

impl<T> IteratorExt<T> for Vec<T> {
    open spec fn items(self) -> Seq<T> {
        self@
    }

    fn single(self) -> (result: Option<T>) {
        let mut items = self;
        if items.len() == 1 {
            items.pop()
        } else {
            None
        }
    }
}

} // verus!
