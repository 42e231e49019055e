//! Lists that are written down item by item.

use vstd::prelude::*;

verus! {

/// A list of items, in the order in which they were added.
#[derive(Debug)]
pub enum List<T> {
    Nil,
    /// A list, and the item after it.
    More(Box<List<T>>, T),
}

/// The items of a list, in order.
pub open spec fn items<T>(list: List<T>) -> Seq<T>
    decreases list,
{
    match list {
        List::Nil => Seq::empty(),
        List::More(rest, item) => items(*rest).push(item),
    }
}

/// A list without items.
#[verifier::allow_in_spec]
pub fn list<T>() -> List<T>
    returns
        List::<T>::Nil,
{
    List::Nil
}

impl<T> List<T> {
    /// The list, and `item` after it.
    #[verifier::allow_in_spec]
    pub fn and(self, item: T) -> Self
        returns
            List::More(Box::new(self), item),
    {
        List::More(Box::new(self), item)
    }

    /// The items of the list, in order.
    pub fn into_items(self) -> (r: Vec<T>)
        ensures
            r@ == items(self),
        decreases self,
    {
        match self {
            List::Nil => Vec::new(),
            List::More(rest, item) => {
                let mut out: Vec<T> = (*rest).into_items();
                out.push(item);
                out
            },
        }
    }
}

} // verus!
