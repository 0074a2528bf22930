use vstd::prelude::*;
use vstd::slice::slice_subrange;

use super::error::ParseError;

verus! {

/// A list with at least one item.
#[derive(Debug, PartialEq)]
pub struct AtLeastOne<T>(Vec<T>);

impl<T> AtLeastOne<T> {
    #[verifier::type_invariant]
    spec fn nonempty(self) -> bool {
        self.0@.len() > 0
    }

    /// The items, in order.
    pub closed spec fn items(&self) -> Seq<T> {
        self.0@
    }

    /// The items of a nonempty vector; an empty one is refused.
    pub fn try_from_vec(value: Vec<T>) -> (r: Result<Self, ParseError>)
        ensures
            value@.len() > 0 ==> (r matches Ok(x) && x.items() == value@),
            value@.len() == 0 ==> r == Err::<Self, ParseError>(ParseError::EmptyList),
    {
        if value.len() == 0 {
            return Err(ParseError::EmptyList);
        }
        Ok(AtLeastOne(value))
    }

    /// The list holding only `value`.
    pub fn from_item(value: T) -> (r: Self)
        ensures
            r.items() == seq![value],
    {
        let mut v = Vec::new();
        v.push(value);
        AtLeastOne(v)
    }

    /// The first item.
    pub fn head(&self) -> (r: &T)
        ensures
            *r == self.items()[0],
            self.items().len() > 0,
    {
        proof {
            use_type_invariant(self);
        }
        &self.0[0]
    }

    /// The items after the first.
    pub fn tail(&self) -> (r: &[T])
        ensures
            r@ == self.items().skip(1),
    {
        proof {
            use_type_invariant(self);
        }
        slice_subrange(self.0.as_slice(), 1, self.0.len())
    }

    /// The number of items.
    pub fn len(&self) -> (r: usize)
        ensures
            r == self.items().len(),
            r > 0,
    {
        proof {
            use_type_invariant(self);
        }
        self.0.len()
    }

    /// The items as a vector.
    pub fn as_vec(&self) -> (r: &Vec<T>)
        ensures
            r@ == self.items(),
    {
        &self.0
    }

    /// The items, giving up the guarantee that there is one.
    pub fn into_vec(self) -> (r: Vec<T>)
        ensures
            r@ == self.items(),
    {
        self.0
    }
}

impl<T: Clone> Clone for AtLeastOne<T> {
    fn clone(&self) -> (r: Self)
        ensures
            r.items().len() == self.items().len(),
    {
        proof {
            use_type_invariant(self);
        }
        AtLeastOne(self.0.clone())
    }
}

} // verus!
