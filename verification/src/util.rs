//! Small tuple helpers used when composing per-entity rows: append a
//! component borrow to a row, swap the leading index for a resolved handle,
//! or drop the leading element.

use vstd::prelude::*;

verus! {

/// Grow or rewrite a tuple with one value of type `T`.
pub trait TupleExtrasT<T>: Sized {
    type AppendResultType;

    type FirstReplaceResultType;

    /// The tuple with `t` appended at the end.
    fn append(self, t: T) -> Self::AppendResultType;

    /// The tuple with its first element replaced by `r`.
    fn replace_first(self, r: T) -> Self::FirstReplaceResultType;
}

/// Shrink a tuple from the front.
pub trait TupleExtras: Sized {
    type PopFrontResultType;

    /// The tuple without its first element.
    fn pop_front(self) -> Self::PopFrontResultType;
}

impl<T> TupleExtrasT<T> for () {
    type AppendResultType = (T,);

    type FirstReplaceResultType = ();

    fn append(self, t: T) -> (r: (T,))
        ensures
            r == (t,),
    {
        (t,)
    }

    fn replace_first(self, r: T) -> (res: ())
        ensures
            res == (),
    {
    }
}

impl TupleExtras for () {
    type PopFrontResultType = ();

    fn pop_front(self) -> (r: ())
        ensures
            r == (),
    {
    }
}

impl<A, T> TupleExtrasT<T> for (A,) {
    type AppendResultType = (A, T);

    type FirstReplaceResultType = (T,);

    fn append(self, t: T) -> (r: (A, T))
        ensures
            r == (self.0, t),
    {
        (self.0, t)
    }

    fn replace_first(self, r: T) -> (res: (T,))
        ensures
            res == (r,),
    {
        (r,)
    }
}

impl<A> TupleExtras for (A,) {
    type PopFrontResultType = ();

    fn pop_front(self) -> (r: ())
        ensures
            r == (),
    {
    }
}

impl<A, B, T> TupleExtrasT<T> for (A, B) {
    type AppendResultType = (A, B, T);

    type FirstReplaceResultType = (T, B);

    fn append(self, t: T) -> (r: (A, B, T))
        ensures
            r == (self.0, self.1, t),
    {
        (self.0, self.1, t)
    }

    fn replace_first(self, r: T) -> (res: (T, B))
        ensures
            res == (r, self.1),
    {
        (r, self.1)
    }
}

impl<A, B> TupleExtras for (A, B) {
    type PopFrontResultType = (B,);

    fn pop_front(self) -> (r: (B,))
        ensures
            r == (self.1,),
    {
        (self.1,)
    }
}

impl<A, B, C, T> TupleExtrasT<T> for (A, B, C) {
    type AppendResultType = (A, B, C, T);

    type FirstReplaceResultType = (T, B, C);

    fn append(self, t: T) -> (r: (A, B, C, T))
        ensures
            r == (self.0, self.1, self.2, t),
    {
        (self.0, self.1, self.2, t)
    }

    fn replace_first(self, r: T) -> (res: (T, B, C))
        ensures
            res == (r, self.1, self.2),
    {
        (r, self.1, self.2)
    }
}

impl<A, B, C> TupleExtras for (A, B, C) {
    type PopFrontResultType = (B, C);

    fn pop_front(self) -> (r: (B, C))
        ensures
            r == (self.1, self.2),
    {
        (self.1, self.2)
    }
}

} // verus!
