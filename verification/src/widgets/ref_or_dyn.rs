//! A value that is either borrowed or owned.

use vstd::prelude::*;

verus! {

/// Either a borrowed `T` or an owned one. A list of these can hold borrowed
/// and boxed values side by side.
pub enum RefOrDyn<'a, T: ?Sized + 'a> {
    Ref(&'a T),
    Owned(Box<T>),
}

impl<'a, T: ?Sized> RefOrDyn<'a, T> {
    /// The value, wherever it lives.
    pub open spec fn spec_as_ref(&self) -> &T {
        match self {
            RefOrDyn::Ref(t) => t,
            RefOrDyn::Owned(t) => &**t,
        }
    }

    /// Whether the value is owned.
    pub open spec fn spec_is_owned(&self) -> bool {
        self is Owned
    }

    #[verifier::when_used_as_spec(spec_as_ref)]
    pub fn as_ref(&self) -> (r: &T)
        ensures
            r == self.spec_as_ref(),
    {
        match self {
            RefOrDyn::Ref(t) => t,
            RefOrDyn::Owned(t) => &**t,
        }
    }
}

} // verus!
