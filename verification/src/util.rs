use vstd::prelude::*;

verus! {

/// A value that is either borrowed from static storage or owned.
///
/// Signature tables hand out their entries through this type, so that a
/// caller can treat a borrowed table entry and a freshly built signature
/// uniformly.
pub enum OptionalStatic<T: 'static> {
    Static(&'static T),
    Owned(T),
}

impl<T> OptionalStatic<T> {
    /// The held value, whichever variant holds it.
    pub open spec fn value(&self) -> T {
        match self {
            OptionalStatic::Static(value) => **value,
            OptionalStatic::Owned(value) => *value,
        }
    }

    /// The borrowed form of the held value, whichever variant holds it.
    pub fn get_ref(&self) -> (r: &T)
        ensures
            *r == self.value(),
    {
        match self {
            OptionalStatic::Static(value) => *value,
            OptionalStatic::Owned(value) => value,
        }
    }
}

} // verus!
