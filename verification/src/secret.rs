//! A string that must not end up in a log.
use vstd::prelude::*;

verus! {

/// A credential. It has no `Debug` or `Display`, so no formatting of a
/// value that holds one can print it; `expose` is the one way to read it,
/// and its printed form is `[redacted]`.
#[derive(Clone, PartialEq, Eq)]
pub struct Secret(String);

impl Secret {
    pub closed spec fn value(&self) -> Seq<char> {
        self.0@
    }

    pub fn new(value: &str) -> (s: Self)
        ensures
            s.value() == value@,
    {
        Secret(crate::text::owned(value))
    }

    /// How a secret prints, whatever it holds: `[redacted]`.
    pub fn to_string(&self) -> (s: String)
        ensures
            s@ == "[redacted]"@,
    {
        crate::text::owned("[redacted]")
    }

    /// The real value. Named to be conspicuous where it is called.
    pub fn expose(&self) -> (s: &str)
        ensures
            s@ == self.value(),
    {
        self.0.as_str()
    }
}

} // verus!
