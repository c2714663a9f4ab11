//! OAuth token scopes, as plain values.

use vstd::prelude::*;

verus! {

/// One OAuth scope name.
#[derive(Debug, Clone, PartialEq, Eq)]
pub struct Scope(String);

impl Scope {
    /// A scope with the given name.
    pub fn new(scope: &str) -> (r: Self)
        ensures
            r@ == scope@,
    {
        Scope(scope.to_owned())
    }

    /// The scope's name.
    pub fn as_str(&self) -> (r: &str)
        ensures
            r@ == self@,
    {
        self.0.as_str()
    }
}

impl View for Scope {
    type V = Seq<char>;

    closed spec fn view(&self) -> Seq<char> {
        self.0@
    }
}

} // verus!
