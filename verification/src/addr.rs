use vstd::prelude::*;

verus! {

/// An opaque principal identifier: the caller of an invocation, or the
/// address a score is attached to. The host authenticates callers; the
/// contract only ever compares addresses for equality.
#[derive(Debug)]
pub struct Addr {
    repr: String,
}

impl View for Addr {
    type V = Seq<char>;

    closed spec fn view(&self) -> Seq<char> {
        self.repr@
    }
}

impl Addr {
    /// Wraps the given text as an address, with no validation: addresses
    /// are opaque here, and the host vouches for the ones it hands in.
    pub fn unchecked(input: &str) -> (a: Addr)
        ensures
            a@ == input@,
    {
        Addr { repr: input.to_owned() }
    }

    /// The text of the address.
    pub fn as_str(&self) -> (r: &str)
        ensures
            r@ == self@,
    {
        self.repr.as_str()
    }
}

impl Clone for Addr {
    fn clone(&self) -> (r: Self)
        ensures
            r == *self,
    {
        Addr { repr: self.repr.clone() }
    }
}

impl PartialEq for Addr {
    fn eq(&self, other: &Self) -> (r: bool) {
        self.repr == other.repr
    }
}

impl vstd::std_specs::cmp::PartialEqSpecImpl for Addr {
    open spec fn obeys_eq_spec() -> bool {
        true
    }

    open spec fn eq_spec(&self, other: &Self) -> bool {
        self@ == other@
    }
}

} // verus!
