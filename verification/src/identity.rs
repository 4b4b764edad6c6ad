//! Handles that name actors.
use vstd::prelude::*;
use vstd::std_specs::cmp::PartialEqSpecImpl;

verus! {

/// An opaque handle for a callable actor. Two handles name the same actor
/// exactly when they are equal; nothing else is assumed of them.
#[derive(Debug)]
pub struct ActorIdentity {
    name: String,
}

impl View for ActorIdentity {
    type V = Seq<char>;

    closed spec fn view(&self) -> Seq<char> {
        self.name@
    }
}

impl ActorIdentity {
    /// The identity written as `name`.
    pub fn new(name: String) -> (id: ActorIdentity)
        ensures
            id@ == name@,
    {
        ActorIdentity { name }
    }

    /// The text this identity was made from.
    pub fn name(&self) -> (name: &String)
        ensures
            name@ == self@,
    {
        &self.name
    }
}

impl Clone for ActorIdentity {
    fn clone(&self) -> (id: ActorIdentity)
        ensures
            id@ == self@,
    {
        ActorIdentity { name: self.name.clone() }
    }
}

impl PartialEq for ActorIdentity {
    fn eq(&self, other: &ActorIdentity) -> (same: bool) {
        self.name == other.name
    }
}

impl PartialEqSpecImpl for ActorIdentity {
    open spec fn obeys_eq_spec() -> bool {
        true
    }

    open spec fn eq_spec(&self, other: &ActorIdentity) -> bool {
        self@ == other@
    }
}

} // verus!
