//! What a peer tells the rendezvous: its room, its name, its candidates.

use vstd::prelude::*;
use crate::endpoint::Endpoint;

verus! {

/// A peer's registration in a room.
#[derive(Debug)]
pub struct Registration {
    pub room: String,
    pub peer_id: String,
    pub candidates: Vec<Endpoint>,
}

/// A registration as plain values.
pub struct RegistrationView {
    pub room: Seq<char>,
    pub peer_id: Seq<char>,
    pub candidates: Seq<Endpoint>,
}

impl View for Registration {
    type V = RegistrationView;

    open spec fn view(&self) -> RegistrationView {
        RegistrationView { room: self.room@, peer_id: self.peer_id@, candidates: self.candidates@ }
    }
}

/// A copy of a list of endpoints.
pub fn copy_endpoints(list: &Vec<Endpoint>) -> (c: Vec<Endpoint>)
    ensures
        c@ == list@,
{
    let mut c: Vec<Endpoint> = Vec::new();
    let mut i: usize = 0;
    while i < list.len()
        invariant
            i <= list@.len(),
            c@ == list@.subrange(0, i as int),
        decreases list@.len() - i,
    {
        c.push(list[i]);
        i = i + 1;
        assert(c@ =~= list@.subrange(0, i as int));
    }
    assert(list@.subrange(0, list@.len() as int) =~= list@);
    c
}

impl Registration {
    /// A copy of this registration.
    pub fn duplicate(&self) -> (r: Registration)
        ensures
            r@ == self@,
    {
        Registration {
            room: self.room.clone(),
            peer_id: self.peer_id.clone(),
            candidates: copy_endpoints(&self.candidates),
        }
    }
}

} // verus!
