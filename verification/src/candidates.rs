//! The endpoints a peer offers the other peer: loopback, the address of the
//! interface that routes to the internet, and the address that a STUN
//! server observed.

use vstd::prelude::*;
use crate::endpoint::{Endpoint, Ip, spec_endpoint, LOOPBACK_V4};

verus! {

/// The candidates known without asking a STUN server: loopback on `port`,
/// then the routed interface address on `port` where there is one.
pub open spec fn local_candidates(port: u16, routed: Option<Ip>) -> Seq<Endpoint> {
    let loopback = Endpoint::V4 { ip: LOOPBACK_V4, port };
    match routed {
        Some(ip) => seq![loopback, spec_endpoint(ip, port)],
        None => seq![loopback],
    }
}

/// The full candidate list: the local candidates, then the reflexive
/// endpoint unless it is one of them already.
pub open spec fn candidate_list(port: u16, routed: Option<Ip>, reflexive: Endpoint) -> Seq<Endpoint> {
    let local = local_candidates(port, routed);
    if local.contains(reflexive) {
        local
    } else {
        local.push(reflexive)
    }
}

/// Whether `e` is one of `list`.
pub fn contains_endpoint(list: &Vec<Endpoint>, e: Endpoint) -> (r: bool)
    ensures
        r == list@.contains(e),
{
    let mut i: usize = 0;
    while i < list.len()
        invariant
            i <= list@.len(),
            forall|j: int| 0 <= j < i ==> list@[j] != e,
        decreases list@.len() - i,
    {
        if list[i] == e {
            return true;
        }
        i = i + 1;
    }
    false
}

/// Lists the endpoints by which the other peer may reach a socket bound on
/// `port`: loopback, the routed interface address if known, and the
/// reflexive endpoint that STUN reported, which is added only once.
pub fn gather_candidates(port: u16, routed: Option<Ip>, reflexive: Endpoint) -> (c: Vec<Endpoint>)
    ensures
        c@ == candidate_list(port, routed, reflexive),
        c@.contains(reflexive),
        c@[0] == (Endpoint::V4 { ip: LOOPBACK_V4, port }),
{
    let mut candidates: Vec<Endpoint> = Vec::new();
    candidates.push(Endpoint::loopback(port));
    match routed {
        Some(ip) => candidates.push(Endpoint::new(ip, port)),
        None => {},
    }
    assert(candidates@ =~= local_candidates(port, routed));
    if !contains_endpoint(&candidates, reflexive) {
        candidates.push(reflexive);
        assert(candidates@[candidates@.len() - 1] == reflexive);
    }
    candidates
}

/// The candidates are loopback on the port, then the routed interface
/// address on the port whenever it is known, then the reflexive endpoint
/// exactly when it is not one of those.
pub proof fn law_candidate_order(port: u16, routed: Option<Ip>, reflexive: Endpoint)
    ensures
        ({
            let c = candidate_list(port, routed, reflexive);
            let loopback = Endpoint::V4 { ip: LOOPBACK_V4, port };
            match routed {
                Some(ip) => {
                    let local = spec_endpoint(ip, port);
                    if reflexive == loopback || reflexive == local {
                        c == seq![loopback, local]
                    } else {
                        c == seq![loopback, local, reflexive]
                    }
                },
                None => if reflexive == loopback {
                    c == seq![loopback]
                } else {
                    c == seq![loopback, reflexive]
                },
            }
        }),
{
    let loopback = Endpoint::V4 { ip: LOOPBACK_V4, port };
    match routed {
        Some(ip) => {
            let local = spec_endpoint(ip, port);
            let l = seq![loopback, local];
            assert(l =~= local_candidates(port, routed));
            if reflexive == loopback {
                assert(l[0] == reflexive);
            } else if reflexive == local {
                assert(l[1] == reflexive);
            } else {
                assert(!l.contains(reflexive)) by {
                    if l.contains(reflexive) {
                        let i = choose|i: int| 0 <= i < l.len() && l[i] == reflexive;
                        assert(i == 0 || i == 1);
                    }
                }
                assert(l.push(reflexive) =~= seq![loopback, local, reflexive]);
            }
        },
        None => {
            let l = seq![loopback];
            assert(l =~= local_candidates(port, routed));
            if reflexive == loopback {
                assert(l[0] == reflexive);
            } else {
                assert(!l.contains(reflexive)) by {
                    if l.contains(reflexive) {
                        let i = choose|i: int| 0 <= i < l.len() && l[i] == reflexive;
                        assert(i == 0);
                    }
                }
                assert(l.push(reflexive) =~= seq![loopback, reflexive]);
            }
        },
    }
}

} // verus!
