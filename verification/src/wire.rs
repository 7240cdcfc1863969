//! Datagrams and the byte strings that the protocols put in them.

use vstd::prelude::*;
use crate::endpoint::Endpoint;

verus! {

/// A datagram to send: its payload and its destination.
pub struct Datagram {
    pub payload: Vec<u8>,
    pub to: Endpoint,
}

impl View for Datagram {
    type V = (Seq<u8>, Endpoint);

    open spec fn view(&self) -> (Seq<u8>, Endpoint) {
        (self.payload@, self.to)
    }
}

/// The ASCII decimal digits of `n`, most significant first, no leading zero.
pub open spec fn decimal(n: nat) -> Seq<u8>
    decreases n,
{
    if n < 10 {
        seq![(48 + n) as u8]
    } else {
        decimal(n / 10).push((48 + n % 10) as u8)
    }
}

/// Appends the decimal digits of `n` to `out`.
pub fn push_decimal(out: &mut Vec<u8>, n: u32)
    ensures
        final(out)@ == old(out)@ + decimal(n as nat),
    decreases n,
{
    if n >= 10 {
        push_decimal(out, n / 10);
    }
    let digit: u8 = (n % 10) as u8;
    out.push(48u8 + digit);
    proof {
        assert(old(out)@ + decimal(n as nat) =~= if n < 10 {
            old(out)@.push((48 + n) as u8)
        } else {
            (old(out)@ + decimal((n / 10) as nat)).push((48 + n % 10) as u8)
        });
    }
}

/// Whether two byte strings are equal.
pub fn bytes_equal(a: &[u8], b: &[u8]) -> (r: bool)
    ensures
        r == (a@ == b@),
{
    if a.len() != b.len() {
        return false;
    }
    let mut i: usize = 0;
    while i < a.len()
        invariant
            a@.len() == b@.len(),
            i <= a@.len(),
            forall|j: int| 0 <= j < i ==> a@[j] == b@[j],
        decreases a@.len() - i,
    {
        if a[i] != b[i] {
            return false;
        }
        i = i + 1;
    }
    assert(a@ =~= b@);
    true
}

} // verus!
