//! The hole-punching schedule of a peer that knows the other peer's public
//! endpoint: numbered probes, one per attempt, until something answers or
//! the attempts run out.

use vstd::prelude::*;
use crate::endpoint::Endpoint;
use crate::wire::{Datagram, decimal, push_decimal, bytes_equal};

verus! {

/// How many probes are sent before giving up.
pub const MAX_ATTEMPTS: u32 = 20u32;

/// `hello ` in ASCII.
pub open spec fn hello_prefix() -> Seq<u8> {
    seq![104u8, 101u8, 108u8, 108u8, 111u8, 32u8]
}

/// `ack` in ASCII.
pub open spec fn ack_text() -> Seq<u8> {
    seq![97u8, 99u8, 107u8]
}

/// The probe of attempt `n`: `hello n`.
pub open spec fn probe_payload(n: nat) -> Seq<u8> {
    hello_prefix() + decimal(n)
}

/// The probe text of attempt `attempt`.
pub fn hello_message(attempt: u32) -> (m: Vec<u8>)
    ensures
        m@ == probe_payload(attempt as nat),
{
    let mut m: Vec<u8> = vec![104u8, 101u8, 108u8, 108u8, 111u8, 32u8];
    assert(m@ =~= hello_prefix());
    push_decimal(&mut m, attempt);
    m
}

/// The answer to `ack`: nothing. Any other reply is answered with `ack`.
pub fn ack_reply() -> (m: Vec<u8>)
    ensures
        m@ == ack_text(),
{
    let m: Vec<u8> = vec![97u8, 99u8, 107u8];
    assert(m@ =~= ack_text());
    m
}

/// What became of one probe.
pub enum ProbeOutcome {
    /// A datagram arrived in time, with this payload, from this source.
    Reply { payload: Vec<u8>, source: Endpoint },
    /// Nothing arrived before the read timed out.
    Silence,
}

/// The hole-punching state: the remote endpoint and the current attempt,
/// numbered from 1.
pub struct Puncher {
    remote: Endpoint,
    attempt: u32,
}

/// What to do after a probe.
pub enum PunchStep {
    /// A path is open; send `ack` back first where there is one.
    Established { ack: Option<Datagram> },
    /// Probe again, with the next attempt.
    Retry(Puncher),
    /// Every attempt went unanswered.
    GaveUp,
}

/// The attempt that follows `attempt` after a silence, or `None` once the
/// last one went unanswered.
pub open spec fn next_attempt(attempt: nat) -> Option<nat> {
    if attempt < MAX_ATTEMPTS {
        Some(attempt + 1)
    } else {
        None
    }
}

/// The attempt reached after `k` silences from attempt 1.
pub open spec fn attempt_after_silences(k: nat) -> Option<nat>
    decreases k,
{
    if k == 0 {
        Some(1)
    } else {
        match attempt_after_silences((k - 1) as nat) {
            Some(a) => next_attempt(a),
            None => None,
        }
    }
}

impl Puncher {
    pub closed spec fn wf(&self) -> bool {
        1 <= self.attempt <= MAX_ATTEMPTS
    }

    pub closed spec fn spec_attempt(&self) -> nat {
        self.attempt as nat
    }

    pub closed spec fn spec_remote(&self) -> Endpoint {
        self.remote
    }

    /// The schedule for `remote`, at its first attempt.
    pub fn new(remote: Endpoint) -> (p: Puncher)
        ensures
            p.wf(),
            p.spec_attempt() == 1,
            p.spec_remote() == remote,
    {
        Puncher { remote, attempt: 1 }
    }

    /// The number of the current attempt.
    pub fn attempt(&self) -> (n: u32)
        ensures
            n == self.spec_attempt(),
    {
        self.attempt
    }

    /// The remote endpoint that the probes go to.
    pub fn remote(&self) -> (e: Endpoint)
        ensures
            e == self.spec_remote(),
    {
        self.remote
    }

    /// The probe of the current attempt: `hello N` to the remote endpoint.
    pub fn probe(&self) -> (d: Datagram)
        ensures
            d@ == (probe_payload(self.spec_attempt()), self.spec_remote()),
    {
        Datagram { payload: hello_message(self.attempt), to: self.remote }
    }

    /// Decides what follows a probe. A reply opens the path; it is answered
    /// with `ack` to its source unless it is itself `ack`. A silence moves on
    /// to the next attempt, or gives up after the last one.
    pub fn on_outcome(self, outcome: ProbeOutcome) -> (step: PunchStep)
        requires
            self.wf(),
        ensures
            match outcome {
                ProbeOutcome::Reply { payload, source } => match step {
                    PunchStep::Established { ack } => if payload@ == ack_text() {
                        ack is None
                    } else {
                        ack matches Some(d) && d@ == (ack_text(), source)
                    },
                    _ => false,
                },
                ProbeOutcome::Silence => match step {
                    PunchStep::Retry(next) => next.wf()
                        && next_attempt(self.spec_attempt()) == Some(next.spec_attempt())
                        && next.spec_remote() == self.spec_remote(),
                    PunchStep::GaveUp => next_attempt(self.spec_attempt()) is None,
                    _ => false,
                },
            },
    {
        match outcome {
            ProbeOutcome::Reply { payload, source } => {
                let ack = ack_reply();
                if bytes_equal(payload.as_slice(), ack.as_slice()) {
                    PunchStep::Established { ack: None }
                } else {
                    PunchStep::Established { ack: Some(Datagram { payload: ack, to: source }) }
                }
            },
            ProbeOutcome::Silence => {
                if self.attempt < MAX_ATTEMPTS {
                    PunchStep::Retry(Puncher { remote: self.remote, attempt: self.attempt + 1 })
                } else {
                    PunchStep::GaveUp
                }
            },
        }
    }
}

/// Without an answer, exactly `MAX_ATTEMPTS` probes go out: after `k`
/// silences the schedule stands at attempt `k + 1` while `k` is below
/// `MAX_ATTEMPTS`, and it has given up after `MAX_ATTEMPTS` silences.
pub proof fn law_attempts_are_bounded(k: nat)
    ensures
        k < MAX_ATTEMPTS ==> attempt_after_silences(k) == Some(k + 1),
        k >= MAX_ATTEMPTS ==> attempt_after_silences(k) is None,
    decreases k,
{
    if k > 0 {
        law_attempts_are_bounded((k - 1) as nat);
    }
}

/// The number that a string of ASCII decimal digits stands for.
pub open spec fn digits_value(s: Seq<u8>) -> int
    decreases s.len(),
{
    if s.len() == 0 {
        0
    } else {
        digits_value(s.drop_last()) * 10 + (s.last() - 48)
    }
}

/// The number in a probe is written in decimal, without leading zeros, and
/// reads back as the attempt number.
pub proof fn law_probe_number_reads_back(n: nat)
    ensures
        decimal(n).len() > 0,
        forall|i: int| 0 <= i < decimal(n).len() ==> 48 <= #[trigger] decimal(n)[i] <= 57,
        digits_value(decimal(n)) == n,
        n > 0 ==> decimal(n)[0] != 48u8,
        probe_payload(n).subrange(0, 6) == seq![104u8, 101u8, 108u8, 108u8, 111u8, 32u8],
        probe_payload(n).subrange(6, probe_payload(n).len() as int) == decimal(n),
    decreases n,
{
    if n >= 10 {
        law_probe_number_reads_back(n / 10);
        let d = decimal(n);
        assert(d == decimal(n / 10).push((48 + n % 10) as u8));
        assert(d.drop_last() =~= decimal(n / 10));
        assert forall|i: int| 0 <= i < d.len() implies 48 <= #[trigger] d[i] <= 57 by {
            if i < d.len() - 1 {
                assert(d[i] == decimal(n / 10)[i]);
            }
        }
        assert(d[0] == decimal(n / 10)[0]);
        assert(d.last() == (48 + n % 10) as u8);
        assert(digits_value(d) == digits_value(decimal(n / 10)) * 10 + (n % 10));
        assert((n / 10) * 10 + n % 10 == n) by (nonlinear_arith);
    } else {
        assert(decimal(n).drop_last() =~= Seq::<u8>::empty());
        assert(decimal(n).last() == (48 + n) as u8);
        assert(digits_value(decimal(n)) == digits_value(Seq::<u8>::empty()) * 10 + n);
    }
    assert(probe_payload(n).subrange(0, 6) =~= hello_prefix());
    assert(probe_payload(n).subrange(6, probe_payload(n).len() as int) =~= decimal(n));
}

/// Each silence moves to the next attempt, up to attempt `MAX_ATTEMPTS`, and
/// the silence after that one gives up.
pub proof fn law_next_attempt(n: nat)
    ensures
        1 <= n < 20 ==> next_attempt(n) == Some(n + 1),
        n == 20 ==> next_attempt(n) is None,
        MAX_ATTEMPTS == 20,
{
}

} // verus!
