//! The session between two introduced peers: both keep punching every
//! candidate of the other until a `HELLO` or `ACK` comes back, the source of
//! the first one becomes the session's endpoint, and from then on lines
//! typed by the user travel to that endpoint only.

use vstd::prelude::*;
use vstd::utf8::encode_utf8;
use crate::endpoint::Endpoint;
use crate::wire::{Datagram, bytes_equal};

verus! {

/// `HELLO` in ASCII: the probe that both peers send to open their NATs.
pub open spec fn hello_word() -> Seq<u8> {
    seq![72u8, 69u8, 76u8, 76u8, 79u8]
}

/// `ACK` in ASCII: the answer to a probe.
pub open spec fn ack_word() -> Seq<u8> {
    seq![65u8, 67u8, 75u8]
}

/// `BYE` in ASCII: the last datagram of a session.
pub open spec fn bye_word() -> Seq<u8> {
    seq![66u8, 89u8, 69u8]
}

/// The command that ends the session.
pub open spec fn quit_command() -> Seq<char> {
    seq!['/', 'q', 'u', 'i', 't']
}

fn hello() -> (w: Vec<u8>)
    ensures
        w@ == hello_word(),
{
    let w: Vec<u8> = vec![72u8, 69u8, 76u8, 76u8, 79u8];
    assert(w@ =~= hello_word());
    w
}

fn ack() -> (w: Vec<u8>)
    ensures
        w@ == ack_word(),
{
    let w: Vec<u8> = vec![65u8, 67u8, 75u8];
    assert(w@ =~= ack_word());
    w
}

fn bye() -> (w: Vec<u8>)
    ensures
        w@ == bye_word(),
{
    let w: Vec<u8> = vec![66u8, 89u8, 69u8];
    assert(w@ =~= bye_word());
    w
}

/// Something that happened to a session.
pub enum Event {
    /// The punch interval elapsed.
    PunchTick,
    /// The time allowed for opening a path ran out.
    Deadline,
    /// A datagram arrived.
    Datagram { payload: Vec<u8>, from: Endpoint },
    /// The user typed a line, or closed the input (`None`).
    Line(Option<String>),
}

/// An event as plain values.
pub enum EventView {
    PunchTick,
    Deadline,
    Datagram(Seq<u8>, Endpoint),
    Line(Option<Seq<char>>),
}

impl View for Event {
    type V = EventView;

    open spec fn view(&self) -> EventView {
        match self {
            Event::PunchTick => EventView::PunchTick,
            Event::Deadline => EventView::Deadline,
            Event::Datagram { payload, from } => EventView::Datagram(payload@, *from),
            Event::Line(line) => match line {
                Some(text) => EventView::Line(Some(text@)),
                None => EventView::Line(None),
            },
        }
    }
}

/// What the user is told.
pub enum Report {
    /// Nothing.
    Quiet,
    /// A path to the other peer is open, through this endpoint.
    Connected(Endpoint),
    /// The other peer sent this message.
    Message(Vec<u8>),
    /// A line was typed before any path was open.
    NoPathYet,
    /// The other peer ended the session.
    PeerLeft,
    /// No candidate answered in time: there is no direct path.
    NoAnswer,
}

/// A report as plain values.
pub enum ReportView {
    Quiet,
    Connected(Endpoint),
    Message(Seq<u8>),
    NoPathYet,
    PeerLeft,
    NoAnswer,
}

impl View for Report {
    type V = ReportView;

    open spec fn view(&self) -> ReportView {
        match self {
            Report::Quiet => ReportView::Quiet,
            Report::Connected(e) => ReportView::Connected(*e),
            Report::Message(m) => ReportView::Message(m@),
            Report::NoPathYet => ReportView::NoPathYet,
            Report::PeerLeft => ReportView::PeerLeft,
            Report::NoAnswer => ReportView::NoAnswer,
        }
    }
}

/// The answer to an event: the datagrams to send, in order; then what to
/// tell the user; and whether the session is over.
pub struct Reaction {
    pub sends: Vec<Datagram>,
    pub report: Report,
    pub finished: bool,
}

/// A reaction as plain values.
pub struct ReactionView {
    pub sends: Seq<(Seq<u8>, Endpoint)>,
    pub report: ReportView,
    pub finished: bool,
}

impl View for Reaction {
    type V = ReactionView;

    open spec fn view(&self) -> ReactionView {
        ReactionView {
            sends: sent(self.sends@),
            report: self.report@,
            finished: self.finished,
        }
    }
}

/// The views of a list of datagrams.
pub open spec fn sent(s: Seq<Datagram>) -> Seq<(Seq<u8>, Endpoint)> {
    s.map_values(|d: Datagram| d@)
}

/// A `HELLO` to each of `candidates`, in order.
pub open spec fn punches(candidates: Seq<Endpoint>) -> Seq<(Seq<u8>, Endpoint)> {
    candidates.map_values(|c: Endpoint| (hello_word(), c))
}

/// A reaction that sends nothing, says nothing and goes on.
pub open spec fn nothing() -> ReactionView {
    ReactionView { sends: seq![], report: ReportView::Quiet, finished: false }
}

/// The end of the session: `BYE` to the endpoint, if there is one.
pub open spec fn farewell(endpoint: Option<Endpoint>) -> ReactionView {
    ReactionView {
        sends: match endpoint {
            Some(e) => seq![(bye_word(), e)],
            None => seq![],
        },
        report: ReportView::Quiet,
        finished: true,
    }
}

/// Whether a payload answers the punching: `HELLO` or `ACK`.
pub open spec fn is_answer(payload: Seq<u8>) -> bool {
    payload == hello_word() || payload == ack_word()
}

/// The session's endpoint after `event`: the source of the first `HELLO`
/// or `ACK`, kept for good once set.
pub open spec fn next_endpoint(endpoint: Option<Endpoint>, event: EventView) -> Option<Endpoint> {
    match event {
        EventView::Datagram(payload, from) => if endpoint is None && is_answer(payload) {
            Some(from)
        } else {
            endpoint
        },
        _ => endpoint,
    }
}

/// How a session with `endpoint` and the other peer's `candidates` answers
/// `event`.
pub open spec fn reaction(endpoint: Option<Endpoint>, candidates: Seq<Endpoint>, event: EventView) -> ReactionView {
    let connected_report = |from: Endpoint| if endpoint is None {
        ReportView::Connected(from)
    } else {
        ReportView::Quiet
    };
    match event {
        EventView::PunchTick => if endpoint is None {
            ReactionView {
                sends: punches(candidates),
                report: ReportView::Quiet,
                finished: false,
            }
        } else {
            nothing()
        },
        EventView::Deadline => if endpoint is None {
            ReactionView { sends: seq![], report: ReportView::NoAnswer, finished: true }
        } else {
            nothing()
        },
        EventView::Datagram(payload, from) => if payload == hello_word() {
            ReactionView { sends: seq![(ack_word(), from)], report: connected_report(from), finished: false }
        } else if payload == ack_word() {
            ReactionView { sends: seq![], report: connected_report(from), finished: false }
        } else if endpoint == Some(from) {
            if payload == bye_word() {
                ReactionView { sends: seq![], report: ReportView::PeerLeft, finished: true }
            } else {
                ReactionView { sends: seq![], report: ReportView::Message(payload), finished: false }
            }
        } else {
            nothing()
        },
        EventView::Line(None) => farewell(endpoint),
        EventView::Line(Some(text)) => if text == quit_command() {
            farewell(endpoint)
        } else if text.len() == 0 {
            nothing()
        } else {
            match endpoint {
                Some(e) => ReactionView {
                    sends: seq![(encode_utf8(text), e)],
                    report: ReportView::Quiet,
                    finished: false,
                },
                None => ReactionView { sends: seq![], report: ReportView::NoPathYet, finished: false },
            }
        },
    }
}

/// A session with the other peer, known by its candidates.
pub struct Session {
    endpoint: Option<Endpoint>,
    candidates: Vec<Endpoint>,
}

impl Session {
    /// The endpoint of the other peer, once a path is open.
    pub closed spec fn spec_endpoint(&self) -> Option<Endpoint> {
        self.endpoint
    }

    /// The other peer's candidates.
    pub closed spec fn spec_candidates(&self) -> Seq<Endpoint> {
        self.candidates@
    }

    /// A session with no path yet, towards the given candidates.
    pub fn new(candidates: Vec<Endpoint>) -> (s: Session)
        ensures
            s.spec_endpoint() is None,
            s.spec_candidates() == candidates@,
    {
        Session { endpoint: None, candidates }
    }

    /// The endpoint of the other peer, once a path is open.
    pub fn endpoint(&self) -> (e: Option<Endpoint>)
        ensures
            e == self.spec_endpoint(),
    {
        self.endpoint
    }

    fn punch_all(&self) -> (sends: Vec<Datagram>)
        ensures
            sent(sends@) == punches(self.candidates@),
    {
        let mut sends: Vec<Datagram> = Vec::new();
        let mut i: usize = 0;
        while i < self.candidates.len()
            invariant
                i <= self.candidates@.len(),
                sends@.len() == i,
                sent(sends@) == punches(self.candidates@.subrange(0, i as int)),
            decreases self.candidates@.len() - i,
        {
            let ghost before = sends@;
            let d = Datagram { payload: hello(), to: self.candidates[i] };
            sends.push(d);
            proof {
                let done = punches(self.candidates@.subrange(0, i as int));
                assert forall|j: int| 0 <= j < sends@.len() implies #[trigger] sent(sends@)[j]
                    == punches(self.candidates@.subrange(0, i + 1))[j] by {
                    if j < i {
                        assert(sends@[j] == before[j]);
                        assert(sent(before)[j] == done[j]);
                    }
                }
            }
            i = i + 1;
            assert(sent(sends@) =~= punches(self.candidates@.subrange(0, i as int)));
        }
        assert(self.candidates@.subrange(0, self.candidates@.len() as int) =~= self.candidates@);
        sends
    }

    fn connect(&mut self, from: Endpoint) -> (r: Report)
        ensures
            final(self).candidates == old(self).candidates,
            final(self).endpoint == if old(self).endpoint is None { Some(from) } else { old(self).endpoint },
            r@ == if old(self).endpoint is None { ReportView::Connected(from) } else { ReportView::Quiet },
    {
        if self.endpoint.is_none() {
            self.endpoint = Some(from);
            Report::Connected(from)
        } else {
            Report::Quiet
        }
    }

    fn finish(&self) -> (r: Reaction)
        ensures
            r@ == farewell(self.endpoint),
    {
        let mut sends: Vec<Datagram> = Vec::new();
        match self.endpoint {
            Some(e) => {
                sends.push(Datagram { payload: bye(), to: e });
            },
            None => {},
        }
        let r = Reaction { sends, report: Report::Quiet, finished: true };
        assert(r@.sends =~= farewell(self.endpoint).sends);
        r
    }

    /// Answers one event; see `reaction` and `next_endpoint`.
    pub fn step(&mut self, event: Event) -> (r: Reaction)
        ensures
            final(self).spec_candidates() == old(self).spec_candidates(),
            final(self).spec_endpoint() == next_endpoint(old(self).spec_endpoint(), event@),
            r@ == reaction(old(self).spec_endpoint(), old(self).spec_candidates(), event@),
    {
        match event {
            Event::PunchTick => {
                if self.endpoint.is_none() {
                    let sends = self.punch_all();
                    Reaction { sends, report: Report::Quiet, finished: false }
                } else {
                    let r = Reaction { sends: Vec::new(), report: Report::Quiet, finished: false };
                    assert(r@.sends =~= nothing().sends);
                    r
                }
            },
            Event::Deadline => {
                let r = if self.endpoint.is_none() {
                    Reaction { sends: Vec::new(), report: Report::NoAnswer, finished: true }
                } else {
                    Reaction { sends: Vec::new(), report: Report::Quiet, finished: false }
                };
                assert(r@.sends =~= Seq::<(Seq<u8>, Endpoint)>::empty());
                r
            },
            Event::Datagram { payload, from } => {
                let h = hello();
                let a = ack();
                let b = bye();
                if bytes_equal(payload.as_slice(), h.as_slice()) {
                    let mut sends: Vec<Datagram> = Vec::new();
                    sends.push(Datagram { payload: a, to: from });
                    let report = self.connect(from);
                    let r = Reaction { sends, report, finished: false };
                    assert(r@.sends =~= seq![(ack_word(), from)]);
                    r
                } else if bytes_equal(payload.as_slice(), a.as_slice()) {
                    let report = self.connect(from);
                    let r = Reaction { sends: Vec::new(), report, finished: false };
                    assert(r@.sends =~= Seq::<(Seq<u8>, Endpoint)>::empty());
                    r
                } else {
                    let from_endpoint = match self.endpoint {
                        Some(e) => e == from,
                        None => false,
                    };
                    let r = if from_endpoint {
                        if bytes_equal(payload.as_slice(), b.as_slice()) {
                            Reaction { sends: Vec::new(), report: Report::PeerLeft, finished: true }
                        } else {
                            Reaction { sends: Vec::new(), report: Report::Message(payload), finished: false }
                        }
                    } else {
                        Reaction { sends: Vec::new(), report: Report::Quiet, finished: false }
                    };
                    assert(r@.sends =~= Seq::<(Seq<u8>, Endpoint)>::empty());
                    r
                }
            },
            Event::Line(line) => {
                match line {
                    None => self.finish(),
                    Some(text) => {
                        let quit: String = "/quit".to_owned();
                        proof {
                            reveal_strlit("/quit");
                            assert(quit@ =~= quit_command());
                        }
                        if text == quit {
                            self.finish()
                        } else if text.as_str().is_empty() {
                            let r = Reaction { sends: Vec::new(), report: Report::Quiet, finished: false };
                            assert(r@.sends =~= nothing().sends);
                            r
                        } else {
                            match self.endpoint {
                                Some(e) => {
                                    let bytes = vstd::slice::slice_to_vec(text.as_str().as_bytes());
                                    let mut sends: Vec<Datagram> = Vec::new();
                                    sends.push(Datagram { payload: bytes, to: e });
                                    let r = Reaction { sends, report: Report::Quiet, finished: false };
                                    assert(r@.sends =~= seq![(encode_utf8(text@), e)]);
                                    r
                                },
                                None => {
                                    let r = Reaction { sends: Vec::new(), report: Report::NoPathYet, finished: false };
                                    assert(r@.sends =~= Seq::<(Seq<u8>, Endpoint)>::empty());
                                    r
                                },
                            }
                        }
                    },
                }
            },
        }
    }
}

/// The session's endpoint after `events`, starting from `start`.
pub open spec fn endpoint_after(start: Option<Endpoint>, events: Seq<EventView>) -> Option<Endpoint>
    decreases events.len(),
{
    if events.len() == 0 {
        start
    } else {
        endpoint_after(next_endpoint(start, events[0]), events.drop_first())
    }
}

/// The source of the first `HELLO` or `ACK` datagram among `events`.
pub open spec fn first_responder(events: Seq<EventView>) -> Option<Endpoint>
    decreases events.len(),
{
    if events.len() == 0 {
        None
    } else {
        match events[0] {
            EventView::Datagram(payload, from) => if is_answer(payload) {
                Some(from)
            } else {
                first_responder(events.drop_first())
            },
            _ => first_responder(events.drop_first()),
        }
    }
}

/// Once a path is open, no event changes the session's endpoint.
pub proof fn law_endpoint_kept(e: Endpoint, events: Seq<EventView>)
    ensures
        endpoint_after(Some(e), events) == Some(e),
    decreases events.len(),
{
    if events.len() > 0 {
        law_endpoint_kept(e, events.drop_first());
    }
}

/// The origin of the first valid answer becomes the session's endpoint:
/// from a session with no path, the endpoint after any events is the
/// source of the first `HELLO` or `ACK` among them.
pub proof fn law_first_answer_wins(events: Seq<EventView>)
    ensures
        endpoint_after(None, events) == first_responder(events),
    decreases events.len(),
{
    if events.len() > 0 {
        let next = next_endpoint(None, events[0]);
        match next {
            Some(e) => law_endpoint_kept(e, events.drop_first()),
            None => law_first_answer_wins(events.drop_first()),
        }
    }
}

/// Punching and its deadline stop once a path is open.
pub proof fn law_quiet_once_connected(e: Endpoint, candidates: Seq<Endpoint>)
    ensures
        reaction(Some(e), candidates, EventView::PunchTick) == nothing(),
        reaction(Some(e), candidates, EventView::Deadline) == nothing(),
{
}

/// Until a path is open, every punch sends `HELLO` to each candidate of the
/// other peer and to nothing else.
pub proof fn law_punches_reach_every_candidate(candidates: Seq<Endpoint>)
    ensures
        reaction(None, candidates, EventView::PunchTick).sends.len() == candidates.len(),
        forall|i: int| 0 <= i < candidates.len() ==>
            #[trigger] reaction(None, candidates, EventView::PunchTick).sends[i] == (hello_word(), candidates[i]),
{
}

/// Every `HELLO` is answered with `ACK` to its source, whatever the state.
pub proof fn law_hello_answered(endpoint: Option<Endpoint>, candidates: Seq<Endpoint>, from: Endpoint)
    ensures
        reaction(endpoint, candidates, EventView::Datagram(hello_word(), from)).sends == seq![(ack_word(), from)],
{
}

/// Messages are shown only when they come from the session's endpoint.
pub proof fn law_messages_only_from_endpoint(
    endpoint: Option<Endpoint>,
    candidates: Seq<Endpoint>,
    event: EventView,
)
    requires
        reaction(endpoint, candidates, event).report is Message,
    ensures
        event matches EventView::Datagram(payload, from) && endpoint == Some(from)
            && reaction(endpoint, candidates, event).report == ReportView::Message(payload),
{
}

/// Typed lines travel only to the session's endpoint, and only once there
/// is one.
pub proof fn law_lines_only_to_endpoint(endpoint: Option<Endpoint>, candidates: Seq<Endpoint>, line: Option<Seq<char>>)
    ensures
        forall|i: int| 0 <= i < reaction(endpoint, candidates, EventView::Line(line)).sends.len() ==>
            endpoint == Some(#[trigger] reaction(endpoint, candidates, EventView::Line(line)).sends[i].1),
{
}

/// The session ends only when the deadline passes without a path, when the
/// endpoint says `BYE`, or when the user quits or closes the input; quitting
/// with a path open says `BYE` to the endpoint.
pub proof fn law_when_the_session_ends(endpoint: Option<Endpoint>, candidates: Seq<Endpoint>, event: EventView)
    ensures
        reaction(endpoint, candidates, event).finished <==> {
            ||| event is Deadline && endpoint is None
            ||| event matches EventView::Datagram(payload, from) && payload == bye_word() && endpoint == Some(from)
            ||| event matches EventView::Line(line) && (line is None || line == Some(quit_command()))
        },
        (event matches EventView::Line(line) && (line is None || line == Some(quit_command())))
            ==> reaction(endpoint, candidates, event) == farewell(endpoint),
{
    assert(bye_word() != hello_word());
    assert(bye_word() != ack_word());
}

/// Every datagram a session sends goes to a candidate of the other peer (a
/// `HELLO`), back to the source of a `HELLO` (its `ACK`), or to the
/// session's endpoint.
pub proof fn law_every_send_is_addressed(endpoint: Option<Endpoint>, candidates: Seq<Endpoint>, event: EventView)
    ensures
        forall|i: int| 0 <= i < reaction(endpoint, candidates, event).sends.len() ==> {
            let d = #[trigger] reaction(endpoint, candidates, event).sends[i];
            ||| d.0 == hello_word() && candidates.contains(d.1)
            ||| d.0 == ack_word() && event == EventView::Datagram(hello_word(), d.1)
            ||| endpoint == Some(d.1)
        },
{
    let r = reaction(endpoint, candidates, event);
    assert forall|i: int| 0 <= i < r.sends.len() implies {
        let d = #[trigger] r.sends[i];
        ||| d.0 == hello_word() && candidates.contains(d.1)
        ||| d.0 == ack_word() && event == EventView::Datagram(hello_word(), d.1)
        ||| endpoint == Some(d.1)
    } by {
        if event is PunchTick && endpoint is None {
            assert(r.sends[i] == (hello_word(), candidates[i]));
            assert(candidates.contains(candidates[i]));
        }
    }
}

/// A session with no path takes an endpoint from a `HELLO` or an `ACK`,
/// and from nothing else: any other datagram, and any other event, leaves
/// it without one.
pub proof fn law_path_opens_only_on_hello_or_ack(payload: Seq<u8>, from: Endpoint, line: Option<Seq<char>>)
    ensures
        next_endpoint(None, EventView::Datagram(payload, from)) == (if payload == hello_word()
            || payload == ack_word() {
            Some(from)
        } else {
            None
        }),
        next_endpoint(None, EventView::PunchTick) == None::<Endpoint>,
        next_endpoint(None, EventView::Deadline) == None::<Endpoint>,
        next_endpoint(None, EventView::Line(line)) == None::<Endpoint>,
{
}

/// A session with a path keeps it through any single event.
pub proof fn law_path_kept_by_every_event(e: Endpoint, event: EventView)
    ensures
        next_endpoint(Some(e), event) == Some(e),
{
}

/// Before a path opens: a `HELLO` is acknowledged and reports the path
/// through its source, an `ACK` reports the path through its source, and
/// any other datagram is ignored.
pub proof fn law_answers_before_the_path(candidates: Seq<Endpoint>, payload: Seq<u8>, from: Endpoint)
    ensures
        payload == hello_word() ==> reaction(None, candidates, EventView::Datagram(payload, from))
            == (ReactionView { sends: seq![(ack_word(), from)], report: ReportView::Connected(from), finished: false }),
        payload == ack_word() ==> reaction(None, candidates, EventView::Datagram(payload, from))
            == (ReactionView { sends: seq![], report: ReportView::Connected(from), finished: false }),
        payload != hello_word() && payload != ack_word() ==> reaction(
            None,
            candidates,
            EventView::Datagram(payload, from),
        ) == (ReactionView { sends: seq![], report: ReportView::Quiet, finished: false }),
{
}

/// With a path open: every datagram from the endpoint other than the three
/// protocol words is shown as a message; `BYE` from it ends the session; a
/// datagram from anyone else that is not a `HELLO` or `ACK` is ignored; a
/// `HELLO` from anywhere is still acknowledged without a new report.
pub proof fn law_datagrams_with_a_path(e: Endpoint, candidates: Seq<Endpoint>, payload: Seq<u8>, from: Endpoint)
    ensures
        payload != hello_word() && payload != ack_word() && payload != bye_word() ==> reaction(
            Some(e),
            candidates,
            EventView::Datagram(payload, e),
        ) == (ReactionView { sends: seq![], report: ReportView::Message(payload), finished: false }),
        reaction(Some(e), candidates, EventView::Datagram(bye_word(), e))
            == (ReactionView { sends: seq![], report: ReportView::PeerLeft, finished: true }),
        from != e && payload != hello_word() && payload != ack_word() ==> reaction(
            Some(e),
            candidates,
            EventView::Datagram(payload, from),
        ) == (ReactionView { sends: seq![], report: ReportView::Quiet, finished: false }),
        reaction(Some(e), candidates, EventView::Datagram(hello_word(), from))
            == (ReactionView { sends: seq![(ack_word(), from)], report: ReportView::Quiet, finished: false }),
        reaction(Some(e), candidates, EventView::Datagram(ack_word(), from))
            == (ReactionView { sends: seq![], report: ReportView::Quiet, finished: false }),
{
    assert(bye_word() != hello_word());
    assert(bye_word() != ack_word());
}

/// A typed line that is neither empty nor `/quit` goes, as its UTF-8 bytes,
/// to the endpoint once there is one; before that the user is told there is
/// no path yet. An empty line does nothing.
pub proof fn law_typed_lines(endpoint: Option<Endpoint>, candidates: Seq<Endpoint>, text: Seq<char>)
    ensures
        text != quit_command() && text.len() > 0 ==> match endpoint {
            Some(e) => reaction(endpoint, candidates, EventView::Line(Some(text)))
                == (ReactionView { sends: seq![(encode_utf8(text), e)], report: ReportView::Quiet, finished: false }),
            None => reaction(endpoint, candidates, EventView::Line(Some(text)))
                == (ReactionView { sends: seq![], report: ReportView::NoPathYet, finished: false }),
        },
        text.len() == 0 ==> reaction(endpoint, candidates, EventView::Line(Some(text)))
            == (ReactionView { sends: seq![], report: ReportView::Quiet, finished: false }),
{
}

/// `/quit` and the end of the input end the session, saying `BYE` to the
/// endpoint when there is one and sending nothing otherwise.
pub proof fn law_quitting(endpoint: Option<Endpoint>, candidates: Seq<Endpoint>, line: Option<Seq<char>>)
    requires
        line is None || line == Some(quit_command()),
    ensures
        reaction(endpoint, candidates, EventView::Line(line)) == (match endpoint {
            Some(e) => ReactionView { sends: seq![(bye_word(), e)], report: ReportView::Quiet, finished: true },
            None => ReactionView { sends: seq![], report: ReportView::Quiet, finished: true },
        }),
{
}

/// Without a path, a punch sends `HELLO` to the candidates and goes on, and
/// the deadline ends the session reporting that no candidate answered; with
/// a path, both do nothing.
pub proof fn law_punching_and_deadline(endpoint: Option<Endpoint>, candidates: Seq<Endpoint>)
    ensures
        endpoint is None ==> reaction(endpoint, candidates, EventView::Deadline)
            == (ReactionView { sends: seq![], report: ReportView::NoAnswer, finished: true }),
        endpoint is None ==> reaction(endpoint, candidates, EventView::PunchTick).report == ReportView::Quiet
            && !reaction(endpoint, candidates, EventView::PunchTick).finished,
        endpoint is Some ==> reaction(endpoint, candidates, EventView::Deadline)
            == (ReactionView { sends: seq![], report: ReportView::Quiet, finished: false }),
        endpoint is Some ==> reaction(endpoint, candidates, EventView::PunchTick)
            == (ReactionView { sends: seq![], report: ReportView::Quiet, finished: false }),
{
}

} // verus!
