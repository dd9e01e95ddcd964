use vstd::prelude::*;

verus! {

/// Largest request body, in bytes, that is handed to a guest.
pub const BODY_LIMIT: u64 = 65536;

pub const STATUS_PAYLOAD_TOO_LARGE: u16 = 413;

pub const STATUS_INTERNAL_ERROR: u16 = 500;

/// A declared upper bound on the body size is over the limit; an unknown bound is not.
pub open spec fn declared_over(declared: Option<u64>) -> bool {
    declared is Some && declared->Some_0 > BODY_LIMIT
}

/// Whether a request whose body size is bounded by `declared` is refused
/// before its body is read.
pub fn declared_too_large(declared: Option<u64>) -> (r: bool)
    ensures
        r == declared_over(declared),
{
    match declared {
        Some(n) => n > BODY_LIMIT,
        None => false,
    }
}

/// Where one request stands in its session with the guest.
#[derive(Clone, Copy, Debug, PartialEq, Eq, Structural)]
pub enum Stage {
    /// The sandbox and its four channels are being opened.
    Opening,
    /// The request metadata is being written; the body's declared bound is kept.
    SendingParts(Option<u64>),
    /// The request body is being read into memory.
    CollectingBody,
    /// The body is being written to the guest and its channel closed.
    SendingBody,
    /// The guest's entry point is running.
    Invoking,
    /// The response metadata is being decoded.
    Decoding,
    /// A response has been chosen and the session torn down.
    Finished,
}

/// What the host reports back after doing the work that the last action asked for.
#[derive(Clone, Copy, Debug, PartialEq, Eq, Structural)]
pub enum Event {
    /// The session is open; the request declares this upper bound on its body size.
    Opened(Option<u64>),
    /// The request metadata was written to the parts channel.
    PartsWritten,
    /// The whole body was read; this many bytes.
    BodyCollected(u64),
    /// The body was written and its channel closed.
    BodyWritten,
    /// The guest's entry point returned.
    GuestReturned,
    /// The response metadata was decoded; the guest answered with this status.
    Decoded(u16),
    /// An I/O, codec or guest failure at the current step.
    Failed,
}

/// The next piece of work for the host.
#[derive(Clone, Copy, Debug, PartialEq, Eq, Structural)]
pub enum Action {
    WriteParts,
    CollectBody,
    WriteBody,
    InvokeGuest,
    DecodeResponse,
    /// Answer with the guest's status, streaming the body from the body-read channel.
    ReplyFromGuest(u16),
    /// Answer with this status and an empty body.
    ReplyEmpty(u16),
    /// The session is over; nothing is left to do.
    Idle,
}

pub open spec fn fail_closed() -> (Stage, Action) {
    (Stage::Finished, Action::ReplyEmpty(STATUS_INTERNAL_ERROR))
}

/// One step of the session: each stage accepts only the event of its own step;
/// a failure, or any other event, ends the session with an internal error.
pub open spec fn step_spec(s: Stage, e: Event) -> (Stage, Action) {
    match s {
        Stage::Finished => (Stage::Finished, Action::Idle),
        Stage::Opening => match e {
            Event::Opened(d) => (Stage::SendingParts(d), Action::WriteParts),
            _ => fail_closed(),
        },
        Stage::SendingParts(d) => match e {
            Event::PartsWritten => if declared_over(d) {
                (Stage::Finished, Action::ReplyEmpty(STATUS_PAYLOAD_TOO_LARGE))
            } else {
                (Stage::CollectingBody, Action::CollectBody)
            },
            _ => fail_closed(),
        },
        Stage::CollectingBody => match e {
            Event::BodyCollected(n) => if n > BODY_LIMIT {
                (Stage::Finished, Action::ReplyEmpty(STATUS_PAYLOAD_TOO_LARGE))
            } else {
                (Stage::SendingBody, Action::WriteBody)
            },
            _ => fail_closed(),
        },
        Stage::SendingBody => match e {
            Event::BodyWritten => (Stage::Invoking, Action::InvokeGuest),
            _ => fail_closed(),
        },
        Stage::Invoking => match e {
            Event::GuestReturned => (Stage::Decoding, Action::DecodeResponse),
            _ => fail_closed(),
        },
        Stage::Decoding => match e {
            Event::Decoded(status) => (Stage::Finished, Action::ReplyFromGuest(status)),
            _ => fail_closed(),
        },
    }
}

/// The stage reached and the actions issued when the events arrive one by one.
pub open spec fn run(s: Stage, events: Seq<Event>) -> (Stage, Seq<Action>)
    decreases events.len(),
{
    if events.len() == 0 {
        (s, Seq::empty())
    } else {
        let (s1, a) = step_spec(s, events[0]);
        let (s2, rest) = run(s1, events.drop_first());
        (s2, seq![a] + rest)
    }
}

/// One step of a session.
pub fn step(s: Stage, e: Event) -> (r: (Stage, Action))
    ensures
        r == step_spec(s, e),
{
    match s {
        Stage::Finished => (Stage::Finished, Action::Idle),
        Stage::Opening => match e {
            Event::Opened(d) => (Stage::SendingParts(d), Action::WriteParts),
            _ => (Stage::Finished, Action::ReplyEmpty(STATUS_INTERNAL_ERROR)),
        },
        Stage::SendingParts(d) => match e {
            Event::PartsWritten => if declared_too_large(d) {
                (Stage::Finished, Action::ReplyEmpty(STATUS_PAYLOAD_TOO_LARGE))
            } else {
                (Stage::CollectingBody, Action::CollectBody)
            },
            _ => (Stage::Finished, Action::ReplyEmpty(STATUS_INTERNAL_ERROR)),
        },
        Stage::CollectingBody => match e {
            Event::BodyCollected(n) => if n > BODY_LIMIT {
                (Stage::Finished, Action::ReplyEmpty(STATUS_PAYLOAD_TOO_LARGE))
            } else {
                (Stage::SendingBody, Action::WriteBody)
            },
            _ => (Stage::Finished, Action::ReplyEmpty(STATUS_INTERNAL_ERROR)),
        },
        Stage::SendingBody => match e {
            Event::BodyWritten => (Stage::Invoking, Action::InvokeGuest),
            _ => (Stage::Finished, Action::ReplyEmpty(STATUS_INTERNAL_ERROR)),
        },
        Stage::Invoking => match e {
            Event::GuestReturned => (Stage::Decoding, Action::DecodeResponse),
            _ => (Stage::Finished, Action::ReplyEmpty(STATUS_INTERNAL_ERROR)),
        },
        Stage::Decoding => match e {
            Event::Decoded(status) => (Stage::Finished, Action::ReplyFromGuest(status)),
            _ => (Stage::Finished, Action::ReplyEmpty(STATUS_INTERNAL_ERROR)),
        },
    }
}

/// The session of one request: the host performs each action it returns and
/// reports the outcome as the next event.
pub struct RequestBridge {
    stage: Stage,
}

impl View for RequestBridge {
    type V = Stage;

    closed spec fn view(&self) -> Stage {
        self.stage
    }
}

impl RequestBridge {
    /// A session about to be opened.
    pub fn new() -> (r: Self)
        ensures
            r@ == Stage::Opening,
    {
        RequestBridge { stage: Stage::Opening }
    }

    pub fn stage(&self) -> (r: Stage)
        ensures
            r == self@,
    {
        self.stage
    }

    pub fn is_finished(&self) -> (r: bool)
        ensures
            r == (self@ == Stage::Finished),
    {
        match self.stage {
            Stage::Finished => true,
            _ => false,
        }
    }

    /// Takes in the outcome of the last action and says what to do next.
    pub fn advance(&mut self, e: Event) -> (r: Action)
        ensures
            (final(self)@, r) == step_spec(old(self)@, e),
    {
        let (s, a) = step(self.stage, e);
        self.stage = s;
        a
    }
}

/// Events that a well-behaved guest and working channels produce for a body
/// of `len` bytes declared with the bound `declared`, the guest answering `status`.
pub open spec fn smooth_session(declared: Option<u64>, len: u64, status: u16) -> Seq<Event> {
    seq![
        Event::Opened(declared),
        Event::PartsWritten,
        Event::BodyCollected(len),
        Event::BodyWritten,
        Event::GuestReturned,
        Event::Decoded(status),
    ]
}

/// Once finished, a session issues nothing but idle actions.
pub proof fn lemma_finished_stays_idle(events: Seq<Event>)
    ensures
        run(Stage::Finished, events).0 == Stage::Finished,
        forall|i: int| 0 <= i < run(Stage::Finished, events).1.len() ==> run(Stage::Finished, events).1[i]
            == Action::Idle,
        run(Stage::Finished, events).1.len() == events.len(),
    decreases events.len(),
{
    if events.len() > 0 {
        lemma_finished_stays_idle(events.drop_first());
    }
}

/// A request whose body is within the limit, served by a guest that answers
/// `status`, gets exactly that status with the guest's body, and the guest is
/// invoked once.
pub proof fn lemma_small_body_passes_through(declared: Option<u64>, len: u64, status: u16)
    requires
        len <= BODY_LIMIT,
        !declared_over(declared),
    ensures
        run(Stage::Opening, smooth_session(declared, len, status)).0 == Stage::Finished,
        run(Stage::Opening, smooth_session(declared, len, status)).1 == seq![
            Action::WriteParts,
            Action::CollectBody,
            Action::WriteBody,
            Action::InvokeGuest,
            Action::DecodeResponse,
            Action::ReplyFromGuest(status),
        ],
{
    let ev = smooth_session(declared, len, status);
    reveal_with_fuel(run, 7);
    assert(ev.drop_first() =~= seq![
        Event::PartsWritten,
        Event::BodyCollected(len),
        Event::BodyWritten,
        Event::GuestReturned,
        Event::Decoded(status),
    ]);
    assert(ev.drop_first().drop_first() =~= seq![
        Event::BodyCollected(len),
        Event::BodyWritten,
        Event::GuestReturned,
        Event::Decoded(status),
    ]);
    assert(ev.drop_first().drop_first().drop_first() =~= seq![
        Event::BodyWritten,
        Event::GuestReturned,
        Event::Decoded(status),
    ]);
    assert(ev.drop_first().drop_first().drop_first().drop_first() =~= seq![
        Event::GuestReturned,
        Event::Decoded(status),
    ]);
    assert(ev.drop_first().drop_first().drop_first().drop_first().drop_first() =~= seq![
        Event::Decoded(status),
    ]);
    assert(ev.drop_first().drop_first().drop_first().drop_first().drop_first().drop_first() =~= Seq::<
        Event,
    >::empty());
    assert(run(Stage::Opening, ev).1 =~= seq![
        Action::WriteParts,
        Action::CollectBody,
        Action::WriteBody,
        Action::InvokeGuest,
        Action::DecodeResponse,
        Action::ReplyFromGuest(status),
    ]);
}

/// No action in `acts` invokes the guest.
pub open spec fn never_invoked(acts: Seq<Action>) -> bool {
    forall|i: int| 0 <= i < acts.len() ==> acts[i] != Action::InvokeGuest
}

/// From a stage that must end the session at its next event, the guest is
/// never invoked.
proof fn lemma_ends_without_guest(s: Stage, events: Seq<Event>)
    requires
        events.len() > 0,
        step_spec(s, events[0]).0 == Stage::Finished,
        step_spec(s, events[0]).1 != Action::InvokeGuest,
    ensures
        never_invoked(run(s, events).1),
{
    lemma_finished_stays_idle(events.drop_first());
    let acts = run(s, events).1;
    assert(acts =~= seq![step_spec(s, events[0]).1] + run(Stage::Finished, events.drop_first()).1);
}

/// A request that declares a body over the limit is answered with payload too
/// large once its metadata is sent, and the guest is never invoked, whatever
/// the host reports afterwards.
pub proof fn lemma_declared_oversize_refused(declared: Option<u64>, rest: Seq<Event>)
    requires
        declared_over(declared),
    ensures
        never_invoked(run(Stage::Opening, seq![Event::Opened(declared)] + rest).1),
        rest.len() > 0 && rest[0] == Event::PartsWritten ==> run(
            Stage::Opening,
            seq![Event::Opened(declared)] + rest,
        ).1[1] == Action::ReplyEmpty(STATUS_PAYLOAD_TOO_LARGE),
{
    let evs = seq![Event::Opened(declared)] + rest;
    assert(evs.drop_first() =~= rest);
    let acts = run(Stage::Opening, evs).1;
    assert(acts =~= seq![Action::WriteParts] + run(Stage::SendingParts(declared), rest).1);
    if rest.len() > 0 {
        lemma_ends_without_guest(Stage::SendingParts(declared), rest);
        assert(run(Stage::SendingParts(declared), rest).1[0] == step_spec(
            Stage::SendingParts(declared),
            rest[0],
        ).1);
    }
    assert forall|i: int| 0 <= i < acts.len() implies acts[i] != Action::InvokeGuest by {
        if i > 0 {
            assert(acts[i] == run(Stage::SendingParts(declared), rest).1[i - 1]);
        }
    }
}

/// A request whose body turns out to be over the limit once read is answered
/// with payload too large, and the guest is never invoked, whatever the host
/// reports afterwards.
pub proof fn lemma_observed_oversize_refused(declared: Option<u64>, len: u64, rest: Seq<Event>)
    requires
        !declared_over(declared),
        len > BODY_LIMIT,
    ensures
        never_invoked(
            run(
                Stage::Opening,
                seq![Event::Opened(declared), Event::PartsWritten, Event::BodyCollected(len)] + rest,
            ).1,
        ),
        run(
            Stage::Opening,
            seq![Event::Opened(declared), Event::PartsWritten, Event::BodyCollected(len)] + rest,
        ).1[2] == Action::ReplyEmpty(STATUS_PAYLOAD_TOO_LARGE),
{
    let evs = seq![Event::Opened(declared), Event::PartsWritten, Event::BodyCollected(len)] + rest;
    let tail = seq![Event::BodyCollected(len)] + rest;
    assert(evs.drop_first().drop_first() =~= tail);
    lemma_ends_without_guest(Stage::CollectingBody, tail);
    let inner = run(Stage::CollectingBody, tail).1;
    assert(inner[0] == Action::ReplyEmpty(STATUS_PAYLOAD_TOO_LARGE));
    let mid = run(Stage::SendingParts(declared), evs.drop_first()).1;
    assert(mid =~= seq![Action::CollectBody] + inner);
    let acts = run(Stage::Opening, evs).1;
    assert(acts =~= seq![Action::WriteParts] + mid);
    assert forall|i: int| 0 <= i < acts.len() implies acts[i] != Action::InvokeGuest by {
        if i >= 2 {
            assert(acts[i] == inner[i - 2]);
        }
    }
}

} // verus!
