//! One cycle, from the trigger to the pool's answer.
//!
//! A cycle moves through its stages in one direction: it fetches, reads the
//! record, has it signed and submits it. At each stage it asks its caller for
//! one thing and waits for the event that reports it. The first failure ends
//! the cycle; so does the pool's answer. An event that the stage does not wait
//! for changes nothing and asks for nothing.

use crate::error::{Failure, NetworkError, SigningError, SubmissionError};
use crate::fetch::{check_status, deadline_of, decode_body, status_verdict, Fetcher, RequestStatus};
use crate::payload::{
    build, package, payload_encoding, select_identity, signing_message, submission_result,
    Identity, OffchainPayload, SubmissionCall,
};
use crate::record::{parse, parse_record, OracleRecord};
use vstd::prelude::*;
use vstd::string::*;
use vstd::utf8::*;

verus! {

/// Where a cycle stands.
#[derive(Debug, PartialEq, Eq)]
pub enum Stage<P> {
    /// Nothing has happened yet.
    Start,
    /// The request is out; its status is awaited until the deadline.
    Fetching { deadline: u64 },
    /// A response with status 200 is there; its body is awaited.
    Fetched,
    /// The record is read; the local identities are awaited.
    Parsed { record: OracleRecord },
    /// The payload is built for the chosen identity; its signature is awaited.
    Signing { payload: OffchainPayload<P> },
    /// The call is with the pool; its answer is awaited.
    Submitting,
    /// The pool took the call.
    Done,
    /// The cycle ended without a call that the pool took.
    Failed(Failure),
}

/// What the caller reports to a cycle.
#[derive(Debug)]
pub enum Event<P, S> {
    /// The cycle is to run; the clock shows `now_ms`.
    Triggered { now_ms: u64 },
    /// The transport's report on the request.
    Status(RequestStatus),
    /// The whole body of the response.
    Body(Vec<u8>),
    /// The identities that can sign here, in the order in which the keys were enrolled.
    Identities(Vec<Identity<P>>),
    /// The signature over the message, or none where the key gave none.
    Signature(Option<S>),
    /// The pool's answer.
    Submitted { accepted: bool },
}

/// What a cycle asks of its caller.
#[derive(Debug, PartialEq, Eq)]
pub enum Action<S> {
    /// Send one GET request to the fetcher's address and wait for its status until the deadline.
    Fetch { deadline: u64 },
    /// Read the whole body of the response.
    ReadBody,
    /// List the identities that can sign here.
    ListIdentities,
    /// Sign the message once, with the key of the cycle's signer.
    Sign { message: Vec<u8> },
    /// Hand the call to the pool, once.
    Submit { call: SubmissionCall<S> },
    /// Nothing.
    Nothing,
}

/// An action, with the message as a sequence of bytes.
pub enum ActionView<S> {
    Fetch { deadline: u64 },
    ReadBody,
    ListIdentities,
    Sign { message: Seq<u8> },
    Submit { call: SubmissionCall<S> },
    Nothing,
}

impl<S> View for Action<S> {
    type V = ActionView<S>;

    open spec fn view(&self) -> ActionView<S> {
        match *self {
            Action::Fetch { deadline } => ActionView::Fetch { deadline },
            Action::ReadBody => ActionView::ReadBody,
            Action::ListIdentities => ActionView::ListIdentities,
            Action::Sign { message } => ActionView::Sign { message: message@ },
            Action::Submit { call } => ActionView::Submit { call },
            Action::Nothing => ActionView::Nothing,
        }
    }
}

/// A cycle: the fetcher that it was set up with, and where it stands.
#[derive(Debug)]
pub struct Cycle<P> {
    pub fetcher: Fetcher,
    pub stage: Stage<P>,
}

/// The stage after a body has come: the record, where the body is text and states one.
pub open spec fn stage_after_body<P>(body: Seq<u8>) -> Stage<P> {
    if !valid_utf8(body) {
        Stage::Failed(Failure::Network(NetworkError::Undecodable))
    } else {
        match parse_record(body) {
            Some(record) => Stage::Parsed { record },
            None => Stage::Failed(Failure::Parse),
        }
    }
}

/// The payload for a record and the first of the identities.
pub open spec fn payload_for<P>(record: OracleRecord, identities: Seq<Identity<P>>)
    -> OffchainPayload<P> {
    OffchainPayload {
        class_id: record.class_id,
        instance_id: record.instance_id,
        public: identities[0].public,
        views: record.views,
        votes: record.votes,
    }
}

/// The stage that follows `stage` on `event`, for a fetcher that allows `timeout_ms`.
pub open spec fn next_stage<P, S>(timeout_ms: u64, stage: Stage<P>, event: Event<P, S>) -> Stage<
    P,
> {
    match (stage, event) {
        (Stage::Start, Event::Triggered { now_ms }) => Stage::Fetching {
            deadline: deadline_of(now_ms, timeout_ms),
        },
        (Stage::Fetching { .. }, Event::Status(status)) => match status_verdict(status) {
            Ok(_) => Stage::Fetched,
            Err(e) => Stage::Failed(Failure::Network(e)),
        },
        (Stage::Fetched, Event::Body(body)) => stage_after_body(body@),
        (Stage::Parsed { record }, Event::Identities(identities)) => if identities@.len() == 0 {
            Stage::Failed(Failure::Signing(SigningError::NoLocalAccount))
        } else {
            Stage::Signing { payload: payload_for(record, identities@) }
        },
        (Stage::Signing { .. }, Event::Signature(signature)) => match signature {
            Some(_) => Stage::Submitting,
            None => Stage::Failed(Failure::Signing(SigningError::NoLocalAccount)),
        },
        (Stage::Submitting, Event::Submitted { accepted }) => if accepted {
            Stage::Done
        } else {
            Stage::Failed(Failure::Submission(SubmissionError::Rejected))
        },
        _ => stage,
    }
}

/// What is asked of the caller when `event` comes at `stage`.
pub open spec fn next_action<P, S>(timeout_ms: u64, stage: Stage<P>, event: Event<P, S>)
    -> ActionView<S> {
    match (stage, event) {
        (Stage::Start, Event::Triggered { now_ms }) => ActionView::Fetch {
            deadline: deadline_of(now_ms, timeout_ms),
        },
        (Stage::Fetching { .. }, Event::Status(status)) => match status_verdict(status) {
            Ok(_) => ActionView::ReadBody,
            Err(_) => ActionView::Nothing,
        },
        (Stage::Fetched, Event::Body(body)) => if valid_utf8(body@) && parse_record(body@)
            is Some {
            ActionView::ListIdentities
        } else {
            ActionView::Nothing
        },
        (Stage::Parsed { record }, Event::Identities(identities)) => if identities@.len() == 0 {
            ActionView::Nothing
        } else {
            ActionView::Sign {
                message: payload_encoding(
                    payload_for(record, identities@),
                    identities@[0].encoded@,
                ),
            }
        },
        (Stage::Signing { payload }, Event::Signature(signature)) => match signature {
            Some(signature) => ActionView::Submit {
                call: SubmissionCall {
                    class_id: payload.class_id,
                    instance_id: payload.instance_id,
                    signature,
                    views: payload.views,
                    votes: payload.votes,
                },
            },
            None => ActionView::Nothing,
        },
        _ => ActionView::Nothing,
    }
}

/// Whether a stage is one at which a cycle has ended.
pub open spec fn settled<P>(stage: Stage<P>) -> bool {
    stage is Done || stage is Failed
}

/// How a cycle ended, if it has.
pub open spec fn outcome_of<P>(stage: Stage<P>) -> Option<Result<(), Failure>> {
    match stage {
        Stage::Done => Some(Ok(())),
        Stage::Failed(failure) => Some(Err(failure)),
        _ => None,
    }
}

impl<P> Cycle<P> {
    /// A cycle that has not begun, for the given fetcher.
    pub fn new(fetcher: Fetcher) -> (cycle: Cycle<P>)
        ensures
            cycle.fetcher == fetcher,
            cycle.stage == Stage::<P>::Start,
    {
        Cycle { fetcher, stage: Stage::Start }
    }

    /// Takes one event and says what is to be done next.
    ///
    /// The new stage and the action are those that the stage and the event
    /// determine; the fetcher stays as it is.
    pub fn step<S>(self, event: Event<P, S>) -> (r: (Cycle<P>, Action<S>))
        ensures
            r.0.fetcher == self.fetcher,
            r.0.stage == next_stage(self.fetcher.timeout_ms, self.stage, event),
            r.1@ == next_action(self.fetcher.timeout_ms, self.stage, event),
    {
        let fetcher = self.fetcher;
        match (self.stage, event) {
            (Stage::Start, Event::Triggered { now_ms }) => {
                let deadline: u64 = fetcher.deadline(now_ms);
                (Cycle { fetcher, stage: Stage::Fetching { deadline } }, Action::Fetch { deadline })
            },
            (Stage::Fetching { .. }, Event::Status(status)) => match check_status(status) {
                Ok(_) => (Cycle { fetcher, stage: Stage::Fetched }, Action::ReadBody),
                Err(e) => (
                    Cycle { fetcher, stage: Stage::Failed(Failure::Network(e)) },
                    Action::Nothing,
                ),
            },
            (Stage::Fetched, Event::Body(body)) => match decode_body(body) {
                Ok(text) => match parse(text.as_str()) {
                    Some(record) => (
                        Cycle { fetcher, stage: Stage::Parsed { record } },
                        Action::ListIdentities,
                    ),
                    None => (
                        Cycle { fetcher, stage: Stage::Failed(Failure::Parse) },
                        Action::Nothing,
                    ),
                },
                Err(e) => (
                    Cycle { fetcher, stage: Stage::Failed(Failure::Network(e)) },
                    Action::Nothing,
                ),
            },
            (Stage::Parsed { record }, Event::Identities(identities)) => match select_identity(
                identities,
            ) {
                Ok(identity) => {
                    let payload: OffchainPayload<P> = build(record, identity.public);
                    let message: Vec<u8> = signing_message(&payload, identity.encoded.as_slice());
                    (Cycle { fetcher, stage: Stage::Signing { payload } }, Action::Sign { message })
                },
                Err(e) => (
                    Cycle { fetcher, stage: Stage::Failed(Failure::Signing(e)) },
                    Action::Nothing,
                ),
            },
            (Stage::Signing { payload }, Event::Signature(signature)) => match signature {
                Some(signature) => (
                    Cycle { fetcher, stage: Stage::Submitting },
                    Action::Submit { call: package(payload, signature) },
                ),
                None => (
                    Cycle {
                        fetcher,
                        stage: Stage::Failed(Failure::Signing(SigningError::NoLocalAccount)),
                    },
                    Action::Nothing,
                ),
            },
            (Stage::Submitting, Event::Submitted { accepted }) => match submission_result(
                accepted,
            ) {
                Ok(_) => (Cycle { fetcher, stage: Stage::Done }, Action::Nothing),
                Err(e) => (
                    Cycle { fetcher, stage: Stage::Failed(Failure::Submission(e)) },
                    Action::Nothing,
                ),
            },
            (stage, _) => (Cycle { fetcher, stage }, Action::Nothing),
        }
    }

    /// How the cycle ended: `None` while it has not.
    pub fn outcome(&self) -> (r: Option<Result<(), Failure>>)
        ensures
            r == outcome_of(self.stage),
    {
        match &self.stage {
            Stage::Done => Some(Ok(())),
            Stage::Failed(failure) => Some(Err(*failure)),
            _ => None,
        }
    }

    /// The public key of the identity that is to sign, while a signature is awaited.
    pub fn signer(&self) -> (r: Option<&P>)
        ensures
            match r {
                Some(key) => self.stage is Signing && *key == self.stage->payload.public,
                None => !(self.stage is Signing),
            },
    {
        match &self.stage {
            Stage::Signing { payload } => Some(payload.public()),
            _ => None,
        }
    }
}

/// The stage that a cycle reaches from `stage` when the events come one after the other.
pub open spec fn run<P, S>(timeout_ms: u64, stage: Stage<P>, events: Seq<Event<P, S>>) -> Stage<P>
    decreases events.len(),
{
    if events.len() == 0 {
        stage
    } else {
        run(timeout_ms, next_stage(timeout_ms, stage, events[0]), events.skip(1))
    }
}

/// What a cycle asks for, event by event, when the events come one after the other.
pub open spec fn asked<P, S>(timeout_ms: u64, stage: Stage<P>, events: Seq<Event<P, S>>) -> Seq<
    ActionView<S>,
>
    decreases events.len(),
{
    if events.len() == 0 {
        Seq::empty()
    } else {
        seq![next_action(timeout_ms, stage, events[0])] + asked(
            timeout_ms,
            next_stage(timeout_ms, stage, events[0]),
            events.skip(1),
        )
    }
}

/// Whether a stage comes before the one at which a signature is awaited.
pub open spec fn before_signing<P>(stage: Stage<P>) -> bool {
    stage is Start || stage is Fetching || stage is Fetched || stage is Parsed
}

/// Whether an event brings no identity: it is no list of identities, or an empty one.
pub open spec fn brings_no_identity<P, S>(event: Event<P, S>) -> bool {
    event matches Event::Identities(identities) ==> identities@.len() == 0
}

/// A run answers each of its events with one action.
pub proof fn lemma_asked_len<P, S>(timeout_ms: u64, stage: Stage<P>, events: Seq<Event<P, S>>)
    ensures
        asked(timeout_ms, stage, events).len() == events.len(),
    decreases events.len(),
{
    if events.len() > 0 {
        lemma_asked_len(timeout_ms, next_stage(timeout_ms, stage, events[0]), events.skip(1));
    }
}

/// A run that begins with `first` is the step on `first`, and then the run on the rest.
pub proof fn lemma_run_first<P, S>(
    timeout_ms: u64,
    stage: Stage<P>,
    first: Event<P, S>,
    later: Seq<Event<P, S>>,
)
    ensures
        run(timeout_ms, stage, seq![first] + later) == run(
            timeout_ms,
            next_stage(timeout_ms, stage, first),
            later,
        ),
        asked(timeout_ms, stage, seq![first] + later) == seq![
            next_action(timeout_ms, stage, first),
        ] + asked(timeout_ms, next_stage(timeout_ms, stage, first), later),
{
    let events = seq![first] + later;
    assert(events[0] == first);
    assert(events.skip(1) =~= later);
}

/// A cycle that has ended stays as it is: whatever events still come, its stage
/// does not change and it asks for nothing.
pub proof fn law_ended_cycle_is_final<P, S>(
    timeout_ms: u64,
    stage: Stage<P>,
    events: Seq<Event<P, S>>,
)
    requires
        settled(stage),
    ensures
        run(timeout_ms, stage, events) == stage,
        asked(timeout_ms, stage, events).len() == events.len(),
        forall|i: int|
            0 <= i < events.len() ==> #[trigger] asked(timeout_ms, stage, events)[i]
                == ActionView::<S>::Nothing,
    decreases events.len(),
{
    lemma_asked_len(timeout_ms, stage, events);
    if events.len() > 0 {
        law_ended_cycle_is_final(timeout_ms, stage, events.skip(1));
        assert(next_stage(timeout_ms, stage, events[0]) == stage);
        assert forall|i: int| 0 <= i < events.len() implies #[trigger] asked(
            timeout_ms,
            stage,
            events,
        )[i] == ActionView::<S>::Nothing by {
            if i > 0 {
                assert(asked(timeout_ms, stage, events)[i] == asked(
                    timeout_ms,
                    stage,
                    events.skip(1),
                )[i - 1]);
            }
        }
    }
}

/// A step that ends the cycle, followed by any events: the cycle stays at the
/// stage that the step reached, and asks for nothing from the step on.
proof fn lemma_ending_step<P, S>(
    timeout_ms: u64,
    stage: Stage<P>,
    first: Event<P, S>,
    later: Seq<Event<P, S>>,
)
    requires
        settled(next_stage(timeout_ms, stage, first)),
        next_action(timeout_ms, stage, first) == ActionView::<S>::Nothing,
    ensures
        run(timeout_ms, stage, seq![first] + later) == next_stage(timeout_ms, stage, first),
        forall|i: int|
            0 <= i <= later.len() ==> #[trigger] asked(timeout_ms, stage, seq![first] + later)[i]
                == ActionView::<S>::Nothing,
{
    let reached = next_stage(timeout_ms, stage, first);
    lemma_run_first(timeout_ms, stage, first, later);
    law_ended_cycle_is_final(timeout_ms, reached, later);
    assert forall|i: int| 0 <= i <= later.len() implies #[trigger] asked(
        timeout_ms,
        stage,
        seq![first] + later,
    )[i] == ActionView::<S>::Nothing by {
        if i > 0 {
            assert(asked(timeout_ms, stage, seq![first] + later)[i] == asked(
                timeout_ms,
                reached,
                later,
            )[i - 1]);
        }
    }
}

/// A fetch whose response is not there by the deadline yields no body: the
/// cycle fails by the deadline, and whatever comes after, a body of any content
/// included, changes nothing and is answered with nothing.
pub proof fn law_deadline_yields_no_body<P, S>(
    timeout_ms: u64,
    deadline: u64,
    later: Seq<Event<P, S>>,
)
    ensures
        run(
            timeout_ms,
            Stage::<P>::Fetching { deadline },
            seq![Event::<P, S>::Status(RequestStatus::DeadlineReached)] + later,
        ) == Stage::<P>::Failed(Failure::Network(NetworkError::DeadlineReached)),
        forall|i: int|
            0 <= i <= later.len() ==> #[trigger] asked(
                timeout_ms,
                Stage::<P>::Fetching { deadline },
                seq![Event::<P, S>::Status(RequestStatus::DeadlineReached)] + later,
            )[i] == ActionView::<S>::Nothing,
{
    lemma_ending_step(
        timeout_ms,
        Stage::<P>::Fetching { deadline },
        Event::<P, S>::Status(RequestStatus::DeadlineReached),
        later,
    );
}

/// A fetch that finishes with a status other than 200 fails: the cycle ends
/// with a bad status, the body is not asked for, and whatever comes after, a
/// well-formed body included, changes nothing and is answered with nothing.
pub proof fn law_bad_status_fails<P, S>(
    timeout_ms: u64,
    deadline: u64,
    code: u16,
    later: Seq<Event<P, S>>,
)
    requires
        code != 200,
    ensures
        run(
            timeout_ms,
            Stage::<P>::Fetching { deadline },
            seq![Event::<P, S>::Status(RequestStatus::Finished(code))] + later,
        ) == Stage::<P>::Failed(Failure::Network(NetworkError::BadStatus)),
        forall|i: int|
            0 <= i <= later.len() ==> #[trigger] asked(
                timeout_ms,
                Stage::<P>::Fetching { deadline },
                seq![Event::<P, S>::Status(RequestStatus::Finished(code))] + later,
            )[i] == ActionView::<S>::Nothing,
{
    lemma_ending_step(
        timeout_ms,
        Stage::<P>::Fetching { deadline },
        Event::<P, S>::Status(RequestStatus::Finished(code)),
        later,
    );
}

/// Where no identity is there to sign, the cycle fails at once: nothing is
/// signed and nothing is submitted, then or later.
pub proof fn law_no_identity_ends_cycle<P, S>(
    timeout_ms: u64,
    record: OracleRecord,
    identities: Vec<Identity<P>>,
    later: Seq<Event<P, S>>,
)
    requires
        identities@.len() == 0,
    ensures
        run(
            timeout_ms,
            Stage::<P>::Parsed { record },
            seq![Event::<P, S>::Identities(identities)] + later,
        ) == Stage::<P>::Failed(Failure::Signing(SigningError::NoLocalAccount)),
        forall|i: int|
            0 <= i <= later.len() ==> #[trigger] asked(
                timeout_ms,
                Stage::<P>::Parsed { record },
                seq![Event::<P, S>::Identities(identities)] + later,
            )[i] == ActionView::<S>::Nothing,
{
    lemma_ending_step(
        timeout_ms,
        Stage::<P>::Parsed { record },
        Event::<P, S>::Identities(identities),
        later,
    );
}

/// No submission without an identity: in a run that has not yet come to the
/// signing, and in which no event brings an identity, nothing is ever to be
/// signed or submitted, and the run ends before the signing or in failure.
pub proof fn law_submission_needs_identity<P, S>(
    timeout_ms: u64,
    stage: Stage<P>,
    events: Seq<Event<P, S>>,
)
    requires
        before_signing(stage) || stage is Failed,
        forall|i: int| 0 <= i < events.len() ==> brings_no_identity(#[trigger] events[i]),
    ensures
        before_signing(run(timeout_ms, stage, events)) || run(timeout_ms, stage, events) is Failed,
        forall|i: int|
            0 <= i < events.len() ==> !(#[trigger] asked(timeout_ms, stage, events)[i] is Sign) && !(
            asked(timeout_ms, stage, events)[i] is Submit),
    decreases events.len(),
{
    if events.len() > 0 {
        let reached = next_stage(timeout_ms, stage, events[0]);
        let rest = events.skip(1);
        assert(brings_no_identity(events[0]));
        assert forall|i: int| 0 <= i < rest.len() implies brings_no_identity(#[trigger] rest[i]) by {
            assert(rest[i] == events[i + 1]);
        }
        law_submission_needs_identity(timeout_ms, reached, rest);
        lemma_asked_len(timeout_ms, reached, rest);
        assert forall|i: int| 0 <= i < events.len() implies !(#[trigger] asked(
            timeout_ms,
            stage,
            events,
        )[i] is Sign) && !(asked(timeout_ms, stage, events)[i] is Submit) by {
            if i > 0 {
                assert(asked(timeout_ms, stage, events)[i] == asked(timeout_ms, reached, rest)[i
                    - 1]);
            }
        }
    }
}

/// How far a cycle has come: the number of things that it has asked for.
pub open spec fn progress<P>(stage: Stage<P>) -> nat {
    match stage {
        Stage::Start => 0,
        Stage::Fetching { .. } => 1,
        Stage::Fetched => 2,
        Stage::Parsed { .. } => 3,
        Stage::Signing { .. } => 4,
        Stage::Submitting => 5,
        Stage::Done => 6,
        Stage::Failed(_) => 6,
    }
}

/// The place of an action in the order in which a cycle asks for things;
/// asking for nothing has no place.
pub open spec fn place<S>(action: ActionView<S>) -> Option<nat> {
    match action {
        ActionView::Fetch { .. } => Some(0),
        ActionView::ReadBody => Some(1),
        ActionView::ListIdentities => Some(2),
        ActionView::Sign { .. } => Some(3),
        ActionView::Submit { .. } => Some(4),
        ActionView::Nothing => None,
    }
}

/// Whatever a run asks for has its place at or after the progress that the run began with.
pub proof fn lemma_asked_after_progress<P, S>(
    timeout_ms: u64,
    stage: Stage<P>,
    events: Seq<Event<P, S>>,
)
    ensures
        forall|i: int|
            0 <= i < events.len() ==> (#[trigger] place(asked(timeout_ms, stage, events)[i])
                matches Some(at) ==> at >= progress(stage)),
    decreases events.len(),
{
    if events.len() > 0 {
        let reached = next_stage(timeout_ms, stage, events[0]);
        let rest = events.skip(1);
        lemma_asked_after_progress(timeout_ms, reached, rest);
        lemma_asked_len(timeout_ms, reached, rest);
        assert(progress(reached) >= progress(stage));
        assert forall|i: int| 0 <= i < events.len() implies (#[trigger] place(
            asked(timeout_ms, stage, events)[i],
        ) matches Some(at) ==> at >= progress(stage)) by {
            if i > 0 {
                assert(asked(timeout_ms, stage, events)[i] == asked(timeout_ms, reached, rest)[i
                    - 1]);
            }
        }
    }
}

/// A cycle only moves forward: whatever the events and wherever the cycle
/// stands, the things that a run asks for come in their order, the fetch
/// before the reading of the body, that before the listing of the identities,
/// that before the signing, and that before the submission. So none of them is
/// asked for twice.
pub proof fn law_actions_in_order<P, S>(
    timeout_ms: u64,
    stage: Stage<P>,
    events: Seq<Event<P, S>>,
)
    ensures
        forall|i: int, j: int|
            0 <= i < j < events.len() ==> (#[trigger] place(asked(timeout_ms, stage, events)[i])
                matches Some(first) ==> (#[trigger] place(asked(timeout_ms, stage, events)[j])
                matches Some(second) ==> first < second)),
    decreases events.len(),
{
    if events.len() > 0 {
        let reached = next_stage(timeout_ms, stage, events[0]);
        let rest = events.skip(1);
        law_actions_in_order(timeout_ms, reached, rest);
        lemma_asked_after_progress(timeout_ms, reached, rest);
        lemma_asked_len(timeout_ms, reached, rest);
        let all = asked(timeout_ms, stage, events);
        let later = asked(timeout_ms, reached, rest);
        assert forall|i: int, j: int| 0 <= i < j < events.len() implies (#[trigger] place(all[i])
            matches Some(first) ==> (#[trigger] place(all[j]) matches Some(second) ==> first
            < second)) by {
            assert(all[j] == later[j - 1]);
            if i > 0 {
                assert(all[i] == later[i - 1]);
            } else {
                assert(all[0] == next_action(timeout_ms, stage, events[0]));
                if place(all[0]) is Some {
                    assert(place(all[0]) == Some(progress(stage)));
                    assert(progress(reached) == progress(stage) + 1);
                }
            }
        }
    }
}

/// One submission at most: whatever the events and wherever the cycle stands,
/// no two of the things that a run asks for are submissions.
pub proof fn law_one_submission_at_most<P, S>(
    timeout_ms: u64,
    stage: Stage<P>,
    events: Seq<Event<P, S>>,
)
    ensures
        forall|i: int, j: int|
            0 <= i < j < events.len() ==> !(#[trigger] asked(timeout_ms, stage, events)[i] is Submit
                && #[trigger] asked(timeout_ms, stage, events)[j] is Submit),
{
    law_actions_in_order(timeout_ms, stage, events);
    lemma_asked_len(timeout_ms, stage, events);
    let all = asked(timeout_ms, stage, events);
    assert forall|i: int, j: int| 0 <= i < j < events.len() implies !(#[trigger] all[i] is Submit
        && #[trigger] all[j] is Submit) by {
        if all[i] is Submit && all[j] is Submit {
            assert(place(all[i]) == Some(4nat));
            assert(place(all[j]) == Some(4nat));
        }
    }
}

/// One signing at most: whatever the events and wherever the cycle stands, no
/// two of the things that a run asks for are signatures.
pub proof fn law_one_signing_at_most<P, S>(
    timeout_ms: u64,
    stage: Stage<P>,
    events: Seq<Event<P, S>>,
)
    ensures
        forall|i: int, j: int|
            0 <= i < j < events.len() ==> !(#[trigger] asked(timeout_ms, stage, events)[i] is Sign
                && #[trigger] asked(timeout_ms, stage, events)[j] is Sign),
{
    law_actions_in_order(timeout_ms, stage, events);
    lemma_asked_len(timeout_ms, stage, events);
    let all = asked(timeout_ms, stage, events);
    assert forall|i: int, j: int| 0 <= i < j < events.len() implies !(#[trigger] all[i] is Sign
        && #[trigger] all[j] is Sign) by {
        if all[i] is Sign && all[j] is Sign {
            assert(place(all[i]) == Some(3nat));
            assert(place(all[j]) == Some(3nat));
        }
    }
}

/// One request at most: whatever the events and wherever the cycle stands, no
/// two of the things that a run asks for are fetches.
pub proof fn law_one_fetch_at_most<P, S>(
    timeout_ms: u64,
    stage: Stage<P>,
    events: Seq<Event<P, S>>,
)
    ensures
        forall|i: int, j: int|
            0 <= i < j < events.len() ==> !(#[trigger] asked(timeout_ms, stage, events)[i] is Fetch
                && #[trigger] asked(timeout_ms, stage, events)[j] is Fetch),
{
    law_actions_in_order(timeout_ms, stage, events);
    lemma_asked_len(timeout_ms, stage, events);
    let all = asked(timeout_ms, stage, events);
    assert forall|i: int, j: int| 0 <= i < j < events.len() implies !(#[trigger] all[i] is Fetch
        && #[trigger] all[j] is Fetch) by {
        if all[i] is Fetch && all[j] is Fetch {
            assert(place(all[i]) == Some(0nat));
            assert(place(all[j]) == Some(0nat));
        }
    }
}

} // verus!
