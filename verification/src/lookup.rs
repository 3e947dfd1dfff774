//! Looking up the duration of one recording.
//!
//! A lookup first consults the cache. On a miss it asks the metadata
//! service, keeps a minimum spacing after every response, asks again for as
//! long as the service answers that it is busy, and reads the body of a
//! successful response. A body that states a duration is persisted before
//! the lookup reports the duration; a body that states none is never
//! persisted.
//!
//! [`DurationLookup`] makes the decisions. The caller performs the action
//! that the lookup is waiting for and reports what happened as an event.

use vstd::prelude::*;
use vstd::string::StringExecFns;
use crate::error::PipelineError;

verus! {

/// The least time, in milliseconds, from the start of one request to the
/// metadata service to whatever follows it.
pub const MIN_SPACING_MS: u64 = 1000;

/// The status with which the metadata service says that it is busy.
pub const RATE_LIMITED_STATUS: u16 = 503;

/// The path and query of the request for one recording.
pub open spec fn recording_path(mbid: Seq<char>) -> Seq<char> {
    "/recording/"@ + mbid + "?fmt=json"@
}

/// Builds the path and query of the request for one recording.
pub fn recording_request_path(mbid: &str) -> (path: String)
    ensures
        path@ == recording_path(mbid@),
{
    let mut path = "/recording/".to_owned();
    path.append(mbid);
    path.append("?fmt=json");
    path
}

/// The name of the file that holds the cached body of a recording.
pub open spec fn cache_name(mbid: Seq<char>) -> Seq<char> {
    mbid + ".json"@
}

/// Builds the name of the file that holds the cached body of a recording.
/// The identifier is the key of the cache.
pub fn cache_file_name(mbid: &str) -> (name: String)
    ensures
        name@ == cache_name(mbid@),
{
    let mut name = mbid.to_owned();
    name.append(".json");
    name
}

/// The time to wait after a request that took `elapsed_ms`: what is left of
/// the minimum spacing, and nothing if the request took that long.
pub open spec fn pacing_delay_spec(elapsed_ms: u64) -> u64 {
    if elapsed_ms >= MIN_SPACING_MS {
        0
    } else {
        (MIN_SPACING_MS - elapsed_ms) as u64
    }
}

/// Computes the time to wait after a request that took `elapsed_ms`
/// milliseconds. The request and the wait together take at least the
/// minimum spacing.
pub fn pacing_delay(elapsed_ms: u64) -> (delay_ms: u64)
    ensures
        delay_ms == pacing_delay_spec(elapsed_ms),
        elapsed_ms + delay_ms >= MIN_SPACING_MS,
        delay_ms <= MIN_SPACING_MS,
{
    MIN_SPACING_MS.saturating_sub(elapsed_ms)
}

/// What a status of the metadata service means for a lookup.
#[derive(Debug, Clone, Copy, PartialEq, Eq, Structural)]
pub enum StatusClass {
    /// The response carries the recording.
    Success,
    /// The service is busy: the request is to be made again.
    RateLimited,
    /// The request failed, and making it again would not help.
    Failure,
}

/// The meaning of a status: 503 says that the service is busy, 200 to 299
/// is success, and everything else is failure.
pub open spec fn status_class(status: u16) -> StatusClass {
    if status == RATE_LIMITED_STATUS {
        StatusClass::RateLimited
    } else if 200 <= status <= 299 {
        StatusClass::Success
    } else {
        StatusClass::Failure
    }
}

/// Tells what a status of the metadata service means for a lookup.
pub fn classify_status(status: u16) -> (class: StatusClass)
    ensures
        class == status_class(status),
{
    if status == RATE_LIMITED_STATUS {
        StatusClass::RateLimited
    } else if 200 <= status && status <= 299 {
        StatusClass::Success
    } else {
        StatusClass::Failure
    }
}

/// Where a lookup stands.
#[derive(Debug, Clone, Copy, PartialEq, Eq)]
pub enum LookupState {
    /// The cache is being consulted.
    CheckingCache,
    /// A request to the metadata service is under way.
    Requesting,
    /// A response with this status has arrived, and the spacing is being
    /// waited out.
    Pacing { status: u16, delay_ms: u64 },
    /// The body of a successful response is being read.
    Reading,
    /// The body states this duration, in milliseconds, and is being
    /// persisted.
    Storing { length: usize },
    /// The lookup is over, with a duration in milliseconds or an error.
    Finished(Result<usize, PipelineError>),
}

/// What the caller reports to a lookup.
#[derive(Debug, Clone, Copy, PartialEq, Eq)]
pub enum LookupEvent {
    /// The cache holds a body for the recording. `length` is the duration
    /// that the body states, or `None` if the body states none.
    CacheHit { length: Option<usize> },
    /// The cache holds nothing for the recording.
    CacheMiss,
    /// The service answered with `status`, `elapsed_ms` milliseconds after
    /// the request was started.
    Response { status: u16, elapsed_ms: u64 },
    /// The request did not complete.
    RequestFailed,
    /// The wait is over.
    Waited,
    /// The body of the response was read. `length` is the duration that the
    /// body states, or `None` if the body states none.
    BodyRead { length: Option<usize> },
    /// The body of the response could not be read.
    BodyFailed,
    /// The body of the response is in the cache.
    Stored,
    /// The body could not be persisted.
    StoreFailed,
}

/// What a lookup asks the caller to do.
#[derive(Debug, Clone, Copy, PartialEq, Eq)]
pub enum LookupAction {
    /// Look the recording up in the cache.
    ReadCache,
    /// Make one request to the metadata service, and time it.
    SendRequest,
    /// Wait for this many milliseconds.
    Wait { millis: u64 },
    /// Read the body of the response, and tell what duration it states.
    ReadBody,
    /// Persist the body that was read, as it is, under the recording's
    /// identifier.
    StoreBody,
    /// Nothing more: the lookup is over with this outcome.
    Finish(Result<usize, PipelineError>),
}

/// The outcome that a body stands for: the duration that it states, and a
/// failure of the lookup if it states none.
pub open spec fn body_outcome(length: Option<usize>) -> Result<usize, PipelineError> {
    match length {
        Some(millis) => Ok(millis),
        None => Err(PipelineError::Metadata),
    }
}

/// The state that follows a state upon an event.
///
/// A finished lookup stays as it is. A body that states no duration ends
/// the lookup in failure without being persisted. An event that does not
/// answer the action that the lookup is waiting for ends the lookup in
/// failure.
pub open spec fn next_state(state: LookupState, event: LookupEvent) -> LookupState {
    match state {
        LookupState::Finished(_) => state,
        LookupState::CheckingCache => match event {
            LookupEvent::CacheHit { length } => LookupState::Finished(body_outcome(length)),
            LookupEvent::CacheMiss => LookupState::Requesting,
            _ => LookupState::Finished(Err(PipelineError::Metadata)),
        },
        LookupState::Requesting => match event {
            LookupEvent::Response { status, elapsed_ms } => LookupState::Pacing {
                status,
                delay_ms: pacing_delay_spec(elapsed_ms),
            },
            LookupEvent::RequestFailed => LookupState::Finished(Err(PipelineError::Transport)),
            _ => LookupState::Finished(Err(PipelineError::Metadata)),
        },
        LookupState::Pacing { status, delay_ms } => match event {
            LookupEvent::Waited => match status_class(status) {
                StatusClass::RateLimited => LookupState::Requesting,
                StatusClass::Success => LookupState::Reading,
                StatusClass::Failure => LookupState::Finished(Err(PipelineError::Metadata)),
            },
            _ => LookupState::Finished(Err(PipelineError::Metadata)),
        },
        LookupState::Reading => match event {
            LookupEvent::BodyRead { length: Some(millis) } => LookupState::Storing {
                length: millis,
            },
            LookupEvent::BodyFailed => LookupState::Finished(Err(PipelineError::Transport)),
            _ => LookupState::Finished(Err(PipelineError::Metadata)),
        },
        LookupState::Storing { length } => match event {
            LookupEvent::Stored => LookupState::Finished(Ok(length)),
            _ => LookupState::Finished(Err(PipelineError::Metadata)),
        },
    }
}

/// The action that a lookup in a given state is waiting for.
pub open spec fn pending_action(state: LookupState) -> LookupAction {
    match state {
        LookupState::CheckingCache => LookupAction::ReadCache,
        LookupState::Requesting => LookupAction::SendRequest,
        LookupState::Pacing { status, delay_ms } => LookupAction::Wait { millis: delay_ms },
        LookupState::Reading => LookupAction::ReadBody,
        LookupState::Storing { length } => LookupAction::StoreBody,
        LookupState::Finished(outcome) => LookupAction::Finish(outcome),
    }
}

/// The state of a lookup after a sequence of events.
pub open spec fn state_after(state: LookupState, events: Seq<LookupEvent>) -> LookupState
    decreases events.len(),
{
    if events.len() == 0 {
        state
    } else {
        state_after(next_state(state, events.first()), events.drop_first())
    }
}

/// The actions that a lookup asks for, one after each event of a sequence.
pub open spec fn actions_after(state: LookupState, events: Seq<LookupEvent>) -> Seq<LookupAction>
    decreases events.len(),
{
    if events.len() == 0 {
        Seq::empty()
    } else {
        let next = next_state(state, events.first());
        seq![pending_action(next)] + actions_after(next, events.drop_first())
    }
}

/// The lookup of the duration of one recording.
pub struct DurationLookup {
    mbid: String,
    state: LookupState,
}

/// The mathematical content of a [`DurationLookup`].
pub struct DurationLookupView {
    /// The identifier of the recording, which is also its key in the cache.
    pub mbid: Seq<char>,
    pub state: LookupState,
}

impl View for DurationLookup {
    type V = DurationLookupView;

    closed spec fn view(&self) -> DurationLookupView {
        DurationLookupView { mbid: self.mbid@, state: self.state }
    }
}

impl DurationLookup {
    /// Starts the lookup of the recording with the given identifier. The
    /// first thing a lookup asks for is the cache.
    pub fn new(mbid: String) -> (lookup: DurationLookup)
        ensures
            lookup@ == (DurationLookupView { mbid: mbid@, state: LookupState::CheckingCache }),
    {
        DurationLookup { mbid, state: LookupState::CheckingCache }
    }

    /// The identifier of the recording.
    pub fn mbid(&self) -> (mbid: &String)
        ensures
            mbid@ == self@.mbid,
    {
        &self.mbid
    }

    /// Where the lookup stands.
    pub fn state(&self) -> (state: LookupState)
        ensures
            state == self@.state,
    {
        self.state
    }

    /// The action that the lookup is waiting for.
    pub fn pending(&self) -> (action: LookupAction)
        ensures
            action == pending_action(self@.state),
    {
        match self.state {
            LookupState::CheckingCache => LookupAction::ReadCache,
            LookupState::Requesting => LookupAction::SendRequest,
            LookupState::Pacing { status, delay_ms } => LookupAction::Wait { millis: delay_ms },
            LookupState::Reading => LookupAction::ReadBody,
            LookupState::Storing { length } => LookupAction::StoreBody,
            LookupState::Finished(outcome) => LookupAction::Finish(outcome),
        }
    }

    /// Takes in what the caller reports, and tells what to do next.
    pub fn step(&mut self, event: LookupEvent) -> (action: LookupAction)
        ensures
            final(self)@ == (DurationLookupView {
                mbid: old(self)@.mbid,
                state: next_state(old(self)@.state, event),
            }),
            action == pending_action(next_state(old(self)@.state, event)),
    {
        let failed = LookupState::Finished(Err(PipelineError::Metadata));
        let next = match self.state {
            LookupState::Finished(outcome) => LookupState::Finished(outcome),
            LookupState::CheckingCache => match event {
                LookupEvent::CacheHit { length } => LookupState::Finished(outcome_of_body(length)),
                LookupEvent::CacheMiss => LookupState::Requesting,
                _ => failed,
            },
            LookupState::Requesting => match event {
                LookupEvent::Response { status, elapsed_ms } => LookupState::Pacing {
                    status,
                    delay_ms: pacing_delay(elapsed_ms),
                },
                LookupEvent::RequestFailed => LookupState::Finished(Err(PipelineError::Transport)),
                _ => failed,
            },
            LookupState::Pacing { status, delay_ms } => match event {
                LookupEvent::Waited => match classify_status(status) {
                    StatusClass::RateLimited => LookupState::Requesting,
                    StatusClass::Success => LookupState::Reading,
                    StatusClass::Failure => failed,
                },
                _ => failed,
            },
            LookupState::Reading => match event {
                LookupEvent::BodyRead { length: Some(millis) } => LookupState::Storing {
                    length: millis,
                },
                LookupEvent::BodyFailed => LookupState::Finished(Err(PipelineError::Transport)),
                _ => failed,
            },
            LookupState::Storing { length } => match event {
                LookupEvent::Stored => LookupState::Finished(Ok(length)),
                _ => failed,
            },
        };
        self.state = next;
        self.pending()
    }
}

/// The outcome of a lookup whose body states the given duration, or none.
fn outcome_of_body(length: Option<usize>) -> (outcome: Result<usize, PipelineError>)
    ensures
        outcome == body_outcome(length),
{
    match length {
        Some(millis) => Ok(millis),
        None => Err(PipelineError::Metadata),
    }
}

/// Whatever the status and however long the request took, the next thing a
/// lookup asks for after a response is the wait that fills the minimum
/// spacing. This holds of successful responses too.
pub proof fn lemma_every_response_is_paced(status: u16, elapsed_ms: u64)
    ensures
        pending_action(
            next_state(LookupState::Requesting, LookupEvent::Response { status, elapsed_ms }),
        ) == (LookupAction::Wait { millis: pacing_delay_spec(elapsed_ms) }),
        elapsed_ms + pacing_delay_spec(elapsed_ms) >= MIN_SPACING_MS,
{
}

/// A lookup asks for a request in two places only: at its start, when the
/// cache holds nothing, and after the wait that follows a response by
/// which the service said that it was busy.
pub proof fn lemma_request_only_after_miss_or_wait(state: LookupState, event: LookupEvent)
    requires
        pending_action(next_state(state, event)) == LookupAction::SendRequest,
    ensures
        (state == LookupState::CheckingCache && event == LookupEvent::CacheMiss) || (state matches LookupState::Pacing {
            status,
            ..
        } && status == RATE_LIMITED_STATUS && event == LookupEvent::Waited),
{
}

/// A lookup comes to a duration in two ways only: by a hit in the cache,
/// or by the report that the body which states the duration is in the
/// cache. So whenever a lookup ends with a duration, the cache holds the
/// body from which the duration was read.
pub proof fn lemma_duration_comes_from_cache(state: LookupState, event: LookupEvent, millis: usize)
    requires
        !(state is Finished),
        next_state(state, event) == LookupState::Finished(Ok(millis)),
    ensures
        (state == LookupState::CheckingCache && event == (LookupEvent::CacheHit {
            length: Some(millis),
        })) || (state == (LookupState::Storing { length: millis }) && event
            == LookupEvent::Stored),
{
}

/// A lookup asks for a body to be persisted in one place only: when the
/// body of a successful response was read and states a duration. A body
/// that states none is never persisted.
pub proof fn lemma_store_only_for_a_duration(state: LookupState, event: LookupEvent)
    requires
        pending_action(next_state(state, event)) == LookupAction::StoreBody,
    ensures
        state == LookupState::Reading,
        event matches LookupEvent::BodyRead { length: Some(millis) } && next_state(state, event)
            == (LookupState::Storing { length: millis }),
{
}

/// A body that states no duration ends the lookup at once, in failure:
/// what is asked for next is to finish, not to persist the body.
pub proof fn lemma_body_without_duration_fails(state: LookupState)
    requires
        state == LookupState::Reading,
    ensures
        next_state(state, LookupEvent::BodyRead { length: None }) == LookupState::Finished(
            Err(PipelineError::Metadata),
        ),
{
}

/// A body gives the same outcome whether it was just fetched and stored or
/// is found in the cache later: the duration that it states. A body that
/// states none fails the lookup in either place.
pub proof fn lemma_cached_body_gives_same_outcome(millis: usize)
    ensures
        next_state(LookupState::Storing { length: millis }, LookupEvent::Stored) == next_state(
            LookupState::CheckingCache,
            LookupEvent::CacheHit { length: Some(millis) },
        ),
        next_state(LookupState::Reading, LookupEvent::BodyRead { length: None }) == next_state(
            LookupState::CheckingCache,
            LookupEvent::CacheHit { length: None },
        ),
{
}

/// The state and the action after one event.
pub proof fn lemma_run_one(state: LookupState, event: LookupEvent)
    ensures
        state_after(state, seq![event]) == next_state(state, event),
        actions_after(state, seq![event]) == seq![pending_action(next_state(state, event))],
{
    reveal_with_fuel(state_after, 2);
    reveal_with_fuel(actions_after, 2);
    assert(seq![event].drop_first() =~= Seq::<LookupEvent>::empty());
}

/// A sequence of events may be taken in two parts: the second part goes on
/// from the state that the first part leaves.
pub proof fn lemma_run_in_parts(
    state: LookupState,
    first: Seq<LookupEvent>,
    second: Seq<LookupEvent>,
)
    ensures
        state_after(state, first + second) == state_after(state_after(state, first), second),
        actions_after(state, first + second) == actions_after(state, first) + actions_after(
            state_after(state, first),
            second,
        ),
    decreases first.len(),
{
    if first.len() == 0 {
        assert(first + second =~= second);
    } else {
        let next = next_state(state, first.first());
        assert((first + second).drop_first() =~= first.drop_first() + second);
        lemma_run_in_parts(next, first.drop_first(), second);
    }
}

/// A lookup asks for one action after each event.
pub proof fn lemma_one_action_per_event(state: LookupState, events: Seq<LookupEvent>)
    ensures
        actions_after(state, events).len() == events.len(),
    decreases events.len(),
{
    if events.len() > 0 {
        lemma_one_action_per_event(next_state(state, events.first()), events.drop_first());
    }
}

/// A finished lookup stays finished, and asks for nothing more.
pub proof fn lemma_finished_stays_finished(
    outcome: Result<usize, PipelineError>,
    events: Seq<LookupEvent>,
)
    ensures
        state_after(LookupState::Finished(outcome), events) == LookupState::Finished(outcome),
        actions_after(LookupState::Finished(outcome), events).len() == events.len(),
        forall|i: int|
            0 <= i < events.len() ==> #[trigger] actions_after(
                LookupState::Finished(outcome),
                events,
            )[i] == LookupAction::Finish(outcome),
    decreases events.len(),
{
    if events.len() > 0 {
        lemma_finished_stays_finished(outcome, events.drop_first());
    }
}

/// A lookup that finds the recording in the cache is over at once, with
/// what the cached body states. Whatever is reported to it afterwards, it
/// never asks for a request, nor for anything to be stored.
pub proof fn lemma_cache_hit_needs_no_request(length: Option<usize>, later: Seq<LookupEvent>)
    ensures
        state_after(LookupState::CheckingCache, seq![LookupEvent::CacheHit { length }] + later)
            == LookupState::Finished(body_outcome(length)),
        forall|i: int|
            0 <= i < 1 + later.len() ==> #[trigger] actions_after(
                LookupState::CheckingCache,
                seq![LookupEvent::CacheHit { length }] + later,
            )[i] == LookupAction::Finish(body_outcome(length)),
{
    let hit = LookupEvent::CacheHit { length };
    let done = LookupState::Finished(body_outcome(length));
    lemma_run_one(LookupState::CheckingCache, hit);
    lemma_run_in_parts(LookupState::CheckingCache, seq![hit], later);
    lemma_finished_stays_finished(body_outcome(length), later);
    let actions = actions_after(LookupState::CheckingCache, seq![hit] + later);
    assert forall|i: int| 0 <= i < 1 + later.len() implies #[trigger] actions[i]
        == LookupAction::Finish(body_outcome(length)) by {
        if i > 0 {
            assert(actions[i] == actions_after(done, later)[i - 1]);
        }
    }
}

/// The events of a run of requests that the service answers by saying that
/// it is busy, each followed by the end of its wait. `elapsed` gives the
/// time that each request took.
pub open spec fn busy_rounds(elapsed: Seq<u64>) -> Seq<LookupEvent>
    decreases elapsed.len(),
{
    if elapsed.len() == 0 {
        Seq::empty()
    } else {
        seq![
            LookupEvent::Response { status: RATE_LIMITED_STATUS, elapsed_ms: elapsed.first() },
            LookupEvent::Waited,
        ] + busy_rounds(elapsed.drop_first())
    }
}

/// What a lookup asks for during such a run: after each response the wait
/// that fills the spacing, and after each wait the request once more.
pub open spec fn busy_actions(elapsed: Seq<u64>) -> Seq<LookupAction>
    decreases elapsed.len(),
{
    if elapsed.len() == 0 {
        Seq::empty()
    } else {
        seq![
            LookupAction::Wait { millis: pacing_delay_spec(elapsed.first()) },
            LookupAction::SendRequest,
        ] + busy_actions(elapsed.drop_first())
    }
}

/// The state and the actions after two events.
proof fn lemma_run_two(state: LookupState, one: LookupEvent, two: LookupEvent)
    ensures
        state_after(state, seq![one, two]) == next_state(next_state(state, one), two),
        actions_after(state, seq![one, two]) == seq![
            pending_action(next_state(state, one)),
            pending_action(next_state(next_state(state, one), two)),
        ],
{
    lemma_run_one(state, one);
    lemma_run_one(next_state(state, one), two);
    lemma_run_in_parts(state, seq![one], seq![two]);
    assert(seq![one] + seq![two] =~= seq![one, two]);
}

/// However often the service says that it is busy, the lookup asks again:
/// there is no bound on the number of attempts, and the wait does not grow.
pub proof fn lemma_busy_service_is_asked_again(elapsed: Seq<u64>)
    ensures
        state_after(LookupState::Requesting, busy_rounds(elapsed)) == LookupState::Requesting,
        actions_after(LookupState::Requesting, busy_rounds(elapsed)) == busy_actions(elapsed),
    decreases elapsed.len(),
{
    if elapsed.len() > 0 {
        let response = LookupEvent::Response {
            status: RATE_LIMITED_STATUS,
            elapsed_ms: elapsed.first(),
        };
        let round = seq![response, LookupEvent::Waited];
        lemma_run_two(LookupState::Requesting, response, LookupEvent::Waited);
        lemma_run_in_parts(LookupState::Requesting, round, busy_rounds(elapsed.drop_first()));
        lemma_busy_service_is_asked_again(elapsed.drop_first());
    }
}

/// While the service is busy, a lookup asks for waits and requests only.
pub proof fn lemma_busy_actions_are_waits_and_requests(elapsed: Seq<u64>)
    ensures
        busy_actions(elapsed).len() == 2 * elapsed.len(),
        forall|i: int|
            0 <= i < busy_actions(elapsed).len() ==> ((#[trigger] busy_actions(elapsed)[i])
                is Wait || busy_actions(elapsed)[i] == LookupAction::SendRequest),
    decreases elapsed.len(),
{
    if elapsed.len() > 0 {
        lemma_busy_actions_are_waits_and_requests(elapsed.drop_first());
    }
}

/// The events of a lookup that misses the cache and is told any number of
/// times that the service is busy, up to the wait after the response that
/// follows.
pub open spec fn request_events(elapsed: Seq<u64>, status: u16, last_elapsed: u64) -> Seq<
    LookupEvent,
> {
    seq![LookupEvent::CacheMiss] + busy_rounds(elapsed) + seq![
        LookupEvent::Response { status, elapsed_ms: last_elapsed },
        LookupEvent::Waited,
    ]
}

/// What a lookup asks for upon those events, but for the last: one request
/// more than the service was busy, and one wait after each response.
pub open spec fn request_actions(elapsed: Seq<u64>, last_elapsed: u64) -> Seq<LookupAction> {
    seq![LookupAction::SendRequest] + busy_actions(elapsed) + seq![
        LookupAction::Wait { millis: pacing_delay_spec(last_elapsed) },
    ]
}

/// A lookup that misses the cache and, after any number of answers that
/// the service is busy, gets a successful response asks for the body to be
/// read once the wait is over.
pub proof fn lemma_success_is_read_after_wait(elapsed: Seq<u64>, status: u16, last_elapsed: u64)
    requires
        status_class(status) == StatusClass::Success,
    ensures
        state_after(LookupState::CheckingCache, request_events(elapsed, status, last_elapsed))
            == LookupState::Reading,
        actions_after(LookupState::CheckingCache, request_events(elapsed, status, last_elapsed))
            == request_actions(elapsed, last_elapsed) + seq![LookupAction::ReadBody],
{
    let miss = seq![LookupEvent::CacheMiss];
    let response = LookupEvent::Response { status, elapsed_ms: last_elapsed };
    lemma_run_one(LookupState::CheckingCache, LookupEvent::CacheMiss);
    lemma_busy_service_is_asked_again(elapsed);
    lemma_run_in_parts(LookupState::CheckingCache, miss, busy_rounds(elapsed));
    lemma_run_two(LookupState::Requesting, response, LookupEvent::Waited);
    lemma_run_in_parts(
        LookupState::CheckingCache,
        miss + busy_rounds(elapsed),
        seq![response, LookupEvent::Waited],
    );
    assert(seq![
        LookupAction::Wait { millis: pacing_delay_spec(last_elapsed) },
        LookupAction::ReadBody,
    ] =~= seq![LookupAction::Wait { millis: pacing_delay_spec(last_elapsed) }] + seq![
        LookupAction::ReadBody,
    ]);
}

/// A lookup that misses the cache and, after any number of answers that
/// the service is busy, gets a successful response whose body states a
/// duration has that body stored exactly once, after it was read, and ends
/// with the duration.
pub proof fn lemma_fetch_stores_once(
    elapsed: Seq<u64>,
    status: u16,
    last_elapsed: u64,
    millis: usize,
)
    requires
        status_class(status) == StatusClass::Success,
    ensures
        state_after(
            LookupState::CheckingCache,
            request_events(elapsed, status, last_elapsed) + seq![
                LookupEvent::BodyRead { length: Some(millis) },
                LookupEvent::Stored,
            ],
        ) == LookupState::Finished(Ok(millis)),
        actions_after(
            LookupState::CheckingCache,
            request_events(elapsed, status, last_elapsed) + seq![
                LookupEvent::BodyRead { length: Some(millis) },
                LookupEvent::Stored,
            ],
        ) == request_actions(elapsed, last_elapsed) + seq![
            LookupAction::ReadBody,
            LookupAction::StoreBody,
            LookupAction::Finish(Ok(millis)),
        ],
{
    let read = LookupEvent::BodyRead { length: Some(millis) };
    lemma_success_is_read_after_wait(elapsed, status, last_elapsed);
    lemma_run_two(LookupState::Reading, read, LookupEvent::Stored);
    lemma_run_in_parts(
        LookupState::CheckingCache,
        request_events(elapsed, status, last_elapsed),
        seq![read, LookupEvent::Stored],
    );
    assert((request_actions(elapsed, last_elapsed) + seq![LookupAction::ReadBody]) + seq![
        LookupAction::StoreBody,
        LookupAction::Finish(Ok(millis)),
    ] =~= request_actions(elapsed, last_elapsed) + seq![
        LookupAction::ReadBody,
        LookupAction::StoreBody,
        LookupAction::Finish(Ok(millis)),
    ]);
}

/// What the cache answers when it is asked for a recording. `cache` holds,
/// for each identifier with a record, the duration that the recorded body
/// states.
pub open spec fn cache_answer(cache: Map<Seq<char>, usize>, mbid: Seq<char>) -> LookupEvent {
    if cache.dom().contains(mbid) {
        LookupEvent::CacheHit { length: Some(cache[mbid]) }
    } else {
        LookupEvent::CacheMiss
    }
}

/// The cache after the events of a lookup, when the caller stores what it
/// is asked to store: the report that the body is in the cache, made while
/// the lookup waits for it, records the duration that the body states
/// under the identifier. Nothing else changes the cache.
pub open spec fn cache_after(
    cache: Map<Seq<char>, usize>,
    mbid: Seq<char>,
    state: LookupState,
    events: Seq<LookupEvent>,
) -> Map<Seq<char>, usize>
    decreases events.len(),
{
    if events.len() == 0 {
        cache
    } else {
        let written = match state {
            LookupState::Storing { length } if events.first() == LookupEvent::Stored => cache.insert(
                mbid,
                length,
            ),
            _ => cache,
        };
        cache_after(written, mbid, next_state(state, events.first()), events.drop_first())
    }
}

/// The cache changes only where the lookup asked for a body to be stored:
/// events upon which it never asks for that leave the cache as it was.
pub proof fn lemma_cache_changes_only_by_store(
    cache: Map<Seq<char>, usize>,
    mbid: Seq<char>,
    state: LookupState,
    events: Seq<LookupEvent>,
)
    requires
        !(state is Storing),
        forall|i: int|
            0 <= i < events.len() ==> #[trigger] actions_after(state, events)[i]
                != LookupAction::StoreBody,
    ensures
        cache_after(cache, mbid, state, events) == cache,
    decreases events.len(),
{
    if events.len() > 0 {
        let next = next_state(state, events.first());
        let actions = actions_after(state, events);
        let later = actions_after(next, events.drop_first());
        lemma_one_action_per_event(state, events);
        lemma_one_action_per_event(next, events.drop_first());
        assert(actions[0] == pending_action(next));
        assert forall|i: int| 0 <= i < events.drop_first().len() implies #[trigger] later[i]
            != LookupAction::StoreBody by {
            assert(later[i] == actions[i + 1]);
        }
        lemma_cache_changes_only_by_store(cache, mbid, next, events.drop_first());
    }
}

/// A cache miss answered, after any number of answers that the service is
/// busy, by a successful response whose body states no duration ends in
/// failure. The body is read, but nothing is asked to be stored, and the
/// cache is as it was.
pub proof fn lemma_body_without_duration_is_not_stored(
    cache: Map<Seq<char>, usize>,
    mbid: Seq<char>,
    elapsed: Seq<u64>,
    status: u16,
    last_elapsed: u64,
)
    requires
        status_class(status) == StatusClass::Success,
    ensures
        state_after(
            LookupState::CheckingCache,
            request_events(elapsed, status, last_elapsed) + seq![
                LookupEvent::BodyRead { length: None },
            ],
        ) == LookupState::Finished(Err(PipelineError::Metadata)),
        actions_after(
            LookupState::CheckingCache,
            request_events(elapsed, status, last_elapsed) + seq![
                LookupEvent::BodyRead { length: None },
            ],
        ) == request_actions(elapsed, last_elapsed) + seq![
            LookupAction::ReadBody,
            LookupAction::Finish(Err(PipelineError::Metadata)),
        ],
        cache_after(
            cache,
            mbid,
            LookupState::CheckingCache,
            request_events(elapsed, status, last_elapsed) + seq![
                LookupEvent::BodyRead { length: None },
            ],
        ) == cache,
{
    let read = LookupEvent::BodyRead { length: None };
    let events = request_events(elapsed, status, last_elapsed) + seq![read];
    let failed = LookupAction::Finish(Err(PipelineError::Metadata));
    let asked = request_actions(elapsed, last_elapsed) + seq![LookupAction::ReadBody, failed];
    lemma_success_is_read_after_wait(elapsed, status, last_elapsed);
    lemma_run_one(LookupState::Reading, read);
    lemma_run_in_parts(
        LookupState::CheckingCache,
        request_events(elapsed, status, last_elapsed),
        seq![read],
    );
    assert((request_actions(elapsed, last_elapsed) + seq![LookupAction::ReadBody]) + seq![failed]
        =~= asked);
    lemma_busy_actions_are_waits_and_requests(elapsed);
    lemma_one_action_per_event(LookupState::CheckingCache, events);
    assert forall|i: int| 0 <= i < events.len() implies #[trigger] actions_after(
        LookupState::CheckingCache,
        events,
    )[i] != LookupAction::StoreBody by {
        let busy = busy_actions(elapsed);
        assert(asked.len() == busy.len() + 4);
        if i == 0 {
            assert(asked[i] == LookupAction::SendRequest);
        } else if i < 1 + busy.len() {
            assert(asked[i] == busy[i - 1]);
        } else if i == 1 + busy.len() {
            assert(asked[i] is Wait);
        } else if i == 2 + busy.len() {
            assert(asked[i] == LookupAction::ReadBody);
        } else {
            assert(asked[i] == failed);
        }
    }
    lemma_cache_changes_only_by_store(cache, mbid, LookupState::CheckingCache, events);
}

/// Whether a state and the events to come fit a cache: a lookup that has
/// ended with a duration has it from a body in the cache, and a lookup that
/// is at its start is told next what the cache holds.
pub open spec fn fits_cache(
    cache: Map<Seq<char>, usize>,
    mbid: Seq<char>,
    state: LookupState,
    events: Seq<LookupEvent>,
) -> bool {
    match state {
        LookupState::Finished(Ok(millis)) => cache.dom().contains(mbid) && cache[mbid] == millis,
        LookupState::CheckingCache => events.len() > 0 ==> events.first() == cache_answer(
            cache,
            mbid,
        ),
        _ => true,
    }
}

/// From any state that fits the cache, events that end the lookup with a
/// duration leave the body that states it in the cache.
proof fn lemma_duration_stays_in_cache(
    cache: Map<Seq<char>, usize>,
    mbid: Seq<char>,
    state: LookupState,
    events: Seq<LookupEvent>,
    millis: usize,
)
    requires
        fits_cache(cache, mbid, state, events),
        state_after(state, events) == LookupState::Finished(Ok(millis)),
    ensures
        cache_after(cache, mbid, state, events).dom().contains(mbid),
        cache_after(cache, mbid, state, events)[mbid] == millis,
    decreases events.len(),
{
    if events.len() > 0 {
        let written = match state {
            LookupState::Storing { length } if events.first() == LookupEvent::Stored => cache.insert(
                mbid,
                length,
            ),
            _ => cache,
        };
        lemma_duration_stays_in_cache(
            written,
            mbid,
            next_state(state, events.first()),
            events.drop_first(),
            millis,
        );
    }
}

/// A lookup that ends with a duration leaves the recording in the cache,
/// with a body that states that duration. A later lookup of the same
/// recording that starts from that cache ends at once with the same
/// duration, and asks for no request: whatever is reported to it, all it
/// ever asks for is to finish.
pub proof fn lemma_second_lookup_is_served_from_cache(
    cache: Map<Seq<char>, usize>,
    mbid: Seq<char>,
    first: Seq<LookupEvent>,
    later: Seq<LookupEvent>,
    millis: usize,
)
    requires
        first.len() > 0,
        first.first() == cache_answer(cache, mbid),
        state_after(LookupState::CheckingCache, first) == LookupState::Finished(Ok(millis)),
    ensures
        cache_answer(cache_after(cache, mbid, LookupState::CheckingCache, first), mbid) == (
        LookupEvent::CacheHit { length: Some(millis) }),
        state_after(
            LookupState::CheckingCache,
            seq![LookupEvent::CacheHit { length: Some(millis) }] + later,
        ) == LookupState::Finished(Ok(millis)),
        forall|i: int|
            0 <= i < 1 + later.len() ==> #[trigger] actions_after(
                LookupState::CheckingCache,
                seq![LookupEvent::CacheHit { length: Some(millis) }] + later,
            )[i] == LookupAction::Finish(Ok(millis)),
{
    lemma_duration_stays_in_cache(cache, mbid, LookupState::CheckingCache, first, millis);
    lemma_cache_hit_needs_no_request(Some(millis), later);
}

/// The time that a run of requests takes when each is followed by its
/// wait: the sum, over the requests, of the time the request took and the
/// wait that the lookup asks for after it. In milliseconds.
pub open spec fn paced_time(elapsed: Seq<u64>) -> nat
    decreases elapsed.len(),
{
    if elapsed.len() == 0 {
        0
    } else {
        (elapsed.last() + pacing_delay_spec(elapsed.last())) as nat + paced_time(
            elapsed.drop_last(),
        )
    }
}

/// Requests that are each followed by their wait take at least the minimum
/// spacing each, however quickly the service answers. So the time from the
/// first of them to the end of the last is no less than the spacing times
/// their number, and the more so times one less than their number.
pub proof fn lemma_requests_are_spaced(elapsed: Seq<u64>)
    ensures
        paced_time(elapsed) >= MIN_SPACING_MS * elapsed.len(),
        elapsed.len() >= 1 ==> paced_time(elapsed) >= MIN_SPACING_MS * (elapsed.len() - 1),
    decreases elapsed.len(),
{
    if elapsed.len() > 0 {
        lemma_requests_are_spaced(elapsed.drop_last());
    }
}

} // verus!
