//! The two request handlers, as transitions of the shared state.
//!
//! The surrounding program keeps one `AppState` behind a lock. For each
//! delay request it takes the lock, asks `wait_service` what to do, releases
//! the lock and carries the answer out: it sends a reply at once, or prints
//! the log line, waits on a timer and then sends what `wait_finished`
//! composes. A request for help needs the port alone and no lock.

use vstd::prelude::*;
use crate::decimal::decimal;
use crate::delay::{delay_of, lemma_decimal_is_accepted, parse_delay};
use crate::message::{
    example_msg, example_text, log_msg, log_text, refusal_msg, refusal_text, waited_msg,
    waited_text,
};

verus! {

/// The status of a reply that carries what was asked for.
pub const STATUS_OK: u16 = 200;

/// The status of a reply to a request that the caller has to correct.
pub const STATUS_BAD_REQUEST: u16 = 400;

/// What lives as long as the service does.
pub struct AppState {
    /// The port that the service listens on; it never changes.
    pub http_port: u16,
    /// How many delay requests have been accepted so far.
    pub count: u64,
}

/// An HTTP reply: its status and its body.
pub struct Reply {
    pub status: u16,
    pub body: String,
}

/// What the surrounding program has to do for a request to `/{segment}`.
pub enum Step {
    /// Print `log_line`, wait `millis` milliseconds without holding up other
    /// requests, then send what `wait_finished(millis)` composes.
    Suspend { count: u64, millis: u64, log_line: String },
    /// Send `reply` at once.
    Respond { reply: Reply },
}

impl AppState {
    /// The state after a request to `/{segment}`: an accepted delay is
    /// counted, anything else leaves the state as it is.
    pub open spec fn after_request(self, segment: Seq<char>) -> AppState {
        if delay_of(segment) is Some {
            AppState { http_port: self.http_port, count: (self.count + 1) as u64 }
        } else {
            self
        }
    }

    /// The state of a service that has just started to listen on `http_port`.
    pub fn new(http_port: u16) -> (state: AppState)
        ensures
            state.http_port == http_port,
            state.count == 0,
    {
        AppState { http_port, count: 0 }
    }

    /// Handles a request to `/{segment}` up to the point where it waits.
    ///
    /// A segment that is a delay is counted, and the step tells the number
    /// it was counted under, how long to wait and what to log. Any other
    /// segment changes nothing and is answered at once with status 400 and
    /// guidance. The counter has to have room for one more request.
    pub fn wait_service(&mut self, segment: &str) -> (step: Step)
        requires
            delay_of(segment@) is Some ==> old(self).count < u64::MAX,
        ensures
            *final(self) == old(self).after_request(segment@),
            match delay_of(segment@) {
                Some(wanted) => {
                    &&& step matches Step::Suspend { count, millis, log_line }
                    &&& count == old(self).count + 1
                    &&& millis == wanted
                    &&& log_line@ == log_text(count, millis)
                },
                None => {
                    &&& step matches Step::Respond { reply }
                    &&& reply.status == STATUS_BAD_REQUEST
                    &&& reply.body@ == refusal_text(old(self).http_port)
                },
            },
    {
        match parse_delay(segment) {
            Some(millis) => {
                self.count = self.count + 1;
                let count = self.count;
                Step::Suspend { count, millis, log_line: log_msg(count, millis) }
            },
            None => Step::Respond {
                reply: Reply { status: STATUS_BAD_REQUEST, body: refusal_msg(self.http_port) },
            },
        }
    }
}

/// Handles a request to `/`: the usage example for a service on
/// `http_port`, at once. It is handed the port alone, which never changes,
/// so it neither reads nor touches the counter.
pub fn help_service(http_port: u16) -> (reply: Reply)
    ensures
        reply.status == STATUS_OK,
        reply.body@ == example_text(http_port),
{
    Reply { status: STATUS_OK, body: example_msg(http_port) }
}

/// Composes the reply to a delay request whose wait of `millis` milliseconds
/// is over: status 200 and the delay that was asked for, not a measured one.
pub fn wait_finished(millis: u64) -> (reply: Reply)
    ensures
        reply.status == STATUS_OK,
        reply.body@ == waited_text(millis),
{
    Reply { status: STATUS_OK, body: waited_msg(millis) }
}

/// A request that names a delay in decimal notation is accepted with
/// exactly that delay, whatever it is, zero and `u64::MAX` included, and is
/// counted once.
pub proof fn lemma_decimal_request_is_counted(state: AppState, millis: u64)
    requires
        state.count < u64::MAX,
    ensures
        delay_of(decimal(millis as nat)) == Some(millis),
        state.after_request(decimal(millis as nat)).count == state.count + 1,
        state.after_request(decimal(millis as nat)).http_port == state.http_port,
{
    lemma_decimal_is_accepted(millis);
}

/// A request whose segment is no delay leaves the state as it was.
pub proof fn lemma_refused_request_changes_nothing(state: AppState, segment: Seq<char>)
    requires
        delay_of(segment) is None,
    ensures
        state.after_request(segment) == state,
{
}

/// The state after the requests to `segments`, handled one after another.
///
/// The lock around the state puts the requests that arrive together into
/// some order; `segments` is that order.
pub open spec fn after_requests(state: AppState, segments: Seq<Seq<char>>) -> AppState
    decreases segments.len(),
{
    if segments.len() == 0 {
        state
    } else {
        after_requests(state, segments.drop_last()).after_request(segments.last())
    }
}

/// How many of `segments` are delays.
pub open spec fn accepted(segments: Seq<Seq<char>>) -> nat
    decreases segments.len(),
{
    if segments.len() == 0 {
        0
    } else {
        accepted(segments.drop_last()) + if delay_of(segments.last()) is Some {
            1nat
        } else {
            0nat
        }
    }
}

/// The number that the request at position `i` of `segments` is counted
/// under, if it is a delay.
pub open spec fn count_given(state: AppState, segments: Seq<Seq<char>>, i: int) -> u64 {
    after_requests(state, segments.subrange(0, i + 1)).count
}

/// Among the first `b` requests at least as many are delays as among the
/// first `a`, for `a <= b`.
proof fn lemma_accepted_grows(segments: Seq<Seq<char>>, a: int, b: int)
    requires
        0 <= a <= b <= segments.len(),
    ensures
        accepted(segments.subrange(0, a)) <= accepted(segments.subrange(0, b)),
    decreases b - a,
{
    if a < b {
        lemma_accepted_grows(segments, a, b - 1);
        assert(segments.subrange(0, b).drop_last() =~= segments.subrange(0, b - 1));
    }
}

/// After any run of requests the counter has grown by the number of delays
/// among them, and the port is what it was: a segment that is no delay is
/// never counted, and no delay is counted twice or lost.
pub proof fn lemma_counter_tallies_delays(state: AppState, segments: Seq<Seq<char>>)
    requires
        state.count + accepted(segments) <= u64::MAX,
    ensures
        after_requests(state, segments).count == state.count + accepted(segments),
        after_requests(state, segments).http_port == state.http_port,
    decreases segments.len(),
{
    if segments.len() > 0 {
        lemma_counter_tallies_delays(state, segments.drop_last());
    }
}

/// After `segments.len()` requests that are all delays the counter has
/// grown by exactly that many.
pub proof fn lemma_counter_reaches_number_of_requests(
    state: AppState,
    segments: Seq<Seq<char>>,
)
    requires
        forall|i: int| 0 <= i < segments.len() ==> delay_of(#[trigger] segments[i]) is Some,
        state.count + segments.len() <= u64::MAX,
    ensures
        accepted(segments) == segments.len(),
        after_requests(state, segments).count == state.count + segments.len(),
    decreases segments.len(),
{
    if segments.len() > 0 {
        let front = segments.drop_last();
        assert forall|i: int| 0 <= i < front.len() implies delay_of(#[trigger] front[i])
            is Some by {
            assert(front[i] == segments[i]);
        }
        lemma_counter_reaches_number_of_requests(state, front);
    }
}

/// Two delay requests of one run are never counted under the same number:
/// the later one gets the greater.
pub proof fn lemma_counts_are_distinct(
    state: AppState,
    segments: Seq<Seq<char>>,
    i: int,
    j: int,
)
    requires
        state.count + accepted(segments) <= u64::MAX,
        0 <= i < j < segments.len(),
        delay_of(segments[i]) is Some,
        delay_of(segments[j]) is Some,
    ensures
        count_given(state, segments, i) < count_given(state, segments, j),
{
    let upto_i = segments.subrange(0, i + 1);
    let before_j = segments.subrange(0, j);
    let upto_j = segments.subrange(0, j + 1);
    lemma_accepted_grows(segments, i + 1, j);
    lemma_accepted_grows(segments, j + 1, segments.len() as int);
    assert(segments.subrange(0, segments.len() as int) =~= segments);
    assert(upto_j.drop_last() =~= before_j);
    assert(upto_j.last() == segments[j]);
    assert(accepted(upto_j) == accepted(before_j) + 1);
    lemma_counter_tallies_delays(state, upto_i);
    lemma_counter_tallies_delays(state, upto_j);
}

/// The counter never goes down.
pub proof fn lemma_counter_is_monotonic(state: AppState, segments: Seq<Seq<char>>)
    requires
        state.count + accepted(segments) <= u64::MAX,
    ensures
        after_requests(state, segments).count >= state.count,
{
    lemma_counter_tallies_delays(state, segments);
}

} // verus!
