//! What holds of scanning over all requests, concurrent ones included.

use vstd::prelude::*;

use crate::config::Filter;
use crate::events::PlatformEventView;
use crate::laws::after_all;
use crate::session::{PlatformRequest, ScanDecision, ScanError, SessionView};

verus! {

/// A request of an application.
pub enum ScanCall {
    Start(Filter),
    Stop,
}

/// What becomes of a request as things are.
pub open spec fn decision(session: SessionView, call: ScanCall) -> ScanDecision {
    match call {
        ScanCall::Start(filter) => session.on_start(filter),
        ScanCall::Stop => session.on_stop(),
    }
}

/// How a request ended.
pub enum CallResult {
    /// The platform granted it.
    Granted,
    /// The platform turned it down.
    TurnedDown,
    /// The session refused it.
    Refused(ScanError),
}

/// Requests that are under way at the same time, on one session.
#[verifier::ext_equal]
pub struct ScanRun {
    pub session: SessionView,
    /// The request that the platform is to answer.
    pub asking: Option<int>,
    /// How the requests ended that did.
    pub results: Map<int, CallResult>,
    /// What the platform was asked, in this order.
    pub asked: Seq<PlatformRequest>,
    /// How often the platform answered.
    pub answers: nat,
    /// The requests that were granted, in this order.
    pub granted: Seq<int>,
}

/// What can happen next.
pub enum ScanStep {
    /// A request is made, or made again after it had to wait.
    Make(int),
    /// The platform answers.
    Answer(bool),
    /// The platform reports something.
    Report(PlatformEventView),
}

impl ScanRun {
    /// Nothing has happened yet.
    pub open spec fn start(session: SessionView) -> ScanRun {
        ScanRun {
            session,
            asking: None,
            results: Map::empty(),
            asked: Seq::empty(),
            answers: 0,
            granted: Seq::empty(),
        }
    }

    /// The run once a step is taken. A step that cannot be taken changes
    /// nothing: a request that has ended or that the platform is to answer is
    /// not made again, and the platform answers only what it was asked.
    pub open spec fn after(self, calls: Seq<ScanCall>, step: ScanStep) -> ScanRun {
        match step {
            ScanStep::Make(call) => if 0 <= call < calls.len() && !self.results.contains_key(call)
                && self.asking != Some(call) {
                let decision = decision(self.session, calls[call]);
                let session = self.session.decided(decision);
                match decision {
                    ScanDecision::Ask(request) => ScanRun {
                        session,
                        asking: Some(call),
                        asked: self.asked.push(request),
                        ..self
                    },
                    ScanDecision::Refuse(error) => ScanRun {
                        session,
                        results: self.results.insert(call, CallResult::Refused(error)),
                        ..self
                    },
                    ScanDecision::Wait => ScanRun { session, ..self },
                }
            } else {
                self
            },
            ScanStep::Answer(granted) => match self.asking {
                Some(call) => ScanRun {
                    session: self.session.answered(self.asked.last(), granted),
                    asking: None,
                    results: self.results.insert(
                        call,
                        if granted {
                            CallResult::Granted
                        } else {
                            CallResult::TurnedDown
                        },
                    ),
                    asked: self.asked,
                    answers: self.answers + 1,
                    granted: if granted {
                        self.granted.push(call)
                    } else {
                        self.granted
                    },
                },
                None => self,
            },
            ScanStep::Report(report) => ScanRun { session: self.session.after(report), ..self },
        }
    }
}

/// The run once all steps are taken, one after the other.
pub open spec fn run(session: SessionView, calls: Seq<ScanCall>, steps: Seq<ScanStep>) -> ScanRun
    decreases steps.len(),
{
    if steps.len() == 0 {
        ScanRun::start(session)
    } else {
        run(session, calls, steps.drop_last()).after(calls, steps.last())
    }
}

/// A session that does not scan and is not about to.
pub open spec fn idle(session: SessionView) -> bool {
    !session.is_scanning && session.pending is None
}

/// What holds of a run that began idle, whatever has happened.
spec fn run_valid(run: ScanRun, calls: Seq<ScanCall>) -> bool {
    &&& match run.asking {
        Some(call) => {
            &&& 0 <= call < calls.len()
            &&& !run.results.contains_key(call)
            &&& run.asked.len() == run.answers + 1
            &&& run.session.pending == Some(run.asked.last())
            &&& calls[call] is Start == !run.session.is_scanning
            &&& run.asked.last() is StartScanning == calls[call] is Start
        },
        None => run.session.pending is None && run.asked.len() == run.answers,
    }
    &&& forall|i: int|
        0 <= i < run.granted.len() ==> {
            &&& 0 <= #[trigger] run.granted[i] < calls.len()
            &&& calls[run.granted[i]] is Start == (i % 2 == 0)
        }
    &&& run.granted.no_duplicates()
    &&& forall|call: int| #[trigger]
        run.granted.contains(call) <==> run.results.contains_key(call)
            && run.results[call] is Granted
    &&& run.session.is_scanning == (run.granted.len() % 2 == 1)
}

proof fn lemma_run_valid(session: SessionView, calls: Seq<ScanCall>, steps: Seq<ScanStep>)
    requires
        idle(session),
    ensures
        run_valid(run(session, calls, steps), calls),
    decreases steps.len(),
{
    if steps.len() > 0 {
        let before = run(session, calls, steps.drop_last());
        let after = run(session, calls, steps);
        lemma_run_valid(session, calls, steps.drop_last());
        if steps.last() == ScanStep::Answer(true) && before.asking is Some {
            let answered = before.asking->0;
            assert(!before.granted.contains(answered));
            assert forall|call: int| #[trigger]
                after.granted.contains(call) <==> after.results.contains_key(call)
                    && after.results[call] is Granted by {
                assert(before.granted.contains(call) <==> before.results.contains_key(call)
                    && before.results[call] is Granted);
                if before.granted.contains(call) {
                    let i = choose|i: int|
                        0 <= i < before.granted.len() && before.granted[i] == call;
                    assert(after.granted[i] == call);
                }
                assert(after.granted[before.granted.len() as int] == answered);
            }
        } else {
            assert forall|call: int| #[trigger]
                after.granted.contains(call) <==> after.results.contains_key(call)
                    && after.results[call] is Granted by {
                assert(before.granted.contains(call) <==> before.results.contains_key(call)
                    && before.results[call] is Granted);
            }
        }
    }
}

/// However requests to start and to stop interleave, the platform answers one
/// before it is asked the next.
pub proof fn law_platform_is_asked_in_turn(
    session: SessionView,
    calls: Seq<ScanCall>,
    steps: Seq<ScanStep>,
)
    requires
        idle(session),
    ensures
        ({
            let run = run(session, calls, steps);
            run.asked.len() == run.answers + if run.asking is Some {
                1nat
            } else {
                0nat
            }
        }),
{
    lemma_run_valid(session, calls, steps);
}

/// However requests to start and to stop interleave, those that are granted
/// alternate, a start first, and the session scans exactly if the last one was a
/// start.
pub proof fn law_granted_calls_alternate(
    session: SessionView,
    calls: Seq<ScanCall>,
    steps: Seq<ScanStep>,
)
    requires
        idle(session),
    ensures
        ({
            let run = run(session, calls, steps);
            &&& forall|i: int|
                0 <= i < run.granted.len() ==> calls[#[trigger] run.granted[i]] is Start == (i % 2
                    == 0)
            &&& run.session.is_scanning <==> run.granted.len() > 0
                && calls[run.granted.last()] is Start
            &&& run.granted.no_duplicates()
            &&& forall|call: int| #[trigger]
                run.granted.contains(call) <==> run.results.contains_key(call)
                    && run.results[call] is Granted
        }),
{
    lemma_run_valid(session, calls, steps);
}

/// How many of the requests are of the given kind.
pub open spec fn count(calls: Seq<ScanCall>, which: Seq<int>, starts: bool) -> nat
    decreases which.len(),
{
    if which.len() == 0 {
        0
    } else {
        count(calls, which.drop_last(), starts) + if calls[which.last()] is Start == starts {
            1nat
        } else {
            0nat
        }
    }
}

proof fn lemma_count_alternating(calls: Seq<ScanCall>, which: Seq<int>)
    requires
        forall|i: int|
            0 <= i < which.len() ==> calls[#[trigger] which[i]] is Start == (i % 2 == 0),
    ensures
        count(calls, which, true) == count(calls, which, false) + which.len() % 2,
    decreases which.len(),
{
    if which.len() > 0 {
        let rest = which.drop_last();
        assert forall|i: int| 0 <= i < rest.len() implies calls[#[trigger] rest[i]] is Start == (i
            % 2 == 0) by {
            assert(rest[i] == which[i]);
        }
        lemma_count_alternating(calls, rest);
        assert(which.last() == which[which.len() - 1]);
    }
}

/// However requests to start and to stop interleave, the session scans exactly
/// if one more start than stops was granted; else there were as many of each.
pub proof fn law_scanning_counts_granted_calls(
    session: SessionView,
    calls: Seq<ScanCall>,
    steps: Seq<ScanStep>,
)
    requires
        idle(session),
    ensures
        ({
            let run = run(session, calls, steps);
            count(calls, run.granted, true) == count(calls, run.granted, false)
                + if run.session.is_scanning {
                1nat
            } else {
                0nat
            }
        }),
{
    lemma_run_valid(session, calls, steps);
    lemma_count_alternating(calls, run(session, calls, steps).granted);
}

/// How far a run of nothing but starts has got, `winner` being the one that the
/// platform was asked.
spec fn starts_run(run: ScanRun, winner: Option<int>) -> bool {
    match winner {
        None => {
            &&& idle(run.session)
            &&& run.asking is None
            &&& run.results == Map::<int, CallResult>::empty()
            &&& run.asked.len() == 0
        },
        Some(winner) => {
            &&& run.asked.len() == 1
            &&& run.asked[0] is StartScanning
            &&& run.asking is Some ==> {
                &&& run.asking == Some(winner)
                &&& run.session.pending == Some(run.asked[0])
                &&& run.results == Map::<int, CallResult>::empty()
            }
            &&& run.asking is None ==> {
                &&& run.session.is_scanning
                &&& run.session.pending is None
                &&& run.results.contains_key(winner)
                &&& run.results[winner] is Granted
                &&& forall|call: int| #[trigger]
                    run.results.contains_key(call) && call != winner ==> run.results[call]
                        == CallResult::Refused(ScanError::AlreadyScanning)
            }
        },
    }
}

proof fn lemma_starts_run(session: SessionView, calls: Seq<ScanCall>, steps: Seq<ScanStep>) -> (
    winner: Option<int>)
    requires
        idle(session),
        forall|i: int| 0 <= i < calls.len() ==> (#[trigger] calls[i]) is Start,
        forall|i: int| 0 <= i < steps.len() ==> (#[trigger] steps[i]) != ScanStep::Answer(false),
    ensures
        starts_run(run(session, calls, steps), winner),
        winner matches Some(winner) ==> 0 <= winner < calls.len(),
    decreases steps.len(),
{
    if steps.len() == 0 {
        None
    } else {
        let earlier = steps.drop_last();
        assert forall|i: int| 0 <= i < earlier.len() implies (#[trigger] earlier[i])
            != ScanStep::Answer(false) by {
            assert(earlier[i] == steps[i]);
        }
        assert(steps.last() == steps[steps.len() - 1]);
        let winner = lemma_starts_run(session, calls, earlier);
        match (winner, run(session, calls, steps).asking) {
            (None, Some(call)) => Some(call),
            _ => winner,
        }
    }
}

/// Of requests to start that are made at the same time, on a platform that
/// grants what it is asked, one is granted and the others are refused. The
/// platform is asked once, and in the end the session scans.
pub proof fn law_concurrent_starts(
    session: SessionView,
    calls: Seq<ScanCall>,
    steps: Seq<ScanStep>,
)
    requires
        idle(session),
        calls.len() > 0,
        forall|i: int| 0 <= i < calls.len() ==> (#[trigger] calls[i]) is Start,
        forall|i: int| 0 <= i < steps.len() ==> (#[trigger] steps[i]) != ScanStep::Answer(false),
        forall|call: int|
            0 <= call < calls.len() ==> #[trigger] run(session, calls, steps).results.contains_key(
                call,
            ),
    ensures
        ({
            let run = run(session, calls, steps);
            &&& run.asked.len() == 1
            &&& run.session.is_scanning
            &&& run.session.pending is None
            &&& exists|winner: int|
                {
                    &&& 0 <= winner < calls.len()
                    &&& #[trigger] run.results[winner] is Granted
                    &&& forall|call: int|
                        0 <= call < calls.len() && call != winner ==> #[trigger] run.results[call]
                            == CallResult::Refused(ScanError::AlreadyScanning)
                }
        }),
{
    let winner = lemma_starts_run(session, calls, steps);
    let run = run(session, calls, steps);
    assert(run.results.contains_key(0));
    let winner = winner->0;
    assert(run.results[winner] is Granted);
    assert forall|call: int| 0 <= call < calls.len() && call != winner implies #[trigger]
        run.results[call] == CallResult::Refused(ScanError::AlreadyScanning) by {
        assert(run.results.contains_key(call));
    }
}

/// The session once a request is settled that did not have to wait.
pub open spec fn settled(session: SessionView, call: ScanCall, granted: bool) -> SessionView {
    match decision(session, call) {
        ScanDecision::Ask(request) => session.decided(ScanDecision::Ask(request)).answered(
            request,
            granted,
        ),
        _ => session,
    }
}

/// While a session scans, and until a stop is granted, a request to start does
/// not reach the platform: it is refused, or it waits for the answer to another.
pub proof fn law_one_scan_at_a_time(
    session: SessionView,
    calls: Seq<ScanCall>,
    steps: Seq<ScanStep>,
    filter: Filter,
)
    requires
        idle(session),
        ({
            let run = run(session, calls, steps);
            run.granted.len() > 0 && calls[run.granted.last()] is Start
        }),
    ensures
        ({
            let session = run(session, calls, steps).session;
            session.on_start(filter) == if session.pending is Some {
                ScanDecision::Wait
            } else {
                ScanDecision::Refuse(ScanError::AlreadyScanning)
            }
        }),
{
    law_granted_calls_alternate(session, calls, steps);
}

/// Stopping a scan takes back its start.
pub proof fn law_stop_takes_back_start(session: SessionView, filter: Filter)
    requires
        idle(session),
    ensures
        ({
            let scanning = settled(session, ScanCall::Start(filter), true);
            &&& scanning.on_stop() == ScanDecision::Ask(PlatformRequest::StopScanning)
            &&& settled(scanning, ScanCall::Stop, true) == session
            &&& session.on_stop() == ScanDecision::Refuse(ScanError::NotScanning)
        }),
{
}

/// A request that the platform turns down changes nothing, and neither does one
/// that the session refuses, whatever the platform would have said.
pub proof fn law_failed_call_changes_nothing(session: SessionView, call: ScanCall, granted: bool)
    requires
        granted ==> decision(session, call) is Refuse,
    ensures
        settled(session, call, granted) == session,
{
}

/// Scanning and tracking do not interfere: no report changes the scan or a
/// request for one, and no request changes what is known of a peripheral.
pub proof fn law_scanning_is_separate(
    session: SessionView,
    reports: Seq<PlatformEventView>,
    decision: ScanDecision,
    request: PlatformRequest,
    granted: bool,
)
    ensures
        after_all(session, reports).is_scanning == session.is_scanning,
        after_all(session, reports).pending == session.pending,
        session.decided(decision).peripherals == session.peripherals,
        session.answered(request, granted).peripherals == session.peripherals,
    decreases reports.len(),
{
    if reports.len() > 0 {
        law_scanning_is_separate(session, reports.drop_last(), decision, request, granted);
    }
}

/// Requests and answers keep a session valid.
pub proof fn law_requests_keep_sessions_valid(
    session: SessionView,
    call: ScanCall,
    request: PlatformRequest,
    granted: bool,
)
    requires
        session.valid(),
    ensures
        session.decided(decision(session, call)).valid(),
        session.answered(request, granted).valid(),
{
}

} // verus!
