//! Waiting on the node's event stream until an event of the gear pallet is the one
//! looked for, the system reports a rejected transaction, or the stream ends.

use crate::api::error::{DecodeError, TransportError, WaitError};
use crate::api::record::{Event, EventRecord, Events, GearEvent};
use crate::api::Api;
use vstd::prelude::*;

verus! {

/// How a wait stands.
#[derive(Clone, Copy, Debug, PartialEq, Eq)]
pub enum WaitState {
    /// Nothing has ended the wait yet.
    Waiting,
    /// An event of the gear pallet was the one looked for.
    Matched,
    /// The system reported a rejected transaction.
    Failed,
    /// The stream ended.
    Closed,
}

/// Where one step of a wait got to.
#[derive(Clone, Copy, Debug, PartialEq, Eq)]
pub struct BatchScan {
    /// How the wait stands after the step.
    pub state: WaitState,
    /// How many records of the batch were looked at, the one that ended the wait
    /// included.
    pub examined: usize,
}

/// Where a wait on a stream ended.
#[derive(Clone, Copy, Debug, PartialEq, Eq)]
pub struct WaitReport {
    /// How the wait ended; never `Waiting`.
    pub state: WaitState,
    /// How many pulls the wait consumed.
    pub batches: usize,
    /// Where a record ended the wait: how many records of its batch were looked at,
    /// that one included. 0 where the stream ended.
    pub records: usize,
}

/// The record ends the scan whatever the events before it were: it did not decode,
/// or it is the system's report of a rejected transaction.
pub open spec fn halts(record: EventRecord) -> bool {
    match record.event {
        Err(_) => true,
        Ok(event) => event.is_extrinsic_failed(),
    }
}

/// None of the first `upto` records of `batch` halts the scan.
pub open spec fn calm(batch: Seq<EventRecord>, upto: int) -> bool {
    forall|i: int| 0 <= i < upto ==> !halts(#[trigger] batch[i])
}

/// `wait` may be called on each event of the gear pallet in `batch` that no halting
/// record precedes.
pub open spec fn callable_on<F: Fn(&GearEvent) -> bool>(wait: F, batch: Seq<EventRecord>) -> bool {
    forall|at: int|
        0 <= at < batch.len() && calm(batch, at) ==> (#[trigger] batch[at].event matches Ok(
            Event::Gear(event),
        ) ==> call_requires(wait, (&event,)))
}

/// The scan passes over the record: it decoded, and it is neither the system's
/// report of a rejected transaction nor an event of the gear pallet for which
/// `wait` can have answered anything but no.
pub open spec fn passed<F: Fn(&GearEvent) -> bool>(wait: F, record: EventRecord) -> bool {
    match record.event {
        Err(_) => false,
        Ok(Event::Gear(event)) => call_ensures(wait, (&event,), false),
        Ok(event) => !event.is_extrinsic_failed(),
    }
}

/// The scan passes over each of the first `upto` records of `batch`.
pub open spec fn passed_all<F: Fn(&GearEvent) -> bool>(
    wait: F,
    batch: Seq<EventRecord>,
    upto: int,
) -> bool {
    forall|i: int| 0 <= i < upto ==> passed(wait, #[trigger] batch[i])
}

/// `result` is what a scan of `batch` with `wait` can come to. The scan passes over
/// records up to the first that ends it: the system's report of a rejected
/// transaction (`Failed`), an event of the gear pallet to which `wait` said yes
/// (`Matched`), or a record that did not decode (its failure). Where no record ends
/// it, all were looked at and the wait goes on.
pub open spec fn scanned<F: Fn(&GearEvent) -> bool>(
    wait: F,
    batch: Seq<EventRecord>,
    result: Result<BatchScan, DecodeError>,
) -> bool {
    match result {
        Ok(scan) => match scan.state {
            WaitState::Waiting => scan.examined == batch.len() && passed_all(
                wait,
                batch,
                batch.len() as int,
            ),
            WaitState::Failed => {
                &&& 1 <= scan.examined <= batch.len()
                &&& passed_all(wait, batch, scan.examined - 1)
                &&& batch[scan.examined - 1].event matches Ok(event)
                &&& event.is_extrinsic_failed()
            },
            WaitState::Matched => {
                &&& 1 <= scan.examined <= batch.len()
                &&& passed_all(wait, batch, scan.examined - 1)
                &&& batch[scan.examined - 1].event matches Ok(Event::Gear(event))
                &&& call_ensures(wait, (&event,), true)
            },
            WaitState::Closed => false,
        },
        Err(e) => exists|at: int|
            {
                &&& 0 <= at < batch.len()
                &&& passed_all(wait, batch, at)
                &&& #[trigger] batch[at].event == Err::<Event, DecodeError>(e)
            },
    }
}

/// Each of the first `upto` pulls of `pulls` brought a batch, and the scan passes
/// over every record of it.
pub open spec fn passed_pulls<F: Fn(&GearEvent) -> bool>(
    wait: F,
    pulls: Seq<Result<Vec<EventRecord>, TransportError>>,
    upto: int,
) -> bool {
    forall|b: int|
        0 <= b < upto ==> (#[trigger] pulls[b] matches Ok(batch) && passed_all(
            wait,
            batch@,
            batch.len() as int,
        ))
}

/// Each of the first `upto` pulls of `pulls` brought a batch, and none of its
/// records halts the scan.
pub open spec fn calm_pulls(pulls: Seq<Result<Vec<EventRecord>, TransportError>>, upto: int) -> bool {
    forall|b: int|
        0 <= b < upto ==> (#[trigger] pulls[b] matches Ok(batch) && calm(
            batch@,
            batch.len() as int,
        ))
}

/// `wait` may be called on each event of the gear pallet in `pulls` that neither a
/// failed pull nor a halting record precedes.
pub open spec fn callable_over<F: Fn(&GearEvent) -> bool>(
    wait: F,
    pulls: Seq<Result<Vec<EventRecord>, TransportError>>,
) -> bool {
    forall|b: int|
        0 <= b < pulls.len() && calm_pulls(pulls, b) ==> (#[trigger] pulls[b] matches Ok(batch)
            ==> callable_on(wait, batch@))
}

/// `result` is what one step of a wait with `wait` can come to, on what a pull of
/// the stream brought: `None` for a stream that has ended, which closes the wait
/// with no record looked at; a failed pull, which breaks the wait off with the
/// transport's failure; or a batch, which is scanned.
pub open spec fn stepped<F: Fn(&GearEvent) -> bool>(
    wait: F,
    pull: Option<Result<Vec<EventRecord>, TransportError>>,
    result: Result<BatchScan, WaitError>,
) -> bool {
    match pull {
        None => result == Ok::<BatchScan, WaitError>(
            BatchScan { state: WaitState::Closed, examined: 0 },
        ),
        Some(Err(e)) => result == Err::<BatchScan, WaitError>(WaitError::Transport(e)),
        Some(Ok(batch)) => match result {
            Ok(scan) => scanned(wait, batch@, Ok(scan)),
            Err(WaitError::Decode(e)) => scanned(wait, batch@, Err(e)),
            Err(WaitError::Transport(_)) => false,
        },
    }
}

/// `result` is what a wait with `wait` on the pulls `pulls` can come to. The wait
/// steps through the pulls in order and passes over every record until a step ends
/// it; a stream that runs out closes it.
pub open spec fn waited<F: Fn(&GearEvent) -> bool>(
    wait: F,
    pulls: Seq<Result<Vec<EventRecord>, TransportError>>,
    result: Result<WaitReport, WaitError>,
) -> bool {
    match result {
        Ok(report) => match report.state {
            WaitState::Waiting => false,
            WaitState::Closed => {
                &&& report.batches == pulls.len()
                &&& report.records == 0
                &&& passed_pulls(wait, pulls, pulls.len() as int)
            },
            _ => {
                &&& 1 <= report.batches <= pulls.len()
                &&& passed_pulls(wait, pulls, report.batches - 1)
                &&& stepped(
                    wait,
                    Some(pulls[report.batches - 1]),
                    Ok(BatchScan { state: report.state, examined: report.records }),
                )
            },
        },
        Err(e) => exists|b: int|
            {
                &&& 0 <= b < pulls.len()
                &&& passed_pulls(wait, pulls, b)
                &&& stepped(wait, Some(#[trigger] pulls[b]), Err(e))
            },
    }
}

/// A record over which the scan passes does not halt it.
pub proof fn lemma_passed_is_calm<F: Fn(&GearEvent) -> bool>(
    wait: F,
    batch: Seq<EventRecord>,
    upto: int,
)
    requires
        passed_all(wait, batch, upto),
    ensures
        calm(batch, upto),
{
    assert forall|i: int| 0 <= i < upto implies !halts(#[trigger] batch[i]) by {
        assert(passed(wait, batch[i]));
    }
}

/// Each of the first `upto` records of `batch` decoded, none is the system's report
/// of a rejected transaction, and none is an event of the gear pallet to which
/// `wait` can say yes.
pub open spec fn unmatched<F: Fn(&GearEvent) -> bool>(
    wait: F,
    batch: Seq<EventRecord>,
    upto: int,
) -> bool {
    forall|i: int|
        0 <= i < upto ==> match (#[trigger] batch[i]).event {
            Err(_) => false,
            Ok(Event::Gear(event)) => !call_ensures(wait, (&event,), true),
            Ok(event) => !event.is_extrinsic_failed(),
        }
}

/// Each of the first `upto` records of `batch` decoded, and none is the system's
/// report of a rejected transaction or an event of the gear pallet.
pub open spec fn quiet(batch: Seq<EventRecord>, upto: int) -> bool {
    forall|i: int|
        0 <= i < upto ==> match (#[trigger] batch[i]).event {
            Err(_) => false,
            Ok(Event::Gear(_)) => false,
            Ok(event) => !event.is_extrinsic_failed(),
        }
}

/// With a `wait` that never says no, a wait ends at the first event of the gear
/// pallet, wherever in its batch that stands: where every pull before brought a
/// batch, and every record before the event decoded and is not the system's report
/// of a rejected transaction.
pub proof fn lemma_ready_wait_matches_first<F: Fn(&GearEvent) -> bool>(
    wait: F,
    pulls: Seq<Result<Vec<EventRecord>, TransportError>>,
    result: Result<WaitReport, WaitError>,
    b: int,
    at: int,
)
    requires
        waited(wait, pulls, result),
        forall|event: GearEvent| !call_ensures(wait, (&event,), false),
        0 <= b < pulls.len(),
        forall|earlier: int|
            0 <= earlier < b ==> (#[trigger] pulls[earlier] matches Ok(batch) && quiet(
                batch@,
                batch.len() as int,
            )),
        pulls[b] matches Ok(batch) && 0 <= at < batch.len() && quiet(batch@, at) && (
        batch[at].event matches Ok(Event::Gear(_))),
    ensures
        result == Ok::<WaitReport, WaitError>(
            WaitReport { state: WaitState::Matched, batches: (b + 1) as usize, records: (at + 1) as usize },
        ),
{
    let batch = pulls[b]->Ok_0;
    assert forall|earlier: int| 0 <= earlier < b implies (#[trigger] pulls[earlier] matches Ok(
        early,
    ) && unmatched(wait, early@, early.len() as int)) by {
        let early = pulls[earlier]->Ok_0;
        assert(quiet(early@, early.len() as int));
    }
    assert(unmatched(wait, batch@, at));
    lemma_wait_ends_at(wait, pulls, result, b, at);
}

/// A wait ends at the system's report of a rejected transaction, with no record
/// behind it looked at: where every pull before brought a batch, and every record
/// before the report decoded and is neither such a report nor an event of the gear
/// pallet to which `wait` can say yes.
pub proof fn lemma_failure_ends_wait<F: Fn(&GearEvent) -> bool>(
    wait: F,
    pulls: Seq<Result<Vec<EventRecord>, TransportError>>,
    result: Result<WaitReport, WaitError>,
    b: int,
    at: int,
)
    requires
        waited(wait, pulls, result),
        0 <= b < pulls.len(),
        forall|earlier: int|
            0 <= earlier < b ==> (#[trigger] pulls[earlier] matches Ok(batch) && unmatched(
                wait,
                batch@,
                batch.len() as int,
            )),
        pulls[b] matches Ok(batch) && 0 <= at < batch.len() && unmatched(wait, batch@, at)
            && halts(batch[at]) && batch[at].event is Ok,
    ensures
        result == Ok::<WaitReport, WaitError>(
            WaitReport { state: WaitState::Failed, batches: (b + 1) as usize, records: (at + 1) as usize },
        ),
{
    lemma_wait_ends_at(wait, pulls, result, b, at);
}

/// `wait` has one answer to each event: it cannot say both yes and no to it.
pub open spec fn single_minded<F: Fn(&GearEvent) -> bool>(wait: F) -> bool {
    forall|event: GearEvent|
        !(call_ensures(wait, (&event,), true) && #[trigger] call_ensures(wait, (&event,), false))
}

/// With a `wait` that has one answer to each event, a wait on given pulls has one
/// result.
pub proof fn lemma_wait_is_determined<F: Fn(&GearEvent) -> bool>(
    wait: F,
    pulls: Seq<Result<Vec<EventRecord>, TransportError>>,
    one: Result<WaitReport, WaitError>,
    other: Result<WaitReport, WaitError>,
)
    requires
        single_minded(wait),
        waited(wait, pulls, one),
        waited(wait, pulls, other),
    ensures
        one == other,
{
    match (one, other) {
        (Ok(a), Ok(b)) => {
            if a.state != WaitState::Closed {
                lemma_ended_wait_is_determined(wait, pulls, a, other);
            } else if b.state != WaitState::Closed {
                lemma_ended_wait_is_determined(wait, pulls, b, one);
            }
        },
        (Ok(a), Err(e)) => {
            if a.state != WaitState::Closed {
                lemma_ended_wait_is_determined(wait, pulls, a, other);
            } else {
                lemma_broken_wait_is_determined(wait, pulls, e, one);
            }
        },
        (Err(e), Ok(b)) => {
            if b.state != WaitState::Closed {
                lemma_ended_wait_is_determined(wait, pulls, b, one);
            } else {
                lemma_broken_wait_is_determined(wait, pulls, e, other);
            }
        },
        (Err(e), Err(_)) => {
            lemma_broken_wait_is_determined(wait, pulls, e, other);
        },
    }
}

/// Records over which the scan passed are none to which a single-minded `wait` can
/// say yes.
proof fn lemma_passed_is_unmatched<F: Fn(&GearEvent) -> bool>(
    wait: F,
    batch: Seq<EventRecord>,
    upto: int,
)
    requires
        single_minded(wait),
        passed_all(wait, batch, upto),
    ensures
        unmatched(wait, batch, upto),
{
    assert forall|i: int| 0 <= i < upto implies match (#[trigger] batch[i]).event {
        Err(_) => false,
        Ok(Event::Gear(event)) => !call_ensures(wait, (&event,), true),
        Ok(event) => !event.is_extrinsic_failed(),
    } by {
        assert(passed(wait, batch[i]));
    }
}

/// The same of whole pulls.
proof fn lemma_passed_pulls_are_unmatched<F: Fn(&GearEvent) -> bool>(
    wait: F,
    pulls: Seq<Result<Vec<EventRecord>, TransportError>>,
    upto: int,
)
    requires
        single_minded(wait),
        passed_pulls(wait, pulls, upto),
    ensures
        forall|earlier: int|
            0 <= earlier < upto ==> (#[trigger] pulls[earlier] matches Ok(batch) && unmatched(
                wait,
                batch@,
                batch.len() as int,
            )),
{
    assert forall|earlier: int| 0 <= earlier < upto implies (#[trigger] pulls[earlier] matches Ok(
        batch,
    ) && unmatched(wait, batch@, batch.len() as int)) by {
        let batch = pulls[earlier]->Ok_0;
        lemma_passed_is_unmatched(wait, batch@, batch.len() as int);
    }
}

/// A wait that a record ended can have no other result.
proof fn lemma_ended_wait_is_determined<F: Fn(&GearEvent) -> bool>(
    wait: F,
    pulls: Seq<Result<Vec<EventRecord>, TransportError>>,
    report: WaitReport,
    other: Result<WaitReport, WaitError>,
)
    requires
        single_minded(wait),
        report.state != WaitState::Closed,
        waited(wait, pulls, Ok(report)),
        waited(wait, pulls, other),
    ensures
        other == Ok::<WaitReport, WaitError>(report),
{
    let b = report.batches - 1;
    let at = report.records - 1;
    let batch = pulls[b]->Ok_0;
    lemma_passed_pulls_are_unmatched(wait, pulls, b);
    lemma_passed_is_unmatched(wait, batch@, at);
    lemma_wait_ends_at(wait, pulls, other, b, at);
}

/// A wait that broke off can have no other result.
proof fn lemma_broken_wait_is_determined<F: Fn(&GearEvent) -> bool>(
    wait: F,
    pulls: Seq<Result<Vec<EventRecord>, TransportError>>,
    error: WaitError,
    other: Result<WaitReport, WaitError>,
)
    requires
        waited(wait, pulls, Err(error)),
        waited(wait, pulls, other),
        other matches Ok(report) ==> report.state == WaitState::Closed,
    ensures
        other == Err::<WaitReport, WaitError>(error),
{
    let b = choose|b: int|
        {
            &&& 0 <= b < pulls.len()
            &&& passed_pulls(wait, pulls, b)
            &&& stepped(wait, Some(#[trigger] pulls[b]), Err(error))
        };
    match other {
        Ok(report) => {
            assert(pulls[b] is Ok);
            lemma_step_breaks_once(wait, pulls[b], error, error);
        },
        Err(e) => {
            let c = choose|c: int|
                {
                    &&& 0 <= c < pulls.len()
                    &&& passed_pulls(wait, pulls, c)
                    &&& stepped(wait, Some(#[trigger] pulls[c]), Err(e))
                };
            if b < c {
                assert(pulls[b] is Ok);
                lemma_step_breaks_once(wait, pulls[b], error, error);
            } else if c < b {
                assert(pulls[c] is Ok);
                lemma_step_breaks_once(wait, pulls[c], e, e);
            } else {
                lemma_step_breaks_once(wait, pulls[b], error, e);
            }
        },
    }
}

/// A step that broke off did so at a record that did not decode or at a failed
/// pull, and has one failure.
proof fn lemma_step_breaks_once<F: Fn(&GearEvent) -> bool>(
    wait: F,
    pull: Result<Vec<EventRecord>, TransportError>,
    one: WaitError,
    other: WaitError,
)
    requires
        stepped(wait, Some(pull), Err(one)),
        stepped(wait, Some(pull), Err(other)),
    ensures
        one == other,
        pull matches Ok(batch) ==> !passed_all(wait, batch@, batch.len() as int),
{
    match pull {
        Err(_) => {},
        Ok(batch) => {
            let first = one->Decode_0;
            let second = other->Decode_0;
            let i = choose|at: int|
                {
                    &&& 0 <= at < batch@.len()
                    &&& passed_all(wait, batch@, at)
                    &&& #[trigger] batch@[at].event == Err::<Event, DecodeError>(first)
                };
            let j = choose|at: int|
                {
                    &&& 0 <= at < batch@.len()
                    &&& passed_all(wait, batch@, at)
                    &&& #[trigger] batch@[at].event == Err::<Event, DecodeError>(second)
                };
            if i < j {
                assert(passed(wait, batch@[i]));
            } else if j < i {
                assert(passed(wait, batch@[j]));
            }
            if passed_all(wait, batch@, batch.len() as int) {
                assert(passed(wait, batch@[i]));
            }
        },
    }
}

/// The scan of a batch does not get past a record over which it cannot pass, and
/// does not end before one at which it cannot end.
proof fn lemma_scan_ends_at<F: Fn(&GearEvent) -> bool>(
    wait: F,
    batch: Seq<EventRecord>,
    result: Result<BatchScan, DecodeError>,
    at: int,
)
    requires
        scanned(wait, batch, result),
        0 <= at < batch.len(),
        unmatched(wait, batch, at),
        !passed(wait, batch[at]),
        batch[at].event is Ok,
    ensures
        result matches Ok(scan) && scan.examined == at + 1 && scan.state != WaitState::Waiting,
{
    match result {
        Ok(scan) => {
            let last = scan.examined - 1;
            if scan.state == WaitState::Waiting {
                assert(passed(wait, batch[at]));
            } else {
                if last < at {
                    assert(batch[last].event is Ok);
                } else if last > at {
                    assert(passed(wait, batch[at]));
                }
            }
        },
        Err(e) => {
            let stop = choose|stop: int|
                {
                    &&& 0 <= stop < batch.len()
                    &&& passed_all(wait, batch, stop)
                    &&& #[trigger] batch[stop].event == Err::<Event, DecodeError>(e)
                };
            if stop < at {
                assert(batch[stop].event is Ok);
            } else if stop > at {
                assert(passed(wait, batch[at]));
            }
        },
    }
}

/// The scan of a batch in which every record decoded, and none can end the wait,
/// leaves the wait going.
proof fn lemma_scan_goes_on<F: Fn(&GearEvent) -> bool>(
    wait: F,
    batch: Seq<EventRecord>,
    result: Result<BatchScan, DecodeError>,
)
    requires
        scanned(wait, batch, result),
        unmatched(wait, batch, batch.len() as int),
    ensures
        result matches Ok(scan) && scan.state == WaitState::Waiting,
{
    match result {
        Ok(scan) => {
            if scan.state != WaitState::Waiting {
                let last = scan.examined - 1;
                assert(batch[last].event is Ok);
            }
        },
        Err(e) => {
            let stop = choose|stop: int|
                {
                    &&& 0 <= stop < batch.len()
                    &&& passed_all(wait, batch, stop)
                    &&& #[trigger] batch[stop].event == Err::<Event, DecodeError>(e)
                };
            assert(batch[stop].event is Ok);
        },
    }
}

/// A wait ends in the batch `b` at the record `at`: where everything before can
/// only be passed over, and the record itself cannot.
proof fn lemma_wait_ends_at<F: Fn(&GearEvent) -> bool>(
    wait: F,
    pulls: Seq<Result<Vec<EventRecord>, TransportError>>,
    result: Result<WaitReport, WaitError>,
    b: int,
    at: int,
)
    requires
        waited(wait, pulls, result),
        0 <= b < pulls.len(),
        forall|earlier: int|
            0 <= earlier < b ==> (#[trigger] pulls[earlier] matches Ok(batch) && unmatched(
                wait,
                batch@,
                batch.len() as int,
            )),
        pulls[b] matches Ok(batch) && 0 <= at < batch.len() && unmatched(wait, batch@, at)
            && !passed(wait, batch[at]) && batch[at].event is Ok,
    ensures
        result matches Ok(report) && report.batches == b + 1 && report.records == at + 1,
        result matches Ok(report) ==> (report.state == WaitState::Matched
            || report.state == WaitState::Failed),
        result matches Ok(report) ==> (report.state == WaitState::Failed <==> (
        pulls[b]->Ok_0)[at].event->Ok_0.is_extrinsic_failed()),
{
    let batch = pulls[b]->Ok_0;
    match result {
        Ok(report) => {
            if report.state == WaitState::Closed {
                assert(pulls[b] is Ok);
                assert(passed(wait, batch@[at]));
            } else {
                let last = report.batches - 1;
                let scan = BatchScan { state: report.state, examined: report.records };
                if last < b {
                    let early = pulls[last]->Ok_0;
                    lemma_scan_goes_on(wait, early@, Ok(scan));
                } else if last > b {
                    assert(pulls[b] is Ok);
                    assert(passed(wait, batch@[at]));
                } else {
                    lemma_scan_ends_at(wait, batch@, Ok(scan), at);
                }
            }
        },
        Err(e) => {
            let stop = choose|stop: int|
                {
                    &&& 0 <= stop < pulls.len()
                    &&& passed_pulls(wait, pulls, stop)
                    &&& stepped(wait, Some(#[trigger] pulls[stop]), Err(e))
                };
            if stop < b {
                let early = pulls[stop]->Ok_0;
                assert(pulls[stop] is Ok);
                lemma_scan_goes_on(wait, early@, Err(e->Decode_0));
            } else if stop > b {
                assert(pulls[b] is Ok);
                assert(passed(wait, batch@[at]));
            } else {
                lemma_scan_ends_at(wait, batch@, Err(e->Decode_0), at);
            }
        },
    }
}

impl Api {
    /// Scans one batch of the stream: looks at its records in order until one ends
    /// the wait, and calls `wait` on the events of the gear pallet that it comes to,
    /// on no other.
    pub fn scan_batch<F: Fn(&GearEvent) -> bool>(batch: &Vec<EventRecord>, wait: &F) -> (result:
        Result<BatchScan, DecodeError>)
        requires
            callable_on(*wait, batch@),
        ensures
            scanned(*wait, batch@, result),
    {
        let mut i: usize = 0;
        while i < batch.len()
            invariant
                i <= batch.len(),
                callable_on(*wait, batch@),
                calm(batch@, i as int),
                passed_all(*wait, batch@, i as int),
            decreases batch.len() - i,
        {
            match &batch[i].event {
                Err(e) => {
                    return Err(e.clone());
                },
                Ok(Event::Gear(event)) => {
                    if wait(event) {
                        return Ok(BatchScan { state: WaitState::Matched, examined: i + 1 });
                    }
                },
                Ok(event) => {
                    if let Event::System(crate::api::record::SystemEvent::ExtrinsicFailed { .. }) =
                        event {
                        return Ok(BatchScan { state: WaitState::Failed, examined: i + 1 });
                    }
                },
            }
            i += 1;
        }
        Ok(BatchScan { state: WaitState::Waiting, examined: i })
    }

    /// One step of a wait: takes what a pull of the stream brought, `None` where
    /// the stream has ended, and says how the wait stands after it.
    pub fn wait_step<F: Fn(&GearEvent) -> bool>(
        pull: Option<&Result<Vec<EventRecord>, TransportError>>,
        wait: &F,
    ) -> (result: Result<BatchScan, WaitError>)
        requires
            pull matches Some(Ok(batch)) ==> callable_on(*wait, batch@),
        ensures
            stepped(
                *wait,
                match pull {
                    Some(p) => Some(*p),
                    None => None,
                },
                result,
            ),
    {
        match pull {
            None => Ok(BatchScan { state: WaitState::Closed, examined: 0 }),
            Some(Err(e)) => Err(WaitError::Transport(e.clone())),
            Some(Ok(batch)) => match Self::scan_batch(batch, wait) {
                Ok(scan) => Ok(scan),
                Err(e) => Err(WaitError::Decode(e)),
            },
        }
    }

    /// Waits on a stream whose pulls are all at hand: steps through `events` until
    /// a record ends the wait or the pulls run out, and reports where that was.
    pub fn wait_for<F: Fn(&GearEvent) -> bool>(events: Events, wait: F) -> (result: Result<
        WaitReport,
        WaitError,
    >)
        requires
            callable_over(wait, events@),
        ensures
            waited(wait, events@, result),
    {
        let mut b: usize = 0;
        while b < events.len()
            invariant
                b <= events.len(),
                callable_over(wait, events@),
                passed_pulls(wait, events@, b as int),
            decreases events.len() - b,
        {
            proof {
                assert forall|before: int| 0 <= before < b implies (
                #[trigger] events@[before] matches Ok(batch) && calm(
                    batch@,
                    batch.len() as int,
                )) by {
                    let batch = events@[before]->Ok_0;
                    lemma_passed_is_calm(wait, batch@, batch.len() as int);
                }
                assert(calm_pulls(events@, b as int));
            }
            let scan = Self::wait_step(Some(&events[b]), &wait)?;
            match scan.state {
                WaitState::Waiting => {},
                _ => {
                    return Ok(
                        WaitReport { state: scan.state, batches: b + 1, records: scan.examined },
                    );
                },
            }
            b += 1;
        }
        match Self::wait_step(None, &wait) {
            Ok(scan) => Ok(WaitReport { state: scan.state, batches: b, records: scan.examined }),
            Err(e) => Err(e),
        }
    }
}

} // verus!
