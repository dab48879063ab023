//! What the events of a transaction say became of it.

use crate::api::error::{
    lemma_decode_round_trip, DecodeError, DispatchError, ModuleError, ModuleErrorData,
    ModuleErrorView, OutcomeError, OutcomeErrorView, RuntimeError,
};
use crate::api::metadata::{ErrorSource, ErrorSourceView};
use crate::api::record::{
    lemma_reports_differ, Event, EventRecord, InBlockEvents, SystemEvent,
};
use crate::api::Api;
use vstd::prelude::*;

verus! {

/// The rejection that a module's code amounts to, given what the metadata files
/// for it: the module error under the metadata's names, with the code's data, where
/// it files something; the bare code where it files nothing.
pub open spec fn named(data: ModuleErrorData, found: Option<ErrorSourceView>) -> OutcomeErrorView {
    match found {
        Some(source) => OutcomeErrorView::Module(
            ModuleErrorView {
                pallet: source.pallet,
                error: source.error,
                description: source.description,
                error_data: data,
            },
        ),
        None => OutcomeErrorView::Runtime(RuntimeError(DispatchError::Module(data))),
    }
}

/// The rejection that the code `code` amounts to under the errors `errors`: for a
/// module's code, what `errors` files under the code's pallet index and error index
/// decides; any other code stays bare, and `errors` is not asked.
pub open spec fn rejection(
    code: DispatchError,
    errors: Map<(u8, u8), ErrorSourceView>,
) -> OutcomeErrorView {
    match code {
        DispatchError::Module(data) => named(
            data,
            if errors.contains_key((data.pallet_index, data.error[0])) {
                Some(errors[(data.pallet_index, data.error[0])])
            } else {
                None
            },
        ),
        _ => OutcomeErrorView::Runtime(RuntimeError(code)),
    }
}

/// What a record says of the transaction, if anything: `None` where the scan passes
/// over it. A record whose raw form failed to decode stops the scan with that
/// failure. One named as the system's rejection fails the transaction: with the
/// failure of its decoded form where that failed, else with what the front of its
/// bytes reads as. One named as the system's success confirms the transaction, if
/// its decoded form is there.
pub open spec fn verdict(
    record: EventRecord,
    errors: Map<(u8, u8), ErrorSourceView>,
) -> Option<Result<(), OutcomeErrorView>> {
    match record.raw {
        Err(e) => Some(Err(OutcomeErrorView::Decode(e))),
        Ok(raw) => {
            if raw.is_extrinsic_failed() {
                match record.event {
                    Err(e) => Some(Err(OutcomeErrorView::Decode(e))),
                    Ok(_) => match DispatchError::decoded(raw.data@) {
                        Err(e) => Some(Err(OutcomeErrorView::Decode(e))),
                        Ok(code) => Some(Err(rejection(code, errors))),
                    },
                }
            } else if raw.is_extrinsic_success() {
                match record.event {
                    Err(e) => Some(Err(OutcomeErrorView::Decode(e))),
                    Ok(_) => Some(Ok(())),
                }
            } else {
                None
            }
        },
    }
}

/// The scan stops at this record: its raw form failed to decode, or names one of the
/// system's two reports of a transaction's end.
pub open spec fn decides(record: EventRecord) -> bool {
    match record.raw {
        Err(_) => true,
        Ok(raw) => raw.is_extrinsic_failed() || raw.is_extrinsic_success(),
    }
}

/// `at` is the first record of `records` at which the scan stops.
pub open spec fn stops_at(records: Seq<EventRecord>, at: int) -> bool {
    &&& 0 <= at < records.len()
    &&& decides(records[at])
    &&& forall|before: int| 0 <= before < at ==> !decides(#[trigger] records[before])
}

/// What `records` say of their transaction under the errors `errors`: the verdict of
/// the first record at which the scan stops, and nothing against it where there is
/// no such record.
pub open spec fn resolution(
    records: Seq<EventRecord>,
    errors: Map<(u8, u8), ErrorSourceView>,
) -> Result<(), OutcomeErrorView> {
    if exists|at: int| stops_at(records, at) {
        let at = choose|at: int| stops_at(records, at);
        verdict(records[at], errors)->Some_0
    } else {
        Ok(())
    }
}

/// The costs that a scan of `records` reports: that of the record at which it stops,
/// where that record names one of the system's two reports and its decoded form is
/// such a report; none otherwise.
pub open spec fn captured(records: Seq<EventRecord>) -> Seq<u64> {
    if exists|at: int| stops_at(records, at) {
        let record = records[choose|at: int| stops_at(records, at)];
        match (record.raw, record.event) {
            (Ok(_), Ok(event)) => match event.cost() {
                Some(weight) => seq![weight],
                None => seq![],
            },
            _ => seq![],
        }
    } else {
        seq![]
    }
}

/// The scan stops at one record at most.
pub proof fn lemma_stops_once(records: Seq<EventRecord>, a: int, b: int)
    requires
        stops_at(records, a),
        stops_at(records, b),
    ensures
        a == b,
{
}

/// Records of which none decides say nothing against their transaction, and report
/// no cost.
pub proof fn lemma_undecided_is_confirmed(
    records: Seq<EventRecord>,
    errors: Map<(u8, u8), ErrorSourceView>,
)
    requires
        forall|at: int| 0 <= at < records.len() ==> !decides(#[trigger] records[at]),
    ensures
        resolution(records, errors) == Ok::<(), OutcomeErrorView>(()),
        captured(records) == Seq::<u64>::empty(),
{
    assert(captured(records) =~= Seq::<u64>::empty());
}

/// A scan reports one cost at most, and only where a record decided.
pub proof fn lemma_one_cost_at_most(records: Seq<EventRecord>)
    ensures
        captured(records).len() <= 1,
        captured(records).len() == 1 ==> exists|at: int| stops_at(records, at),
{
}

/// Where the two forms of the deciding record agree, the cost reported is the
/// weight in the system's report.
pub proof fn lemma_agreeing_report_costs_its_weight(records: Seq<EventRecord>, at: int)
    requires
        stops_at(records, at),
        records[at].raw is Ok,
        records[at].event is Ok,
        records[at].agrees(),
    ensures
        records[at].event->Ok_0.cost() is Some,
        captured(records) == seq![records[at].event->Ok_0.cost()->Some_0],
{
    lemma_stops_once(records, at, choose|at: int| stops_at(records, at));
    assert(captured(records) =~= seq![records[at].event->Ok_0.cost()->Some_0]);
}

/// Where the two forms of a deciding rejection agree, the transaction fails with
/// the rejection that the code in the decoded form amounts to.
pub proof fn lemma_agreeing_rejection(
    records: Seq<EventRecord>,
    at: int,
    errors: Map<(u8, u8), ErrorSourceView>,
)
    requires
        stops_at(records, at),
        records[at].raw matches Ok(raw) && raw.is_extrinsic_failed(),
        records[at].event is Ok,
        records[at].agrees(),
    ensures
        records[at].event matches Ok(
            Event::System(SystemEvent::ExtrinsicFailed { dispatch_error, .. }),
        ) && resolution(records, errors) == Err::<(), OutcomeErrorView>(
            rejection(dispatch_error, errors),
        ),
{
    lemma_stops_once(records, at, choose|at: int| stops_at(records, at));
}

/// A transaction whose first deciding record is the system's report of success,
/// with its decoded form there, is confirmed whatever the metadata holds: no error
/// is looked up in it.
pub proof fn lemma_success_needs_no_metadata(
    records: Seq<EventRecord>,
    at: int,
    errors: Map<(u8, u8), ErrorSourceView>,
    others: Map<(u8, u8), ErrorSourceView>,
)
    requires
        0 <= at < records.len(),
        forall|before: int| 0 <= before < at ==> !decides(#[trigger] records[before]),
        records[at].raw matches Ok(raw) && raw.is_extrinsic_success(),
        records[at].event is Ok,
    ensures
        resolution(records, errors) == Ok::<(), OutcomeErrorView>(()),
        resolution(records, others) == resolution(records, errors),
{
    assert(stops_at(records, at));
    lemma_stops_once(records, at, choose|at: int| stops_at(records, at));
    lemma_reports_differ(records[at].raw->Ok_0);
}

/// A transaction whose first deciding record is the system's report of rejection,
/// with a module's code that the metadata files, fails with that module error: its
/// names and documentation are the metadata's entry for the code's pallet and error
/// index, and its data are the code's.
pub proof fn lemma_rejection_named(
    records: Seq<EventRecord>,
    at: int,
    errors: Map<(u8, u8), ErrorSourceView>,
    data: ModuleErrorData,
)
    requires
        0 <= at < records.len(),
        forall|before: int| 0 <= before < at ==> !decides(#[trigger] records[before]),
        records[at].raw matches Ok(raw) && raw.is_extrinsic_failed() && DispatchError::decoded(
            raw.data@,
        ) == Ok::<DispatchError, DecodeError>(DispatchError::Module(data)),
        records[at].event is Ok,
        errors.contains_key((data.pallet_index, data.error[0])),
    ensures
        resolution(records, errors) == Err::<(), OutcomeErrorView>(
            OutcomeErrorView::Module(
                ModuleErrorView {
                    pallet: errors[(data.pallet_index, data.error[0])].pallet,
                    error: errors[(data.pallet_index, data.error[0])].error,
                    description: errors[(data.pallet_index, data.error[0])].description,
                    error_data: data,
                },
            ),
        ),
{
    assert(stops_at(records, at));
    lemma_stops_once(records, at, choose|at: int| stops_at(records, at));
}

/// A transaction whose first deciding record is the system's report of rejection,
/// with a code that the metadata does not file, fails with that very code: what the
/// chain wrote at the front of the record's bytes comes back unchanged.
pub proof fn lemma_rejection_unnamed(
    records: Seq<EventRecord>,
    at: int,
    errors: Map<(u8, u8), ErrorSourceView>,
    code: DispatchError,
    rest: Seq<u8>,
)
    requires
        0 <= at < records.len(),
        forall|before: int| 0 <= before < at ==> !decides(#[trigger] records[before]),
        records[at].raw matches Ok(raw) && raw.is_extrinsic_failed() && raw.data@
            == code.encoding() + rest,
        records[at].event is Ok,
        code matches DispatchError::Module(data) ==> !errors.contains_key(
            (data.pallet_index, data.error[0]),
        ),
    ensures
        resolution(records, errors) == Err::<(), OutcomeErrorView>(
            OutcomeErrorView::Runtime(RuntimeError(code)),
        ),
{
    assert(stops_at(records, at));
    lemma_stops_once(records, at, choose|at: int| stops_at(records, at));
    lemma_decode_round_trip(code, rest);
}

impl Api {
    /// The cost that `event` reports, to be shown to the user: the weight of the
    /// system's report of a transaction's end, and nothing for any other event.
    pub fn capture_weight_info(event: &Event) -> (weight: Option<u64>)
        ensures
            weight == event.cost(),
    {
        match event {
            Event::System(SystemEvent::ExtrinsicSuccess { dispatch_info }) => Some(
                dispatch_info.weight,
            ),
            Event::System(SystemEvent::ExtrinsicFailed { dispatch_info, .. }) => Some(
                dispatch_info.weight,
            ),
            _ => None,
        }
    }

    /// The rejection that a module's code amounts to, given what the metadata found
    /// for it.
    pub fn name_rejection(data: ModuleErrorData, found: Option<ErrorSource>) -> (error:
        OutcomeError)
        ensures
            error@ == named(
                data,
                match found {
                    Some(source) => Some(source@),
                    None => None,
                },
            ),
    {
        match found {
            Some(source) => OutcomeError::Module(
                ModuleError {
                    pallet: source.pallet,
                    error: source.error,
                    description: source.description,
                    error_data: data,
                },
            ),
            None => OutcomeError::Runtime(RuntimeError(DispatchError::Module(data))),
        }
    }

    /// The rejection that `code` amounts to under the client's metadata. The
    /// metadata is asked for a module's code only.
    pub fn reject(&self, code: DispatchError) -> (error: OutcomeError)
        ensures
            error@ == rejection(code, self.errors()),
    {
        match code.module_error_data() {
            Some(data) => Self::name_rejection(
                data,
                self.metadata().lookup_error(data.pallet_index, data.error_index()),
            ),
            None => OutcomeError::Runtime(RuntimeError(code)),
        }
    }

    /// Reads what became of the transaction whose events are `events`, and appends
    /// to `costs` the cost that the deciding record reports.
    ///
    /// The records are read in order up to the first that decides. Where that is
    /// the system's report of success, or where no record decides, the events come
    /// back as they were. Where it is the system's report of rejection, the error
    /// is the rejection under the client's metadata. A record that has to be read
    /// and did not decode gives its failure.
    pub fn capture_dispatch_info(&self, events: InBlockEvents, costs: &mut Vec<u64>) -> (result:
        Result<InBlockEvents, OutcomeError>)
        ensures
            match result {
                Ok(confirmed) => confirmed == events && resolution(events@, self.errors()) is Ok,
                Err(e) => resolution(events@, self.errors()) == Err::<(), OutcomeErrorView>(e@),
            },
            final(costs)@ == old(costs)@ + captured(events@),
    {
        let mut i: usize = 0;
        while i < events.len()
            invariant
                i <= events.len(),
                forall|before: int| 0 <= before < i ==> !decides(#[trigger] events@[before]),
                *costs == *old(costs),
            decreases events.len() - i,
        {
            let record = &events[i];
            proof {
                if decides(*record) {
                    assert(stops_at(events@, i as int));
                    lemma_stops_once(events@, i as int, choose|at: int| stops_at(events@, at));
                }
            }
            let raw = match &record.raw {
                Ok(raw) => raw,
                Err(e) => {
                    assert(costs@ + captured(events@) =~= costs@);
                    return Err(OutcomeError::Decode(e.clone()));
                },
            };
            if raw.names_extrinsic_failed() {
                let event = match &record.event {
                    Ok(event) => event,
                    Err(e) => {
                        assert(costs@ + captured(events@) =~= costs@);
                        return Err(OutcomeError::Decode(e.clone()));
                    },
                };
                Self::log_cost(event, costs);
                let code = match DispatchError::decode(raw.data.as_slice()) {
                    Ok(code) => code,
                    Err(e) => {
                        return Err(OutcomeError::Decode(e));
                    },
                };
                return Err(self.reject(code));
            } else if raw.names_extrinsic_success() {
                let event = match &record.event {
                    Ok(event) => event,
                    Err(e) => {
                        assert(costs@ + captured(events@) =~= costs@);
                        return Err(OutcomeError::Decode(e.clone()));
                    },
                };
                Self::log_cost(event, costs);
                return Ok(events);
            }
            i += 1;
        }
        proof {
            assert(!exists|at: int| stops_at(events@, at));
            assert(costs@ + captured(events@) =~= costs@);
        }
        Ok(events)
    }

    fn log_cost(event: &Event, costs: &mut Vec<u64>)
        ensures
            final(costs)@ == old(costs)@ + match event.cost() {
                Some(weight) => seq![weight],
                None => seq![],
            },
    {
        match Self::capture_weight_info(event) {
            Some(weight) => {
                costs.push(weight);
                assert(costs@ =~= old(costs)@ + seq![weight]);
            },
            None => {
                assert(costs@ =~= old(costs)@ + Seq::<u64>::empty());
            },
        }
    }
}

} // verus!
