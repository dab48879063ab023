//! Events as the node hands them out: each record in its raw and in its decoded form.

use crate::api::error::{DecodeError, DispatchError, TransportError};
use vstd::prelude::*;
use vstd::string::StringExecFns;

verus! {

/// What running a transaction cost.
#[derive(Clone, Copy, Debug, PartialEq, Eq)]
pub struct DispatchInfo {
    /// The weight the transaction spent.
    pub weight: u64,
}

/// An event of the system pallet.
#[derive(Clone, Copy, Debug, PartialEq, Eq)]
pub enum SystemEvent {
    /// The transaction went through.
    ExtrinsicSuccess { dispatch_info: DispatchInfo },
    /// The chain rejected the transaction.
    ExtrinsicFailed { dispatch_error: DispatchError, dispatch_info: DispatchInfo },
    /// Any other event of the pallet.
    Other,
}

/// An event of the gear pallet: its name and its payload, as the node sent them.
#[derive(Clone, Debug, PartialEq, Eq)]
pub struct GearEvent {
    pub name: String,
    pub payload: Vec<u8>,
}

/// A decoded event, by the pallet it came from.
#[derive(Clone, Debug, PartialEq, Eq)]
pub enum Event {
    System(SystemEvent),
    Gear(GearEvent),
    /// An event of any other pallet.
    Other,
}

/// An event before decoding: the names of its pallet and variant, and its fields' bytes.
#[derive(Clone, Debug, PartialEq, Eq)]
pub struct RawEvent {
    pub pallet: String,
    pub variant: String,
    pub data: Vec<u8>,
}

/// One event of a block in both forms. Either form may have failed to decode, and
/// each failure is kept where the record stands, to surface only when the record
/// is looked at.
#[derive(Debug, PartialEq, Eq)]
pub struct EventRecord {
    pub raw: Result<RawEvent, DecodeError>,
    pub event: Result<Event, DecodeError>,
}

impl Clone for EventRecord {
    /// A copy, form by form. A form that failed to decode is copied with its very
    /// failure.
    fn clone(&self) -> (copy: Self)
        ensures
            copy.raw is Ok <==> self.raw is Ok,
            copy.event is Ok <==> self.event is Ok,
            self.raw matches Err(e) ==> copy.raw == Err::<RawEvent, DecodeError>(e),
            self.event matches Err(e) ==> copy.event == Err::<Event, DecodeError>(e),
    {
        let raw = match &self.raw {
            Ok(raw) => Ok(raw.clone()),
            Err(e) => Err(e.clone()),
        };
        let event = match &self.event {
            Ok(event) => Ok(event.clone()),
            Err(e) => Err(e.clone()),
        };
        EventRecord { raw, event }
    }
}

/// The events of one transaction, in the order the block emitted them.
pub type InBlockEvents = Vec<EventRecord>;

/// What a subscription yielded: one entry per pull, a block's records or the
/// failure of the pull.
pub type Events = Vec<Result<Vec<EventRecord>, TransportError>>;

impl EventRecord {
    /// The two forms are of one event, as far as the system's two reports of a
    /// transaction's end go: where both decoded, the names are those of a report
    /// exactly where the decoded form is that report, and the code in a decoded
    /// rejection is what the front of the bytes reads as.
    pub open spec fn agrees(&self) -> bool {
        match (self.raw, self.event) {
            (Ok(raw), Ok(event)) => {
                &&& raw.is_extrinsic_failed() <==> event.is_extrinsic_failed()
                &&& raw.is_extrinsic_success() <==> event.is_extrinsic_success()
                &&& match event {
                    Event::System(SystemEvent::ExtrinsicFailed { dispatch_error, .. }) =>
                        DispatchError::decoded(raw.data@) == Ok::<DispatchError, DecodeError>(
                            dispatch_error,
                        ),
                    _ => true,
                }
            },
            _ => true,
        }
    }
}

impl Event {
    /// The event is the system's report of a rejected transaction.
    pub open spec fn is_extrinsic_failed(&self) -> bool {
        *self matches Event::System(SystemEvent::ExtrinsicFailed { .. })
    }

    /// The event is the system's report of a transaction that went through.
    pub open spec fn is_extrinsic_success(&self) -> bool {
        *self matches Event::System(SystemEvent::ExtrinsicSuccess { .. })
    }

    /// The cost that the event reports: only the system's two reports of a
    /// transaction's end carry one.
    pub open spec fn cost(&self) -> Option<u64> {
        match *self {
            Event::System(SystemEvent::ExtrinsicSuccess { dispatch_info }) => Some(
                dispatch_info.weight,
            ),
            Event::System(SystemEvent::ExtrinsicFailed { dispatch_info, .. }) => Some(
                dispatch_info.weight,
            ),
            _ => None,
        }
    }
}

impl RawEvent {
    /// The names say: system pallet, transaction rejected.
    pub open spec fn is_extrinsic_failed(&self) -> bool {
        self.pallet@ == "System"@ && self.variant@ == "ExtrinsicFailed"@
    }

    /// The names say: system pallet, transaction went through.
    pub open spec fn is_extrinsic_success(&self) -> bool {
        self.pallet@ == "System"@ && self.variant@ == "ExtrinsicSuccess"@
    }

    /// Whether the names are those of the system's report of a rejected transaction.
    pub fn names_extrinsic_failed(&self) -> (yes: bool)
        ensures
            yes == self.is_extrinsic_failed(),
    {
        let system = String::from_str("System");
        let failed = String::from_str("ExtrinsicFailed");
        self.pallet == system && self.variant == failed
    }

    /// Whether the names are those of the system's report of a transaction that
    /// went through.
    pub fn names_extrinsic_success(&self) -> (yes: bool)
        ensures
            yes == self.is_extrinsic_success(),
    {
        let system = String::from_str("System");
        let success = String::from_str("ExtrinsicSuccess");
        self.pallet == system && self.variant == success
    }
}


/// The two reports of a transaction's end go by different names.
pub proof fn lemma_reports_differ(raw: RawEvent)
    ensures
        !(raw.is_extrinsic_failed() && raw.is_extrinsic_success()),
{
    reveal_strlit("ExtrinsicFailed");
    reveal_strlit("ExtrinsicSuccess");
    assert("ExtrinsicFailed"@.len() == 15);
    assert("ExtrinsicSuccess"@.len() == 16);
}

} // verus!
