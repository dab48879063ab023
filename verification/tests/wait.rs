use gear_program::api::error::{DecodeError, DispatchError, TransportError, WaitError};
use gear_program::api::record::{
    DispatchInfo, Event, EventRecord, GearEvent, RawEvent, SystemEvent,
};
use gear_program::api::wait::{BatchScan, WaitReport, WaitState};
use gear_program::api::Api;
use std::cell::RefCell;

fn record(pallet: &str, variant: &str, event: Event) -> EventRecord {
    EventRecord {
        raw: Ok(RawEvent { pallet: pallet.to_string(), variant: variant.to_string(), data: vec![] }),
        event: Ok(event),
    }
}

fn gear(name: &str) -> EventRecord {
    record("Gear", name, Event::Gear(GearEvent { name: name.to_string(), payload: vec![] }))
}

fn failed() -> EventRecord {
    record(
        "System",
        "ExtrinsicFailed",
        Event::System(SystemEvent::ExtrinsicFailed {
            dispatch_error: DispatchError::BadOrigin,
            dispatch_info: DispatchInfo { weight: 1 },
        }),
    )
}

fn success() -> EventRecord {
    record(
        "System",
        "ExtrinsicSuccess",
        Event::System(SystemEvent::ExtrinsicSuccess { dispatch_info: DispatchInfo { weight: 1 } }),
    )
}

fn other() -> EventRecord {
    record("Balances", "Transfer", Event::Other)
}

fn undecoded(text: &str) -> EventRecord {
    EventRecord {
        raw: Ok(RawEvent { pallet: "Gear".to_string(), variant: "?".to_string(), data: vec![] }),
        event: Err(DecodeError::Mismatch(text.to_string())),
    }
}

fn is(name: &'static str) -> impl Fn(&GearEvent) -> bool {
    move |event: &GearEvent| event.name == name
}

fn report(state: WaitState, batches: usize, records: usize) -> Result<WaitReport, WaitError> {
    Ok(WaitReport { state, batches, records })
}

#[test]
fn match_in_the_second_batch_consumes_two_batches() {
    let events = vec![Ok(vec![gear("A")]), Ok(vec![gear("B")]), Ok(vec![gear("B")])];
    assert_eq!(Api::wait_for(events, is("B")), report(WaitState::Matched, 2, 1));
}

#[test]
fn ready_predicate_matches_the_first_gear_event_of_any_batch() {
    let always = |_: &GearEvent| true;
    for size in 1..6usize {
        for at in 0..size {
            let mut batch = vec![other(); size];
            batch[at] = gear("A");
            if at + 1 < size {
                batch[at + 1] = gear("B");
            }
            let events = vec![Ok(vec![other(), success()]), Ok(batch)];
            assert_eq!(Api::wait_for(events, always), report(WaitState::Matched, 2, at + 1));
        }
    }
}

#[test]
fn failure_ends_the_wait_before_later_records_are_looked_at() {
    let seen = RefCell::new(Vec::new());
    let wait = |event: &GearEvent| {
        seen.borrow_mut().push(event.name.clone());
        event.name == "B"
    };
    let events = vec![Ok(vec![gear("A"), other(), failed(), gear("B"), undecoded("late")])];
    assert_eq!(Api::wait_for(events, wait), report(WaitState::Failed, 1, 3));
    assert_eq!(*seen.borrow(), vec!["A".to_string()]);
}

#[test]
fn predicate_sees_gear_events_only_and_in_order() {
    let seen = RefCell::new(Vec::new());
    let wait = |event: &GearEvent| {
        seen.borrow_mut().push(event.name.clone());
        false
    };
    let events = vec![
        Ok(vec![other(), gear("A"), success()]),
        Ok(vec![]),
        Ok(vec![gear("B"), gear("C")]),
    ];
    assert_eq!(Api::wait_for(events, wait), report(WaitState::Closed, 3, 0));
    assert_eq!(*seen.borrow(), vec!["A".to_string(), "B".to_string(), "C".to_string()]);
}

#[test]
fn stream_that_ends_closes_the_wait() {
    assert_eq!(Api::wait_for(vec![], is("A")), report(WaitState::Closed, 0, 0));
    let events = vec![Ok(vec![gear("B"), other()]), Ok(vec![success()])];
    assert_eq!(Api::wait_for(events, is("A")), report(WaitState::Closed, 2, 0));
}

#[test]
fn failed_pull_breaks_the_wait_off() {
    let lost = TransportError { message: "connection closed".to_string() };
    let events = vec![Ok(vec![gear("B")]), Err(lost.clone()), Ok(vec![gear("A")])];
    assert_eq!(Api::wait_for(events, is("A")), Err(WaitError::Transport(lost.clone())));

    let events = vec![Ok(vec![gear("A")]), Err(lost)];
    assert_eq!(Api::wait_for(events, is("A")), report(WaitState::Matched, 1, 1));
}

#[test]
fn undecoded_record_breaks_the_wait_off_when_it_is_reached() {
    let events = vec![Ok(vec![other(), undecoded("bad"), gear("A")])];
    assert_eq!(
        Api::wait_for(events, is("A")),
        Err(WaitError::Decode(DecodeError::Mismatch("bad".to_string())))
    );

    let events = vec![Ok(vec![gear("A"), undecoded("bad")])];
    assert_eq!(Api::wait_for(events, is("A")), report(WaitState::Matched, 1, 1));
}

#[test]
fn success_report_does_not_end_the_wait() {
    let events = vec![Ok(vec![success(), gear("A")])];
    assert_eq!(Api::wait_for(events, is("A")), report(WaitState::Matched, 1, 2));
}

#[test]
fn scan_of_a_batch_says_how_far_it_got() {
    let batch = vec![other(), gear("A"), gear("B"), failed()];
    assert_eq!(
        Api::scan_batch(&batch, &is("B")),
        Ok(BatchScan { state: WaitState::Matched, examined: 3 })
    );
    assert_eq!(
        Api::scan_batch(&batch, &is("C")),
        Ok(BatchScan { state: WaitState::Failed, examined: 4 })
    );
    let calm = vec![other(), gear("A")];
    assert_eq!(
        Api::scan_batch(&calm, &is("C")),
        Ok(BatchScan { state: WaitState::Waiting, examined: 2 })
    );
    assert_eq!(
        Api::scan_batch(&vec![], &is("C")),
        Ok(BatchScan { state: WaitState::Waiting, examined: 0 })
    );
    let broken = vec![undecoded("x"), gear("C")];
    assert_eq!(Api::scan_batch(&broken, &is("C")), Err(DecodeError::Mismatch("x".to_string())));
}

#[test]
fn step_takes_each_kind_of_pull() {
    let wait = is("A");
    assert_eq!(
        Api::wait_step(None, &wait),
        Ok(BatchScan { state: WaitState::Closed, examined: 0 })
    );
    let lost = TransportError { message: "reset".to_string() };
    assert_eq!(
        Api::wait_step(Some(&Err(lost.clone())), &wait),
        Err(WaitError::Transport(lost))
    );
    assert_eq!(
        Api::wait_step(Some(&Ok(vec![other(), gear("A"), gear("A")])), &wait),
        Ok(BatchScan { state: WaitState::Matched, examined: 2 })
    );
    assert_eq!(
        Api::wait_step(Some(&Ok(vec![undecoded("y")])), &wait),
        Err(WaitError::Decode(DecodeError::Mismatch("y".to_string())))
    );
}
