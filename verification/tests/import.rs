use dbperf::cron::{
    start, step, FetchRequest, StopReason, Store, SyncAction, SyncEvent, SyncState, PAGE_SIZE,
    WAIT_SECONDS,
};
use dbperf::decimal::to_decimal;

#[test]
fn decimal_text_of_integers() {
    assert_eq!(to_decimal(0), "0");
    assert_eq!(to_decimal(7), "7");
    assert_eq!(to_decimal(400), "400");
    assert_eq!(to_decimal(1669918678), "1669918678");
    assert_eq!(to_decimal(u64::MAX), u64::MAX.to_string());
}

#[test]
fn page_url_names_count_and_start() {
    let req = FetchRequest { count: 400, from: 1669918678 };
    assert_eq!(
        req.url(),
        "https://midgard.ninerealms.com/v2/history/runepool?interval=hour&count=400&from=1669918678"
    );
}

#[test]
fn import_starts_by_asking_for_the_latest_timestamp() {
    assert_eq!(start(), (SyncState::AwaitingTimestamp, SyncAction::QueryLatestTimestamp));
}

#[test]
fn full_cycle_writes_all_stores_in_order_then_waits() {
    let (mut state, first) = start();
    assert_eq!(first, SyncAction::QueryLatestTimestamp);
    let events = vec![
        SyncEvent::LatestTimestamp(1700000000),
        SyncEvent::Response { success: true },
        SyncEvent::Page { intervals: 400 },
        SyncEvent::InsertOk,
        SyncEvent::InsertOk,
        SyncEvent::InsertOk,
        SyncEvent::InsertOk,
        SyncEvent::WaitOver,
    ];
    let mut actions = Vec::new();
    for e in events {
        let (s, a) = step(state, e);
        state = s;
        actions.push(a);
    }
    assert_eq!(
        actions,
        vec![
            SyncAction::Fetch(FetchRequest { count: PAGE_SIZE, from: 1700000000 }),
            SyncAction::ReadBody,
            SyncAction::Insert(Store::InMemory),
            SyncAction::Insert(Store::Mongo),
            SyncAction::Insert(Store::Postgres),
            SyncAction::Insert(Store::Surreal),
            SyncAction::Wait { secs: WAIT_SECONDS },
            SyncAction::QueryLatestTimestamp,
        ]
    );
    assert_eq!(state, SyncState::AwaitingTimestamp);
    assert_eq!(PAGE_SIZE, 400);
    assert_eq!(WAIT_SECONDS, 3);
}

#[test]
fn failed_write_stops_the_import() {
    let (s, a) = step(SyncState::Inserting(Store::Mongo), SyncEvent::InsertFailed);
    assert_eq!(s, SyncState::Finished);
    assert_eq!(a, SyncAction::Stop(StopReason::InsertFailed(Store::Mongo)));
    let (s, a) = step(SyncState::Inserting(Store::InMemory), SyncEvent::InsertOk);
    assert_eq!((s, a), (SyncState::Inserting(Store::Mongo), SyncAction::Insert(Store::Mongo)));
}

#[test]
fn rejected_response_and_empty_page_stop_without_error() {
    assert_eq!(
        step(SyncState::AwaitingResponse, SyncEvent::Response { success: false }),
        (SyncState::Finished, SyncAction::Stop(StopReason::RequestRejected))
    );
    assert_eq!(
        step(SyncState::AwaitingBody, SyncEvent::Page { intervals: 0 }),
        (SyncState::Finished, SyncAction::Stop(StopReason::NoIntervals))
    );
}

#[test]
fn failed_queries_abort_the_import() {
    assert_eq!(
        step(SyncState::AwaitingTimestamp, SyncEvent::TimestampFailed),
        (SyncState::Failed, SyncAction::Abort)
    );
    assert_eq!(
        step(SyncState::AwaitingResponse, SyncEvent::RequestFailed),
        (SyncState::Failed, SyncAction::Abort)
    );
    assert_eq!(
        step(SyncState::AwaitingBody, SyncEvent::BodyFailed),
        (SyncState::Failed, SyncAction::Abort)
    );
}

#[test]
fn page_writes_stop_at_the_first_failure() {
    let mut state = SyncState::Inserting(Store::InMemory);
    let mut actions = Vec::new();
    for e in [SyncEvent::InsertOk, SyncEvent::InsertOk, SyncEvent::InsertFailed] {
        let (s, a) = step(state, e);
        state = s;
        actions.push(a);
    }
    assert_eq!(
        actions,
        vec![
            SyncAction::Insert(Store::Mongo),
            SyncAction::Insert(Store::Postgres),
            SyncAction::Stop(StopReason::InsertFailed(Store::Postgres)),
        ]
    );
    assert_eq!(state, SyncState::Finished);
}
