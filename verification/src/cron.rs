//! The decisions of the periodic import: ask the PostgreSQL store for the
//! latest start time, fetch the next page of history from that time, write
//! the page to every store in turn, wait, and repeat. The caller performs
//! each action and reports its outcome as an event.
use vstd::prelude::*;
use crate::decimal::{decimal, push_decimal, read_decimal, is_ascii_digit, law_decimal_reads_back};

verus! {

/// Intervals requested per page.
pub const PAGE_SIZE: u64 = 400;

/// Seconds to wait between two pages.
pub const WAIT_SECONDS: u64 = 3;

/// The stores a page is written to.
#[derive(Clone, Copy, Debug, PartialEq, Eq, Structural)]
pub enum Store {
    InMemory,
    Mongo,
    Postgres,
    Surreal,
}

/// The store written after `s` within one page, if any.
pub open spec fn next_store(s: Store) -> Option<Store> {
    match s {
        Store::InMemory => Some(Store::Mongo),
        Store::Mongo => Some(Store::Postgres),
        Store::Postgres => Some(Store::Surreal),
        Store::Surreal => None,
    }
}

/// What the import is waiting for.
#[derive(Clone, Copy, Debug, PartialEq, Eq, Structural)]
pub enum SyncState {
    AwaitingTimestamp,
    AwaitingResponse,
    AwaitingBody,
    Inserting(Store),
    Waiting,
    Finished,
    Failed,
}

/// The outcome of the last action.
#[derive(Clone, Copy, Debug, PartialEq, Eq, Structural)]
pub enum SyncEvent {
    /// The latest stored start time, as an integer.
    LatestTimestamp(u64),
    TimestampFailed,
    /// The server answered; `success` tells whether its status is a success.
    Response { success: bool },
    RequestFailed,
    /// The page was decoded and holds this many intervals.
    Page { intervals: usize },
    BodyFailed,
    InsertOk,
    InsertFailed,
    WaitOver,
}

/// A request for one page of history.
#[derive(Clone, Copy, Debug, PartialEq, Eq, Structural)]
pub struct FetchRequest {
    pub count: u64,
    pub from: u64,
}

/// The URL of a page of hourly RUNEPool history.
pub open spec fn page_url(count: u64, from: u64) -> Seq<char> {
    "https://midgard.ninerealms.com/v2/history/runepool?interval=hour&count="@ + decimal(
        count as nat,
    ) + "&from="@ + decimal(from as nat)
}

impl FetchRequest {
    /// The URL that asks for this page.
    pub fn url(&self) -> (u: String)
        ensures
            u@ == page_url(self.count, self.from),
    {
        let mut u = String::from_str(
            "https://midgard.ninerealms.com/v2/history/runepool?interval=hour&count=",
        );
        push_decimal(&mut u, self.count);
        u.append("&from=");
        push_decimal(&mut u, self.from);
        u
    }
}

/// Why the import ended without an error.
#[derive(Clone, Copy, Debug, PartialEq, Eq, Structural)]
pub enum StopReason {
    /// The server answered with a status that is not a success.
    RequestRejected,
    /// The page held no intervals.
    NoIntervals,
    /// Writing the page to this store failed.
    InsertFailed(Store),
}

/// What the caller does next.
#[derive(Clone, Copy, Debug, PartialEq, Eq, Structural)]
pub enum SyncAction {
    QueryLatestTimestamp,
    Fetch(FetchRequest),
    ReadBody,
    Insert(Store),
    Wait { secs: u64 },
    /// The import ends without an error.
    Stop(StopReason),
    /// The import ends with the error of the last action.
    Abort,
}

/// Whether `event` is an outcome of the action that led to `state`.
pub open spec fn accepts(state: SyncState, event: SyncEvent) -> bool {
    match state {
        SyncState::AwaitingTimestamp => event is LatestTimestamp || event is TimestampFailed,
        SyncState::AwaitingResponse => event is Response || event is RequestFailed,
        SyncState::AwaitingBody => event is Page || event is BodyFailed,
        SyncState::Inserting(_) => event is InsertOk || event is InsertFailed,
        SyncState::Waiting => event is WaitOver,
        SyncState::Finished | SyncState::Failed => false,
    }
}

/// The next state and action after `event` in `state`.
pub open spec fn transition(state: SyncState, event: SyncEvent) -> (SyncState, SyncAction) {
    match event {
        SyncEvent::LatestTimestamp(from) => (
            SyncState::AwaitingResponse,
            SyncAction::Fetch(FetchRequest { count: PAGE_SIZE, from }),
        ),
        SyncEvent::Response { success } => if success {
            (SyncState::AwaitingBody, SyncAction::ReadBody)
        } else {
            (SyncState::Finished, SyncAction::Stop(StopReason::RequestRejected))
        },
        SyncEvent::Page { intervals } => if intervals == 0 {
            (SyncState::Finished, SyncAction::Stop(StopReason::NoIntervals))
        } else {
            (SyncState::Inserting(Store::InMemory), SyncAction::Insert(Store::InMemory))
        },
        SyncEvent::InsertOk => match state {
            SyncState::Inserting(s) => match next_store(s) {
                Some(n) => (SyncState::Inserting(n), SyncAction::Insert(n)),
                None => (SyncState::Waiting, SyncAction::Wait { secs: WAIT_SECONDS }),
            },
            _ => (SyncState::Failed, SyncAction::Abort),
        },
        SyncEvent::InsertFailed => match state {
            SyncState::Inserting(s) => (
                SyncState::Finished,
                SyncAction::Stop(StopReason::InsertFailed(s)),
            ),
            _ => (SyncState::Failed, SyncAction::Abort),
        },
        SyncEvent::WaitOver => (SyncState::AwaitingTimestamp, SyncAction::QueryLatestTimestamp),
        SyncEvent::TimestampFailed | SyncEvent::RequestFailed | SyncEvent::BodyFailed => (
            SyncState::Failed,
            SyncAction::Abort,
        ),
    }
}

/// The first state and action of an import.
pub fn start() -> (r: (SyncState, SyncAction))
    ensures
        r == (SyncState::AwaitingTimestamp, SyncAction::QueryLatestTimestamp),
{
    (SyncState::AwaitingTimestamp, SyncAction::QueryLatestTimestamp)
}

/// The store written after `s`, if any.
fn following_store(s: Store) -> (r: Option<Store>)
    ensures
        r == next_store(s),
{
    match s {
        Store::InMemory => Some(Store::Mongo),
        Store::Mongo => Some(Store::Postgres),
        Store::Postgres => Some(Store::Surreal),
        Store::Surreal => None,
    }
}

/// Decides what follows the outcome `event` of the action taken in `state`.
pub fn step(state: SyncState, event: SyncEvent) -> (r: (SyncState, SyncAction))
    requires
        accepts(state, event),
    ensures
        r == transition(state, event),
{
    match event {
        SyncEvent::LatestTimestamp(from) => (
            SyncState::AwaitingResponse,
            SyncAction::Fetch(FetchRequest { count: PAGE_SIZE, from }),
        ),
        SyncEvent::Response { success } => {
            if success {
                (SyncState::AwaitingBody, SyncAction::ReadBody)
            } else {
                (SyncState::Finished, SyncAction::Stop(StopReason::RequestRejected))
            }
        },
        SyncEvent::Page { intervals } => {
            if intervals == 0 {
                (SyncState::Finished, SyncAction::Stop(StopReason::NoIntervals))
            } else {
                (SyncState::Inserting(Store::InMemory), SyncAction::Insert(Store::InMemory))
            }
        },
        SyncEvent::InsertOk => match state {
            SyncState::Inserting(s) => match following_store(s) {
                Some(n) => (SyncState::Inserting(n), SyncAction::Insert(n)),
                None => (SyncState::Waiting, SyncAction::Wait { secs: WAIT_SECONDS }),
            },
            _ => (SyncState::Failed, SyncAction::Abort),
        },
        SyncEvent::InsertFailed => match state {
            SyncState::Inserting(s) => (
                SyncState::Finished,
                SyncAction::Stop(StopReason::InsertFailed(s)),
            ),
            _ => (SyncState::Failed, SyncAction::Abort),
        },
        SyncEvent::WaitOver => (SyncState::AwaitingTimestamp, SyncAction::QueryLatestTimestamp),
        SyncEvent::TimestampFailed | SyncEvent::RequestFailed | SyncEvent::BodyFailed => (
            SyncState::Failed,
            SyncAction::Abort,
        ),
    }
}

/// The final state and the actions of a run of events from `state`.
pub open spec fn run(state: SyncState, events: Seq<SyncEvent>) -> (SyncState, Seq<SyncAction>)
    decreases events.len(),
{
    if events.len() == 0 {
        (state, Seq::empty())
    } else {
        let (next, action) = transition(state, events[0]);
        let (last, actions) = run(next, events.drop_first());
        (last, seq![action] + actions)
    }
}

/// Whether each event of the run is an outcome the machine waits for.
pub open spec fn accepted_run(state: SyncState, events: Seq<SyncEvent>) -> bool
    decreases events.len(),
{
    events.len() == 0 || (accepts(state, events[0]) && accepted_run(
        transition(state, events[0]).0,
        events.drop_first(),
    ))
}

/// The order in which a page is written to the stores.
pub open spec fn store_order() -> Seq<Store> {
    seq![Store::InMemory, Store::Mongo, Store::Postgres, Store::Surreal]
}

/// `n` successful writes.
pub open spec fn successes(n: nat) -> Seq<SyncEvent> {
    Seq::new(n, |i: int| SyncEvent::InsertOk)
}

/// The import ends with an error exactly after a failed timestamp query,
/// request or body; it ends without one exactly after a rejected response,
/// an empty page or a failed write; once ended it accepts no further event.
pub proof fn law_how_an_import_ends(state: SyncState, event: SyncEvent)
    requires
        accepts(state, event),
    ensures
        transition(state, event).0 == SyncState::Failed <==> (event is TimestampFailed
            || event is RequestFailed || event is BodyFailed),
        transition(state, event).0 == SyncState::Failed <==> transition(state, event).1
            == SyncAction::Abort,
        transition(state, event).0 == SyncState::Finished <==> (event == SyncEvent::Response {
            success: false,
        } || event == SyncEvent::Page { intervals: 0 } || event is InsertFailed),
        transition(state, event).0 == SyncState::Finished ==> transition(state, event).1 is Stop,
        forall|e: SyncEvent| !accepts(SyncState::Finished, e) && !accepts(SyncState::Failed, e),
{
}

/// A whole cycle: after the latest timestamp `from`, a successful response
/// and a non-empty page, the page of `PAGE_SIZE` intervals starting at
/// `from` is requested, read, written to the in-memory, MongoDB, PostgreSQL
/// and SurrealDB stores in this order, the import waits `WAIT_SECONDS`, and
/// then asks for the latest timestamp again.
pub proof fn law_full_cycle(from: u64, intervals: usize)
    requires
        intervals > 0,
    ensures
        ({
            let events = seq![
                SyncEvent::LatestTimestamp(from),
                SyncEvent::Response { success: true },
                SyncEvent::Page { intervals },
            ] + successes(4) + seq![SyncEvent::WaitOver];
            &&& accepted_run(SyncState::AwaitingTimestamp, events)
            &&& run(SyncState::AwaitingTimestamp, events) == (
                SyncState::AwaitingTimestamp,
                seq![
                    SyncAction::Fetch(FetchRequest { count: PAGE_SIZE, from }),
                    SyncAction::ReadBody,
                    SyncAction::Insert(Store::InMemory),
                    SyncAction::Insert(Store::Mongo),
                    SyncAction::Insert(Store::Postgres),
                    SyncAction::Insert(Store::Surreal),
                    SyncAction::Wait { secs: WAIT_SECONDS },
                    SyncAction::QueryLatestTimestamp,
                ],
            )
        }),
{
    let events = seq![
        SyncEvent::LatestTimestamp(from),
        SyncEvent::Response { success: true },
        SyncEvent::Page { intervals },
    ] + successes(4) + seq![SyncEvent::WaitOver];
    reveal_with_fuel(run, 10);
    reveal_with_fuel(accepted_run, 10);
    assert(events.drop_first().drop_first().drop_first().drop_first().drop_first().drop_first()
        .drop_first().drop_first() =~= Seq::<SyncEvent>::empty());
    let tail = events.drop_first();
    assert(tail =~= seq![SyncEvent::Response { success: true }, SyncEvent::Page { intervals }]
        + successes(4) + seq![SyncEvent::WaitOver]);
    assert(run(SyncState::AwaitingTimestamp, events).1 =~= seq![
        SyncAction::Fetch(FetchRequest { count: PAGE_SIZE, from }),
        SyncAction::ReadBody,
        SyncAction::Insert(Store::InMemory),
        SyncAction::Insert(Store::Mongo),
        SyncAction::Insert(Store::Postgres),
        SyncAction::Insert(Store::Surreal),
        SyncAction::Wait { secs: WAIT_SECONDS },
        SyncAction::QueryLatestTimestamp,
    ]);
}

/// The writes of one page: after `k < 4` successful writes the next write
/// fails; the stores written are the first `k + 1` in the fixed order, and
/// the import then ends without an error, naming the store that failed.
pub proof fn law_first_failed_write_ends_the_page(k: nat)
    requires
        k < 4,
    ensures
        ({
            let events = successes(k) + seq![SyncEvent::InsertFailed];
            &&& accepted_run(SyncState::Inserting(Store::InMemory), events)
            &&& run(SyncState::Inserting(Store::InMemory), events) == (
                SyncState::Finished,
                store_order().subrange(1, k + 1int).map_values(|s: Store| SyncAction::Insert(s))
                    + seq![SyncAction::Stop(StopReason::InsertFailed(store_order()[k as int]))],
            )
        }),
{
    let events = successes(k) + seq![SyncEvent::InsertFailed];
    reveal_with_fuel(run, 5);
    reveal_with_fuel(accepted_run, 5);
    let expected = store_order().subrange(1, k + 1int).map_values(|s: Store| SyncAction::Insert(s))
        + seq![SyncAction::Stop(StopReason::InsertFailed(store_order()[k as int]))];
    if k == 0 {
        assert(events =~= seq![SyncEvent::InsertFailed]);
        assert(events.drop_first() =~= Seq::<SyncEvent>::empty());
    } else if k == 1 {
        assert(events =~= seq![SyncEvent::InsertOk, SyncEvent::InsertFailed]);
        assert(events.drop_first().drop_first() =~= Seq::<SyncEvent>::empty());
    } else if k == 2 {
        assert(events =~= seq![SyncEvent::InsertOk, SyncEvent::InsertOk, SyncEvent::InsertFailed]);
        assert(events.drop_first().drop_first().drop_first() =~= Seq::<SyncEvent>::empty());
    } else {
        assert(events =~= seq![
            SyncEvent::InsertOk,
            SyncEvent::InsertOk,
            SyncEvent::InsertOk,
            SyncEvent::InsertFailed,
        ]);
        assert(events.drop_first().drop_first().drop_first().drop_first()
            =~= Seq::<SyncEvent>::empty());
    }
    assert(run(SyncState::Inserting(Store::InMemory), events).1 =~= expected);
}

/// A run yields one action per event.
pub proof fn lemma_run_len(state: SyncState, events: Seq<SyncEvent>)
    ensures
        run(state, events).1.len() == events.len(),
    decreases events.len(),
{
    if events.len() > 0 {
        lemma_run_len(transition(state, events[0]).0, events.drop_first());
    }
}

/// Whether writing `cur` right after `prev` keeps the store order: a write
/// to a store other than the in-memory one follows the write to the store
/// before it.
pub open spec fn in_store_order(prev: SyncAction, cur: SyncAction) -> bool {
    match cur {
        SyncAction::Insert(n) => n == Store::InMemory || (match prev {
            SyncAction::Insert(p) => next_store(p) == Some(n),
            _ => false,
        }),
        _ => true,
    }
}

/// Whether `cur`, taken in `state`, keeps the store order.
pub open spec fn starts_in_store_order(state: SyncState, cur: SyncAction) -> bool {
    match cur {
        SyncAction::Insert(n) => n == Store::InMemory || (match state {
            SyncState::Inserting(p) => next_store(p) == Some(n),
            _ => false,
        }),
        _ => true,
    }
}

/// In any run of accepted events, a store other than the in-memory one is
/// written only right after the store before it in the fixed order was
/// written (or, for the first action, while that store's write was the one
/// pending): stores are never skipped or reordered.
pub proof fn law_writes_follow_store_order(state: SyncState, events: Seq<SyncEvent>)
    requires
        accepted_run(state, events),
    ensures
        forall|i: int|
            0 < i < events.len() ==> in_store_order(
                run(state, events).1[i - 1],
                #[trigger] run(state, events).1[i],
            ),
        events.len() > 0 ==> starts_in_store_order(state, run(state, events).1[0]),
    decreases events.len(),
{
    lemma_run_len(state, events);
    if events.len() > 0 {
        let (next, action) = transition(state, events[0]);
        let rest = events.drop_first();
        law_writes_follow_store_order(next, rest);
        lemma_run_len(next, rest);
        let acts = run(state, events).1;
        let tail = run(next, rest).1;
        assert(acts == seq![action] + tail);
        assert(acts[0] == action);
        assert forall|i: int| 0 < i < events.len() implies in_store_order(
            run(state, events).1[i - 1],
            #[trigger] run(state, events).1[i],
        ) by {
            assert(acts[i] == tail[i - 1]);
            if i > 1 {
                assert(acts[i - 1] == tail[i - 2]);
            }
        }
    }
}

/// In any run of accepted events, stopping or aborting is the last action:
/// nothing is done after the import has ended.
pub proof fn law_nothing_after_the_end(state: SyncState, events: Seq<SyncEvent>)
    requires
        accepted_run(state, events),
    ensures
        forall|i: int|
            0 <= i < events.len() - 1 ==> !(#[trigger] run(state, events).1[i] is Stop) && !(run(
                state,
                events,
            ).1[i] is Abort),
    decreases events.len(),
{
    lemma_run_len(state, events);
    if events.len() > 0 {
        let (next, action) = transition(state, events[0]);
        let rest = events.drop_first();
        law_nothing_after_the_end(next, rest);
        let acts = run(state, events).1;
        let tail = run(next, rest).1;
        assert(acts == seq![action] + tail);
        if events.len() > 1 {
            reveal_with_fuel(accepted_run, 2);
            assert(accepts(next, rest[0]));
            assert(!(action is Stop) && !(action is Abort));
        }
        assert forall|i: int| 0 <= i < events.len() - 1 implies !(#[trigger] run(
            state,
            events,
        ).1[i] is Stop) && !(run(state, events).1[i] is Abort) by {
            if i > 0 {
                assert(acts[i] == tail[i - 1]);
            }
        }
    }
}

/// The page URL names the requested count right after `count=` and the
/// start time at its end, right after `&from=`; both are written in ASCII
/// digits that read back as the numbers requested.
pub proof fn law_page_url_reads_back(count: u64, from: u64)
    ensures
        ({
            let u = page_url(count, from);
            let prefix = "https://midgard.ninerealms.com/v2/history/runepool?interval=hour&count="@;
            let p = prefix.len() as int;
            let c = decimal(count as nat).len() as int;
            let f = decimal(from as nat).len() as int;
            let n = u.len() as int;
            &&& u.subrange(0, p) == prefix
            &&& read_decimal(u.subrange(p, p + c)) == count
            &&& u.subrange(p + c, n - f) == "&from="@
            &&& read_decimal(u.subrange(n - f, n)) == from
            &&& forall|i: int| n - f <= i < n ==> is_ascii_digit(#[trigger] u[i])
        }),
{
    let u = page_url(count, from);
    let prefix = "https://midgard.ninerealms.com/v2/history/runepool?interval=hour&count="@;
    let sep = "&from="@;
    let dc = decimal(count as nat);
    let df = decimal(from as nat);
    let p = prefix.len() as int;
    let c = dc.len() as int;
    let f = df.len() as int;
    let n = u.len() as int;
    law_decimal_reads_back(count as nat);
    law_decimal_reads_back(from as nat);
    assert(u == prefix + dc + sep + df);
    assert(u.subrange(0, p) =~= prefix);
    assert(u.subrange(p, p + c) =~= dc);
    assert(u.subrange(p + c, n - f) =~= sep);
    assert(u.subrange(n - f, n) =~= df);
    assert forall|i: int| n - f <= i < n implies is_ascii_digit(#[trigger] u[i]) by {
        assert(u[i] == df[i - (n - f)]);
    }
}

} // verus!
