//! The life of one worker: align to the clock, prepare the directory, then
//! poll until the collector clears the worker's flag.
//!
//! A worker decides and its driver acts. The driver hands the worker an
//! event, the worker answers with the next action, and the driver reports the
//! outcome of that action as the next event.

use crate::cex_api::CexApi;
use crate::clock::{now_millis, now_seconds};
use crate::schedule::{
    alignment_delay,
    delay_to_boundary,
    interval_millis,
    lemma_delay_reaches_next_boundary,
    on_boundary,
    MILLIS_PER_SECOND,
};
use crate::storage::{envelope, envelope_line, lemma_place_keeps_wf, Rotation, RotationState};
use crate::ticker::{Pair, Ticker};
use vstd::prelude::*;

verus! {

/// How many levels of the order book a worker asks for.
pub const ORDER_BOOK_DEPTH: u32 = 10;

/// The states of a worker.
#[derive(Clone, Copy, Debug, PartialEq, Eq, Structural)]
pub enum Phase {
    /// Before the first poll: waiting for a boundary, preparing the directory.
    Aligning,
    /// In the polling loop.
    Polling,
    /// Out of the loop for good.
    Stopped,
}

/// What a worker is waiting for.
#[derive(Clone, Copy, Debug, PartialEq, Eq, Structural)]
pub enum Stage {
    /// To be started.
    Created,
    /// For the end of the wait that aligns the first poll.
    Aligning,
    /// For its directory.
    Preparing,
    /// For the value of its flag.
    Checking,
    /// For the answer of the exchange.
    Fetching,
    /// For the line to be stored.
    Writing,
    /// For the end of the wait between two polls.
    Pausing,
    /// For nothing.
    Stopped,
}

impl Stage {
    /// The state that a stage belongs to.
    pub open spec fn phase(self) -> Phase {
        match self {
            Stage::Created | Stage::Aligning | Stage::Preparing => Phase::Aligning,
            Stage::Checking | Stage::Fetching | Stage::Writing | Stage::Pausing => Phase::Polling,
            Stage::Stopped => Phase::Stopped,
        }
    }
}

/// What the driver reports to a worker.
#[derive(Debug, PartialEq, Eq)]
pub enum WorkerEvent {
    /// The worker's task began, at `now_millis` on the clock.
    Started { now_millis: i64 },
    /// A wait is over.
    Slept,
    /// The directory exists.
    DirectoryReady,
    /// The worker's flag was read.
    Flag { alive: bool },
    /// The exchange answered with `payload`, at `timestamp` seconds on the
    /// clock.
    Fetched { payload: String, timestamp: i64 },
    /// The fetch failed; it is `now_millis` on the clock.
    FetchFailed { now_millis: i64 },
    /// The line is stored; it is `now_millis` on the clock.
    Written { now_millis: i64 },
}

/// What a worker asks of its driver.
#[derive(Debug, PartialEq, Eq)]
pub enum WorkerAction {
    /// Wait for `millis` milliseconds, then report `Slept`.
    Sleep { millis: u64 },
    /// Create the directory `path` unless it exists, then report
    /// `DirectoryReady`.
    CreateDirectory { path: String },
    /// Read the worker's flag and report it.
    CheckAlive,
    /// Fetch the order book, `depth` levels deep, and report `Fetched` or
    /// `FetchFailed`.
    Fetch { depth: u32 },
    /// Append `line` to the file `path`, creating the file if need be, then
    /// report `Written`.
    Append { path: String, line: String },
    /// End the task.
    Exit,
}

/// An event, as text and numbers.
pub enum Event {
    Started { now_millis: int },
    Slept,
    DirectoryReady,
    Flag { alive: bool },
    Fetched { payload: Seq<char>, timestamp: int },
    FetchFailed { now_millis: int },
    Written { now_millis: int },
}

/// An action, as text and numbers.
pub enum Action {
    Sleep { millis: int },
    CreateDirectory { path: Seq<char> },
    CheckAlive,
    Fetch { depth: int },
    Append { path: Seq<char>, line: Seq<char> },
    Exit,
}

impl View for WorkerEvent {
    type V = Event;

    open spec fn view(&self) -> Event {
        match *self {
            WorkerEvent::Started { now_millis } => Event::Started { now_millis: now_millis as int },
            WorkerEvent::Slept => Event::Slept,
            WorkerEvent::DirectoryReady => Event::DirectoryReady,
            WorkerEvent::Flag { alive } => Event::Flag { alive },
            WorkerEvent::Fetched { payload, timestamp } => Event::Fetched {
                payload: payload@,
                timestamp: timestamp as int,
            },
            WorkerEvent::FetchFailed { now_millis } => Event::FetchFailed {
                now_millis: now_millis as int,
            },
            WorkerEvent::Written { now_millis } => Event::Written { now_millis: now_millis as int },
        }
    }
}

impl View for WorkerAction {
    type V = Action;

    open spec fn view(&self) -> Action {
        match *self {
            WorkerAction::Sleep { millis } => Action::Sleep { millis: millis as int },
            WorkerAction::CreateDirectory { path } => Action::CreateDirectory { path: path@ },
            WorkerAction::CheckAlive => Action::CheckAlive,
            WorkerAction::Fetch { depth } => Action::Fetch { depth: depth as int },
            WorkerAction::Append { path, line } => Action::Append { path: path@, line: line@ },
            WorkerAction::Exit => Action::Exit,
        }
    }
}

impl WorkerEvent {
    /// The event that the worker's task began, with the clock read now.
    pub fn started() -> (event: WorkerEvent)
        ensures
            event is Started,
    {
        WorkerEvent::Started { now_millis: now_millis() }
    }

    /// The event that the exchange answered with `payload`, with the clock
    /// read now.
    pub fn fetched(payload: String) -> (event: WorkerEvent)
        ensures
            event matches WorkerEvent::Fetched { payload: held, .. } && held == payload,
    {
        WorkerEvent::Fetched { payload, timestamp: now_seconds() }
    }

    /// The event that the fetch failed, with the clock read now.
    pub fn fetch_failed() -> (event: WorkerEvent)
        ensures
            event is FetchFailed,
    {
        WorkerEvent::FetchFailed { now_millis: now_millis() }
    }

    /// The event that the line is stored, with the clock read now.
    pub fn written() -> (event: WorkerEvent)
        ensures
            event is Written,
    {
        WorkerEvent::Written { now_millis: now_millis() }
    }
}

/// The directory of the worker for `pair` on the exchange named `exchange`.
pub open spec fn worker_directory(exchange: Seq<char>, pair: Pair) -> Seq<char> {
    "data/"@ + exchange + "/"@ + pair.symbol()
}

/// A worker, as text and numbers.
pub struct WorkerModel {
    /// What the worker is waiting for.
    pub stage: Stage,
    /// Milliseconds between two polls.
    pub interval_millis: int,
    /// The worker's files.
    pub files: Rotation,
}

impl WorkerModel {
    /// A worker that has not been started, polling every `interval_millis`
    /// and storing under `directory`.
    pub open spec fn created(directory: Seq<char>, interval_millis: int) -> WorkerModel {
        WorkerModel { stage: Stage::Created, interval_millis, files: Rotation::fresh(directory) }
    }

    /// The worker for `pair` on the exchange named `exchange`, which is
    /// polled every `seconds` seconds, before it is started. There is none
    /// where the interval is zero or, in milliseconds, does not fit the
    /// machine word.
    pub open spec fn for_exchange(pair: Pair, exchange: Seq<char>, seconds: int) -> Option<
        WorkerModel,
    > {
        let millis = seconds * MILLIS_PER_SECOND;
        if 0 < millis <= u64::MAX {
            Some(WorkerModel::created(worker_directory(exchange, pair), millis))
        } else {
            None
        }
    }

    /// The worker for `pair` on the exchange `api` before it is started.
    pub open spec fn for_pair<T: CexApi>(pair: Pair, api: &T) -> Option<WorkerModel> {
        WorkerModel::for_exchange(pair, api.exchange_name(), api.poll_interval() as int)
    }

    /// The worker at another stage.
    pub open spec fn at(self, stage: Stage) -> WorkerModel {
        WorkerModel { stage, ..self }
    }

    /// What follows the alignment: the directory is asked for.
    pub open spec fn prepare(self) -> (WorkerModel, Action) {
        (self.at(Stage::Preparing), Action::CreateDirectory { path: self.files.directory })
    }

    /// The top of the polling loop: the flag is asked for.
    pub open spec fn loop_top(self) -> (WorkerModel, Action) {
        (self.at(Stage::Checking), Action::CheckAlive)
    }

    /// At `now_millis`, wait for the next boundary of the interval and then
    /// go on with `then`; on a boundary, go on at once.
    pub open spec fn wait_then(
        self,
        now_millis: int,
        waiting: Stage,
        then: (WorkerModel, Action),
    ) -> (WorkerModel, Action) {
        let millis = delay_to_boundary(now_millis, self.interval_millis);
        if millis > 0 {
            (self.at(waiting), Action::Sleep { millis })
        } else {
            then
        }
    }

    /// The worker after `event` and the action it asks for, or `None` where
    /// the worker is not waiting for that event.
    pub open spec fn step(self, event: Event) -> Option<(WorkerModel, Action)> {
        match (self.stage, event) {
            (Stage::Created, Event::Started { now_millis }) => Some(
                self.wait_then(now_millis, Stage::Aligning, self.prepare()),
            ),
            (Stage::Aligning, Event::Slept) => Some(self.prepare()),
            (Stage::Preparing, Event::DirectoryReady) => Some(self.loop_top()),
            (Stage::Checking, Event::Flag { alive }) => if alive {
                Some((self.at(Stage::Fetching), Action::Fetch { depth: ORDER_BOOK_DEPTH as int }))
            } else {
                Some((self.at(Stage::Stopped), Action::Exit))
            },
            (Stage::Fetching, Event::Fetched { payload, timestamp }) => {
                let files = self.files.place(timestamp);
                Some(
                    (
                        WorkerModel { stage: Stage::Writing, files, ..self },
                        Action::Append {
                            path: files.current_file_path,
                            line: envelope(timestamp, payload),
                        },
                    ),
                )
            },
            (Stage::Fetching, Event::FetchFailed { now_millis }) => Some(
                self.wait_then(now_millis, Stage::Pausing, self.loop_top()),
            ),
            (Stage::Writing, Event::Written { now_millis }) => Some(
                self.wait_then(now_millis, Stage::Pausing, self.loop_top()),
            ),
            (Stage::Pausing, Event::Slept) => Some(self.loop_top()),
            _ => None,
        }
    }
}

/// The polling state machine of one trading pair.
pub struct Worker {
    stage: Stage,
    interval_millis: u64,
    files: RotationState,
}

impl View for Worker {
    type V = WorkerModel;

    closed spec fn view(&self) -> WorkerModel {
        WorkerModel {
            stage: self.stage,
            interval_millis: self.interval_millis as int,
            files: self.files@,
        }
    }
}

impl Worker {
    #[verifier::type_invariant]
    spec fn inv(self) -> bool {
        self.interval_millis > 0
    }

    /// A worker for `ticker` on the exchange named `exchange`, which is polled
    /// every `seconds` seconds. The worker is not yet started. There is none
    /// where the interval is zero or, in milliseconds, does not fit the
    /// machine word.
    pub fn for_exchange(ticker: &Ticker, exchange: &str, seconds: u64) -> (worker: Option<Worker>)
        ensures
            match worker {
                Some(worker) => WorkerModel::for_exchange(ticker@, exchange@, seconds as int)
                    == Some(worker@) && worker@.wf(),
                None => WorkerModel::for_exchange(ticker@, exchange@, seconds as int) is None,
            },
    {
        let millis: u64 = match interval_millis(seconds) {
            Some(millis) => millis,
            None => { return None; },
        };
        if millis == 0 {
            return None;
        }
        let mut directory = String::from_str("data/");
        directory.append(exchange);
        directory.append("/");
        directory.append(ticker.to_string().as_str());
        assert(directory@ =~= worker_directory(exchange@, ticker@));
        Some(
            Worker {
                stage: Stage::Created,
                interval_millis: millis,
                files: RotationState::new(directory),
            },
        )
    }

    /// A worker for `ticker` on the exchange `api`, not yet started. There is
    /// none for an exchange whose interval is zero or, in milliseconds, does
    /// not fit the machine word.
    pub fn new<T: CexApi>(ticker: &Ticker, api: &T) -> (worker: Option<Worker>)
        ensures
            match worker {
                Some(worker) => WorkerModel::for_pair(ticker@, api) == Some(worker@)
                    && worker@.wf(),
                None => WorkerModel::for_pair(ticker@, api) is None,
            },
    {
        Worker::for_exchange(ticker, api.name(), api.get_order_book_interval())
    }

    /// What the worker is waiting for.
    pub fn stage(&self) -> (stage: Stage)
        ensures
            stage == self@.stage,
    {
        self.stage
    }

    /// The state of the worker.
    pub fn phase(&self) -> (phase: Phase)
        ensures
            phase == self@.stage.phase(),
    {
        match self.stage {
            Stage::Created | Stage::Aligning | Stage::Preparing => Phase::Aligning,
            Stage::Checking | Stage::Fetching | Stage::Writing | Stage::Pausing => Phase::Polling,
            Stage::Stopped => Phase::Stopped,
        }
    }

    /// Milliseconds between two polls.
    pub fn interval_millis(&self) -> (millis: u64)
        ensures
            millis == self@.interval_millis,
            millis > 0,
    {
        proof {
            use_type_invariant(self);
        }
        self.interval_millis
    }

    /// The worker's files.
    pub fn files(&self) -> (files: &RotationState)
        ensures
            files@ == self@.files,
    {
        &self.files
    }

    /// Asks for the directory.
    fn prepare(&mut self) -> (action: WorkerAction)
        ensures
            (final(self)@, action@) == old(self)@.prepare(),
    {
        proof {
            use_type_invariant(&*self);
        }
        self.stage = Stage::Preparing;
        WorkerAction::CreateDirectory { path: String::from_str(self.files.directory()) }
    }

    /// Asks for the flag.
    fn loop_top(&mut self) -> (action: WorkerAction)
        ensures
            (final(self)@, action@) == old(self)@.loop_top(),
    {
        proof {
            use_type_invariant(&*self);
        }
        self.stage = Stage::Checking;
        WorkerAction::CheckAlive
    }

    /// Takes `event` and answers with the next action, or with `None`,
    /// leaving the worker as it is, where it is not waiting for that event.
    pub fn step(&mut self, event: WorkerEvent) -> (action: Option<WorkerAction>)
        ensures
            match old(self)@.step(event@) {
                Some((next, asked)) => {
                    &&& final(self)@ == next
                    &&& action matches Some(given)
                    &&& given@ == asked
                },
                None => final(self)@ == old(self)@ && action is None,
            },
            final(self)@.wf(),
    {
        proof {
            use_type_invariant(&*self);
            use_type_invariant(&self.files);
            lemma_step_keeps_worker(self@, event@);
        }
        match (self.stage, event) {
            (Stage::Created, WorkerEvent::Started { now_millis }) => {
                let millis: u64 = alignment_delay(now_millis, self.interval_millis);
                if millis > 0 {
                    self.stage = Stage::Aligning;
                    Some(WorkerAction::Sleep { millis })
                } else {
                    Some(self.prepare())
                }
            },
            (Stage::Aligning, WorkerEvent::Slept) => Some(self.prepare()),
            (Stage::Preparing, WorkerEvent::DirectoryReady) => Some(self.loop_top()),
            (Stage::Checking, WorkerEvent::Flag { alive }) => {
                if alive {
                    self.stage = Stage::Fetching;
                    Some(WorkerAction::Fetch { depth: ORDER_BOOK_DEPTH })
                } else {
                    self.stage = Stage::Stopped;
                    Some(WorkerAction::Exit)
                }
            },
            (Stage::Fetching, WorkerEvent::Fetched { payload, timestamp }) => {
                let line = envelope_line(timestamp, payload.as_str());
                if let Some(files) = self.files.rotated(timestamp) {
                    self.files = files;
                }
                self.stage = Stage::Writing;
                let path = String::from_str(self.files.current_file_path());
                Some(WorkerAction::Append { path, line })
            },
            (Stage::Fetching, WorkerEvent::FetchFailed { now_millis })
            | (Stage::Writing, WorkerEvent::Written { now_millis }) => {
                let millis: u64 = alignment_delay(now_millis, self.interval_millis);
                if millis > 0 {
                    self.stage = Stage::Pausing;
                    Some(WorkerAction::Sleep { millis })
                } else {
                    Some(self.loop_top())
                }
            },
            (Stage::Pausing, WorkerEvent::Slept) => Some(self.loop_top()),
            _ => None,
        }
    }
}

impl WorkerModel {
    /// The interval is positive and the files are in order.
    pub open spec fn wf(self) -> bool {
        self.interval_millis > 0 && self.files.wf()
    }

    /// The worker after `events`, each taken where the worker is waiting for
    /// it and passed over where it is not.
    pub open spec fn after(self, events: Seq<Event>) -> WorkerModel
        decreases events.len(),
    {
        if events.len() == 0 {
            self
        } else {
            let before = self.after(events.drop_last());
            match before.step(events.last()) {
                Some((next, _)) => next,
                None => before,
            }
        }
    }

    /// The action that answers event number `index` of `events`, where the
    /// worker is waiting for that event.
    pub open spec fn answer(self, events: Seq<Event>, index: int) -> Option<Action> {
        match self.after(events.take(index)).step(events[index]) {
            Some((_, action)) => Some(action),
            None => None,
        }
    }
}

/// A step keeps the worker well formed, keeps its interval and its
/// directory, and moves it within its state or on to the next one: from
/// aligning to polling, from polling to stopped, never back.
pub proof fn lemma_step_keeps_worker(worker: WorkerModel, event: Event)
    requires
        worker.wf(),
    ensures
        worker.step(event) matches Some((next, _)) ==> {
            &&& next.wf()
            &&& next.interval_millis == worker.interval_millis
            &&& next.files.directory == worker.files.directory
            &&& match worker.stage.phase() {
                Phase::Aligning => next.stage.phase() != Phase::Stopped,
                Phase::Polling => next.stage.phase() != Phase::Aligning,
                Phase::Stopped => false,
            }
        },
{
    match event {
        Event::Fetched { timestamp, .. } => {
            lemma_place_keeps_wf(worker.files, timestamp);
        },
        _ => {},
    }
}

/// A worker stops on one occasion only: when it reads its flag at the top
/// of the loop and finds it cleared. It then asks to end the task.
pub proof fn lemma_stops_only_on_cleared_flag(worker: WorkerModel, event: Event)
    ensures
        worker.step(event) matches Some((next, action)) ==> (next.stage == Stage::Stopped <==> (
            worker.stage == Stage::Checking && event == Event::Flag { alive: false })),
        worker.step(event) matches Some((next, action)) ==> (action == Action::Exit
            <==> next.stage == Stage::Stopped),
{
}

/// A worker never waits past a boundary of its interval: every wait it asks
/// for is shorter than the interval and ends on the next boundary after the
/// clock reading it was given.
pub proof fn lemma_waits_end_on_boundaries(worker: WorkerModel, event: Event)
    requires
        worker.wf(),
    ensures
        worker.step(event) matches Some((_, Action::Sleep { millis })) ==> {
            &&& 0 < millis < worker.interval_millis
            &&& match event {
                Event::Started { now_millis }
                | Event::FetchFailed { now_millis }
                | Event::Written { now_millis } => on_boundary(
                    now_millis + millis,
                    worker.interval_millis,
                ),
                _ => false,
            }
        },
{
    match event {
        Event::Started { now_millis }
        | Event::FetchFailed { now_millis }
        | Event::Written { now_millis } => {
            lemma_delay_reaches_next_boundary(now_millis, worker.interval_millis);
        },
        _ => {},
    }
}

impl Stage {
    /// How many events a worker at this stage takes at most before it reads
    /// its flag.
    pub open spec fn events_before_flag(self) -> nat {
        match self {
            Stage::Created | Stage::Fetching => 3,
            Stage::Aligning | Stage::Writing => 2,
            Stage::Preparing | Stage::Pausing => 1,
            Stage::Checking | Stage::Stopped => 0,
        }
    }
}

/// A worker reads its flag once in every round of the loop: between two
/// readings lie at most one fetch, one line stored and one wait, so a cleared
/// flag is seen within one round.
pub proof fn lemma_flag_is_read_every_round(worker: WorkerModel, event: Event)
    ensures
        worker.step(event) matches Some((next, action)) ==> {
            &&& action == Action::CheckAlive <==> next.stage == Stage::Checking
            &&& worker.stage != Stage::Checking ==> next.stage.events_before_flag()
                < worker.stage.events_before_flag()
        },
{
}

/// A stopped worker stays stopped whatever it is told.
pub proof fn lemma_stopped_stays_stopped(worker: WorkerModel, events: Seq<Event>)
    requires
        worker.stage == Stage::Stopped,
    ensures
        worker.after(events) == worker,
    decreases events.len(),
{
    if events.len() > 0 {
        lemma_stopped_stays_stopped(worker, events.drop_last());
    }
}

/// Once a worker has asked to end its task it asks for nothing more: no
/// fetch and no line to store follows.
pub proof fn lemma_silent_after_exit(
    worker: WorkerModel,
    events: Seq<Event>,
    exit: int,
    later: int,
)
    requires
        0 <= exit < later < events.len(),
        worker.answer(events, exit) == Some(Action::Exit),
    ensures
        worker.answer(events, later) is None,
{
    let until_exit = events.take(exit + 1);
    let until_later = events.take(later);
    let stopped = worker.after(until_exit);
    assert(until_exit.drop_last() =~= events.take(exit));
    assert(until_exit.last() == events[exit]);
    lemma_stops_only_on_cleared_flag(worker.after(events.take(exit)), events[exit]);
    assert(stopped.stage == Stage::Stopped);
    lemma_after_splits(worker, until_later, exit + 1);
    assert(until_later.take(exit + 1) =~= until_exit);
    lemma_stopped_stays_stopped(stopped, until_later.skip(exit + 1));
}

/// Taking events in two runs is taking them in one.
proof fn lemma_after_splits(worker: WorkerModel, events: Seq<Event>, first: int)
    requires
        0 <= first <= events.len(),
    ensures
        worker.after(events) == worker.after(events.take(first)).after(events.skip(first)),
    decreases events.len(),
{
    let rest = events.skip(first);
    if first == events.len() {
        assert(events.take(first) =~= events);
    } else {
        let front = events.drop_last();
        lemma_after_splits(worker, front, first);
        assert(front.take(first) =~= events.take(first));
        assert(front.skip(first) =~= rest.drop_last());
        assert(rest.last() == events.last());
    }
}

} // verus!
