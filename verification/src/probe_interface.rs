//! The watch engine and the flash pipeline, as far as they decide: whether a
//! session may start, what a poll cycle does in which order, which writes
//! are pending, how long to sleep, and what the progress of a download is.
//!
//! The owner of a `ProbeInterface` talks to the probe and the log store. It
//! asks the engine what to do next and tells it what happened.

use vstd::prelude::*;
use crate::variable::{catalog_view, copy_catalog, VariableInfo, VariableSpec};

verus! {

/// What a `WatchSetting` stands for.
pub struct WatchSettingSpec {
    pub target_mcu: Seq<char>,
    pub probe_sn: Seq<char>,
    pub watch_list: Seq<VariableSpec>,
}

/// The chip, the probe and the variables of a watch or flash session.
#[derive(Default, Clone, Debug)]
pub struct WatchSetting {
    pub target_mcu: String,
    pub probe_sn: String,
    pub watch_list: Vec<VariableInfo>,
}

impl View for WatchSetting {
    type V = WatchSettingSpec;

    open spec fn view(&self) -> WatchSettingSpec {
        WatchSettingSpec {
            target_mcu: self.target_mcu@,
            probe_sn: self.probe_sn@,
            watch_list: catalog_view(self.watch_list@),
        }
    }
}

impl WatchSetting {
    /// A copy of this setting.
    pub fn duplicate(&self) -> (r: WatchSetting)
        ensures
            r@ == self@,
    {
        WatchSetting {
            target_mcu: self.target_mcu.clone(),
            probe_sn: self.probe_sn.clone(),
            watch_list: copy_catalog(&self.watch_list),
        }
    }
}

/// Where a download to the target's flash stands.
#[derive(Copy, Clone, Debug, Eq, PartialEq, Structural)]
pub enum FlashProgressState {
    /// No download has been asked for.
    Idle,
    Erasing,
    Programing,
    Finished,
    Failed,
}

impl Default for FlashProgressState {
    fn default() -> (r: Self)
        ensures
            r == FlashProgressState::Idle,
    {
        FlashProgressState::Idle
    }
}

/// The progress of a download: its state, and the bytes done out of the
/// bytes of the current phase. The fraction it stands for is `done / total`,
/// taken as 0 while `total` is 0.
#[derive(Copy, Clone, Debug, Eq, PartialEq, Structural)]
pub struct Progress {
    pub state: FlashProgressState,
    pub done: u64,
    pub total: u64,
}

/// What the download reports while it runs.
#[derive(Debug)]
pub enum FlashEvent {
    /// The layout is known: the sizes of the pages and of the sectors that
    /// the download will touch.
    Initialized { pages: Vec<u64>, sectors: Vec<u64> },
    StartedFilling,
    PageFilled,
    FailedFilling,
    FinishedFilling,
    StartedErasing,
    /// A sector of `size` bytes has been erased.
    SectorErased { size: u64 },
    FailedErasing,
    FinishedErasing,
    StartedProgramming,
    /// A page of `size` bytes has been programmed.
    PageProgrammed { size: u64 },
    FailedProgramming,
    FinishedProgramming,
    DiagnosticMessage,
    /// The session could not be opened or broke down outside the download.
    Aborted,
}

/// What a flash event stands for.
pub enum FlashEventSpec {
    Initialized { pages: Seq<u64>, sectors: Seq<u64> },
    StartedFilling,
    PageFilled,
    FailedFilling,
    FinishedFilling,
    StartedErasing,
    SectorErased { size: u64 },
    FailedErasing,
    FinishedErasing,
    StartedProgramming,
    PageProgrammed { size: u64 },
    FailedProgramming,
    FinishedProgramming,
    DiagnosticMessage,
    Aborted,
}

impl View for FlashEvent {
    type V = FlashEventSpec;

    open spec fn view(&self) -> FlashEventSpec {
        match self {
            FlashEvent::Initialized { pages, sectors } => FlashEventSpec::Initialized {
                pages: pages@,
                sectors: sectors@,
            },
            FlashEvent::StartedFilling => FlashEventSpec::StartedFilling,
            FlashEvent::PageFilled => FlashEventSpec::PageFilled,
            FlashEvent::FailedFilling => FlashEventSpec::FailedFilling,
            FlashEvent::FinishedFilling => FlashEventSpec::FinishedFilling,
            FlashEvent::StartedErasing => FlashEventSpec::StartedErasing,
            FlashEvent::SectorErased { size } => FlashEventSpec::SectorErased { size: *size },
            FlashEvent::FailedErasing => FlashEventSpec::FailedErasing,
            FlashEvent::FinishedErasing => FlashEventSpec::FinishedErasing,
            FlashEvent::StartedProgramming => FlashEventSpec::StartedProgramming,
            FlashEvent::PageProgrammed { size } => FlashEventSpec::PageProgrammed { size: *size },
            FlashEvent::FailedProgramming => FlashEventSpec::FailedProgramming,
            FlashEvent::FinishedProgramming => FlashEventSpec::FinishedProgramming,
            FlashEvent::DiagnosticMessage => FlashEventSpec::DiagnosticMessage,
            FlashEvent::Aborted => FlashEventSpec::Aborted,
        }
    }
}

/// The state of the flash pipeline: the progress shown, and the bytes of all
/// pages and of all sectors of the layout.
pub struct FlashState {
    pub progress: Progress,
    pub page_total: u64,
    pub sector_total: u64,
}

/// The sum of `sizes`, or the greatest 64-bit number if the sum exceeds it.
pub open spec fn capped_sum(sizes: Seq<u64>) -> u64
    decreases sizes.len(),
{
    if sizes.len() == 0 {
        0
    } else {
        capped(capped_sum(sizes.drop_last()) + sizes.last(), u64::MAX)
    }
}

/// `n`, or `limit` if `n` exceeds it.
pub open spec fn capped(n: int, limit: u64) -> u64 {
    if n > limit {
        limit
    } else {
        n as u64
    }
}

/// The download has ended, well or badly.
pub open spec fn is_terminal(state: FlashProgressState) -> bool {
    state == FlashProgressState::Finished || state == FlashProgressState::Failed
}

/// How far along the way to success a state is.
pub open spec fn rank(state: FlashProgressState) -> int {
    match state {
        FlashProgressState::Idle => 0,
        FlashProgressState::Erasing => 1,
        FlashProgressState::Programing => 2,
        FlashProgressState::Finished => 3,
        FlashProgressState::Failed => 3,
    }
}

/// The state of the pipeline after an event.
///
/// A download that has ended takes no more events. Otherwise a failure of
/// any kind ends it as `Failed`. The start of erasing or programming enters
/// that phase with nothing done, unless a later phase is already under way;
/// erased sectors and programmed pages count towards their own phase, up to
/// its total; and the end of programming ends the download as `Finished` if
/// programming was under way.
pub open spec fn flash_step(s: FlashState, event: FlashEventSpec) -> FlashState {
    let p = s.progress;
    if is_terminal(p.state) {
        s
    } else {
        match event {
            FlashEventSpec::Initialized { pages, sectors } => FlashState {
                page_total: capped_sum(pages),
                sector_total: capped_sum(sectors),
                ..s
            },
            FlashEventSpec::FailedFilling
            | FlashEventSpec::FailedErasing
            | FlashEventSpec::FailedProgramming
            | FlashEventSpec::Aborted => FlashState {
                progress: Progress { state: FlashProgressState::Failed, ..p },
                ..s
            },
            FlashEventSpec::StartedErasing => if p.state == FlashProgressState::Programing {
                s
            } else {
                FlashState {
                    progress: Progress {
                        state: FlashProgressState::Erasing,
                        done: 0,
                        total: s.sector_total,
                    },
                    ..s
                }
            },
            FlashEventSpec::SectorErased { size } => if p.state == FlashProgressState::Erasing {
                FlashState { progress: Progress { done: capped(p.done + size, p.total), ..p }, ..s }
            } else {
                s
            },
            FlashEventSpec::StartedProgramming => FlashState {
                progress: Progress {
                    state: FlashProgressState::Programing,
                    done: 0,
                    total: s.page_total,
                },
                ..s
            },
            FlashEventSpec::PageProgrammed { size } => if p.state
                == FlashProgressState::Programing {
                FlashState { progress: Progress { done: capped(p.done + size, p.total), ..p }, ..s }
            } else {
                s
            },
            FlashEventSpec::FinishedProgramming => if p.state == FlashProgressState::Programing {
                FlashState { progress: Progress { state: FlashProgressState::Finished, ..p }, ..s }
            } else {
                s
            },
            _ => s,
        }
    }
}

/// The state in which a download starts.
pub open spec fn flash_started() -> FlashState {
    FlashState {
        progress: Progress { state: FlashProgressState::Erasing, done: 0, total: 0 },
        page_total: 0,
        sector_total: 0,
    }
}

/// The state of a pipeline that has not been used.
pub open spec fn flash_idle() -> FlashState {
    FlashState {
        progress: Progress { state: FlashProgressState::Idle, done: 0, total: 0 },
        page_total: 0,
        sector_total: 0,
    }
}

/// No more is done than the phase holds.
pub open spec fn flash_consistent(s: FlashState) -> bool {
    s.progress.done <= s.progress.total
}

/// The laws of the flash pipeline. An event never takes the state back; it
/// leaves a download that has ended as it is; it ends a download as
/// `Finished` only out of programming and only by the end of programming;
/// it ends any running download as `Failed` on a failure; it keeps the
/// fraction within 0 and 1; and within a phase the fraction never falls.
pub proof fn lemma_flash_step(s: FlashState, event: FlashEventSpec)
    requires
        flash_consistent(s),
    ensures
        flash_consistent(flash_step(s, event)),
        rank(flash_step(s, event).progress.state) >= rank(s.progress.state),
        is_terminal(s.progress.state) ==> flash_step(s, event) == s,
        flash_step(s, event).progress.state == FlashProgressState::Finished && s.progress.state
            != FlashProgressState::Finished ==> s.progress.state == FlashProgressState::Programing
            && event is FinishedProgramming,
        !is_terminal(s.progress.state) && (event is FailedErasing || event is FailedProgramming
            || event is FailedFilling || event is Aborted) ==> flash_step(s, event).progress.state
            == FlashProgressState::Failed,
        flash_step(s, event).progress.state == s.progress.state && !(event is StartedErasing)
            && !(event is StartedProgramming) ==> flash_step(s, event).progress.done
            >= s.progress.done && flash_step(s, event).progress.total == s.progress.total,
        event is StartedErasing && flash_step(s, event).progress.state
            == FlashProgressState::Erasing ==> flash_step(s, event).progress.done == 0,
        event is StartedProgramming && flash_step(s, event).progress.state
            == FlashProgressState::Programing ==> flash_step(s, event).progress.done == 0,
{
}

/// The sum of `sizes`, capped at the greatest 64-bit number.
pub fn sum_sizes(sizes: &Vec<u64>) -> (r: u64)
    ensures
        r == capped_sum(sizes@),
{
    let mut total: u64 = 0;
    let mut i: usize = 0;
    while i < sizes.len()
        invariant
            i <= sizes.len(),
            total == capped_sum(sizes@.take(i as int)),
        decreases sizes.len() - i,
    {
        proof {
            assert(sizes@.take(i + 1).drop_last() == sizes@.take(i as int));
        }
        total = total.saturating_add(sizes[i]);
        i = i + 1;
    }
    assert(sizes@.take(sizes.len() as int) == sizes@);
    total
}

/// A request to set a variable, waiting for the next poll cycle.
#[derive(Debug)]
pub struct PendingWrite {
    pub symbol: VariableInfo,
    pub data: String,
}

/// What a `PendingWrite` stands for.
pub struct PendingSpec {
    pub symbol: VariableSpec,
    pub data: Seq<char>,
}

impl View for PendingWrite {
    type V = PendingSpec;

    open spec fn view(&self) -> PendingSpec {
        PendingSpec { symbol: self.symbol@, data: self.data@ }
    }
}

/// The requests that a queue holds, in order.
pub open spec fn queue_view(queue: Seq<PendingWrite>) -> Seq<PendingSpec> {
    queue.map_values(|w: PendingWrite| w@)
}

/// The position of the first request for `symbol` in `queue`, or the length
/// of the queue if it holds none.
pub open spec fn key_index(queue: Seq<PendingSpec>, symbol: VariableSpec) -> int
    decreases queue.len(),
{
    if queue.len() == 0 {
        0
    } else if queue[0].symbol == symbol {
        0
    } else {
        1 + key_index(queue.drop_first(), symbol)
    }
}

/// No two requests of the queue are for the same variable.
pub open spec fn distinct_keys(queue: Seq<PendingSpec>) -> bool {
    forall|i: int, j: int|
        0 <= i < j < queue.len() ==> (#[trigger] queue[i]).symbol != (#[trigger] queue[j]).symbol
}

/// The queue after a request to set `symbol` to `data`: a request that is
/// already waiting for the variable gets the new text and keeps its place,
/// else the request joins the end.
pub open spec fn enqueued(queue: Seq<PendingSpec>, symbol: VariableSpec, data: Seq<char>) -> Seq<
    PendingSpec,
> {
    let at = key_index(queue, symbol);
    if at < queue.len() {
        queue.update(at, PendingSpec { symbol, data })
    } else {
        queue.push(PendingSpec { symbol, data })
    }
}

/// `key_index` is the position before which no request is for `symbol` and
/// at which, if it lies within the queue, one is.
pub proof fn lemma_key_index(queue: Seq<PendingSpec>, symbol: VariableSpec, at: int)
    requires
        0 <= at <= queue.len(),
        forall|j: int| 0 <= j < at ==> (#[trigger] queue[j]).symbol != symbol,
        at < queue.len() ==> queue[at].symbol == symbol,
    ensures
        key_index(queue, symbol) == at,
    decreases queue.len(),
{
    if queue.len() > 0 && at > 0 {
        let rest = queue.drop_first();
        lemma_key_index(rest, symbol, at - 1);
    }
}

/// `key_index` lies within the queue exactly when a request is for
/// `symbol`, and then points at one.
pub proof fn lemma_key_index_bounds(queue: Seq<PendingSpec>, symbol: VariableSpec)
    ensures
        0 <= key_index(queue, symbol) <= queue.len(),
        key_index(queue, symbol) < queue.len() ==> queue[key_index(queue, symbol)].symbol
            == symbol,
        forall|j: int|
            0 <= j < key_index(queue, symbol) ==> (#[trigger] queue[j]).symbol != symbol,
    decreases queue.len(),
{
    if queue.len() > 0 && queue[0].symbol != symbol {
        let rest = queue.drop_first();
        lemma_key_index_bounds(rest, symbol);
        assert forall|j: int| 0 <= j < key_index(queue, symbol) implies (#[trigger] queue[j]).symbol
            != symbol by {
            if j > 0 {
                assert(rest[j - 1] == queue[j]);
            }
        }
    }
}

/// The laws of the queue. After a request for a variable the queue holds
/// exactly one request for it, with the text last asked for; the requests
/// for other variables are as before; and no variable has two requests.
pub proof fn lemma_enqueued(queue: Seq<PendingSpec>, symbol: VariableSpec, data: Seq<char>)
    requires
        distinct_keys(queue),
    ensures
        distinct_keys(enqueued(queue, symbol, data)),
        ({
            let after = enqueued(queue, symbol, data);
            let at = key_index(after, symbol);
            &&& at < after.len()
            &&& after[at] == PendingSpec { symbol, data }
            &&& at == key_index(queue, symbol)
            &&& forall|j: int|
                0 <= j < queue.len() && j != at ==> (#[trigger] after[j]) == queue[j]
            &&& after.len() == if at < queue.len() {
                queue.len()
            } else {
                queue.len() + 1
            }
        }),
{
    lemma_key_index_bounds(queue, symbol);
    let after = enqueued(queue, symbol, data);
    let at = key_index(queue, symbol);
    lemma_key_index(after, symbol, at);
}

/// The position of the first request for `symbol` in `queue`, or the length
/// of the queue if it holds none.
pub fn find_pending(queue: &Vec<PendingWrite>, symbol: &VariableInfo) -> (r: usize)
    ensures
        r == key_index(queue_view(queue@), symbol@),
        r <= queue.len(),
{
    let ghost all = queue_view(queue@);
    let mut i: usize = 0;
    while i < queue.len()
        invariant
            i <= queue.len(),
            all == queue_view(queue@),
            forall|j: int| 0 <= j < i ==> (#[trigger] all[j]).symbol != symbol@,
        decreases queue.len() - i,
    {
        if queue[i].symbol.same_as(symbol) {
            proof {
                lemma_key_index(all, symbol@, i as int);
            }
            return i;
        }
        i = i + 1;
    }
    proof {
        lemma_key_index(all, symbol@, all.len() as int);
    }
    i
}

/// Where a poll cycle stands.
#[derive(Copy, Clone, Debug, Eq, PartialEq, Structural)]
pub enum CyclePhase {
    /// Between two cycles.
    Boundary,
    /// The watched variables have been read.
    Sampled,
    /// The pending writes have been handed out.
    Applied,
}

/// What the poll loop is to do next.
#[derive(Debug)]
pub enum CycleStep {
    /// Read every watched variable and store a sample of each.
    Sample,
    /// Perform these writes, in order, passing over those that fail.
    Apply(Vec<PendingWrite>),
    /// Sleep for this many microseconds; none if it is zero.
    Sleep(u64),
    /// Leave the loop.
    Stop,
}

/// What a `CycleStep` stands for.
pub enum CycleStepSpec {
    Sample,
    Apply(Seq<PendingSpec>),
    Sleep(u64),
    Stop,
}

impl View for CycleStep {
    type V = CycleStepSpec;

    open spec fn view(&self) -> CycleStepSpec {
        match self {
            CycleStep::Sample => CycleStepSpec::Sample,
            CycleStep::Apply(writes) => CycleStepSpec::Apply(queue_view(writes@)),
            CycleStep::Sleep(micros) => CycleStepSpec::Sleep(*micros),
            CycleStep::Stop => CycleStepSpec::Stop,
        }
    }
}

/// Why a session could not start.
#[derive(Copy, Clone, Debug, Eq, PartialEq, Structural)]
pub enum ProbeError {
    /// A watch session holds the probe.
    ProbeBusy,
}

/// Which samples to fetch from the log store: those of the session clock
/// from `time_start` back to `time_limit`, in milliseconds, at most `limit`
/// of them. `None` leaves a bound open.
#[derive(Copy, Clone, Debug, Eq, PartialEq, Structural)]
pub struct LogQuery {
    pub time_start: Option<u64>,
    pub time_limit: Option<u64>,
    pub limit: Option<u64>,
}

/// A sample as the log store keeps it: the session clock in milliseconds and
/// the value as text.
#[derive(Clone, Debug, PartialEq, Eq)]
pub struct Measurement {
    pub time: u64,
    pub data: String,
}

/// The time lies within the bounds of the query, both included.
pub open spec fn in_window(time: u64, query: LogQuery) -> bool {
    &&& query.time_start matches Some(start) ==> time <= start
    &&& query.time_limit matches Some(limit) ==> limit <= time
}

/// `at` is the position of the newest sample of `samples` within the bounds
/// of the query; of several of the same time, the first.
pub open spec fn is_newest(samples: Seq<Measurement>, query: LogQuery, at: int) -> bool {
    &&& 0 <= at < samples.len()
    &&& in_window(samples[at].time, query)
    &&& forall|j: int|
        0 <= j < samples.len() && in_window((#[trigger] samples[j]).time, query) ==> samples[j].time
            <= samples[at].time
    &&& forall|j: int|
        0 <= j < at && in_window((#[trigger] samples[j]).time, query) ==> samples[j].time
            < samples[at].time
}

/// The positions of the samples of `samples` within the bounds of the
/// query, in order.
pub open spec fn positions_in_window(samples: Seq<Measurement>, query: LogQuery) -> Seq<usize>
    decreases samples.len(),
{
    if samples.len() == 0 {
        Seq::empty()
    } else if in_window(samples.last().time, query) {
        positions_in_window(samples.drop_last(), query).push((samples.len() - 1) as usize)
    } else {
        positions_in_window(samples.drop_last(), query)
    }
}

/// Whether the time lies within the bounds of the query.
pub fn is_in_window(time: u64, query: &LogQuery) -> (r: bool)
    ensures
        r == in_window(time, *query),
{
    let early_enough = match query.time_start {
        Some(start) => time <= start,
        None => true,
    };
    let late_enough = match query.time_limit {
        Some(limit) => limit <= time,
        None => true,
    };
    early_enough && late_enough
}

/// The position of the newest sample within the bounds of the query, in
/// whatever order the log store handed the samples over.
pub fn newest_sample(samples: &Vec<Measurement>, query: &LogQuery) -> (r: Option<usize>)
    ensures
        match r {
            Some(at) => is_newest(samples@, *query, at as int),
            None => forall|j: int|
                0 <= j < samples.len() ==> !in_window((#[trigger] samples@[j]).time, *query),
        },
{
    let mut best: Option<usize> = None;
    let mut i: usize = 0;
    while i < samples.len()
        invariant
            i <= samples.len(),
            match best {
                Some(at) => {
                    &&& at < i
                    &&& in_window(samples@[at as int].time, *query)
                    &&& forall|j: int|
                        0 <= j < i && in_window((#[trigger] samples@[j]).time, *query)
                            ==> samples@[j].time <= samples@[at as int].time
                    &&& forall|j: int|
                        0 <= j < at && in_window((#[trigger] samples@[j]).time, *query)
                            ==> samples@[j].time < samples@[at as int].time
                },
                None => forall|j: int|
                    0 <= j < i ==> !in_window((#[trigger] samples@[j]).time, *query),
            },
        decreases samples.len() - i,
    {
        if is_in_window(samples[i].time, query) {
            let newer = match best {
                Some(at) => samples[at].time < samples[i].time,
                None => true,
            };
            if newer {
                best = Some(i);
            }
        }
        i = i + 1;
    }
    best
}

/// The positions of the samples within the bounds of the query, in the
/// order in which the log store handed the samples over.
pub fn samples_in_window(samples: &Vec<Measurement>, query: &LogQuery) -> (r: Vec<usize>)
    ensures
        r@ == positions_in_window(samples@, *query),
{
    let mut found: Vec<usize> = Vec::new();
    let mut i: usize = 0;
    while i < samples.len()
        invariant
            i <= samples.len(),
            found@ == positions_in_window(samples@.take(i as int), *query),
        decreases samples.len() - i,
    {
        proof {
            assert(samples@.take(i + 1).drop_last() == samples@.take(i as int));
        }
        if is_in_window(samples[i].time, query) {
            found.push(i);
        }
        i = i + 1;
    }
    assert(samples@.take(samples.len() as int) == samples@);
    found
}

/// How far back the newest sample of a variable is looked for, in
/// milliseconds.
pub const NEWEST_WINDOW_MS: u64 = 500;

/// What a `ProbeInterface` stands for.
pub struct EngineState {
    pub setting: WatchSettingSpec,
    pub watching: bool,
    /// The length of a poll cycle, in microseconds.
    pub interval: u64,
    pub phase: CyclePhase,
    pub queue: Seq<PendingSpec>,
    pub flash: FlashState,
}

/// The state of an engine that has not been used.
pub open spec fn engine_idle() -> EngineState {
    EngineState {
        setting: WatchSettingSpec {
            target_mcu: Seq::empty(),
            probe_sn: Seq::empty(),
            watch_list: Seq::empty(),
        },
        watching: false,
        interval: 0,
        phase: CyclePhase::Boundary,
        queue: Seq::empty(),
        flash: flash_idle(),
    }
}

/// The time left to sleep in a cycle of `interval` that has taken `spent`:
/// never less than none.
pub open spec fn remaining(interval: u64, spent: u64) -> u64 {
    if spent >= interval {
        0
    } else {
        (interval - spent) as u64
    }
}

/// The state after the poll loop has asked what to do, and the answer,
/// `spent` being the time since the cycle began.
///
/// Between two cycles the loop stops if the session has been stopped, and
/// samples otherwise. After sampling it gets all pending writes at once,
/// which leaves the queue empty. After the writes it sleeps for what is left
/// of the interval.
pub open spec fn cycle_step(s: EngineState, spent: u64) -> (EngineState, CycleStepSpec) {
    match s.phase {
        CyclePhase::Boundary => if s.watching {
            (EngineState { phase: CyclePhase::Sampled, ..s }, CycleStepSpec::Sample)
        } else {
            (s, CycleStepSpec::Stop)
        },
        CyclePhase::Sampled => (
            EngineState { phase: CyclePhase::Applied, queue: Seq::empty(), ..s },
            CycleStepSpec::Apply(s.queue),
        ),
        CyclePhase::Applied => (
            EngineState { phase: CyclePhase::Boundary, ..s },
            CycleStepSpec::Sleep(remaining(s.interval, spent)),
        ),
    }
}

/// The state after a request to start watching with a cycle of `interval`
/// microseconds. An engine that is watching stays as it is.
pub open spec fn watch_started(s: EngineState, interval: u64) -> EngineState {
    if s.watching {
        s
    } else {
        EngineState { watching: true, interval, phase: CyclePhase::Boundary, ..s }
    }
}

/// The state after a request to flash. An engine that is watching stays as
/// it is; otherwise the pipeline starts afresh.
pub open spec fn flash_requested(s: EngineState) -> EngineState {
    if s.watching {
        s
    } else {
        EngineState { flash: flash_started(), ..s }
    }
}

/// A cycle never stops in its middle: once it has sampled, the writes are
/// handed out and the sleep is granted whether or not the session has been
/// stopped meanwhile, and the reads of a cycle come before its writes.
pub proof fn lemma_cycle_order(s: EngineState, a: u64, b: u64, c: u64)
    requires
        s.phase == CyclePhase::Boundary,
        s.watching,
    ensures
        ({
            let (s1, first) = cycle_step(s, a);
            let (s2, second) = cycle_step(EngineState { watching: false, ..s1 }, b);
            let (s3, third) = cycle_step(s2, c);
            let (s4, fourth) = cycle_step(s3, c);
            &&& first is Sample
            &&& second == CycleStepSpec::Apply(s.queue)
            &&& third == CycleStepSpec::Sleep(remaining(s.interval, c))
            &&& fourth is Stop
            &&& s2.queue.len() == 0
        }),
{
}

/// An engine with its watch flag, its queue of pending writes and its flash
/// progress.
pub struct ProbeInterface {
    pub setting: WatchSetting,
    watching_flag: bool,
    interval: u64,
    phase: CyclePhase,
    write_que: Vec<PendingWrite>,
    flash_progress: Progress,
    page_total: u64,
    sector_total: u64,
}

impl View for ProbeInterface {
    type V = EngineState;

    closed spec fn view(&self) -> EngineState {
        EngineState {
            setting: self.setting@,
            watching: self.watching_flag,
            interval: self.interval,
            phase: self.phase,
            queue: queue_view(self.write_que@),
            flash: FlashState {
                progress: self.flash_progress,
                page_total: self.page_total,
                sector_total: self.sector_total,
            },
        }
    }
}

impl ProbeInterface {
    /// The engine is in a state that `new` and its methods lead to.
    pub open spec fn wf(&self) -> bool {
        &&& distinct_keys(self@.queue)
        &&& flash_consistent(self@.flash)
    }

    /// An idle engine with an empty setting.
    pub fn new() -> (r: ProbeInterface)
        ensures
            r.wf(),
            r@ == engine_idle(),
    {
        let r = ProbeInterface {
            setting: WatchSetting {
                target_mcu: String::new(),
                probe_sn: String::new(),
                watch_list: Vec::new(),
            },
            watching_flag: false,
            interval: 0,
            phase: CyclePhase::Boundary,
            write_que: Vec::new(),
            flash_progress: Progress { state: FlashProgressState::Idle, done: 0, total: 0 },
            page_total: 0,
            sector_total: 0,
        };
        assert(queue_view(r.write_que@) =~= Seq::<PendingSpec>::empty());
        assert(catalog_view(r.setting.watch_list@) =~= Seq::<VariableSpec>::empty());
        r
    }

    /// Sets the chip, the probe and the variables of the sessions to come.
    pub fn set_probe(&mut self, setting: WatchSetting)
        ensures
            final(self)@ == (EngineState { setting: setting@, ..old(self)@ }),
    {
        self.setting = setting;
    }

    /// Starts a watch session with a poll cycle of `interval` microseconds
    /// and hands out the setting that the session is to use. Nothing
    /// happens, and nothing is handed out, while a session is active.
    pub fn watching_start(&mut self, interval: u64) -> (r: Option<WatchSetting>)
        ensures
            final(self)@ == watch_started(old(self)@, interval),
            old(self)@.watching ==> r is None && final(self)@ == old(self)@,
            !old(self)@.watching ==> (r matches Some(snapshot) && snapshot@ == old(self)@.setting),
    {
        if self.watching_flag {
            return None;
        }
        self.watching_flag = true;
        self.interval = interval;
        self.phase = CyclePhase::Boundary;
        Some(self.setting.duplicate())
    }

    /// Asks the watch session to end. The poll loop learns of it between
    /// two cycles.
    pub fn watching_stop(&mut self)
        ensures
            final(self)@ == (EngineState { watching: false, ..old(self)@ }),
    {
        self.watching_flag = false;
    }

    /// Whether a watch session is active.
    pub fn now_watching(&self) -> (r: bool)
        ensures
            r == self@.watching,
    {
        self.watching_flag
    }

    /// Asks for `symbol` to be set to the value written in `data` in the
    /// next poll cycle. A later request for the same variable replaces an
    /// earlier one that is still waiting.
    pub fn insert_wirte_que(&mut self, symbol: &VariableInfo, data: &str)
        requires
            old(self).wf(),
        ensures
            final(self).wf(),
            final(self)@ == (EngineState {
                queue: enqueued(old(self)@.queue, symbol@, data@),
                ..old(self)@
            }),
    {
        let ghost before = queue_view(self.write_que@);
        proof {
            lemma_enqueued(before, symbol@, data@);
        }
        let entry = PendingWrite { symbol: symbol.duplicate(), data: data.to_owned() };
        let at = find_pending(&self.write_que, symbol);
        if at < self.write_que.len() {
            self.write_que.set(at, entry);
            assert(queue_view(self.write_que@) =~= before.update(at as int, entry@));
        } else {
            self.write_que.push(entry);
            assert(queue_view(self.write_que@) =~= before.push(entry@));
        }
    }

    /// Tells the poll loop what to do next, `spent` being the microseconds
    /// since the current cycle began.
    pub fn next_step(&mut self, spent: u64) -> (r: CycleStep)
        requires
            old(self).wf(),
        ensures
            final(self).wf(),
            (final(self)@, r@) == cycle_step(old(self)@, spent),
    {
        match self.phase {
            CyclePhase::Boundary => {
                if self.watching_flag {
                    self.phase = CyclePhase::Sampled;
                    CycleStep::Sample
                } else {
                    CycleStep::Stop
                }
            },
            CyclePhase::Sampled => {
                let mut writes: Vec<PendingWrite> = Vec::new();
                std::mem::swap(&mut writes, &mut self.write_que);
                self.phase = CyclePhase::Applied;
                assert(queue_view(self.write_que@) =~= Seq::<PendingSpec>::empty());
                CycleStep::Apply(writes)
            },
            CyclePhase::Applied => {
                self.phase = CyclePhase::Boundary;
                CycleStep::Sleep(
                    if spent >= self.interval {
                        0
                    } else {
                        self.interval - spent
                    },
                )
            },
        }
    }

    /// Starts a download and hands out the setting that it is to use. While
    /// a watch session is active the request is refused and nothing changes.
    pub fn flash(&mut self) -> (r: Result<WatchSetting, ProbeError>)
        requires
            old(self).wf(),
        ensures
            final(self).wf(),
            final(self)@ == flash_requested(old(self)@),
            old(self)@.watching ==> r == Err::<WatchSetting, ProbeError>(ProbeError::ProbeBusy)
                && final(self)@ == old(self)@,
            !old(self)@.watching ==> (r matches Ok(snapshot) && snapshot@ == old(self)@.setting),
    {
        if self.watching_flag {
            return Err(ProbeError::ProbeBusy);
        }
        self.flash_progress = Progress { state: FlashProgressState::Erasing, done: 0, total: 0 };
        self.page_total = 0;
        self.sector_total = 0;
        Ok(self.setting.duplicate())
    }

    /// Takes in what the download reports.
    pub fn on_flash_event(&mut self, event: &FlashEvent)
        requires
            old(self).wf(),
        ensures
            final(self).wf(),
            final(self)@ == (EngineState {
                flash: flash_step(old(self)@.flash, event@),
                ..old(self)@
            }),
    {
        let state = self.flash_progress.state;
        if state == FlashProgressState::Finished || state == FlashProgressState::Failed {
            return;
        }
        match event {
            FlashEvent::Initialized { pages, sectors } => {
                self.page_total = sum_sizes(pages);
                self.sector_total = sum_sizes(sectors);
            },
            FlashEvent::FailedFilling
            | FlashEvent::FailedErasing
            | FlashEvent::FailedProgramming
            | FlashEvent::Aborted => {
                self.flash_progress.state = FlashProgressState::Failed;
            },
            FlashEvent::StartedErasing => {
                if state != FlashProgressState::Programing {
                    self.flash_progress = Progress {
                        state: FlashProgressState::Erasing,
                        done: 0,
                        total: self.sector_total,
                    };
                }
            },
            FlashEvent::SectorErased { size } => {
                if state == FlashProgressState::Erasing {
                    self.flash_progress.done = Self::count(self.flash_progress, *size);
                }
            },
            FlashEvent::StartedProgramming => {
                self.flash_progress = Progress {
                    state: FlashProgressState::Programing,
                    done: 0,
                    total: self.page_total,
                };
            },
            FlashEvent::PageProgrammed { size } => {
                if state == FlashProgressState::Programing {
                    self.flash_progress.done = Self::count(self.flash_progress, *size);
                }
            },
            FlashEvent::FinishedProgramming => {
                if state == FlashProgressState::Programing {
                    self.flash_progress.state = FlashProgressState::Finished;
                }
            },
            _ => {},
        }
    }

    /// The bytes done after `size` more, up to the total of the phase.
    fn count(progress: Progress, size: u64) -> (r: u64)
        requires
            progress.done <= progress.total,
        ensures
            r == capped(progress.done + size, progress.total),
    {
        if size >= progress.total - progress.done {
            progress.total
        } else {
            progress.done + size
        }
    }

    /// The progress of the download.
    pub fn get_flash_progress(&self) -> (r: Progress)
        ensures
            r == self@.flash.progress,
    {
        self.flash_progress
    }

    /// Which samples hold the newest value of a variable, `now` being the
    /// session clock in milliseconds: those of the half second before now.
    pub fn get_newest_date(now: u64) -> (r: LogQuery)
        ensures
            r == (LogQuery {
                time_start: Some(now),
                time_limit: Some(remaining(now, NEWEST_WINDOW_MS)),
                limit: None,
            }),
    {
        LogQuery {
            time_start: Some(now),
            time_limit: Some(now.saturating_sub(NEWEST_WINDOW_MS)),
            limit: None,
        }
    }

    /// Which samples make up the series of a variable, `now` being the
    /// session clock in milliseconds: those of the last `time_window`
    /// milliseconds, or all of the session where no window is given.
    pub fn get_log_vec(now: u64, time_window: Option<u64>) -> (r: LogQuery)
        ensures
            r == (LogQuery {
                time_start: Some(now),
                time_limit: match time_window {
                    Some(window) => Some(remaining(now, window)),
                    None => None,
                },
                limit: None,
            }),
    {
        LogQuery {
            time_start: Some(now),
            time_limit: match time_window {
                Some(window) => Some(now.saturating_sub(window)),
                None => None,
            },
            limit: None,
        }
    }
}

} // verus!
