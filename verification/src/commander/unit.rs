//! The commander unit: what the periodic control loop decides.
//!
//! The loop itself sleeps, searches and sends from outside. On each tick it
//! asks the unit what to do, performs the search that the unit plans, and
//! hands the outcome back.

use vstd::prelude::*;
use super::decision_engine::{Action, Decision, DecisionEngine};
use super::sync::{
    spec_after_batch, spec_batch_result, spec_health_url, CkcSync, SyncError, SyncResult,
    SyncStats, SyncStep, SyncView,
};
use super::task_scheduler::{
    spec_cache_all, spec_count_pending, spec_count_priority, spec_count_running, spec_enqueue,
    spec_outcome_findings, spec_outcome_signal, spec_started,
    QueueStatus, ResearchTask, SchedulerView, SearchOutcome, SearchRequest, TaskPriority,
    TaskScheduler,
};
use super::{CommanderConfig, CommanderStatus, ResearchFinding, SyncStatus};
use crate::platform::{fresh_id, now_timestamp};
use crate::sequence::spec_position;

verus! {

/// Why an operation of the commander failed.
#[derive(Debug, PartialEq)]
pub enum CommanderError {
    NotRunning,
    ConfigError(String),
    SyncError(String),
    TaskError(String),
}

impl CommanderError {
    /// The error as a sentence for the user.
    pub open spec fn spec_message(self) -> Seq<char> {
        match self {
            CommanderError::NotRunning => "Commander is not running"@,
            CommanderError::ConfigError(m) => "Configuration error: "@ + m@,
            CommanderError::SyncError(m) => "Sync error: "@ + m@,
            CommanderError::TaskError(m) => "Task error: "@ + m@,
        }
    }

    /// The error as a sentence for the user.
    pub fn message(&self) -> (r: String)
        ensures
            r@ == self.spec_message(),
    {
        match self {
            CommanderError::NotRunning => String::from_str("Commander is not running"),
            CommanderError::ConfigError(m) => {
                let mut r = String::from_str("Configuration error: ");
                r.append(m.as_str());
                r
            },
            CommanderError::SyncError(m) => {
                let mut r = String::from_str("Sync error: ");
                r.append(m.as_str());
                r
            },
            CommanderError::TaskError(m) => {
                let mut r = String::from_str("Task error: ");
                r.append(m.as_str());
                r
            },
        }
    }
}

/// How loudly a decision is reported.
#[derive(Debug, Clone, Copy, PartialEq, Eq, Structural)]
pub enum NoticeLevel {
    Debug,
    Info,
    Warn,
}

/// The report of a decision.
#[derive(Debug, PartialEq)]
pub struct Notice {
    pub level: NoticeLevel,
    pub message: String,
}

/// What the loop has to do on a tick.
#[derive(Debug, PartialEq)]
pub enum TickAction {
    /// Nothing is pending.
    Idle,
    /// A search is due for the task; its outcome completes the tick.
    Search { task: ResearchTask, request: SearchRequest },
}

/// What a forced synchronization needs next.
#[derive(Debug, PartialEq)]
pub enum ForceSyncStep {
    /// The service has to be probed at this address.
    Probe { url: String },
    /// The synchronization is over.
    Done(Result<(), CommanderError>),
}

/// The commander unit: owner of the scheduler, the decision engine and the
/// synchronization manager.
#[derive(Debug)]
pub struct CommanderUnit {
    config: CommanderConfig,
    status: CommanderStatus,
    decision_engine: DecisionEngine,
    task_scheduler: TaskScheduler,
    ckc_sync: CkcSync,
    started_at: Option<i64>,
}

/// The model of a `CommanderUnit`.
pub struct UnitView {
    pub config: CommanderConfig,
    pub status: CommanderStatus,
    pub scheduler: SchedulerView,
    pub sync: SyncView,
    /// When the control loop was started, in seconds since the Unix epoch.
    pub started_at: Option<i64>,
}

impl View for CommanderUnit {
    type V = UnitView;

    closed spec fn view(&self) -> UnitView {
        UnitView {
            config: self.config,
            status: self.status,
            scheduler: self.task_scheduler@,
            sync: self.ckc_sync@,
            started_at: self.started_at,
        }
    }
}

/// The seconds from `start` to `now`, as the status shows them: taken modulo
/// two to the 64th.
pub open spec fn spec_uptime(start: i64, now: i64) -> u64 {
    ((now - start) % 0x1_0000_0000_0000_0000) as u64
}

/// A counter one higher, unless it is at its maximum.
pub open spec fn spec_bump(counter: u64) -> u64 {
    if counter < u64::MAX {
        (counter + 1) as u64
    } else {
        counter
    }
}

/// The status after a tick at `now`, with the connectivity refreshed and,
/// where the tick made a decision, the decision counted.
pub open spec fn spec_ticked(before: UnitView, now: i64, decided: bool) -> CommanderStatus {
    CommanderStatus {
        last_decision_at: if decided {
            Some(now)
        } else {
            before.status.last_decision_at
        },
        tasks_completed: if decided {
            spec_bump(before.status.tasks_completed)
        } else {
            before.status.tasks_completed
        },
        sync_status: before.sync.status,
        ..before.status
    }
}

/// How a decision is reported: deep analyses and reviews at information
/// level, alerts as warnings with their rationale, archives at debug level,
/// and the other actions not at all.
pub open spec fn spec_notice(action: Action, rationale: Seq<char>) -> Option<
    (NoticeLevel, Seq<char>),
> {
    match action {
        Action::DeepAnalyze => Some((NoticeLevel::Info, "Deep analysis triggered"@)),
        Action::QueueForReview => Some((NoticeLevel::Info, "Queued for human review"@)),
        Action::ImmediateAlert => Some((NoticeLevel::Warn, "Immediate alert: "@ + rationale)),
        Action::Archive => Some((NoticeLevel::Debug, "Archived finding"@)),
        _ => None,
    }
}

/// The unit after it was started at the time `now`: running since then
/// where it is enabled, and as it was where it is not. Queue, cache and
/// synchronization are left alone.
pub open spec fn spec_unit_started(before: UnitView, now: i64) -> UnitView {
    if before.config.enabled {
        UnitView {
            status: CommanderStatus { is_running: true, ..before.status },
            started_at: Some(now),
            ..before
        }
    } else {
        before
    }
}

/// What the first half of a tick at the time `now` does. A unit that was
/// never started does nothing. Else the uptime is refreshed; the first
/// pending task, if there is one, leaves the queue as running and comes back
/// with the search that it asks for; without one, the connectivity is
/// refreshed and the tick is over.
pub open spec fn spec_tick_begun(
    before: UnitView,
    after: UnitView,
    action: TickAction,
    now: i64,
) -> bool {
    match before.started_at {
        None => action is Idle && after == before,
        Some(start) => match spec_position(
            before.scheduler.queue,
            |t: ResearchTask| t.status is Pending,
        ) {
            Some(at) => {
                &&& action matches TickAction::Search { task, request }
                &&& task == spec_started(before.scheduler.queue[at], now)
                &&& request.is_plan_for(task)
                &&& after == (UnitView {
                    status: CommanderStatus {
                        uptime_seconds: spec_uptime(start, now),
                        ..before.status
                    },
                    scheduler: SchedulerView {
                        queue: before.scheduler.queue.remove(at),
                        ..before.scheduler
                    },
                    ..before
                })
            },
            None => {
                &&& action is Idle
                &&& after == (UnitView {
                    status: CommanderStatus {
                        uptime_seconds: spec_uptime(start, now),
                        sync_status: before.sync.status,
                        ..before.status
                    },
                    ..before
                })
            },
        },
    }
}

/// What the second half of a tick at the time `now` does with the outcome
/// of a search: the findings go to the cache; where the first of them gives
/// a signal, the decision on it is returned, stamped with `now`, and
/// counted; and the connectivity is refreshed.
pub open spec fn spec_tick_completed(
    before: UnitView,
    after: UnitView,
    outcome: SearchOutcome,
    decision: Option<Decision>,
    now: i64,
) -> bool {
    &&& match spec_outcome_signal(outcome) {
        Some(signal) => {
            &&& decision matches Some(made)
            &&& made.follows_from(signal)
            &&& made.timestamp == now
        },
        None => decision is None,
    }
    &&& after == (UnitView {
        status: spec_ticked(before, now, spec_outcome_signal(outcome) is Some),
        scheduler: SchedulerView {
            findings: spec_cache_all(
                before.scheduler.findings,
                spec_outcome_findings(outcome),
                before.scheduler.max_findings_cache,
            ),
            ..before.scheduler
        },
        ..before
    })
}

/// What a forced synchronization does to the synchronization manager and
/// what it needs next: a disconnected manager begins to connect and asks
/// for a probe; any other sends one batch at the time `now`.
pub open spec fn spec_sync_forced(
    before: SyncView,
    after: SyncView,
    step: ForceSyncStep,
    now: i64,
) -> bool {
    if before.status is Disconnected {
        &&& step matches ForceSyncStep::Probe { url }
        &&& url@ == spec_health_url(before.config.ckc_url@)
        &&& after == (SyncView { status: SyncStatus::Syncing, ..before })
    } else {
        &&& step == ForceSyncStep::Done(Ok(()))
        &&& after == spec_after_batch(before, now)
    }
}

/// What a forced synchronization does after its probe: a service in reach
/// gets one batch at the time `now`; one out of reach fails it.
pub open spec fn spec_sync_resumed(
    before: SyncView,
    after: SyncView,
    reachable: bool,
    result: Result<(), CommanderError>,
    now: i64,
) -> bool {
    if reachable {
        &&& result is Ok
        &&& after == spec_after_batch(SyncView { status: SyncStatus::Connected, ..before }, now)
    } else {
        &&& result matches Err(CommanderError::SyncError(m))
        &&& m@ == "Connection failed"@
        &&& after == (SyncView { status: SyncStatus::Disconnected, ..before })
    }
}

impl CommanderUnit {
    /// A stopped unit with the settings given, an empty scheduler and a
    /// disconnected synchronization manager.
    pub fn new(config: CommanderConfig) -> (r: Self)
        ensures
            r@.config == config,
            r@.status == CommanderStatus::spec_default(),
            r@.scheduler.wf(),
            r@.scheduler.queue == Seq::<ResearchTask>::empty(),
            r@.scheduler.findings == Seq::<ResearchFinding>::empty(),
            r@.sync.status is Disconnected,
            r@.sync.queue.len() == 0,
            r@.started_at is None,
    {
        CommanderUnit {
            config,
            status: CommanderStatus::default(),
            decision_engine: DecisionEngine::new(),
            task_scheduler: TaskScheduler::new(),
            ckc_sync: CkcSync::new(),
            started_at: None,
        }
    }

    /// Starts the unit at the time `now`, unless it is disabled. Tells
    /// whether the control loop is to be run.
    pub fn start_at(&mut self, now: i64) -> (r: bool)
        ensures
            r == old(self)@.config.enabled,
            final(self)@ == spec_unit_started(old(self)@, now),
    {
        if !self.config.enabled {
            return false;
        }
        self.status.is_running = true;
        self.started_at = Some(now);
        true
    }

    /// Starts the unit now, unless it is disabled. Tells whether the control
    /// loop is to be run.
    pub fn start(&mut self) -> (r: bool)
        ensures
            r == old(self)@.config.enabled,
            exists|now: i64| final(self)@ == #[trigger] spec_unit_started(old(self)@, now),
    {
        let now = now_timestamp();
        let r = self.start_at(now);
        assert(self@ == spec_unit_started(old(self)@, now));
        r
    }

    /// Stops the unit. Tells whether a control loop may be running that has
    /// to be told; a tick in flight is left to finish.
    pub fn stop(&mut self) -> (r: bool)
        ensures
            r == old(self)@.started_at is Some,
            final(self)@ == (UnitView {
                status: CommanderStatus { is_running: false, ..old(self)@.status },
                started_at: None,
                ..old(self)@
            }),
    {
        let notify = self.started_at.is_some();
        self.started_at = None;
        self.status.is_running = false;
        notify
    }

    /// The first half of a tick at the time `now`: refreshes the uptime and
    /// takes the next pending task off the queue. With a task, the search to
    /// perform is returned; without one, the tick ends here with the
    /// connectivity refreshed. A unit that was never started does nothing.
    pub fn begin_tick_at(&mut self, now: i64) -> (r: TickAction)
        ensures
            spec_tick_begun(old(self)@, final(self)@, r, now),
            old(self)@.scheduler.wf() ==> final(self)@.scheduler.wf(),
    {
        let start = match self.started_at {
            Some(start) => start,
            None => {
                return TickAction::Idle;
            },
        };
        self.status.uptime_seconds = uptime(start, now);
        match self.task_scheduler.get_next_task_at(now) {
            Some(task) => {
                let request = self.task_scheduler.plan_task(&task);
                TickAction::Search { task, request }
            },
            None => {
                self.status.sync_status = self.ckc_sync.get_status();
                TickAction::Idle
            },
        }
    }

    /// The first half of a tick, at the current time.
    pub fn begin_tick(&mut self) -> (r: TickAction)
        ensures
            exists|now: i64| #[trigger] spec_tick_begun(old(self)@, final(self)@, r, now),
            old(self)@.scheduler.wf() ==> final(self)@.scheduler.wf(),
    {
        let now = now_timestamp();
        let ghost before = self@;
        let r = self.begin_tick_at(now);
        assert(spec_tick_begun(before, self@, r, now));
        r
    }

    /// The second half of a tick at the time `now`: takes in how the search
    /// for `task` ended. The findings go to the cache; the first of them
    /// becomes a signal and the signal a decision, which is counted and
    /// returned under the identifier given. A search that failed or found
    /// nothing is counted as nothing. Either way the connectivity is
    /// refreshed.
    pub fn complete_tick_at(
        &mut self,
        task: &ResearchTask,
        outcome: SearchOutcome,
        decision_id: String,
        now: i64,
    ) -> (r: Option<Decision>)
        ensures
            spec_tick_completed(old(self)@, final(self)@, outcome, r, now),
            r matches Some(decision) ==> decision.id == decision_id,
            old(self)@.scheduler.wf() ==> final(self)@.scheduler.wf(),
    {
        let signal = self.task_scheduler.execute_task(task, outcome);
        let decision = match signal {
            Some(signal) => {
                let decision = self.decision_engine.decide(signal, decision_id, now);
                self.status.last_decision_at = Some(now);
                if self.status.tasks_completed < u64::MAX {
                    self.status.tasks_completed = self.status.tasks_completed + 1;
                }
                Some(decision)
            },
            None => None,
        };
        self.status.sync_status = self.ckc_sync.get_status();
        decision
    }

    /// The second half of a tick, at the current time and with a new
    /// identifier for the decision.
    pub fn complete_tick(&mut self, task: &ResearchTask, outcome: SearchOutcome) -> (r: Option<
        Decision,
    >)
        ensures
            exists|now: i64|
                #[trigger] spec_tick_completed(old(self)@, final(self)@, outcome, r, now),
            old(self)@.scheduler.wf() ==> final(self)@.scheduler.wf(),
    {
        let id = fresh_id();
        let now = now_timestamp();
        let ghost before = self@;
        let r = self.complete_tick_at(task, outcome, id, now);
        assert(spec_tick_completed(before, self@, outcome, r, now));
        r
    }

    /// How `decision` is to be reported, if at all.
    pub fn notice_for(decision: &Decision) -> (r: Option<Notice>)
        ensures
            match spec_notice(decision.action, decision.rationale@) {
                Some((level, message)) => r matches Some(notice) && notice.level == level
                    && notice.message@ == message,
                None => r is None,
            },
    {
        match decision.action {
            Action::DeepAnalyze => Some(
                Notice {
                    level: NoticeLevel::Info,
                    message: String::from_str("Deep analysis triggered"),
                },
            ),
            Action::QueueForReview => Some(
                Notice {
                    level: NoticeLevel::Info,
                    message: String::from_str("Queued for human review"),
                },
            ),
            Action::ImmediateAlert => {
                let mut message = String::from_str("Immediate alert: ");
                message.append(decision.rationale.as_str());
                Some(Notice { level: NoticeLevel::Warn, message })
            },
            Action::Archive => Some(
                Notice { level: NoticeLevel::Debug, message: String::from_str("Archived finding") },
            ),
            _ => None,
        }
    }

    /// A copy of the status.
    pub fn get_status(&self) -> (r: CommanderStatus)
        ensures
            r == self@.status,
    {
        self.status.clone()
    }

    /// Replaces the settings.
    pub fn update_config(&mut self, new_config: CommanderConfig)
        ensures
            final(self)@ == (UnitView { config: new_config, ..old(self)@ }),
    {
        self.config = new_config;
    }

    /// Queues `task` and counts it as pending.
    pub fn add_task(&mut self, task: ResearchTask)
        ensures
            final(self)@ == (UnitView {
                status: CommanderStatus {
                    tasks_pending: spec_bump(old(self)@.status.tasks_pending),
                    ..old(self)@.status
                },
                scheduler: SchedulerView {
                    queue: spec_enqueue(
                        old(self)@.scheduler.queue,
                        task,
                        old(self)@.scheduler.max_queue_size,
                    ),
                    ..old(self)@.scheduler
                },
                ..old(self)@
            }),
            old(self)@.scheduler.wf() ==> final(self)@.scheduler.wf(),
    {
        self.task_scheduler.add_task(task);
        if self.status.tasks_pending < u64::MAX {
            self.status.tasks_pending = self.status.tasks_pending + 1;
        }
    }

    /// Queues a new task on `topic` and counts it as pending.
    pub fn add_research_task(&mut self, topic: String, priority: TaskPriority)
        ensures
            exists|task: ResearchTask|
                {
                    &&& #[trigger] task.is_fresh(topic, priority)
                    &&& final(self)@ == (UnitView {
                        status: CommanderStatus {
                            tasks_pending: spec_bump(old(self)@.status.tasks_pending),
                            ..old(self)@.status
                        },
                        scheduler: SchedulerView {
                            queue: spec_enqueue(
                                old(self)@.scheduler.queue,
                                task,
                                old(self)@.scheduler.max_queue_size,
                            ),
                            ..old(self)@.scheduler
                        },
                        ..old(self)@
                    })
                },
            old(self)@.scheduler.wf() ==> final(self)@.scheduler.wf(),
    {
        let task = ResearchTask::new(topic, priority);
        assert(task.is_fresh(topic, priority));
        self.add_task(task);
    }

    /// Copies of the most recent findings, at most `limit` of them.
    pub fn get_recent_findings(&self, limit: usize) -> (r: Vec<ResearchFinding>)
        ensures
            r.deep_view() == self@.scheduler.findings.map_values(
                |f: ResearchFinding| f.deep_view(),
            ).take(
                if limit < self@.scheduler.findings.len() {
                    limit as int
                } else {
                    self@.scheduler.findings.len() as int
                },
            ),
    {
        self.task_scheduler.get_recent_findings(limit)
    }

    /// Synchronizes now: one batch where the service is not known to be out
    /// of reach, else a probe first.
    pub fn force_sync(&mut self) -> (r: ForceSyncStep)
        ensures
            exists|now: i64|
                #[trigger] spec_sync_forced(old(self)@.sync, final(self)@.sync, r, now),
            final(self)@ == (UnitView { sync: final(self)@.sync, ..old(self)@ }),
    {
        let ghost before = self.ckc_sync@;
        let step = self.ckc_sync.sync_now();
        let r = match step {
            SyncStep::Probe { url } => ForceSyncStep::Probe { url },
            SyncStep::Done(result) => ForceSyncStep::Done(sync_outcome(result.is_ok(), result)),
        };
        proof {
            if before.status is Disconnected {
                assert(spec_sync_forced(before, self.ckc_sync@, r, 0));
            } else {
                let now = choose|now: i64|
                    step == SyncStep::Done(Ok(#[trigger] spec_batch_result(before, now)))
                        && self.ckc_sync@ == spec_after_batch(before, now);
                assert(spec_sync_forced(before, self.ckc_sync@, r, now));
            }
        }
        r
    }

    /// Goes on with a forced synchronization after the probe.
    pub fn resume_force_sync(&mut self, reachable: bool) -> (r: Result<(), CommanderError>)
        ensures
            exists|now: i64|
                #[trigger] spec_sync_resumed(
                    old(self)@.sync,
                    final(self)@.sync,
                    reachable,
                    r,
                    now,
                ),
            final(self)@ == (UnitView { sync: final(self)@.sync, ..old(self)@ }),
    {
        let ghost before = self.ckc_sync@;
        let result = self.ckc_sync.resume_sync(reachable);
        let r = sync_outcome(result.is_ok(), result);
        proof {
            if reachable {
                let now = choose|now: i64|
                    result == Ok::<SyncResult, SyncError>(#[trigger] spec_batch_result(before, now))
                        && self.ckc_sync@ == spec_after_batch(
                        SyncView { status: SyncStatus::Connected, ..before },
                        now,
                    );
                assert(spec_sync_resumed(before, self.ckc_sync@, reachable, r, now));
            } else {
                assert(spec_sync_resumed(before, self.ckc_sync@, reachable, r, 0));
            }
        }
        r
    }

    /// A copy of the settings.
    pub fn get_config(&self) -> (r: CommanderConfig)
        ensures
            r.same_settings(self@.config),
    {
        self.config.clone()
    }

    /// Totals of the task queue.
    pub fn get_queue_status(&self) -> (r: QueueStatus)
        ensures
            r.total == self@.scheduler.queue.len(),
            r.pending == spec_count_pending(self@.scheduler.queue),
            r.running == spec_count_running(self@.scheduler.queue),
            r.by_priority.critical == spec_count_priority(
                self@.scheduler.queue,
                TaskPriority::Critical,
            ),
            r.by_priority.high == spec_count_priority(self@.scheduler.queue, TaskPriority::High),
            r.by_priority.normal == spec_count_priority(
                self@.scheduler.queue,
                TaskPriority::Normal,
            ),
            r.by_priority.low == spec_count_priority(self@.scheduler.queue, TaskPriority::Low),
            r.by_priority.background == spec_count_priority(
                self@.scheduler.queue,
                TaskPriority::Background,
            ),
    {
        self.task_scheduler.get_queue_status()
    }

    /// Where the synchronization stands.
    pub fn get_sync_stats(&self) -> (r: SyncStats)
        ensures
            r.status == self@.sync.status,
            r.queue_size == self@.sync.queue.len(),
            r.last_sync == self@.sync.last_sync,
    {
        self.ckc_sync.get_stats()
    }
}

impl CommanderStatus {
    /// The status of a unit that never ran.
    pub open spec fn spec_default() -> CommanderStatus {
        CommanderStatus {
            is_running: false,
            uptime_seconds: 0,
            tasks_completed: 0,
            tasks_pending: 0,
            last_decision_at: None,
            sync_status: SyncStatus::Disconnected,
            autonomy_level: super::AutonomyLevel::Supervised,
        }
    }
}

/// The seconds from `start` to `now`, modulo two to the 64th.
fn uptime(start: i64, now: i64) -> (r: u64)
    ensures
        r == spec_uptime(start, now),
{
    let elapsed: i128 = now as i128 - start as i128;
    if elapsed >= 0 {
        elapsed as u64
    } else {
        (elapsed + 0x1_0000_0000_0000_0000) as u64
    }
}

/// The outcome of a synchronization as the commander reports it.
fn sync_outcome<T>(ok: bool, result: Result<T, SyncError>) -> (r: Result<(), CommanderError>)
    requires
        ok == result is Ok,
    ensures
        result is Ok ==> r == Ok::<(), CommanderError>(()),
        result matches Err(e) ==> (r matches Err(CommanderError::SyncError(m)) && m@
            == e.spec_message()),
{
    match result {
        Ok(_) => Ok(()),
        Err(e) => Err(CommanderError::SyncError(e.message())),
    }
}

} // verus!
