//! The priority queue of research tasks and the cache of recent findings.

use vstd::prelude::*;
use std::collections::VecDeque;
use super::decision_engine::{Signal, SignalView};
use super::{FindingView, ResearchFinding, ResearchSource};
use crate::platform::{fresh_id, now_timestamp};
use crate::research::processors::SignalProcessor;
use crate::research::traits::{ResearchError, SearchOptions, SortOrder};
use crate::sequence::{
    is_first_at, lemma_position_found, lemma_position_meaning, lemma_position_missing,
    none_satisfies, spec_position,
};

verus! {

/// How urgent a task is. Later variants are more urgent.
#[derive(Debug, Clone, Copy, PartialEq, Eq, PartialOrd, Ord, Structural)]
pub enum TaskPriority {
    Background,
    Low,
    Normal,
    High,
    Critical,
}

impl TaskPriority {
    /// The priority as a number: 0 for `Background` up to 4 for `Critical`.
    pub open spec fn spec_rank(self) -> int {
        match self {
            TaskPriority::Background => 0,
            TaskPriority::Low => 1,
            TaskPriority::Normal => 2,
            TaskPriority::High => 3,
            TaskPriority::Critical => 4,
        }
    }

    /// The priority as a number: 0 for `Background` up to 4 for `Critical`.
    pub fn rank(&self) -> (r: u8)
        ensures
            r == self.spec_rank(),
    {
        match self {
            TaskPriority::Background => 0,
            TaskPriority::Low => 1,
            TaskPriority::Normal => 2,
            TaskPriority::High => 3,
            TaskPriority::Critical => 4,
        }
    }
}

/// Where a task stands.
#[derive(Debug, PartialEq)]
pub enum TaskStatus {
    Pending,
    Running,
    Completed,
    Failed(String),
    Cancelled,
}

/// A research task.
#[derive(Debug, PartialEq)]
pub struct ResearchTask {
    pub id: String,
    pub topic: String,
    pub priority: TaskPriority,
    pub status: TaskStatus,
    pub source: Option<ResearchSource>,
    /// Seconds since the Unix epoch.
    pub created_at: i64,
    pub started_at: Option<i64>,
    pub completed_at: Option<i64>,
    pub retry_count: u32,
    pub max_retries: u32,
}

impl ResearchTask {
    /// The task is new: pending, without a source, never started or retried.
    pub open spec fn is_fresh(&self, topic: String, priority: TaskPriority) -> bool {
        &&& self.topic == topic
        &&& self.priority == priority
        &&& self.status is Pending
        &&& self.source is None
        &&& self.started_at is None
        &&& self.completed_at is None
        &&& self.retry_count == 0
        &&& self.max_retries == 3
    }

    /// A pending task under the identifier and creation time given.
    pub fn created(id: String, topic: String, priority: TaskPriority, created_at: i64) -> (r: Self)
        ensures
            r.is_fresh(topic, priority),
            r.id == id,
            r.created_at == created_at,
    {
        ResearchTask {
            id,
            topic,
            priority,
            status: TaskStatus::Pending,
            source: None,
            created_at,
            started_at: None,
            completed_at: None,
            retry_count: 0,
            max_retries: 3,
        }
    }

    /// A pending task with a new identifier, created now.
    pub fn new(topic: String, priority: TaskPriority) -> (r: Self)
        ensures
            r.is_fresh(topic, priority),
    {
        let id = fresh_id();
        let created_at = now_timestamp();
        ResearchTask::created(id, topic, priority, created_at)
    }

    /// The same task, to be researched at `source`.
    pub fn with_source(self, source: ResearchSource) -> (r: Self)
        ensures
            r == (ResearchTask { source: Some(source), ..self }),
    {
        let mut task = self;
        task.source = Some(source);
        task
    }
}

/// The task as it is handed out: running since `now`.
pub open spec fn spec_started(task: ResearchTask, now: i64) -> ResearchTask {
    ResearchTask { status: TaskStatus::Running, started_at: Some(now), ..task }
}

/// The task after it was cancelled.
pub open spec fn spec_cancelled(task: ResearchTask) -> ResearchTask {
    ResearchTask { status: TaskStatus::Cancelled, ..task }
}

/// The index of the oldest task: the first of those that were created
/// earliest, whatever their priority.
pub open spec fn spec_oldest(queue: Seq<ResearchTask>) -> int
    decreases queue.len(),
{
    if queue.len() <= 1 {
        0
    } else {
        let front = spec_oldest(queue.drop_last());
        if queue.last().created_at < queue[front].created_at {
            queue.len() - 1
        } else {
            front
        }
    }
}

/// The queue with room for one more task: where it is full, the first
/// background task leaves, or the oldest task if there is none.
pub open spec fn spec_make_room(queue: Seq<ResearchTask>, capacity: usize) -> Seq<ResearchTask> {
    if queue.len() < capacity {
        queue
    } else {
        match spec_position(
            queue,
            |t: ResearchTask| t.priority == TaskPriority::Background,
        ) {
            Some(at) => queue.remove(at),
            None => if queue.len() > 0 {
                queue.remove(spec_oldest(queue))
            } else {
                queue
            },
        }
    }
}

/// Where a task of the priority goes: before the first task of strictly
/// lower priority, behind all others.
pub open spec fn spec_slot(queue: Seq<ResearchTask>, priority: TaskPriority) -> int {
    match spec_position(
        queue,
        |t: ResearchTask| t.priority.spec_rank() < priority.spec_rank(),
    ) {
        Some(at) => at,
        None => queue.len() as int,
    }
}

/// The queue after `task` was added.
pub open spec fn spec_enqueue(queue: Seq<ResearchTask>, task: ResearchTask, capacity: usize) -> Seq<
    ResearchTask,
> {
    let room = spec_make_room(queue, capacity);
    room.insert(spec_slot(room, task.priority), task)
}

/// No task stands before one of higher priority.
pub open spec fn spec_by_priority(queue: Seq<ResearchTask>) -> bool {
    forall|i: int, j: int|
        0 <= i <= j < queue.len() ==> queue[i].priority.spec_rank()
            >= queue[j].priority.spec_rank()
}

/// The cache after `finding` was put in front.
pub open spec fn spec_cache_push(
    cache: Seq<ResearchFinding>,
    finding: ResearchFinding,
    capacity: usize,
) -> Seq<ResearchFinding> {
    let grown = seq![finding] + cache;
    if grown.len() > capacity {
        grown.take(capacity as int)
    } else {
        grown
    }
}

/// The cache after all of `findings` were put in, one after the other.
pub open spec fn spec_cache_all(
    cache: Seq<ResearchFinding>,
    findings: Seq<ResearchFinding>,
    capacity: usize,
) -> Seq<ResearchFinding>
    decreases findings.len(),
{
    if findings.len() == 0 {
        cache
    } else {
        spec_cache_push(
            spec_cache_all(cache, findings.drop_last(), capacity),
            findings.last(),
            capacity,
        )
    }
}

/// The signal for the best finding of a search: what the default routing
/// says, or else a new-technology signal made from the finding itself.
pub open spec fn spec_best_signal(finding: FindingView) -> SignalView {
    match spec_default_processor().spec_process(finding) {
        Some(signal) => signal,
        None => SignalView::NewTechnologyDetected {
            name: finding.title,
            relevance_score: finding.relevance_score,
            source: finding.source.debug_name(),
        },
    }
}

/// What a search found: nothing where it failed.
pub open spec fn spec_outcome_findings(outcome: SearchOutcome) -> Seq<ResearchFinding> {
    match outcome {
        SearchOutcome::Found(findings) => findings@,
        _ => Seq::empty(),
    }
}

/// The signal that a search gives rise to: that of the first finding of the
/// list that the source returned, which the sources rank by descending
/// relevance; none where the search failed or found nothing.
pub open spec fn spec_outcome_signal(outcome: SearchOutcome) -> Option<SignalView> {
    let findings = spec_outcome_findings(outcome);
    if findings.len() > 0 {
        Some(spec_best_signal(findings[0].deep_view()))
    } else {
        None
    }
}

/// The routing with the default thresholds.
pub open spec fn spec_default_processor() -> SignalProcessor {
    SignalProcessor { relevance_threshold: 600_000, popularity_threshold: 100 }
}

/// Which adapter a search goes to.
#[derive(Debug, PartialEq)]
pub enum AdapterChoice {
    /// The first adapter for this kind of source.
    BySource(ResearchSource),
    /// The adapter registered under this name.
    ByName(String),
}

/// The search that a task asks for.
#[derive(Debug, PartialEq)]
pub struct SearchRequest {
    pub adapter: AdapterChoice,
    pub query: String,
    pub options: SearchOptions,
}

impl SearchRequest {
    /// The request is the search that `task` asks for: at the adapter of its
    /// source, or at the GitHub adapter if it names none; ten results of
    /// relevance 0.5 or more, by relevance.
    pub open spec fn is_plan_for(self, task: ResearchTask) -> bool {
        &&& match task.source {
            Some(source) => self.adapter matches AdapterChoice::BySource(chosen)
                && chosen.deep_view() == source.deep_view(),
            None => self.adapter matches AdapterChoice::ByName(name) && name@ == "GitHub"@,
        }
        &&& self.query@ == task.topic@
        &&& self.options.limit == Some(10usize)
        &&& self.options.min_relevance == Some(500_000u32)
        &&& self.options.sort_by == Some(SortOrder::Relevance)
        &&& self.options.since_timestamp is None
        &&& self.options.tags is None
    }
}

/// How the search for a task ended.
#[derive(Debug, PartialEq)]
pub enum SearchOutcome {
    /// The adapter registry could not be set up.
    RegistryUnavailable(ResearchError),
    /// No adapter answers to the choice.
    NoAdapter,
    /// The search failed.
    Failed(ResearchError),
    /// The search returned these findings, the highest-ranked first.
    Found(Vec<ResearchFinding>),
}

/// Totals of the queue.
#[derive(Debug, Clone, Copy, PartialEq, Eq, Structural)]
pub struct QueueStatus {
    pub total: usize,
    pub pending: usize,
    pub running: usize,
    pub by_priority: PriorityBreakdown,
}

/// The tasks of the queue by priority.
#[derive(Debug, Clone, Copy, PartialEq, Eq, Structural)]
pub struct PriorityBreakdown {
    pub critical: usize,
    pub high: usize,
    pub normal: usize,
    pub low: usize,
    pub background: usize,
}

/// The number of tasks of the priority.
pub open spec fn spec_count_priority(queue: Seq<ResearchTask>, priority: TaskPriority) -> nat {
    queue.filter(|t: ResearchTask| t.priority == priority).len()
}

/// The number of pending tasks.
pub open spec fn spec_count_pending(queue: Seq<ResearchTask>) -> nat {
    queue.filter(|t: ResearchTask| t.status is Pending).len()
}

/// The number of running tasks.
pub open spec fn spec_count_running(queue: Seq<ResearchTask>) -> nat {
    queue.filter(|t: ResearchTask| t.status is Running).len()
}

/// The task is still of interest: neither completed nor failed nor
/// cancelled.
pub open spec fn spec_unfinished(task: ResearchTask) -> bool {
    !(task.status is Completed || task.status is Failed || task.status is Cancelled)
}

/// The queue after a sweep: the tasks that are still of interest, in their
/// order.
pub open spec fn spec_swept(queue: Seq<ResearchTask>) -> Seq<ResearchTask> {
    queue.filter(|t: ResearchTask| spec_unfinished(t))
}

/// The scheduler: owner of the task queue and of the findings cache.
#[derive(Debug)]
pub struct TaskScheduler {
    queue: VecDeque<ResearchTask>,
    recent_findings: Vec<ResearchFinding>,
    max_queue_size: usize,
    max_findings_cache: usize,
}

/// The model of a `TaskScheduler`.
pub struct SchedulerView {
    /// The tasks, first to be served first.
    pub queue: Seq<ResearchTask>,
    /// The cached findings, most recent first.
    pub findings: Seq<ResearchFinding>,
    pub max_queue_size: usize,
    pub max_findings_cache: usize,
}

impl View for TaskScheduler {
    type V = SchedulerView;

    closed spec fn view(&self) -> SchedulerView {
        SchedulerView {
            queue: self.queue@,
            findings: self.recent_findings@,
            max_queue_size: self.max_queue_size,
            max_findings_cache: self.max_findings_cache,
        }
    }
}

impl SchedulerView {
    /// Queue and cache respect their capacities, and the queue is ordered by
    /// priority.
    pub open spec fn wf(self) -> bool {
        &&& self.max_queue_size >= 1
        &&& self.queue.len() <= self.max_queue_size
        &&& self.findings.len() <= self.max_findings_cache
        &&& spec_by_priority(self.queue)
    }
}

impl TaskScheduler {
    /// An empty scheduler for up to 100 tasks and 50 findings.
    pub fn new() -> (r: Self)
        ensures
            r@.wf(),
            r@.queue == Seq::<ResearchTask>::empty(),
            r@.findings == Seq::<ResearchFinding>::empty(),
            r@.max_queue_size == 100,
            r@.max_findings_cache == 50,
    {
        TaskScheduler {
            queue: VecDeque::new(),
            recent_findings: Vec::new(),
            max_queue_size: 100,
            max_findings_cache: 50,
        }
    }

    /// Adds a task. A full queue first gives up its first background task,
    /// or its oldest task if it has none; the new task then goes before the
    /// first task of strictly lower priority.
    pub fn add_task(&mut self, task: ResearchTask)
        ensures
            final(self)@ == (SchedulerView {
                queue: spec_enqueue(old(self)@.queue, task, old(self)@.max_queue_size),
                ..old(self)@
            }),
            old(self)@.wf() ==> final(self)@.wf(),
    {
        let ghost before = self.queue@;
        let ghost background = |t: ResearchTask| t.priority == TaskPriority::Background;
        if self.queue.len() >= self.max_queue_size {
            let mut at: usize = 0;
            while at < self.queue.len() && !matches!(
                self.queue[at].priority,
                TaskPriority::Background
            )
                invariant
                    at <= self.queue.len(),
                    self.queue@ == before,
                    background == |t: ResearchTask| t.priority == TaskPriority::Background,
                    forall|k: int| 0 <= k < at ==> !background(#[trigger] before[k]),
                decreases self.queue.len() - at,
            {
                at += 1;
            }
            if at < self.queue.len() {
                proof {
                    assert(is_first_at(before, background, at as int));
                    lemma_position_found(before, background, at as int);
                }
                self.queue.remove(at);
            } else {
                proof {
                    assert(none_satisfies(before, background));
                    lemma_position_missing(before, background);
                }
                if self.queue.len() > 0 {
                    let oldest = oldest_index(&self.queue);
                    self.queue.remove(oldest);
                }
            }
        }
        let ghost room = self.queue@;
        assert(room == spec_make_room(before, self.max_queue_size));
        let ghost lower = |t: ResearchTask| t.priority.spec_rank() < task.priority.spec_rank();
        let rank = task.priority.rank();
        let mut slot: usize = 0;
        while slot < self.queue.len() && self.queue[slot].priority.rank() >= rank
            invariant
                slot <= self.queue.len(),
                self.queue@ == room,
                rank == task.priority.spec_rank(),
                lower == |t: ResearchTask| t.priority.spec_rank() < task.priority.spec_rank(),
                forall|k: int| 0 <= k < slot ==> !lower(#[trigger] room[k]),
            decreases self.queue.len() - slot,
        {
            slot += 1;
        }
        proof {
            if slot < room.len() {
                assert(is_first_at(room, lower, slot as int));
                lemma_position_found(room, lower, slot as int);
            } else {
                assert(none_satisfies(room, lower));
                lemma_position_missing(room, lower);
            }
            if old(self)@.wf() {
                lemma_enqueue_keeps_order(before, task, self.max_queue_size);
            }
        }
        self.queue.insert(slot, task);
    }

    /// Hands out the first pending task, marked as running since `now`, and
    /// takes it off the queue.
    pub fn get_next_task_at(&mut self, now: i64) -> (r: Option<ResearchTask>)
        ensures
            match spec_position(old(self)@.queue, |t: ResearchTask| t.status is Pending) {
                Some(at) => {
                    &&& r == Some(spec_started(old(self)@.queue[at], now))
                    &&& final(self)@ == (SchedulerView {
                        queue: old(self)@.queue.remove(at),
                        ..old(self)@
                    })
                },
                None => r is None && final(self)@ == old(self)@,
            },
            old(self)@.wf() ==> final(self)@.wf(),
    {
        let ghost before = self.queue@;
        let ghost pending = |t: ResearchTask| t.status is Pending;
        let mut at: usize = 0;
        while at < self.queue.len() && !matches!(self.queue[at].status, TaskStatus::Pending)
            invariant
                at <= self.queue.len(),
                self.queue@ == before,
                pending == |t: ResearchTask| t.status is Pending,
                forall|k: int| 0 <= k < at ==> !pending(#[trigger] before[k]),
            decreases self.queue.len() - at,
        {
            at += 1;
        }
        if at < self.queue.len() {
            proof {
                assert(is_first_at(before, pending, at as int));
                lemma_position_found(before, pending, at as int);
            }
            match self.queue.remove(at) {
                Some(task) => {
                    let mut task = task;
                    task.status = TaskStatus::Running;
                    task.started_at = Some(now);
                    Some(task)
                },
                None => None,
            }
        } else {
            proof {
                assert(none_satisfies(before, pending));
                lemma_position_missing(before, pending);
            }
            None
        }
    }

    /// Hands out the first pending task, marked as running since the current
    /// time, and takes it off the queue.
    pub fn get_next_task(&mut self) -> (r: Option<ResearchTask>)
        ensures
            match spec_position(old(self)@.queue, |t: ResearchTask| t.status is Pending) {
                Some(at) => {
                    &&& r matches Some(task)
                    &&& task.status is Running
                    &&& task.started_at is Some
                    &&& task == spec_started(old(self)@.queue[at], task.started_at->0)
                    &&& final(self)@ == (SchedulerView {
                        queue: old(self)@.queue.remove(at),
                        ..old(self)@
                    })
                },
                None => r is None && final(self)@ == old(self)@,
            },
            old(self)@.wf() ==> final(self)@.wf(),
    {
        let now = now_timestamp();
        self.get_next_task_at(now)
    }

    /// The search that `task` asks for: at the adapter of its source, or at
    /// the GitHub adapter if it names none; ten results of relevance 0.5 or
    /// more, by relevance.
    pub fn plan_task(&self, task: &ResearchTask) -> (r: SearchRequest)
        ensures
            r.is_plan_for(*task),
    {
        let adapter = match &task.source {
            Some(source) => AdapterChoice::BySource(source.clone()),
            None => AdapterChoice::ByName(String::from_str("GitHub")),
        };
        SearchRequest {
            adapter,
            query: task.topic.clone(),
            options: SearchOptions {
                limit: Some(10),
                min_relevance: Some(500_000),
                since_timestamp: None,
                tags: None,
                sort_by: Some(SortOrder::Relevance),
            },
        }
    }

    /// Takes in how the search for `task` ended. Findings all go to the
    /// cache, and the first of them, the highest-ranked of the source's
    /// list, becomes a signal; a search that failed or found nothing leaves
    /// the scheduler as it is and gives no signal.
    pub fn execute_task(&mut self, task: &ResearchTask, outcome: SearchOutcome) -> (r: Option<
        Signal,
    >)
        ensures
            r.deep_view() == spec_outcome_signal(outcome),
            final(self)@ == (SchedulerView {
                findings: spec_cache_all(
                    old(self)@.findings,
                    spec_outcome_findings(outcome),
                    old(self)@.max_findings_cache,
                ),
                ..old(self)@
            }),
            old(self)@.wf() ==> final(self)@.wf(),
    {
        let findings = match outcome {
            SearchOutcome::Found(findings) => findings,
            _ => {
                return None;
            },
        };
        if findings.len() == 0 {
            return None;
        }
        let processor = SignalProcessor::default();
        let best = &findings[0];
        let signal = match processor.process(best) {
            Some(signal) => signal,
            None => Signal::NewTechnologyDetected {
                name: best.title.clone(),
                relevance_score: best.relevance_score,
                source: best.source.debug_name(),
            },
        };
        let ghost cache = self.recent_findings@;
        assert(findings@.take(0) =~= Seq::<ResearchFinding>::empty());
        for finding in it: findings
            invariant
                it.seq() == findings@,
                self.queue@ == old(self).queue@,
                self.max_queue_size == old(self).max_queue_size,
                self.max_findings_cache == old(self).max_findings_cache,
                self.recent_findings@ == spec_cache_all(
                    cache,
                    findings@.take(it.index()),
                    self.max_findings_cache,
                ),
                old(self)@.wf() ==> self@.wf(),
        {
            proof {
                assert(findings@.take(it.index() + 1).drop_last() =~= findings@.take(it.index()));
                assert(findings@.take(it.index() + 1).last() == finding);
            }
            self.add_finding(finding);
        }
        assert(findings@.take(findings@.len() as int) =~= findings@);
        Some(signal)
    }

    /// Puts a finding in front of the cache; the oldest leaves where the
    /// cache is full.
    pub fn add_finding(&mut self, finding: ResearchFinding)
        ensures
            final(self)@ == (SchedulerView {
                findings: spec_cache_push(
                    old(self)@.findings,
                    finding,
                    old(self)@.max_findings_cache,
                ),
                ..old(self)@
            }),
            old(self)@.wf() ==> final(self)@.wf(),
    {
        self.recent_findings.insert(0, finding);
        assert(self.recent_findings@ =~= seq![finding] + old(self).recent_findings@);
        if self.recent_findings.len() > self.max_findings_cache {
            self.recent_findings.truncate(self.max_findings_cache);
        }
    }

    /// Copies of the most recent findings, at most `limit` of them, most
    /// recent first.
    pub fn get_recent_findings(&self, limit: usize) -> (r: Vec<ResearchFinding>)
        ensures
            r.deep_view() == self@.findings.map_values(|f: ResearchFinding| f.deep_view()).take(
                if limit < self@.findings.len() {
                    limit as int
                } else {
                    self@.findings.len() as int
                },
            ),
    {
        let n: usize = if limit < self.recent_findings.len() {
            limit
        } else {
            self.recent_findings.len()
        };
        let mut out: Vec<ResearchFinding> = Vec::new();
        let mut i: usize = 0;
        while i < n
            invariant
                i <= n <= self.recent_findings.len(),
                out.len() == i,
                forall|k: int|
                    0 <= k < i ==> (#[trigger] out@[k]).deep_view()
                        == self.recent_findings@[k].deep_view(),
            decreases n - i,
        {
            out.push(self.recent_findings[i].clone());
            i += 1;
        }
        assert(out.deep_view() =~= self@.findings.map_values(
            |f: ResearchFinding| f.deep_view(),
        ).take(n as int));
        out
    }

    /// Totals of the queue: all, pending, running, and by priority.
    pub fn get_queue_status(&self) -> (r: QueueStatus)
        ensures
            r.total == self@.queue.len(),
            r.pending == spec_count_pending(self@.queue),
            r.running == spec_count_running(self@.queue),
            r.by_priority.critical == spec_count_priority(self@.queue, TaskPriority::Critical),
            r.by_priority.high == spec_count_priority(self@.queue, TaskPriority::High),
            r.by_priority.normal == spec_count_priority(self@.queue, TaskPriority::Normal),
            r.by_priority.low == spec_count_priority(self@.queue, TaskPriority::Low),
            r.by_priority.background == spec_count_priority(
                self@.queue,
                TaskPriority::Background,
            ),
    {
        let ghost queue = self.queue@;
        let ghost pending = |t: ResearchTask| t.status is Pending;
        let ghost running = |t: ResearchTask| t.status is Running;
        let mut pending_count: usize = 0;
        let mut running_count: usize = 0;
        let mut i: usize = 0;
        proof {
            reveal(Seq::filter);
            assert(queue.take(0).filter(pending) =~= Seq::<ResearchTask>::empty());
            assert(queue.take(0).filter(running) =~= Seq::<ResearchTask>::empty());
        }
        while i < self.queue.len()
            invariant
                i <= self.queue.len(),
                queue == self.queue@,
                pending == |t: ResearchTask| t.status is Pending,
                running == |t: ResearchTask| t.status is Running,
                pending_count == queue.take(i as int).filter(pending).len(),
                running_count == queue.take(i as int).filter(running).len(),
                pending_count <= i,
                running_count <= i,
            decreases self.queue.len() - i,
        {
            proof {
                queue.take(i as int).lemma_filter_push(queue[i as int], pending);
                queue.take(i as int).lemma_filter_push(queue[i as int], running);
                assert(queue.take(i + 1) =~= queue.take(i as int).push(queue[i as int]));
            }
            if matches!(self.queue[i].status, TaskStatus::Pending) {
                pending_count += 1;
            }
            if matches!(self.queue[i].status, TaskStatus::Running) {
                running_count += 1;
            }
            i += 1;
        }
        assert(queue.take(self.queue.len() as int) =~= queue);
        QueueStatus {
            total: self.queue.len(),
            pending: pending_count,
            running: running_count,
            by_priority: PriorityBreakdown {
                critical: count_priority(&self.queue, TaskPriority::Critical),
                high: count_priority(&self.queue, TaskPriority::High),
                normal: count_priority(&self.queue, TaskPriority::Normal),
                low: count_priority(&self.queue, TaskPriority::Low),
                background: count_priority(&self.queue, TaskPriority::Background),
            },
        }
    }

    /// Sweeps the completed, the failed and the cancelled tasks off the
    /// queue; the others stay as they are, in their order.
    pub fn clear_completed(&mut self)
        ensures
            final(self)@ == (SchedulerView {
                queue: spec_swept(old(self)@.queue),
                ..old(self)@
            }),
    {
        let ghost before = self.queue@;
        let ghost keep = |t: ResearchTask| spec_unfinished(t);
        let total = self.queue.len();
        let mut seen: usize = 0;
        proof {
            reveal(Seq::filter);
            assert(before.take(0).filter(keep) =~= Seq::<ResearchTask>::empty());
            assert(before.skip(0) =~= before);
        }
        while seen < total
            invariant
                seen <= total == before.len(),
                keep == |t: ResearchTask| spec_unfinished(t),
                self.queue@ == before.skip(seen as int) + before.take(seen as int).filter(keep),
                self.recent_findings == old(self).recent_findings,
                self.max_queue_size == old(self).max_queue_size,
                self.max_findings_cache == old(self).max_findings_cache,
            decreases total - seen,
        {
            let ghost kept = before.take(seen as int).filter(keep);
            proof {
                before.take(seen as int).lemma_filter_push(before[seen as int], keep);
                assert(before.take(seen + 1) =~= before.take(seen as int).push(before[seen as int]));
                assert(self.queue@[0] == before[seen as int]);
            }
            match self.queue.pop_front() {
                Some(task) => {
                    assert(self.queue@ =~= before.skip(seen + 1) + kept);
                    let finished = matches!(
                        task.status,
                        TaskStatus::Completed | TaskStatus::Failed(_) | TaskStatus::Cancelled
                    );
                    if !finished {
                        self.queue.push_back(task);
                        assert(self.queue@ =~= before.skip(seen + 1) + kept.push(task));
                    }
                },
                None => {},
            }
            seen += 1;
        }
        assert(before.skip(total as int) =~= Seq::<ResearchTask>::empty());
        assert(before.take(total as int) =~= before);
        assert(self.queue@ =~= before.filter(keep));
    }

    /// Marks the first task with the identifier as cancelled and leaves it
    /// in the queue until the next sweep. Tells whether there was such a
    /// task.
    pub fn cancel_task(&mut self, task_id: &str) -> (r: bool)
        ensures
            match spec_position(old(self)@.queue, |t: ResearchTask| t.id@ == task_id@) {
                Some(at) => {
                    &&& r
                    &&& final(self)@ == (SchedulerView {
                        queue: old(self)@.queue.update(at, spec_cancelled(old(self)@.queue[at])),
                        ..old(self)@
                    })
                },
                None => !r && final(self)@ == old(self)@,
            },
            old(self)@.wf() ==> final(self)@.wf(),
    {
        let ghost before = self.queue@;
        let ghost wanted = |t: ResearchTask| t.id@ == task_id@;
        let key = String::from_str(task_id);
        let mut at: usize = 0;
        while at < self.queue.len() && self.queue[at].id != key
            invariant
                at <= self.queue.len(),
                self.queue@ == before,
                key@ == task_id@,
                wanted == |t: ResearchTask| t.id@ == task_id@,
                forall|k: int| 0 <= k < at ==> !wanted(#[trigger] before[k]),
            decreases self.queue.len() - at,
        {
            at += 1;
        }
        if at < self.queue.len() {
            proof {
                assert(is_first_at(before, wanted, at as int));
                lemma_position_found(before, wanted, at as int);
            }
            match self.queue.remove(at) {
                Some(task) => {
                    let mut task = task;
                    task.status = TaskStatus::Cancelled;
                    self.queue.insert(at, task);
                },
                None => {},
            }
            assert(self.queue@ =~= before.update(at as int, spec_cancelled(before[at as int])));
            true
        } else {
            proof {
                assert(none_satisfies(before, wanted));
                lemma_position_missing(before, wanted);
            }
            false
        }
    }
}

impl Default for TaskScheduler {
    fn default() -> (r: Self)
        ensures
            r@.wf(),
            r@.queue == Seq::<ResearchTask>::empty(),
            r@.findings == Seq::<ResearchFinding>::empty(),
            r@.max_queue_size == 100,
            r@.max_findings_cache == 50,
    {
        TaskScheduler::new()
    }
}

/// The index of the oldest task.
fn oldest_index(queue: &VecDeque<ResearchTask>) -> (r: usize)
    requires
        queue@.len() > 0,
    ensures
        r == spec_oldest(queue@),
        r < queue@.len(),
{
    let mut best: usize = 0;
    let mut i: usize = 1;
    assert(queue@.take(1).len() == 1);
    while i < queue.len()
        invariant
            1 <= i <= queue.len(),
            best < i,
            best == spec_oldest(queue@.take(i as int)),
        decreases queue.len() - i,
    {
        proof {
            let grown = queue@.take(i + 1);
            assert(grown.drop_last() =~= queue@.take(i as int));
            assert(grown.last() == queue@[i as int]);
            assert(grown[best as int] == queue@[best as int]);
        }
        if queue[i].created_at < queue[best].created_at {
            best = i;
        }
        i += 1;
    }
    assert(queue@.take(queue.len() as int) =~= queue@);
    best
}

/// The number of tasks of the priority.
fn count_priority(queue: &VecDeque<ResearchTask>, priority: TaskPriority) -> (r: usize)
    ensures
        r == spec_count_priority(queue@, priority),
{
    let ghost wanted = |t: ResearchTask| t.priority == priority;
    let mut n: usize = 0;
    let mut i: usize = 0;
    proof {
        reveal(Seq::filter);
        assert(queue@.take(0).filter(wanted) =~= Seq::<ResearchTask>::empty());
    }
    while i < queue.len()
        invariant
            i <= queue.len(),
            wanted == |t: ResearchTask| t.priority == priority,
            n == queue@.take(i as int).filter(wanted).len(),
            n <= i,
        decreases queue.len() - i,
    {
        proof {
            queue@.take(i as int).lemma_filter_push(queue@[i as int], wanted);
            assert(queue@.take(i + 1) =~= queue@.take(i as int).push(queue@[i as int]));
        }
        if queue[i].priority.rank() == priority.rank() {
            n += 1;
        }
        i += 1;
    }
    assert(queue@.take(queue.len() as int) =~= queue@);
    n
}

/// A queue that is in order stays in order when a task leaves.
proof fn lemma_remove_keeps_order(queue: Seq<ResearchTask>, at: int)
    requires
        0 <= at < queue.len(),
        spec_by_priority(queue),
    ensures
        spec_by_priority(queue.remove(at)),
        queue.remove(at).len() == queue.len() - 1,
{
    let rest = queue.remove(at);
    assert forall|i: int, j: int| 0 <= i <= j < rest.len() implies rest[i].priority.spec_rank()
        >= rest[j].priority.spec_rank() by {
        let a = if i < at {
            i
        } else {
            i + 1
        };
        let b = if j < at {
            j
        } else {
            j + 1
        };
        assert(rest[i] == queue[a]);
        assert(rest[j] == queue[b]);
    }
}

/// Making room leaves a queue in order, and takes one task from a queue
/// that is full.
proof fn lemma_room_in_order(queue: Seq<ResearchTask>, capacity: usize)
    requires
        spec_by_priority(queue),
    ensures
        spec_by_priority(spec_make_room(queue, capacity)),
        spec_make_room(queue, capacity).len() == if queue.len() >= capacity && queue.len() > 0 {
            queue.len() - 1
        } else {
            queue.len() as int
        },
{
    let background = |t: ResearchTask| t.priority == TaskPriority::Background;
    if queue.len() >= capacity && queue.len() > 0 {
        lemma_position_meaning(queue, background);
        match spec_position(queue, background) {
            Some(at) => {
                lemma_remove_keeps_order(queue, at);
            },
            None => {
                lemma_oldest_is_earliest(queue);
                lemma_remove_keeps_order(queue, spec_oldest(queue));
            },
        }
    } else if queue.len() >= capacity {
        lemma_position_meaning(queue, background);
    }
}

/// Adding a task to a queue that is in order and within its capacity leaves
/// it so.
pub proof fn lemma_enqueue_keeps_order(queue: Seq<ResearchTask>, task: ResearchTask, capacity: usize)
    requires
        capacity >= 1,
        queue.len() <= capacity,
        spec_by_priority(queue),
    ensures
        spec_by_priority(spec_enqueue(queue, task, capacity)),
        spec_enqueue(queue, task, capacity).len() <= capacity,
        spec_enqueue(queue, task, capacity).len() == if queue.len() < capacity {
            queue.len() + 1
        } else {
            queue.len()
        },
{
    let lower = |t: ResearchTask| t.priority.spec_rank() < task.priority.spec_rank();
    let room = spec_make_room(queue, capacity);
    lemma_room_in_order(queue, capacity);
    lemma_position_meaning(room, lower);
    let slot = spec_slot(room, task.priority);
    let out = room.insert(slot, task);
    assert forall|i: int, j: int| 0 <= i <= j < out.len() implies out[i].priority.spec_rank()
        >= out[j].priority.spec_rank() by {
        if i < slot && j == slot {
            assert(!lower(room[i]));
        } else if i == slot && j > slot {
            assert(lower(room[slot]));
            assert(room[slot].priority.spec_rank() >= room[j - 1].priority.spec_rank());
        }
    }
}

/// Tasks of equal priority are served first come, first served: a new task
/// stands behind every task of its own or a higher priority and, in a queue
/// that is in order, before every task of a lower priority.
pub proof fn lemma_enqueue_is_fifo(queue: Seq<ResearchTask>, task: ResearchTask, capacity: usize)
    requires
        spec_by_priority(queue),
    ensures
        0 <= spec_slot(spec_make_room(queue, capacity), task.priority) <= spec_make_room(
            queue,
            capacity,
        ).len(),
        forall|k: int|
            0 <= k < spec_slot(spec_make_room(queue, capacity), task.priority) ==> (
            #[trigger] spec_make_room(queue, capacity)[k]).priority.spec_rank()
                >= task.priority.spec_rank(),
        forall|k: int|
            spec_slot(spec_make_room(queue, capacity), task.priority) <= k < spec_make_room(
                queue,
                capacity,
            ).len() ==> (#[trigger] spec_make_room(queue, capacity)[k]).priority.spec_rank()
                < task.priority.spec_rank(),
{
    let lower = |t: ResearchTask| t.priority.spec_rank() < task.priority.spec_rank();
    let room = spec_make_room(queue, capacity);
    lemma_room_in_order(queue, capacity);
    lemma_position_meaning(room, lower);
    let slot = spec_slot(room, task.priority);
    assert forall|k: int| 0 <= k < slot implies (#[trigger] room[k]).priority.spec_rank()
        >= task.priority.spec_rank() by {
        assert(!lower(room[k]));
    }
    assert forall|k: int| slot <= k < room.len() implies (#[trigger] room[k]).priority.spec_rank()
        < task.priority.spec_rank() by {
        assert(lower(room[slot]));
        assert(room[slot].priority.spec_rank() >= room[k].priority.spec_rank());
    }
}

/// In a list that is ranked by descending relevance, as the sources return
/// it, the first finding is the highest-ranked: none is more relevant.
pub proof fn lemma_first_of_ranked_is_highest(findings: Seq<ResearchFinding>)
    requires
        findings.len() > 0,
        crate::research::processors::spec_is_ranked(findings),
    ensures
        forall|k: int|
            0 <= k < findings.len() ==> findings[0].relevance_score >= (
            #[trigger] findings[k]).relevance_score,
{
}

/// The oldest task was created no later than any other, and strictly
/// earlier than every task before it in the queue.
pub proof fn lemma_oldest_is_earliest(queue: Seq<ResearchTask>)
    requires
        queue.len() > 0,
    ensures
        0 <= spec_oldest(queue) < queue.len(),
        forall|k: int|
            0 <= k < queue.len() ==> queue[spec_oldest(queue)].created_at <= (
            #[trigger] queue[k]).created_at,
        forall|k: int|
            0 <= k < spec_oldest(queue) ==> queue[spec_oldest(queue)].created_at < (
            #[trigger] queue[k]).created_at,
    decreases queue.len(),
{
    if queue.len() > 1 {
        let front = queue.drop_last();
        lemma_oldest_is_earliest(front);
        let best = spec_oldest(queue);
        assert forall|k: int| 0 <= k < queue.len() implies queue[best].created_at <= (
        #[trigger] queue[k]).created_at by {
            if k < queue.len() - 1 {
                assert(front[k] == queue[k]);
            }
        }
        assert forall|k: int| 0 <= k < best implies queue[best].created_at < (
        #[trigger] queue[k]).created_at by {
            assert(front[k] == queue[k]);
        }
    }
}

/// A task added to a full queue is never the one that leaves: the first
/// background task makes room, or, where there is none, the task that was
/// created earliest, whatever its priority. All other tasks stay, and the
/// new task stands in the queue afterwards.
pub proof fn lemma_new_task_is_kept(queue: Seq<ResearchTask>, task: ResearchTask, capacity: usize)
    requires
        capacity >= 1,
        queue.len() == capacity,
    ensures
        spec_enqueue(queue, task, capacity).len() == capacity,
        spec_enqueue(queue, task, capacity)[spec_slot(
            spec_make_room(queue, capacity),
            task.priority,
        )] == task,
        match spec_position(queue, |t: ResearchTask| t.priority == TaskPriority::Background) {
            Some(at) => spec_make_room(queue, capacity) == queue.remove(at)
                && queue[at].priority == TaskPriority::Background,
            None => {
                &&& spec_make_room(queue, capacity) == queue.remove(spec_oldest(queue))
                &&& 0 <= spec_oldest(queue) < queue.len()
                &&& forall|k: int|
                    0 <= k < queue.len() ==> queue[spec_oldest(queue)].created_at <= (
                    #[trigger] queue[k]).created_at
            },
        },
{
    let background = |t: ResearchTask| t.priority == TaskPriority::Background;
    let lower = |t: ResearchTask| t.priority.spec_rank() < task.priority.spec_rank();
    lemma_position_meaning(queue, background);
    lemma_position_meaning(spec_make_room(queue, capacity), lower);
    lemma_oldest_is_earliest(queue);
}

/// A critical task added to a full queue of normal and low tasks goes to the
/// front, and the task that was created earliest leaves.
pub proof fn lemma_critical_task_goes_first(
    queue: Seq<ResearchTask>,
    task: ResearchTask,
    capacity: usize,
)
    requires
        capacity >= 1,
        queue.len() == capacity,
        task.priority == TaskPriority::Critical,
        forall|k: int|
            0 <= k < queue.len() ==> (#[trigger] queue[k]).priority == TaskPriority::Normal
                || queue[k].priority == TaskPriority::Low,
    ensures
        spec_enqueue(queue, task, capacity) == seq![task] + queue.remove(spec_oldest(queue)),
{
    let background = |t: ResearchTask| t.priority == TaskPriority::Background;
    let lower = |t: ResearchTask| t.priority.spec_rank() < task.priority.spec_rank();
    assert(none_satisfies(queue, background));
    lemma_position_missing(queue, background);
    lemma_oldest_is_earliest(queue);
    let gone = spec_oldest(queue);
    let room = queue.remove(gone);
    if room.len() > 0 {
        assert(lower(room[0])) by {
            if gone == 0 {
                assert(room[0] == queue[1]);
            } else {
                assert(room[0] == queue[0]);
            }
        }
        assert(is_first_at(room, lower, 0));
        lemma_position_found(room, lower, 0);
    } else {
        assert(none_satisfies(room, lower));
        lemma_position_missing(room, lower);
    }
    assert(room.insert(0, task) =~= seq![task] + room);
}

/// Filtering a sequence whose elements all pass the filter changes nothing.
proof fn lemma_filter_of_all<T>(s: Seq<T>, keep: spec_fn(T) -> bool)
    requires
        forall|k: int| 0 <= k < s.len() ==> keep(#[trigger] s[k]),
    ensures
        s.filter(keep) == s,
    decreases s.len(),
{
    reveal(Seq::filter);
    if s.len() > 0 {
        lemma_filter_of_all(s.drop_last(), keep);
        assert(s.drop_last().push(s.last()) =~= s);
    }
}

/// After a sweep no task of the queue is completed, failed or cancelled; a
/// sweep of a queue without such tasks, and so a second sweep, changes
/// nothing.
pub proof fn lemma_sweep_leaves_live_tasks(queue: Seq<ResearchTask>)
    ensures
        forall|k: int|
            0 <= k < spec_swept(queue).len() ==> spec_unfinished(#[trigger] spec_swept(queue)[k]),
        spec_swept(spec_swept(queue)) == spec_swept(queue),
        (forall|k: int| 0 <= k < queue.len() ==> spec_unfinished(#[trigger] queue[k]))
            ==> spec_swept(queue) == queue,
{
    let keep = |t: ResearchTask| spec_unfinished(t);
    let swept = queue.filter(keep);
    assert forall|k: int| 0 <= k < swept.len() implies keep(#[trigger] swept[k]) by {
        queue.lemma_filter_pred(keep, k);
    }
    lemma_filter_of_all(swept, keep);
    if forall|k: int| 0 <= k < queue.len() ==> spec_unfinished(#[trigger] queue[k]) {
        lemma_filter_of_all(queue, keep);
    }
}

/// A task that is handed out is the queued task but for its status and its
/// start time.
pub proof fn lemma_started_task_is_the_queued_one(task: ResearchTask, now: i64)
    ensures
        spec_started(task, now).status is Running,
        spec_started(task, now).started_at == Some(now),
        spec_started(task, now).id == task.id,
        spec_started(task, now).topic == task.topic,
        spec_started(task, now).priority == task.priority,
        spec_started(task, now).source == task.source,
        spec_started(task, now).created_at == task.created_at,
        spec_started(task, now).completed_at == task.completed_at,
        spec_started(task, now).retry_count == task.retry_count,
        spec_started(task, now).max_retries == task.max_retries,
{
}

/// The task handed out is the first pending one, so no pending task of the
/// queue has a higher priority; it leaves the queue, which then holds one
/// pending task less, and the next task handed out stood behind it.
pub proof fn lemma_dequeue_is_exclusive(queue: Seq<ResearchTask>, at: int)
    requires
        spec_position(queue, |t: ResearchTask| t.status is Pending) == Some(at),
    ensures
        0 <= at < queue.len(),
        queue.remove(at).len() == queue.len() - 1,
        spec_count_pending(queue.remove(at)) == spec_count_pending(queue) - 1,
        forall|k: int| 0 <= k < at ==> !((#[trigger] queue.remove(at)[k]).status is Pending),
        spec_position(queue.remove(at), |t: ResearchTask| t.status is Pending) matches Some(next)
            ==> next >= at && queue.remove(at)[next] == queue[next + 1],
        spec_by_priority(queue) ==> forall|k: int|
            0 <= k < queue.len() && (#[trigger] queue[k]).status is Pending
                ==> queue[k].priority.spec_rank() <= queue[at].priority.spec_rank(),
{
    let pending = |t: ResearchTask| t.status is Pending;
    lemma_position_meaning(queue, pending);
    let rest = queue.remove(at);
    lemma_position_meaning(rest, pending);
    assert(queue =~= queue.take(at) + seq![queue[at]] + queue.skip(at + 1));
    assert(rest =~= queue.take(at) + queue.skip(at + 1));
    Seq::filter_distributes_over_add(queue.take(at), queue.skip(at + 1), pending);
    Seq::filter_distributes_over_add(
        queue.take(at) + seq![queue[at]],
        queue.skip(at + 1),
        pending,
    );
    Seq::filter_distributes_over_add(queue.take(at), seq![queue[at]], pending);
    assert(seq![queue[at]].filter(pending) =~= seq![queue[at]]) by {
        reveal(Seq::filter);
        assert(seq![queue[at]].drop_last() =~= Seq::<ResearchTask>::empty());
        assert(Seq::<ResearchTask>::empty().filter(pending) =~= Seq::<ResearchTask>::empty());
    }
    assert forall|k: int| 0 <= k < queue.len() && (#[trigger] queue[k]).status is Pending
        && spec_by_priority(queue) implies queue[k].priority.spec_rank()
        <= queue[at].priority.spec_rank() by {
        if k < at {
            assert(!pending(queue[k]));
        }
    }
}

} // verus!
