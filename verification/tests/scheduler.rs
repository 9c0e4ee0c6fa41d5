use cla_commander::commander::decision_engine::Signal;
use cla_commander::commander::task_scheduler::{
    AdapterChoice, PriorityBreakdown, QueueStatus, ResearchTask, SearchOutcome, TaskPriority,
    TaskScheduler, TaskStatus,
};
use cla_commander::commander::{FindingMetadata, ResearchFinding, ResearchSource};
use cla_commander::research::traits::{ResearchError, SortOrder};

const NOW: i64 = 1_700_000_000;

fn task(id: &str, priority: TaskPriority) -> ResearchTask {
    ResearchTask::created(id.to_string(), format!("topic of {}", id), priority, NOW)
}

fn finding(id: &str, source: ResearchSource, score: u32) -> ResearchFinding {
    ResearchFinding {
        id: id.to_string(),
        source,
        title: format!("Finding {}", id),
        summary: "Summary".to_string(),
        relevance_score: score,
        discovered_at: NOW,
        tags: vec!["cs.AI".to_string()],
        url: None,
        metadata: FindingMetadata::default(),
    }
}

fn drain(scheduler: &mut TaskScheduler) -> Vec<String> {
    let mut ids = Vec::new();
    while let Some(next) = scheduler.get_next_task_at(NOW + 1) {
        ids.push(next.id);
    }
    ids
}

#[test]
fn new_tasks_are_pending() {
    let task = ResearchTask::new("rust".to_string(), TaskPriority::High);
    assert_eq!(task.topic, "rust");
    assert_eq!(task.priority, TaskPriority::High);
    assert_eq!(task.status, TaskStatus::Pending);
    assert_eq!(task.source, None);
    assert_eq!(task.started_at, None);
    assert_eq!(task.completed_at, None);
    assert_eq!(task.retry_count, 0);
    assert_eq!(task.max_retries, 3);
    assert_eq!(task.id.len(), 36);
    let other = ResearchTask::new("rust".to_string(), TaskPriority::High);
    assert_ne!(task.id, other.id);

    let sourced = task.with_source(ResearchSource::ArXiv);
    assert_eq!(sourced.source, Some(ResearchSource::ArXiv));
    assert_eq!(sourced.topic, "rust");
}

#[test]
fn priorities_are_ordered() {
    assert!(TaskPriority::Critical > TaskPriority::High);
    assert!(TaskPriority::High > TaskPriority::Normal);
    assert!(TaskPriority::Normal > TaskPriority::Low);
    assert!(TaskPriority::Low > TaskPriority::Background);
    assert_eq!(TaskPriority::Critical.rank(), 4);
    assert_eq!(TaskPriority::Background.rank(), 0);
}

#[test]
fn tasks_are_served_by_priority_then_age() {
    let mut scheduler = TaskScheduler::new();
    scheduler.add_task(task("n1", TaskPriority::Normal));
    scheduler.add_task(task("b1", TaskPriority::Background));
    scheduler.add_task(task("c1", TaskPriority::Critical));
    scheduler.add_task(task("n2", TaskPriority::Normal));
    scheduler.add_task(task("h1", TaskPriority::High));
    scheduler.add_task(task("c2", TaskPriority::Critical));
    scheduler.add_task(task("l1", TaskPriority::Low));
    assert_eq!(drain(&mut scheduler), vec!["c1", "c2", "h1", "n1", "n2", "l1", "b1"]);
    assert!(scheduler.get_next_task().is_none());
}

#[test]
fn dequeued_tasks_are_running_and_gone() {
    let mut scheduler = TaskScheduler::new();
    scheduler.add_task(task("a", TaskPriority::Normal));
    scheduler.add_task(task("b", TaskPriority::Normal));

    let first = scheduler.get_next_task_at(NOW + 5).unwrap();
    assert_eq!(first.id, "a");
    assert_eq!(first.status, TaskStatus::Running);
    assert_eq!(first.started_at, Some(NOW + 5));
    assert_eq!(first.created_at, NOW);
    assert_eq!(scheduler.get_queue_status().total, 1);

    let second = scheduler.get_next_task().unwrap();
    assert_eq!(second.id, "b");
    assert_eq!(second.status, TaskStatus::Running);
    assert!(second.started_at.is_some());
    assert_eq!(scheduler.get_queue_status().total, 0);
    assert!(scheduler.get_next_task().is_none());
}

#[test]
fn full_queue_gives_up_a_background_task_first() {
    let mut scheduler = TaskScheduler::new();
    for i in 0..50 {
        scheduler.add_task(task(&format!("n{}", i), TaskPriority::Normal));
    }
    scheduler.add_task(task("b0", TaskPriority::Background));
    scheduler.add_task(task("b1", TaskPriority::Background));
    for i in 0..48 {
        scheduler.add_task(task(&format!("l{}", i), TaskPriority::Low));
    }
    assert_eq!(scheduler.get_queue_status().total, 100);

    scheduler.add_task(task("critical", TaskPriority::Critical));
    let status = scheduler.get_queue_status();
    assert_eq!(status.total, 100);
    assert_eq!(status.by_priority.critical, 1);
    assert_eq!(status.by_priority.background, 1);
    assert_eq!(status.by_priority.normal, 50);
    assert_eq!(status.by_priority.low, 48);

    let ids = drain(&mut scheduler);
    assert_eq!(ids[0], "critical");
    assert!(!ids.contains(&"b0".to_string()));
    assert!(ids.contains(&"b1".to_string()));
}

#[test]
fn full_queue_without_background_gives_up_the_oldest() {
    let mut scheduler = TaskScheduler::new();
    for i in 0..60 {
        scheduler.add_task(task(&format!("n{}", i), TaskPriority::Normal));
    }
    for i in 0..40 {
        scheduler.add_task(task(&format!("l{}", i), TaskPriority::Low));
    }
    scheduler.add_task(task("critical", TaskPriority::Critical));
    assert_eq!(scheduler.get_queue_status().total, 100);

    let ids = drain(&mut scheduler);
    assert_eq!(ids.len(), 100);
    assert_eq!(ids[0], "critical");
    assert_eq!(ids[1], "n1");
    assert!(!ids.contains(&"n0".to_string()));
    assert_eq!(ids[99], "l39");
}

#[test]
fn queue_status_counts() {
    let mut scheduler = TaskScheduler::new();
    assert_eq!(
        scheduler.get_queue_status(),
        QueueStatus {
            total: 0,
            pending: 0,
            running: 0,
            by_priority: PriorityBreakdown { critical: 0, high: 0, normal: 0, low: 0, background: 0 },
        }
    );
    scheduler.add_task(task("a", TaskPriority::High));
    scheduler.add_task(task("b", TaskPriority::Low));
    let mut running = task("c", TaskPriority::Low);
    running.status = TaskStatus::Running;
    scheduler.add_task(running);
    let mut done = task("d", TaskPriority::Background);
    done.status = TaskStatus::Completed;
    scheduler.add_task(done);
    assert_eq!(
        scheduler.get_queue_status(),
        QueueStatus {
            total: 4,
            pending: 2,
            running: 1,
            by_priority: PriorityBreakdown { critical: 0, high: 1, normal: 0, low: 2, background: 1 },
        }
    );
}

#[test]
fn cancelled_tasks_stay_until_the_next_sweep() {
    let mut scheduler = TaskScheduler::new();
    scheduler.add_task(task("a", TaskPriority::Normal));
    scheduler.add_task(task("b", TaskPriority::Normal));
    assert!(scheduler.cancel_task("a"));
    assert!(!scheduler.cancel_task("missing"));
    let status = scheduler.get_queue_status();
    assert_eq!(status.total, 2);
    assert_eq!(status.pending, 1);
    assert_eq!(scheduler.get_next_task_at(NOW).unwrap().id, "b");
    assert!(scheduler.get_next_task_at(NOW).is_none());
    assert_eq!(scheduler.get_queue_status().total, 1);

    scheduler.clear_completed();
    assert_eq!(scheduler.get_queue_status().total, 0);
}

#[test]
fn sweep_of_one_cancelled_task_empties_the_queue() {
    let mut scheduler = TaskScheduler::new();
    scheduler.add_task(task("only", TaskPriority::High));
    assert!(scheduler.cancel_task("only"));
    assert_eq!(scheduler.get_queue_status().total, 1);
    scheduler.clear_completed();
    assert_eq!(scheduler.get_queue_status().total, 0);
    scheduler.clear_completed();
    assert_eq!(scheduler.get_queue_status().total, 0);
}

#[test]
fn clear_completed_sweeps_finished_tasks() {
    let mut scheduler = TaskScheduler::new();
    let mut completed = task("done", TaskPriority::High);
    completed.status = TaskStatus::Completed;
    let mut failed = task("failed", TaskPriority::Normal);
    failed.status = TaskStatus::Failed("timeout".to_string());
    let mut running = task("running", TaskPriority::Normal);
    running.status = TaskStatus::Running;
    scheduler.add_task(completed);
    scheduler.add_task(failed);
    scheduler.add_task(running);
    scheduler.add_task(task("pending", TaskPriority::Low));
    scheduler.add_task(task("second", TaskPriority::Low));
    scheduler.add_task(task("dropped", TaskPriority::Critical));
    assert!(scheduler.cancel_task("dropped"));
    scheduler.clear_completed();
    let status = scheduler.get_queue_status();
    assert_eq!(status.total, 3);
    assert_eq!(status.pending, 2);
    assert_eq!(status.running, 1);
    scheduler.clear_completed();
    assert_eq!(scheduler.get_queue_status(), status);
    assert_eq!(drain(&mut scheduler), vec!["pending", "second"]);
}

#[test]
fn findings_cache_is_bounded_and_recent_first() {
    let mut scheduler = TaskScheduler::default();
    for i in 0..55 {
        scheduler.add_finding(finding(&i.to_string(), ResearchSource::GitHub, 500_000));
    }
    let recent = scheduler.get_recent_findings(100);
    assert_eq!(recent.len(), 50);
    assert_eq!(recent[0].id, "54");
    assert_eq!(recent[49].id, "5");
    let three = scheduler.get_recent_findings(3);
    let ids: Vec<&str> = three.iter().map(|f| f.id.as_str()).collect();
    assert_eq!(ids, vec!["54", "53", "52"]);
    assert!(scheduler.get_recent_findings(0).is_empty());
}

#[test]
fn plans_follow_the_source_hint() {
    let scheduler = TaskScheduler::new();
    let plain = task("a", TaskPriority::Normal);
    let plan = scheduler.plan_task(&plain);
    assert_eq!(plan.adapter, AdapterChoice::ByName("GitHub".to_string()));
    assert_eq!(plan.query, "topic of a");
    assert_eq!(plan.options.limit, Some(10));
    assert_eq!(plan.options.min_relevance, Some(500_000));
    assert_eq!(plan.options.sort_by, Some(SortOrder::Relevance));
    assert_eq!(plan.options.since_timestamp, None);
    assert_eq!(plan.options.tags, None);

    let hinted = task("b", TaskPriority::Normal).with_source(ResearchSource::ArXiv);
    assert_eq!(
        scheduler.plan_task(&hinted).adapter,
        AdapterChoice::BySource(ResearchSource::ArXiv)
    );
}

#[test]
fn failed_searches_give_no_signal() {
    let mut scheduler = TaskScheduler::new();
    let running = task("a", TaskPriority::Normal);
    let network = || ResearchError::NetworkError("down".to_string());
    assert_eq!(
        scheduler.execute_task(&running, SearchOutcome::RegistryUnavailable(network())),
        None
    );
    assert_eq!(scheduler.execute_task(&running, SearchOutcome::NoAdapter), None);
    assert_eq!(scheduler.execute_task(&running, SearchOutcome::Failed(network())), None);
    assert_eq!(scheduler.execute_task(&running, SearchOutcome::Found(vec![])), None);
    assert!(scheduler.get_recent_findings(10).is_empty());
}

#[test]
fn found_findings_are_cached_and_the_best_becomes_a_signal() {
    let mut scheduler = TaskScheduler::new();
    let running = task("a", TaskPriority::Normal);
    let findings = vec![
        finding("best", ResearchSource::ArXiv, 900_000),
        finding("second", ResearchSource::ArXiv, 800_000),
    ];
    let signal = scheduler.execute_task(&running, SearchOutcome::Found(findings));
    assert_eq!(
        signal,
        Some(Signal::ResearchPublished {
            title: "Finding best".to_string(),
            relevance_score: 900_000,
            domain: "cs.AI".to_string(),
        })
    );
    let cached = scheduler.get_recent_findings(10);
    let ids: Vec<&str> = cached.iter().map(|f| f.id.as_str()).collect();
    assert_eq!(ids, vec!["second", "best"]);
}

#[test]
fn low_scoring_best_finding_falls_back_to_new_technology() {
    let mut scheduler = TaskScheduler::new();
    let running = task("a", TaskPriority::Normal);
    let findings = vec![finding("weak", ResearchSource::CustomFeed("news".to_string()), 550_000)];
    let signal = scheduler.execute_task(&running, SearchOutcome::Found(findings));
    assert_eq!(
        signal,
        Some(Signal::NewTechnologyDetected {
            name: "Finding weak".to_string(),
            relevance_score: 550_000,
            source: "CustomFeed(\"news\")".to_string(),
        })
    );
    assert_eq!(scheduler.get_recent_findings(10).len(), 1);
}

#[test]
fn full_queue_gives_up_the_task_that_was_created_first() {
    let mut scheduler = TaskScheduler::new();
    // A normal task comes first, a high task later: the high task stands
    // at the head of the queue, but the normal task is the oldest.
    scheduler.add_task(ResearchTask::created(
        "old-normal".to_string(),
        "t".to_string(),
        TaskPriority::Normal,
        NOW - 100,
    ));
    scheduler.add_task(ResearchTask::created(
        "new-high".to_string(),
        "t".to_string(),
        TaskPriority::High,
        NOW - 50,
    ));
    for i in 0..98 {
        scheduler.add_task(ResearchTask::created(
            format!("l{}", i),
            "t".to_string(),
            TaskPriority::Low,
            NOW + i,
        ));
    }
    assert_eq!(scheduler.get_queue_status().total, 100);

    scheduler.add_task(task("critical", TaskPriority::Critical));
    let status = scheduler.get_queue_status();
    assert_eq!(status.total, 100);
    assert_eq!(status.by_priority.normal, 0);
    assert_eq!(status.by_priority.high, 1);
    let ids = drain(&mut scheduler);
    assert_eq!(ids[0], "critical");
    assert_eq!(ids[1], "new-high");
    assert_eq!(ids[2], "l0");
    assert!(!ids.contains(&"old-normal".to_string()));

    // The next to leave is the oldest of what is left, again whatever its
    // priority; of tasks created at the same time, the first in the queue.
    let mut scheduler = TaskScheduler::new();
    scheduler.add_task(ResearchTask::created("h".to_string(), "t".to_string(), TaskPriority::High, 7));
    for i in 0..99 {
        scheduler.add_task(ResearchTask::created(
            format!("n{}", i),
            "t".to_string(),
            TaskPriority::Normal,
            7,
        ));
    }
    scheduler.add_task(task("low", TaskPriority::Low));
    let ids = drain(&mut scheduler);
    assert_eq!(ids.len(), 100);
    assert_eq!(ids[0], "n0");
    assert_eq!(ids[99], "low");
    assert!(!ids.contains(&"h".to_string()));
}

#[test]
fn dequeued_task_keeps_its_other_fields() {
    let mut scheduler = TaskScheduler::new();
    let queued = ResearchTask::created("id-1".to_string(), "topic".to_string(), TaskPriority::Low, 42)
        .with_source(ResearchSource::ArXiv);
    scheduler.add_task(queued);
    let handed = scheduler.get_next_task_at(99).unwrap();
    assert_eq!(
        handed,
        ResearchTask {
            id: "id-1".to_string(),
            topic: "topic".to_string(),
            priority: TaskPriority::Low,
            status: TaskStatus::Running,
            source: Some(ResearchSource::ArXiv),
            created_at: 42,
            started_at: Some(99),
            completed_at: None,
            retry_count: 0,
            max_retries: 3,
        }
    );
}

#[test]
fn the_first_finding_of_the_list_becomes_the_signal() {
    let mut scheduler = TaskScheduler::new();
    let running = task("a", TaskPriority::Normal);
    let findings = vec![
        finding("low", ResearchSource::ArXiv, 610_000),
        finding("top", ResearchSource::ArXiv, 900_000),
        finding("tie", ResearchSource::ArXiv, 900_000),
        finding("mid", ResearchSource::ArXiv, 700_000),
    ];
    let signal = scheduler.execute_task(&running, SearchOutcome::Found(findings));
    assert_eq!(
        signal,
        Some(Signal::ResearchPublished {
            title: "Finding low".to_string(),
            relevance_score: 610_000,
            domain: "cs.AI".to_string(),
        })
    );
    let cached = scheduler.get_recent_findings(10);
    let ids: Vec<&str> = cached.iter().map(|f| f.id.as_str()).collect();
    assert_eq!(ids, vec!["mid", "tie", "top", "low"]);

    // A first finding that the routing passes over still gives a signal.
    let findings = vec![
        finding("first", ResearchSource::GitHub, 500_000),
        finding("second", ResearchSource::ArXiv, 900_000),
    ];
    let signal = scheduler.execute_task(&running, SearchOutcome::Found(findings));
    assert_eq!(
        signal,
        Some(Signal::NewTechnologyDetected {
            name: "Finding first".to_string(),
            relevance_score: 500_000,
            source: "GitHub".to_string(),
        })
    );
}
