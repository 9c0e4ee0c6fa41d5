use cla_commander::commander::sync::{
    CkcSync, SyncConfig, SyncError, SyncItem, SyncItemType, SyncResult, SyncStep,
};
use cla_commander::commander::SyncStatus;

const NOW: i64 = 1_700_000_000;

fn item(id: &str) -> SyncItem {
    SyncItem {
        id: id.to_string(),
        item_type: SyncItemType::Telemetry,
        data: format!("{{\"n\":\"{}\"}}", id),
        created_at: NOW,
        retry_count: 0,
    }
}

fn small(max: usize, batch: usize) -> CkcSync {
    let mut sync = CkcSync::new();
    sync.update_config(SyncConfig {
        offline_queue_max: max,
        batch_size: batch,
        ..SyncConfig::default()
    });
    sync
}

#[test]
fn default_sync_configuration() {
    let config = SyncConfig::default();
    assert_eq!(config.ckc_url, "http://localhost:7779");
    assert_eq!(config.api_key, None);
    assert_eq!(config.sync_interval_seconds, 60);
    assert_eq!(config.batch_size, 10);
    assert_eq!(config.retry_attempts, 3);
    assert_eq!(config.offline_queue_max, 1000);
    assert_eq!(config.clone(), config);
}

#[test]
fn new_manager_is_disconnected_and_empty() {
    let sync = CkcSync::default();
    assert_eq!(sync.get_status(), SyncStatus::Disconnected);
    assert_eq!(sync.get_queue_size(), 0);
    assert_eq!(sync.get_last_sync(), None);
    let stats = sync.get_stats();
    assert_eq!(stats.status, SyncStatus::Disconnected);
    assert_eq!(stats.queue_size, 0);
    assert_eq!(stats.last_sync, None);
}

#[test]
fn queue_stays_at_its_maximum_and_drops_the_oldest() {
    let mut sync = small(3, 10);
    for id in ["a", "b", "c"] {
        sync.enqueue(item(id));
    }
    assert_eq!(sync.get_queue_size(), 3);
    sync.enqueue(item("d"));
    assert_eq!(sync.get_queue_size(), 3);
    sync.enqueue(item("e"));
    assert_eq!(sync.get_queue_size(), 3);

    // Connected, a batch takes what is left: the three youngest.
    assert!(matches!(sync.sync_now_at(NOW), SyncStep::Probe { .. }));
    assert_eq!(
        sync.resume_sync_at(true, NOW),
        Ok(SyncResult { items_synced: 3, items_failed: 0, sync_time: NOW })
    );
    assert_eq!(sync.get_queue_size(), 0);
}

#[test]
fn queue_for_sync_respects_the_maximum() {
    let mut sync = small(2, 10);
    sync.queue_for_sync(SyncItemType::Decision, "{}".to_string());
    sync.queue_for_sync(SyncItemType::AgentLearning, "{}".to_string());
    sync.queue_finding("{\"id\":\"f\"}".to_string());
    assert_eq!(sync.get_queue_size(), 2);
}

#[test]
fn connecting_probes_the_health_endpoint() {
    let mut sync = CkcSync::new();
    let url = sync.connect();
    assert_eq!(url, "http://localhost:7779/health");
    assert_eq!(sync.get_status(), SyncStatus::Syncing);
    assert_eq!(sync.finish_connect(false), Err(SyncError::ConnectionFailed));
    assert_eq!(sync.get_status(), SyncStatus::Disconnected);
    sync.connect();
    assert_eq!(sync.finish_connect(true), Ok(()));
    assert_eq!(sync.get_status(), SyncStatus::Connected);
}

#[test]
fn sync_when_disconnected_asks_for_a_probe() {
    let mut sync = small(10, 2);
    sync.enqueue(item("a"));
    assert_eq!(
        sync.sync_now_at(NOW),
        SyncStep::Probe { url: "http://localhost:7779/health".to_string() }
    );
    assert_eq!(sync.get_status(), SyncStatus::Syncing);
    assert_eq!(sync.resume_sync_at(false, NOW), Err(SyncError::ConnectionFailed));
    assert_eq!(sync.get_status(), SyncStatus::Disconnected);
    assert_eq!(sync.get_queue_size(), 1);
    assert_eq!(sync.get_last_sync(), None);
    assert!(matches!(sync.sync_now(), SyncStep::Probe { .. }));
    assert_eq!(sync.resume_sync(false), Err(SyncError::ConnectionFailed));
}

#[test]
fn sync_sends_batches_oldest_first() {
    let mut sync = small(10, 2);
    for id in ["a", "b", "c", "d", "e"] {
        sync.enqueue(item(id));
    }
    assert!(matches!(sync.sync_now_at(NOW), SyncStep::Probe { .. }));
    assert_eq!(
        sync.resume_sync_at(true, NOW),
        Ok(SyncResult { items_synced: 2, items_failed: 0, sync_time: NOW })
    );
    assert_eq!(sync.get_status(), SyncStatus::Connected);
    assert_eq!(sync.get_queue_size(), 3);
    assert_eq!(sync.get_last_sync(), Some(NOW));

    assert_eq!(
        sync.sync_now_at(NOW + 60),
        SyncStep::Done(Ok(SyncResult { items_synced: 2, items_failed: 0, sync_time: NOW + 60 }))
    );
    assert_eq!(
        sync.sync_now_at(NOW + 120),
        SyncStep::Done(Ok(SyncResult { items_synced: 1, items_failed: 0, sync_time: NOW + 120 }))
    );
    assert_eq!(
        sync.sync_now_at(NOW + 180),
        SyncStep::Done(Ok(SyncResult { items_synced: 0, items_failed: 0, sync_time: NOW + 180 }))
    );
    assert_eq!(sync.get_last_sync(), Some(NOW + 180));
    assert_eq!(sync.process_offline_queue(), Ok(0));
    assert!(matches!(sync.sync_now(), SyncStep::Done(Ok(_))));
}

#[test]
fn sync_error_messages() {
    assert_eq!(SyncError::ConnectionFailed.message(), "Connection failed");
    assert_eq!(SyncError::AuthFailed.message(), "Authentication failed");
    assert_eq!(SyncError::NetworkError("x".to_string()).message(), "Network error: x");
    assert_eq!(SyncError::ServerError("x".to_string()).message(), "Server error: x");
    assert_eq!(
        SyncError::SerializationError("x".to_string()).message(),
        "Serialization error: x"
    );
}

#[test]
fn queue_of_no_capacity_stays_empty() {
    let mut sync = small(0, 10);
    sync.enqueue(item("a"));
    assert_eq!(sync.get_queue_size(), 0);
    sync.queue_for_sync(SyncItemType::Decision, "{}".to_string());
    sync.queue_finding("{}".to_string());
    assert_eq!(sync.get_queue_size(), 0);
}

#[test]
fn queue_is_cut_to_a_lowered_maximum() {
    let mut sync = small(5, 1);
    for id in ["a", "b", "c", "d", "e"] {
        sync.enqueue(item(id));
    }
    sync.update_config(SyncConfig { offline_queue_max: 2, batch_size: 10, ..SyncConfig::default() });
    sync.enqueue(item("f"));
    assert_eq!(sync.get_queue_size(), 2);
    sync.enqueue(item("g"));
    assert_eq!(sync.get_queue_size(), 2);
    sync.connect();
    assert_eq!(sync.finish_connect(true), Ok(()));
    assert_eq!(sync.process_offline_queue(), Ok(2));
}
