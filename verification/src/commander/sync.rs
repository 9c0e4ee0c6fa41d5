//! Synchronization with the remote knowledge service: a connectivity state
//! and a bounded queue of items that wait for transmission.

use vstd::prelude::*;
use std::collections::VecDeque;
use super::SyncStatus;
use crate::platform::{fresh_id, now_timestamp};
use crate::text::clone_optional_string;

verus! {

/// Settings of the synchronization.
#[derive(Debug, PartialEq)]
pub struct SyncConfig {
    pub ckc_url: String,
    pub api_key: Option<String>,
    pub sync_interval_seconds: u64,
    pub batch_size: usize,
    pub retry_attempts: u32,
    pub offline_queue_max: usize,
}

impl Default for SyncConfig {
    fn default() -> (r: Self)
        ensures
            r.ckc_url@ == "http://localhost:7779"@,
            r.api_key is None,
            r.sync_interval_seconds == 60,
            r.batch_size == 10,
            r.retry_attempts == 3,
            r.offline_queue_max == 1000,
    {
        SyncConfig {
            ckc_url: String::from_str("http://localhost:7779"),
            api_key: None,
            sync_interval_seconds: 60,
            batch_size: 10,
            retry_attempts: 3,
            offline_queue_max: 1000,
        }
    }
}

impl Clone for SyncConfig {
    fn clone(&self) -> (r: Self)
        ensures
            r.ckc_url@ == self.ckc_url@,
            r.api_key.deep_view() == self.api_key.deep_view(),
            r.sync_interval_seconds == self.sync_interval_seconds,
            r.batch_size == self.batch_size,
            r.retry_attempts == self.retry_attempts,
            r.offline_queue_max == self.offline_queue_max,
    {
        SyncConfig {
            ckc_url: self.ckc_url.clone(),
            api_key: clone_optional_string(&self.api_key),
            sync_interval_seconds: self.sync_interval_seconds,
            batch_size: self.batch_size,
            retry_attempts: self.retry_attempts,
            offline_queue_max: self.offline_queue_max,
        }
    }
}

/// What kind of thing waits for transmission.
#[derive(Debug, Clone, Copy, PartialEq, Eq, Structural)]
pub enum SyncItemType {
    Finding,
    Decision,
    Telemetry,
    AgentLearning,
}

/// An item that waits for transmission.
#[derive(Debug, PartialEq)]
pub struct SyncItem {
    pub id: String,
    pub item_type: SyncItemType,
    /// The payload as JSON text.
    pub data: String,
    /// Seconds since the Unix epoch.
    pub created_at: i64,
    pub retry_count: u32,
}

/// Why a synchronization failed.
#[derive(Debug, PartialEq)]
pub enum SyncError {
    ConnectionFailed,
    AuthFailed,
    NetworkError(String),
    ServerError(String),
    SerializationError(String),
}

impl SyncError {
    /// The error as a sentence for the user.
    pub open spec fn spec_message(self) -> Seq<char> {
        match self {
            SyncError::ConnectionFailed => "Connection failed"@,
            SyncError::AuthFailed => "Authentication failed"@,
            SyncError::NetworkError(m) => "Network error: "@ + m@,
            SyncError::ServerError(m) => "Server error: "@ + m@,
            SyncError::SerializationError(m) => "Serialization error: "@ + m@,
        }
    }

    /// The error as a sentence for the user.
    pub fn message(&self) -> (r: String)
        ensures
            r@ == self.spec_message(),
    {
        match self {
            SyncError::ConnectionFailed => String::from_str("Connection failed"),
            SyncError::AuthFailed => String::from_str("Authentication failed"),
            SyncError::NetworkError(m) => {
                let mut r = String::from_str("Network error: ");
                r.append(m.as_str());
                r
            },
            SyncError::ServerError(m) => {
                let mut r = String::from_str("Server error: ");
                r.append(m.as_str());
                r
            },
            SyncError::SerializationError(m) => {
                let mut r = String::from_str("Serialization error: ");
                r.append(m.as_str());
                r
            },
        }
    }
}

/// What one synchronization did.
#[derive(Debug, Clone, Copy, PartialEq, Eq, Structural)]
pub struct SyncResult {
    pub items_synced: usize,
    pub items_failed: usize,
    /// Seconds since the Unix epoch.
    pub sync_time: i64,
}

/// Where the synchronization stands.
#[derive(Debug, PartialEq)]
pub struct SyncStats {
    pub status: SyncStatus,
    pub queue_size: usize,
    pub last_sync: Option<i64>,
}

/// What a synchronization needs next.
#[derive(Debug, PartialEq)]
pub enum SyncStep {
    /// The service has to be probed at this address before anything is sent.
    Probe { url: String },
    /// The synchronization is over.
    Done(Result<SyncResult, SyncError>),
}

/// The synchronization manager.
#[derive(Debug)]
pub struct CkcSync {
    config: SyncConfig,
    status: SyncStatus,
    offline_queue: VecDeque<SyncItem>,
    last_sync: Option<i64>,
}

/// The model of a `CkcSync`.
pub struct SyncView {
    pub config: SyncConfig,
    pub status: SyncStatus,
    /// The items that wait, oldest first.
    pub queue: Seq<SyncItem>,
    pub last_sync: Option<i64>,
}

impl View for CkcSync {
    type V = SyncView;

    closed spec fn view(&self) -> SyncView {
        SyncView {
            config: self.config,
            status: self.status,
            queue: self.offline_queue@,
            last_sync: self.last_sync,
        }
    }
}

/// The address that the service is probed at.
pub open spec fn spec_health_url(base: Seq<char>) -> Seq<char> {
    base + "/health"@
}

/// The queue after `item` was added at its end: where that makes it longer
/// than `capacity`, the oldest items leave until it is not.
pub open spec fn spec_offer(queue: Seq<SyncItem>, item: SyncItem, capacity: usize) -> Seq<SyncItem> {
    let grown = queue.push(item);
    if grown.len() > capacity {
        grown.skip(grown.len() - capacity)
    } else {
        grown
    }
}

/// `item` is new: of the kind and with the payload given, never retried.
pub open spec fn spec_new_item(item: SyncItem, item_type: SyncItemType, data: String) -> bool {
    &&& item.item_type == item_type
    &&& item.data == data
    &&& item.retry_count == 0
}

/// How many items one batch takes off the queue.
pub open spec fn spec_batch(queue: Seq<SyncItem>, batch_size: usize) -> int {
    if queue.len() < batch_size {
        queue.len() as int
    } else {
        batch_size as int
    }
}

/// The state after one batch was sent at the time `now`.
pub open spec fn spec_after_batch(before: SyncView, now: i64) -> SyncView {
    SyncView {
        queue: before.queue.skip(spec_batch(before.queue, before.config.batch_size)),
        last_sync: Some(now),
        ..before
    }
}

/// What one batch reports.
pub open spec fn spec_batch_result(before: SyncView, now: i64) -> SyncResult {
    SyncResult {
        items_synced: spec_batch(before.queue, before.config.batch_size) as usize,
        items_failed: 0,
        sync_time: now,
    }
}

impl CkcSync {
    /// A disconnected manager with the default settings and nothing queued.
    pub fn new() -> (r: Self)
        ensures
            r@.status is Disconnected,
            r@.queue == Seq::<SyncItem>::empty(),
            r@.last_sync is None,
            r@.config.ckc_url@ == "http://localhost:7779"@,
            r@.config.api_key is None,
            r@.config.sync_interval_seconds == 60,
            r@.config.batch_size == 10,
            r@.config.retry_attempts == 3,
            r@.config.offline_queue_max == 1000,
    {
        CkcSync {
            config: SyncConfig::default(),
            status: SyncStatus::Disconnected,
            offline_queue: VecDeque::new(),
            last_sync: None,
        }
    }

    /// The connectivity as it stands.
    pub fn get_status(&self) -> (r: SyncStatus)
        ensures
            r == self@.status,
    {
        self.status.clone()
    }

    /// Replaces the settings.
    pub fn update_config(&mut self, config: SyncConfig)
        ensures
            final(self)@ == (SyncView { config, ..old(self)@ }),
    {
        self.config = config;
    }

    /// Begins a connection attempt: the status becomes `Syncing`, and the
    /// address to probe is returned.
    pub fn connect(&mut self) -> (url: String)
        ensures
            url@ == spec_health_url(old(self)@.config.ckc_url@),
            final(self)@ == (SyncView { status: SyncStatus::Syncing, ..old(self)@ }),
    {
        let mut url = self.config.ckc_url.clone();
        url.append("/health");
        self.status = SyncStatus::Syncing;
        url
    }

    /// Ends a connection attempt with the outcome of the probe.
    pub fn finish_connect(&mut self, reachable: bool) -> (r: Result<(), SyncError>)
        ensures
            reachable ==> r is Ok && final(self)@ == (SyncView {
                status: SyncStatus::Connected,
                ..old(self)@
            }),
            !reachable ==> r == Err::<(), SyncError>(SyncError::ConnectionFailed) && final(self)@
                == (SyncView { status: SyncStatus::Disconnected, ..old(self)@ }),
    {
        if reachable {
            self.status = SyncStatus::Connected;
            Ok(())
        } else {
            self.status = SyncStatus::Disconnected;
            Err(SyncError::ConnectionFailed)
        }
    }

    /// Takes up to one batch of items off the queue, oldest first, and tells
    /// how many.
    pub fn process_offline_queue(&mut self) -> (r: Result<usize, SyncError>)
        ensures
            r == Ok::<usize, SyncError>(
                spec_batch(old(self)@.queue, old(self)@.config.batch_size) as usize,
            ),
            final(self)@ == (SyncView {
                queue: old(self)@.queue.skip(
                    spec_batch(old(self)@.queue, old(self)@.config.batch_size),
                ),
                ..old(self)@
            }),
    {
        let ghost before = self.offline_queue@;
        let batch_size = self.config.batch_size;
        let mut synced: usize = 0;
        assert(before.skip(0) =~= before);
        while synced < batch_size
            invariant
                synced <= batch_size,
                synced <= before.len(),
                self.offline_queue@ == before.skip(synced as int),
                self.config == old(self).config,
                self.status == old(self).status,
                self.last_sync == old(self).last_sync,
            ensures
                synced == spec_batch(before, batch_size),
                self.offline_queue@ == before.skip(synced as int),
                self.config == old(self).config,
                self.status == old(self).status,
                self.last_sync == old(self).last_sync,
            decreases batch_size - synced,
        {
            match self.offline_queue.pop_front() {
                Some(_item) => {
                    synced += 1;
                    assert(self.offline_queue@ =~= before.skip(synced as int));
                },
                None => {
                    break ;
                },
            }
        }
        Ok(synced)
    }

    /// Sends one batch at the time `now`, where the service is not known to
    /// be out of reach; else begins a connection attempt and asks for a probe.
    pub fn sync_now_at(&mut self, now: i64) -> (r: SyncStep)
        ensures
            old(self)@.status is Disconnected ==> {
                &&& r matches SyncStep::Probe { url }
                &&& url@ == spec_health_url(old(self)@.config.ckc_url@)
                &&& final(self)@ == (SyncView { status: SyncStatus::Syncing, ..old(self)@ })
            },
            !(old(self)@.status is Disconnected) ==> {
                &&& r == SyncStep::Done(Ok(spec_batch_result(old(self)@, now)))
                &&& final(self)@ == spec_after_batch(old(self)@, now)
            },
    {
        if matches!(self.status, SyncStatus::Disconnected) {
            let url = self.connect();
            return SyncStep::Probe { url };
        }
        SyncStep::Done(Ok(self.send_batch(now)))
    }

    /// As `sync_now_at`, at the current time.
    pub fn sync_now(&mut self) -> (r: SyncStep)
        ensures
            old(self)@.status is Disconnected ==> {
                &&& r matches SyncStep::Probe { url }
                &&& url@ == spec_health_url(old(self)@.config.ckc_url@)
                &&& final(self)@ == (SyncView { status: SyncStatus::Syncing, ..old(self)@ })
            },
            !(old(self)@.status is Disconnected) ==> exists|now: i64|
                {
                    &&& r == SyncStep::Done(Ok(spec_batch_result(old(self)@, now)))
                    &&& final(self)@ == spec_after_batch(old(self)@, now)
                },
    {
        let now = now_timestamp();
        self.sync_now_at(now)
    }

    /// Goes on after the probe that `sync_now` asked for: a service in reach
    /// gets one batch at the time `now`; one out of reach fails the
    /// synchronization and leaves the queue as it is.
    pub fn resume_sync_at(&mut self, reachable: bool, now: i64) -> (r: Result<SyncResult, SyncError>)
        ensures
            reachable ==> {
                &&& r == Ok::<SyncResult, SyncError>(spec_batch_result(old(self)@, now))
                &&& final(self)@ == spec_after_batch(
                    SyncView { status: SyncStatus::Connected, ..old(self)@ },
                    now,
                )
            },
            !reachable ==> {
                &&& r == Err::<SyncResult, SyncError>(SyncError::ConnectionFailed)
                &&& final(self)@ == (SyncView { status: SyncStatus::Disconnected, ..old(self)@ })
            },
    {
        match self.finish_connect(reachable) {
            Ok(()) => Ok(self.send_batch(now)),
            Err(e) => Err(e),
        }
    }

    /// As `resume_sync_at`, at the current time.
    pub fn resume_sync(&mut self, reachable: bool) -> (r: Result<SyncResult, SyncError>)
        ensures
            reachable ==> exists|now: i64|
                {
                    &&& r == Ok::<SyncResult, SyncError>(spec_batch_result(old(self)@, now))
                    &&& final(self)@ == spec_after_batch(
                        SyncView { status: SyncStatus::Connected, ..old(self)@ },
                        now,
                    )
                },
            !reachable ==> {
                &&& r == Err::<SyncResult, SyncError>(SyncError::ConnectionFailed)
                &&& final(self)@ == (SyncView { status: SyncStatus::Disconnected, ..old(self)@ })
            },
    {
        let now = now_timestamp();
        self.resume_sync_at(reachable, now)
    }

    /// Sends one batch and stamps the time.
    fn send_batch(&mut self, now: i64) -> (r: SyncResult)
        ensures
            r == spec_batch_result(old(self)@, now),
            final(self)@ == spec_after_batch(old(self)@, now),
    {
        let items_synced = match self.process_offline_queue() {
            Ok(n) => n,
            Err(_) => 0,
        };
        self.last_sync = Some(now);
        SyncResult { items_synced, items_failed: 0, sync_time: now }
    }

    /// Puts `item` at the end of the queue; the oldest items leave where the
    /// queue would else hold more than its maximum.
    pub fn enqueue(&mut self, item: SyncItem)
        ensures
            final(self)@ == (SyncView {
                queue: spec_offer(old(self)@.queue, item, old(self)@.config.offline_queue_max),
                ..old(self)@
            }),
    {
        self.offline_queue.push_back(item);
        let ghost grown = self.offline_queue@;
        let max = self.config.offline_queue_max;
        assert(grown.skip(0) =~= grown);
        while self.offline_queue.len() > max
            invariant
                grown == old(self).offline_queue@.push(item),
                self.offline_queue@.len() <= grown.len(),
                self.offline_queue@.len() == grown.len() || self.offline_queue@.len() >= max,
                self.offline_queue@ == grown.skip(grown.len() - self.offline_queue@.len()),
                max == self.config.offline_queue_max,
                self.config == old(self).config,
                self.status == old(self).status,
                self.last_sync == old(self).last_sync,
            decreases self.offline_queue@.len(),
        {
            let ghost held = self.offline_queue@;
            self.offline_queue.pop_front();
            assert(self.offline_queue@ =~= grown.skip(grown.len() - held.len() + 1));
        }
    }

    /// Queues a payload of the kind given, under a new identifier and the
    /// current time.
    pub fn queue_for_sync(&mut self, item_type: SyncItemType, data: String)
        ensures
            exists|item: SyncItem|
                {
                    &&& #[trigger] spec_new_item(item, item_type, data)
                    &&& final(self)@ == (SyncView {
                        queue: spec_offer(
                            old(self)@.queue,
                            item,
                            old(self)@.config.offline_queue_max,
                        ),
                        ..old(self)@
                    })
                },
    {
        let item = SyncItem {
            id: fresh_id(),
            item_type,
            data,
            created_at: now_timestamp(),
            retry_count: 0,
        };
        assert(spec_new_item(item, item_type, data));
        self.enqueue(item);
    }

    /// Queues a finding, given as JSON text.
    pub fn queue_finding(&mut self, finding_json: String)
        ensures
            exists|item: SyncItem|
                {
                    &&& #[trigger] spec_new_item(item, SyncItemType::Finding, finding_json)
                    &&& final(self)@ == (SyncView {
                        queue: spec_offer(
                            old(self)@.queue,
                            item,
                            old(self)@.config.offline_queue_max,
                        ),
                        ..old(self)@
                    })
                },
    {
        self.queue_for_sync(SyncItemType::Finding, finding_json);
    }

    /// The number of items that wait.
    pub fn get_queue_size(&self) -> (r: usize)
        ensures
            r == self@.queue.len(),
    {
        self.offline_queue.len()
    }

    /// When the latest batch was sent.
    pub fn get_last_sync(&self) -> (r: Option<i64>)
        ensures
            r == self@.last_sync,
    {
        self.last_sync
    }

    /// Status, queue size and time of the latest batch.
    pub fn get_stats(&self) -> (r: SyncStats)
        ensures
            r.status == self@.status,
            r.queue_size == self@.queue.len(),
            r.last_sync == self@.last_sync,
    {
        SyncStats {
            status: self.get_status(),
            queue_size: self.get_queue_size(),
            last_sync: self.get_last_sync(),
        }
    }
}

impl Default for CkcSync {
    fn default() -> (r: Self)
        ensures
            r@.status is Disconnected,
            r@.queue == Seq::<SyncItem>::empty(),
            r@.last_sync is None,
    {
        CkcSync::new()
    }
}

/// A queue that is full stays exactly full when an item is added: the oldest
/// item leaves, the others move up, and the new item, where the queue
/// holds anything at all, is the last.
pub proof fn lemma_full_queue_stays_full(queue: Seq<SyncItem>, item: SyncItem, capacity: usize)
    requires
        queue.len() == capacity,
    ensures
        spec_offer(queue, item, capacity).len() == capacity,
        capacity > 0 ==> spec_offer(queue, item, capacity).last() == item,
        forall|k: int|
            0 <= k < capacity - 1 ==> #[trigger] spec_offer(queue, item, capacity)[k] == queue[k
                + 1],
{
}

/// The queue never holds more than its maximum after an item was added, and
/// what it holds are the youngest of the old items and the new one.
pub proof fn lemma_offer_respects_capacity(queue: Seq<SyncItem>, item: SyncItem, capacity: usize)
    ensures
        spec_offer(queue, item, capacity).len() <= capacity,
        spec_offer(queue, item, capacity).len() == if queue.len() < capacity {
            queue.len() + 1
        } else {
            capacity as nat
        },
        forall|k: int|
            0 <= k < spec_offer(queue, item, capacity).len() ==> #[trigger] spec_offer(
                queue,
                item,
                capacity,
            )[k] == queue.push(item)[k + queue.len() + 1 - spec_offer(queue, item, capacity).len()],
{
}

} // verus!
