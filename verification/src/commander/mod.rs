//! The commander: shared data model of the research-and-decision core.

pub mod decision_engine;
pub mod sync;
pub mod task_scheduler;
pub mod unit;

pub use decision_engine::{Action, Decision, DecisionEngine, Signal};
pub use sync::CkcSync;
pub use task_scheduler::{ResearchTask, TaskPriority, TaskScheduler};
pub use unit::CommanderUnit;

use vstd::prelude::*;
use crate::score::SCORE_ONE;
use crate::text::{clone_strings, clone_optional_string, debug_quoted, debug_quoted_string};

verus! {

/// How much human approval the commander's decisions need.
#[derive(Debug, Clone, Copy, PartialEq, Eq, Structural)]
pub enum AutonomyLevel {
    /// Every decision needs approval.
    Supervised,
    /// Low-risk decisions are automatic.
    Assisted,
    /// Only critical decisions need approval.
    Autonomous,
    /// No approval is needed.
    FullAutonomy,
}

/// Connectivity to the remote knowledge service.
#[derive(Debug, PartialEq)]
pub enum SyncStatus {
    Connected,
    Syncing,
    Disconnected,
    Error(String),
}

impl Clone for SyncStatus {
    fn clone(&self) -> (r: Self)
        ensures
            r == *self,
    {
        match self {
            SyncStatus::Connected => SyncStatus::Connected,
            SyncStatus::Syncing => SyncStatus::Syncing,
            SyncStatus::Disconnected => SyncStatus::Disconnected,
            SyncStatus::Error(reason) => SyncStatus::Error(reason.clone()),
        }
    }
}

/// Where a finding came from.
#[derive(Debug, PartialEq)]
pub enum ResearchSource {
    GitHub,
    ArXiv,
    Twitter,
    Farcaster,
    LensProtocol,
    CustomFeed(String),
}

/// The model of a `ResearchSource`.
pub enum SourceView {
    GitHub,
    ArXiv,
    Twitter,
    Farcaster,
    LensProtocol,
    CustomFeed(Seq<char>),
}

impl DeepView for ResearchSource {
    type V = SourceView;

    open spec fn deep_view(&self) -> SourceView {
        match self {
            ResearchSource::GitHub => SourceView::GitHub,
            ResearchSource::ArXiv => SourceView::ArXiv,
            ResearchSource::Twitter => SourceView::Twitter,
            ResearchSource::Farcaster => SourceView::Farcaster,
            ResearchSource::LensProtocol => SourceView::LensProtocol,
            ResearchSource::CustomFeed(name) => SourceView::CustomFeed(name@),
        }
    }
}

impl SourceView {
    /// How the source is written in logs and in signal payloads.
    pub open spec fn debug_name(self) -> Seq<char> {
        match self {
            SourceView::GitHub => "GitHub"@,
            SourceView::ArXiv => "ArXiv"@,
            SourceView::Twitter => "Twitter"@,
            SourceView::Farcaster => "Farcaster"@,
            SourceView::LensProtocol => "LensProtocol"@,
            SourceView::CustomFeed(name) => "CustomFeed("@ + debug_quoted(name) + ")"@,
        }
    }

    /// Whether the source is one of the social networks.
    pub open spec fn is_social(self) -> bool {
        self is Twitter || self is Farcaster || self is LensProtocol
    }
}

impl Clone for ResearchSource {
    fn clone(&self) -> (r: Self)
        ensures
            r.deep_view() == self.deep_view(),
    {
        match self {
            ResearchSource::GitHub => ResearchSource::GitHub,
            ResearchSource::ArXiv => ResearchSource::ArXiv,
            ResearchSource::Twitter => ResearchSource::Twitter,
            ResearchSource::Farcaster => ResearchSource::Farcaster,
            ResearchSource::LensProtocol => ResearchSource::LensProtocol,
            ResearchSource::CustomFeed(name) => ResearchSource::CustomFeed(name.clone()),
        }
    }
}

impl ResearchSource {
    /// The source as it is written in logs and in signal payloads.
    pub fn debug_name(&self) -> (r: String)
        ensures
            r@ == self.deep_view().debug_name(),
    {
        match self {
            ResearchSource::GitHub => String::from_str("GitHub"),
            ResearchSource::ArXiv => String::from_str("ArXiv"),
            ResearchSource::Twitter => String::from_str("Twitter"),
            ResearchSource::Farcaster => String::from_str("Farcaster"),
            ResearchSource::LensProtocol => String::from_str("LensProtocol"),
            ResearchSource::CustomFeed(name) => {
                let mut r = String::from_str("CustomFeed(");
                let quoted = debug_quoted_string(name.as_str());
                r.append(quoted.as_str());
                r.append(")");
                r
            },
        }
    }

    /// Whether both values name the same source.
    pub fn same_as(&self, other: &ResearchSource) -> (r: bool)
        ensures
            r == (self.deep_view() == other.deep_view()),
    {
        match (self, other) {
            (ResearchSource::GitHub, ResearchSource::GitHub) => true,
            (ResearchSource::ArXiv, ResearchSource::ArXiv) => true,
            (ResearchSource::Twitter, ResearchSource::Twitter) => true,
            (ResearchSource::Farcaster, ResearchSource::Farcaster) => true,
            (ResearchSource::LensProtocol, ResearchSource::LensProtocol) => true,
            (ResearchSource::CustomFeed(a), ResearchSource::CustomFeed(b)) => *a == *b,
            _ => false,
        }
    }
}

/// What a source reports about a finding besides its text.
#[derive(Debug, PartialEq)]
pub struct FindingMetadata {
    pub stars: Option<u64>,
    pub forks: Option<u64>,
    pub citations: Option<u64>,
    pub likes: Option<u64>,
    pub engagement: Option<u64>,
    pub language: Option<String>,
    pub created_at: Option<String>,
    pub published: Option<String>,
    pub updated: Option<String>,
    pub authors: Vec<String>,
    pub categories: Vec<String>,
}

/// The model of a `FindingMetadata`.
pub struct MetadataView {
    pub stars: Option<u64>,
    pub forks: Option<u64>,
    pub citations: Option<u64>,
    pub likes: Option<u64>,
    pub engagement: Option<u64>,
    pub language: Option<Seq<char>>,
    pub created_at: Option<Seq<char>>,
    pub published: Option<Seq<char>>,
    pub updated: Option<Seq<char>>,
    pub authors: Seq<Seq<char>>,
    pub categories: Seq<Seq<char>>,
}

impl MetadataView {
    /// Metadata that reports nothing.
    pub open spec fn empty() -> MetadataView {
        MetadataView {
            stars: None,
            forks: None,
            citations: None,
            likes: None,
            engagement: None,
            language: None,
            created_at: None,
            published: None,
            updated: None,
            authors: Seq::empty(),
            categories: Seq::empty(),
        }
    }
}

impl DeepView for FindingMetadata {
    type V = MetadataView;

    open spec fn deep_view(&self) -> MetadataView {
        MetadataView {
            stars: self.stars,
            forks: self.forks,
            citations: self.citations,
            likes: self.likes,
            engagement: self.engagement,
            language: self.language.deep_view(),
            created_at: self.created_at.deep_view(),
            published: self.published.deep_view(),
            updated: self.updated.deep_view(),
            authors: self.authors.deep_view(),
            categories: self.categories.deep_view(),
        }
    }
}

impl Clone for FindingMetadata {
    fn clone(&self) -> (r: Self)
        ensures
            r.deep_view() == self.deep_view(),
    {
        FindingMetadata {
            stars: self.stars,
            forks: self.forks,
            citations: self.citations,
            likes: self.likes,
            engagement: self.engagement,
            language: clone_optional_string(&self.language),
            created_at: clone_optional_string(&self.created_at),
            published: clone_optional_string(&self.published),
            updated: clone_optional_string(&self.updated),
            authors: clone_strings(&self.authors),
            categories: clone_strings(&self.categories),
        }
    }
}

impl Default for FindingMetadata {
    fn default() -> (r: Self)
        ensures
            r.deep_view() == MetadataView::empty(),
    {
        let r = FindingMetadata {
            stars: None,
            forks: None,
            citations: None,
            likes: None,
            engagement: None,
            language: None,
            created_at: None,
            published: None,
            updated: None,
            authors: Vec::new(),
            categories: Vec::new(),
        };
        assert(r.authors.deep_view() =~= Seq::empty());
        assert(r.categories.deep_view() =~= Seq::empty());
        r
    }
}

/// One item discovered at an external source.
#[derive(Debug, PartialEq)]
pub struct ResearchFinding {
    pub id: String,
    pub source: ResearchSource,
    pub title: String,
    pub summary: String,
    /// Fixed-point fraction of one; at most `SCORE_ONE` in a well-formed finding.
    pub relevance_score: u32,
    /// Seconds since the Unix epoch.
    pub discovered_at: i64,
    pub tags: Vec<String>,
    pub url: Option<String>,
    pub metadata: FindingMetadata,
}

/// The model of a `ResearchFinding`.
pub struct FindingView {
    pub id: Seq<char>,
    pub source: SourceView,
    pub title: Seq<char>,
    pub summary: Seq<char>,
    pub relevance_score: u32,
    pub discovered_at: i64,
    pub tags: Seq<Seq<char>>,
    pub url: Option<Seq<char>>,
    pub metadata: MetadataView,
}

impl DeepView for ResearchFinding {
    type V = FindingView;

    open spec fn deep_view(&self) -> FindingView {
        FindingView {
            id: self.id@,
            source: self.source.deep_view(),
            title: self.title@,
            summary: self.summary@,
            relevance_score: self.relevance_score,
            discovered_at: self.discovered_at,
            tags: self.tags.deep_view(),
            url: self.url.deep_view(),
            metadata: self.metadata.deep_view(),
        }
    }
}

impl ResearchFinding {
    /// The relevance score lies in the unit interval.
    pub open spec fn wf(&self) -> bool {
        self.relevance_score <= SCORE_ONE
    }
}

impl Clone for ResearchFinding {
    fn clone(&self) -> (r: Self)
        ensures
            r.deep_view() == self.deep_view(),
    {
        ResearchFinding {
            id: self.id.clone(),
            source: self.source.clone(),
            title: self.title.clone(),
            summary: self.summary.clone(),
            relevance_score: self.relevance_score,
            discovered_at: self.discovered_at,
            tags: clone_strings(&self.tags),
            url: clone_optional_string(&self.url),
            metadata: self.metadata.clone(),
        }
    }
}

/// A snapshot of the commander's state.
#[derive(Debug, PartialEq)]
pub struct CommanderStatus {
    pub is_running: bool,
    pub uptime_seconds: u64,
    pub tasks_completed: u64,
    pub tasks_pending: u64,
    /// Seconds since the Unix epoch of the latest decision, if any was made.
    pub last_decision_at: Option<i64>,
    pub sync_status: SyncStatus,
    pub autonomy_level: AutonomyLevel,
}

impl Clone for CommanderStatus {
    fn clone(&self) -> (r: Self)
        ensures
            r == *self,
    {
        CommanderStatus {
            is_running: self.is_running,
            uptime_seconds: self.uptime_seconds,
            tasks_completed: self.tasks_completed,
            tasks_pending: self.tasks_pending,
            last_decision_at: self.last_decision_at,
            sync_status: self.sync_status.clone(),
            autonomy_level: self.autonomy_level,
        }
    }
}

impl Default for CommanderStatus {
    fn default() -> (r: Self)
        ensures
            !r.is_running,
            r.uptime_seconds == 0,
            r.tasks_completed == 0,
            r.tasks_pending == 0,
            r.last_decision_at is None,
            r.sync_status is Disconnected,
            r.autonomy_level == AutonomyLevel::Supervised,
    {
        CommanderStatus {
            is_running: false,
            uptime_seconds: 0,
            tasks_completed: 0,
            tasks_pending: 0,
            last_decision_at: None,
            sync_status: SyncStatus::Disconnected,
            autonomy_level: AutonomyLevel::Supervised,
        }
    }
}

/// The commander's settings.
#[derive(Debug, PartialEq)]
pub struct CommanderConfig {
    pub enabled: bool,
    pub autonomy_level: AutonomyLevel,
    pub scan_interval_minutes: u32,
    pub max_concurrent_tasks: u32,
    /// Fixed-point fraction of one.
    pub relevance_threshold: u32,
    pub sources: Vec<ResearchSource>,
    pub alert_on_critical: bool,
    pub sync_to_cosmic_library: bool,
    pub offline_mode_enabled: bool,
}

impl Clone for CommanderConfig {
    fn clone(&self) -> (r: Self)
        ensures
            r.same_settings(*self),
    {
        let mut sources: Vec<ResearchSource> = Vec::new();
        let mut i: usize = 0;
        while i < self.sources.len()
            invariant
                i <= self.sources.len(),
                sources.len() == i,
                forall|k: int|
                    0 <= k < i ==> (#[trigger] sources@[k]).deep_view()
                        == self.sources@[k].deep_view(),
            decreases self.sources.len() - i,
        {
            sources.push(self.sources[i].clone());
            i += 1;
        }
        assert(sources.deep_view() =~= self.sources.deep_view());
        CommanderConfig {
            enabled: self.enabled,
            autonomy_level: self.autonomy_level,
            scan_interval_minutes: self.scan_interval_minutes,
            max_concurrent_tasks: self.max_concurrent_tasks,
            relevance_threshold: self.relevance_threshold,
            sources,
            alert_on_critical: self.alert_on_critical,
            sync_to_cosmic_library: self.sync_to_cosmic_library,
            offline_mode_enabled: self.offline_mode_enabled,
        }
    }
}

impl CommanderConfig {
    /// Both hold the same settings.
    pub open spec fn same_settings(self, other: CommanderConfig) -> bool {
        &&& self.enabled == other.enabled
        &&& self.autonomy_level == other.autonomy_level
        &&& self.scan_interval_minutes == other.scan_interval_minutes
        &&& self.max_concurrent_tasks == other.max_concurrent_tasks
        &&& self.relevance_threshold == other.relevance_threshold
        &&& self.sources.deep_view() == other.sources.deep_view()
        &&& self.alert_on_critical == other.alert_on_critical
        &&& self.sync_to_cosmic_library == other.sync_to_cosmic_library
        &&& self.offline_mode_enabled == other.offline_mode_enabled
    }
}

impl Default for CommanderConfig {
    fn default() -> (r: Self)
        ensures
            r.enabled,
            r.autonomy_level == AutonomyLevel::Supervised,
            r.scan_interval_minutes == 30,
            r.max_concurrent_tasks == 5,
            r.relevance_threshold == 600_000,
            r.sources.deep_view() == seq![SourceView::GitHub, SourceView::ArXiv],
            r.alert_on_critical,
            r.sync_to_cosmic_library,
            r.offline_mode_enabled,
    {
        let mut sources: Vec<ResearchSource> = Vec::new();
        sources.push(ResearchSource::GitHub);
        sources.push(ResearchSource::ArXiv);
        assert(sources.deep_view() =~= seq![SourceView::GitHub, SourceView::ArXiv]);
        CommanderConfig {
            enabled: true,
            autonomy_level: AutonomyLevel::Supervised,
            scan_interval_minutes: 30,
            max_concurrent_tasks: 5,
            relevance_threshold: 600_000,
            sources,
            alert_on_critical: true,
            sync_to_cosmic_library: true,
            offline_mode_enabled: true,
        }
    }
}

} // verus!
