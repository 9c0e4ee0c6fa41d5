//! Rule-based decisions on signals: observe, orient, decide, act.

use vstd::prelude::*;
use crate::platform::{fresh_id, now_timestamp};
use crate::score::{scale, spec_scale, SCORE_ONE};
use crate::text::{push_two_decimals, push_whole_percent, spec_two_decimals, spec_whole_percent};

verus! {

/// How severe a vulnerability is.
#[derive(Debug, Clone, Copy, PartialEq, Eq, Structural)]
pub enum Severity {
    Critical,
    High,
    Medium,
    Low,
    Info,
}

/// The kinds of market signal.
#[derive(Debug, Clone, Copy, PartialEq, Eq, Structural)]
pub enum MarketSignalType {
    BullishTrend,
    BearishTrend,
    NewProject,
    PartnershipAnnouncement,
    RegulatoryNews,
}

/// What the commander does about a signal.
#[derive(Debug, Clone, Copy, PartialEq, Eq, Structural)]
pub enum Action {
    /// Perform deep analysis.
    DeepAnalyze,
    /// Queue for human review.
    QueueForReview,
    /// Archive without action.
    Archive,
    /// Send an immediate alert.
    ImmediateAlert,
    /// Monitor for further signals.
    Monitor,
    /// Recommend an action to the user.
    RecommendAction,
    /// Ask the user to validate.
    RequestValidation,
    /// Standard processing.
    StandardProcess,
}

impl Action {
    /// The variant's name.
    pub open spec fn spec_name(self) -> Seq<char> {
        match self {
            Action::DeepAnalyze => "DeepAnalyze"@,
            Action::QueueForReview => "QueueForReview"@,
            Action::Archive => "Archive"@,
            Action::ImmediateAlert => "ImmediateAlert"@,
            Action::Monitor => "Monitor"@,
            Action::RecommendAction => "RecommendAction"@,
            Action::RequestValidation => "RequestValidation"@,
            Action::StandardProcess => "StandardProcess"@,
        }
    }

    /// The variant's name.
    pub fn name(&self) -> (r: &'static str)
        ensures
            r@ == self.spec_name(),
    {
        match self {
            Action::DeepAnalyze => "DeepAnalyze",
            Action::QueueForReview => "QueueForReview",
            Action::Archive => "Archive",
            Action::ImmediateAlert => "ImmediateAlert",
            Action::Monitor => "Monitor",
            Action::RecommendAction => "RecommendAction",
            Action::RequestValidation => "RequestValidation",
            Action::StandardProcess => "StandardProcess",
        }
    }
}

/// A typed classification of a finding, consumed once by the decision engine.
#[derive(Debug, PartialEq)]
pub enum Signal {
    /// New technology detected in a scan.
    NewTechnologyDetected { name: String, relevance_score: u32, source: String },
    /// Security vulnerability found.
    SecurityVulnerability { severity: Severity, cve_id: Option<String>, affected_component: String },
    /// Market signal detected.
    MarketSignal { signal_type: MarketSignalType, confidence: u32, details: String },
    /// Research paper published.
    ResearchPublished { title: String, relevance_score: u32, domain: String },
    /// Social media trend.
    SocialTrend { topic: String, momentum: u32, platform: String },
}

/// The model of a `Signal`. Scores are fixed-point fractions of one.
pub enum SignalView {
    NewTechnologyDetected { name: Seq<char>, relevance_score: u32, source: Seq<char> },
    SecurityVulnerability {
        severity: Severity,
        cve_id: Option<Seq<char>>,
        affected_component: Seq<char>,
    },
    MarketSignal { signal_type: MarketSignalType, confidence: u32, details: Seq<char> },
    ResearchPublished { title: Seq<char>, relevance_score: u32, domain: Seq<char> },
    SocialTrend { topic: Seq<char>, momentum: u32, platform: Seq<char> },
}

impl DeepView for Signal {
    type V = SignalView;

    open spec fn deep_view(&self) -> SignalView {
        match self {
            Signal::NewTechnologyDetected { name, relevance_score, source } => {
                SignalView::NewTechnologyDetected {
                    name: name@,
                    relevance_score: *relevance_score,
                    source: source@,
                }
            },
            Signal::SecurityVulnerability { severity, cve_id, affected_component } => {
                SignalView::SecurityVulnerability {
                    severity: *severity,
                    cve_id: cve_id.deep_view(),
                    affected_component: affected_component@,
                }
            },
            Signal::MarketSignal { signal_type, confidence, details } => {
                SignalView::MarketSignal {
                    signal_type: *signal_type,
                    confidence: *confidence,
                    details: details@,
                }
            },
            Signal::ResearchPublished { title, relevance_score, domain } => {
                SignalView::ResearchPublished {
                    title: title@,
                    relevance_score: *relevance_score,
                    domain: domain@,
                }
            },
            Signal::SocialTrend { topic, momentum, platform } => {
                SignalView::SocialTrend { topic: topic@, momentum: *momentum, platform: platform@ }
            },
        }
    }
}

/// What the rules look at in a signal.
#[derive(Debug, Clone, Copy, PartialEq, Eq, Structural)]
pub struct SignalContext {
    pub relevance_score: u32,
    pub severity: Option<Severity>,
    pub confidence: u32,
}

/// The context that a signal is judged in.
pub open spec fn spec_context(signal: SignalView) -> SignalContext {
    match signal {
        SignalView::NewTechnologyDetected { relevance_score, .. } => SignalContext {
            relevance_score,
            severity: None,
            confidence: relevance_score,
        },
        SignalView::SecurityVulnerability { severity, .. } => SignalContext {
            relevance_score: SCORE_ONE,
            severity: Some(severity),
            confidence: 900_000,
        },
        SignalView::MarketSignal { confidence, .. } => SignalContext {
            relevance_score: 700_000,
            severity: None,
            confidence,
        },
        SignalView::ResearchPublished { relevance_score, .. } => SignalContext {
            relevance_score,
            severity: None,
            confidence: relevance_score,
        },
        SignalView::SocialTrend { momentum, .. } => SignalContext {
            relevance_score: momentum,
            severity: None,
            confidence: spec_scale(momentum as int, 700_000) as u32,
        },
    }
}

/// The canonical label of a signal's type.
pub open spec fn spec_signal_type(signal: SignalView) -> Seq<char> {
    match signal {
        SignalView::NewTechnologyDetected { .. } => "new_technology_detected"@,
        SignalView::SecurityVulnerability { .. } => "security_vulnerability"@,
        SignalView::MarketSignal { .. } => "market_signal"@,
        SignalView::ResearchPublished { .. } => "research_published"@,
        SignalView::SocialTrend { .. } => "social_trend"@,
    }
}

/// The rule table: the action taken on a signal and the confidence in it.
pub open spec fn spec_rule(signal: SignalView) -> (Action, u32) {
    match signal {
        SignalView::NewTechnologyDetected { relevance_score, .. } => {
            if relevance_score > 800_000 {
                (Action::DeepAnalyze, 900_000u32)
            } else if relevance_score > 500_000 {
                (Action::QueueForReview, 700_000u32)
            } else {
                (Action::Archive, 800_000u32)
            }
        },
        SignalView::SecurityVulnerability { severity, .. } => {
            if severity == Severity::Critical {
                (Action::ImmediateAlert, 950_000u32)
            } else if severity == Severity::High {
                (Action::DeepAnalyze, 850_000u32)
            } else {
                (Action::StandardProcess, 700_000u32)
            }
        },
        SignalView::MarketSignal { confidence, .. } => {
            if confidence > 900_000 {
                (Action::RecommendAction, 850_000u32)
            } else if confidence > 700_000 {
                (Action::RequestValidation, 750_000u32)
            } else {
                (Action::Monitor, 600_000u32)
            }
        },
        SignalView::ResearchPublished { relevance_score, .. } => {
            if relevance_score > 700_000 {
                (Action::DeepAnalyze, 800_000u32)
            } else {
                (Action::Archive, 700_000u32)
            }
        },
        SignalView::SocialTrend { momentum, .. } => {
            if momentum > 800_000 {
                (Action::DeepAnalyze, 700_000u32)
            } else {
                (Action::Monitor, 600_000u32)
            }
        },
    }
}

/// Whether a human has to approve the action.
pub open spec fn spec_requires_approval(action: Action, confidence: u32) -> bool {
    match action {
        Action::ImmediateAlert => false,
        Action::Archive => false,
        Action::Monitor => false,
        Action::StandardProcess => false,
        Action::DeepAnalyze => confidence < 850_000,
        Action::RecommendAction => true,
        Action::RequestValidation => true,
        Action::QueueForReview => true,
    }
}

/// The sentence that explains a decision.
pub open spec fn spec_rationale(signal: SignalView, action: Action) -> Seq<char> {
    match signal {
        SignalView::SecurityVulnerability { severity, .. } if severity == Severity::Critical
            && action == Action::ImmediateAlert => {
            "Critical security vulnerability detected - immediate attention required"@
        },
        SignalView::NewTechnologyDetected { name, relevance_score, .. } if action
            == Action::DeepAnalyze => {
            "High relevance technology '"@ + name + "' detected (score: "@ + spec_two_decimals(
                relevance_score as int,
            ) + ") - deep analysis recommended"@
        },
        SignalView::MarketSignal { confidence, .. } if action == Action::RecommendAction => {
            "High confidence market signal ("@ + spec_whole_percent(confidence as int)
                + "%) - action recommended"@
        },
        _ => "Standard processing for "@ + action.spec_name(),
    }
}

/// The outcome of one decision cycle.
#[derive(Debug, PartialEq)]
pub struct Decision {
    pub id: String,
    pub signal_type: String,
    pub action: Action,
    /// Fixed-point fraction of one.
    pub confidence: u32,
    pub rationale: String,
    /// Seconds since the Unix epoch.
    pub timestamp: i64,
    pub requires_approval: bool,
}

impl Decision {
    /// The decision is the one that the rules give for `signal`.
    pub open spec fn follows_from(&self, signal: SignalView) -> bool {
        &&& self.signal_type@ == spec_signal_type(signal)
        &&& self.action == spec_rule(signal).0
        &&& self.confidence == spec_rule(signal).1
        &&& self.rationale@ == spec_rationale(signal, spec_rule(signal).0)
        &&& self.requires_approval == spec_requires_approval(
            spec_rule(signal).0,
            spec_rule(signal).1,
        )
    }
}

/// The decision engine. It holds no state: a decision depends on the signal alone.
#[derive(Debug, Clone, Copy, PartialEq, Eq, Structural)]
pub struct DecisionEngine {}

impl DecisionEngine {
    pub fn new() -> (r: Self) {
        DecisionEngine {  }
    }

    /// Observe: extracts what the rules look at.
    pub fn build_context(&self, signal: &Signal) -> (r: SignalContext)
        ensures
            r == spec_context(signal.deep_view()),
    {
        match signal {
            Signal::NewTechnologyDetected { relevance_score, .. } => SignalContext {
                relevance_score: *relevance_score,
                severity: None,
                confidence: *relevance_score,
            },
            Signal::SecurityVulnerability { severity, .. } => SignalContext {
                relevance_score: SCORE_ONE,
                severity: Some(*severity),
                confidence: 900_000,
            },
            Signal::MarketSignal { confidence, .. } => SignalContext {
                relevance_score: 700_000,
                severity: None,
                confidence: *confidence,
            },
            Signal::ResearchPublished { relevance_score, .. } => SignalContext {
                relevance_score: *relevance_score,
                severity: None,
                confidence: *relevance_score,
            },
            Signal::SocialTrend { momentum, .. } => {
                let scaled: u64 = scale(*momentum, 700_000);
                assert(scaled <= u32::MAX) by {
                    assert((*momentum as int) * 700_000 / 1_000_000 <= *momentum as int)
                        by (nonlinear_arith)
                        requires
                            0 <= *momentum,
                    ;
                }
                SignalContext {
                    relevance_score: *momentum,
                    severity: None,
                    confidence: scaled as u32,
                }
            },
        }
    }

    /// Orient: the canonical label of the signal's type.
    pub fn get_signal_type(&self, signal: &Signal) -> (r: String)
        ensures
            r@ == spec_signal_type(signal.deep_view()),
    {
        match signal {
            Signal::NewTechnologyDetected { .. } => String::from_str("new_technology_detected"),
            Signal::SecurityVulnerability { .. } => String::from_str("security_vulnerability"),
            Signal::MarketSignal { .. } => String::from_str("market_signal"),
            Signal::ResearchPublished { .. } => String::from_str("research_published"),
            Signal::SocialTrend { .. } => String::from_str("social_trend"),
        }
    }

    /// Decide: looks the signal up in the rule table.
    pub fn apply_rules(&self, signal: &Signal, context: &SignalContext) -> (r: (Action, u32))
        ensures
            r == spec_rule(signal.deep_view()),
            r.1 <= SCORE_ONE,
    {
        match signal {
            Signal::NewTechnologyDetected { relevance_score, .. } => {
                if *relevance_score > 800_000 {
                    (Action::DeepAnalyze, 900_000)
                } else if *relevance_score > 500_000 {
                    (Action::QueueForReview, 700_000)
                } else {
                    (Action::Archive, 800_000)
                }
            },
            Signal::SecurityVulnerability { severity, .. } => {
                match severity {
                    Severity::Critical => (Action::ImmediateAlert, 950_000),
                    Severity::High => (Action::DeepAnalyze, 850_000),
                    _ => (Action::StandardProcess, 700_000),
                }
            },
            Signal::MarketSignal { confidence, .. } => {
                if *confidence > 900_000 {
                    (Action::RecommendAction, 850_000)
                } else if *confidence > 700_000 {
                    (Action::RequestValidation, 750_000)
                } else {
                    (Action::Monitor, 600_000)
                }
            },
            Signal::ResearchPublished { relevance_score, .. } => {
                if *relevance_score > 700_000 {
                    (Action::DeepAnalyze, 800_000)
                } else {
                    (Action::Archive, 700_000)
                }
            },
            Signal::SocialTrend { momentum, .. } => {
                if *momentum > 800_000 {
                    (Action::DeepAnalyze, 700_000)
                } else {
                    (Action::Monitor, 600_000)
                }
            },
        }
    }

    /// The sentence that explains why `action` was taken on `signal`.
    pub fn generate_rationale(&self, signal: &Signal, action: &Action) -> (r: String)
        ensures
            r@ == spec_rationale(signal.deep_view(), *action),
    {
        match (signal, action) {
            (
                Signal::SecurityVulnerability { severity: Severity::Critical, .. },
                Action::ImmediateAlert,
            ) => {
                String::from_str(
                    "Critical security vulnerability detected - immediate attention required",
                )
            },
            (Signal::NewTechnologyDetected { relevance_score, name, .. }, Action::DeepAnalyze) => {
                let mut r = String::from_str("High relevance technology '");
                r.append(name.as_str());
                r.append("' detected (score: ");
                push_two_decimals(&mut r, *relevance_score);
                r.append(") - deep analysis recommended");
                r
            },
            (Signal::MarketSignal { confidence, .. }, Action::RecommendAction) => {
                let mut r = String::from_str("High confidence market signal (");
                push_whole_percent(&mut r, *confidence);
                r.append("%) - action recommended");
                r
            },
            _ => {
                let mut r = String::from_str("Standard processing for ");
                r.append(action.name());
                r
            },
        }
    }

    /// Whether a human has to approve `action` at that confidence.
    pub fn requires_approval(&self, action: &Action, confidence: u32) -> (r: bool)
        ensures
            r == spec_requires_approval(*action, confidence),
    {
        match action {
            Action::ImmediateAlert => false,
            Action::Archive => false,
            Action::Monitor => false,
            Action::DeepAnalyze => confidence < 850_000,
            Action::RecommendAction => true,
            Action::RequestValidation => true,
            Action::QueueForReview => true,
            Action::StandardProcess => false,
        }
    }

    /// Act: the decision on `signal`, under the identifier and the time given.
    pub fn decide(&self, signal: Signal, id: String, timestamp: i64) -> (r: Decision)
        ensures
            r.follows_from(signal.deep_view()),
            r.id == id,
            r.timestamp == timestamp,
    {
        let context = self.build_context(&signal);
        let signal_type = self.get_signal_type(&signal);
        let (action, confidence) = self.apply_rules(&signal, &context);
        let rationale = self.generate_rationale(&signal, &action);
        let requires_approval = self.requires_approval(&action, confidence);
        Decision { id, signal_type, action, confidence, rationale, timestamp, requires_approval }
    }

    /// One decision cycle on `signal`, stamped with a new identifier and the
    /// current time. Action, confidence, rationale and approval depend on the
    /// signal alone.
    pub fn process_signal(&self, signal: Signal) -> (r: Decision)
        ensures
            r.follows_from(signal.deep_view()),
    {
        let id = fresh_id();
        let timestamp = now_timestamp();
        self.decide(signal, id, timestamp)
    }
}

impl Default for DecisionEngine {
    fn default() -> (r: Self) {
        DecisionEngine::new()
    }
}

/// Deciding is a function of the signal: two decisions on the same signal
/// agree in type label, action, confidence, rationale and approval.
pub proof fn lemma_decisions_agree(first: Decision, second: Decision, signal: SignalView)
    requires
        first.follows_from(signal),
        second.follows_from(signal),
    ensures
        first.signal_type@ == second.signal_type@,
        first.action == second.action,
        first.confidence == second.confidence,
        first.rationale@ == second.rationale@,
        first.requires_approval == second.requires_approval,
{
}

/// The confidence of every rule lies in the unit interval, and approval is
/// never asked for an alert, an archive, a monitor or a standard process.
pub proof fn lemma_rule_table_bounds(signal: SignalView)
    ensures
        600_000 <= spec_rule(signal).1 <= 950_000,
        spec_rule(signal).0 == Action::ImmediateAlert ==> !spec_requires_approval(
            spec_rule(signal).0,
            spec_rule(signal).1,
        ),
        spec_rule(signal).0 == Action::DeepAnalyze ==> (spec_requires_approval(
            spec_rule(signal).0,
            spec_rule(signal).1,
        ) <==> !(signal is NewTechnologyDetected || signal is SecurityVulnerability)),
{
}

} // verus!
