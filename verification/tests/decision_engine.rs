use cla_commander::commander::decision_engine::{
    Action, Decision, DecisionEngine, MarketSignalType, Severity, Signal, SignalContext,
};
use cla_commander::commander::{FindingMetadata, ResearchFinding, ResearchSource};
use cla_commander::research::processors::SignalProcessor;

fn technology(score: u32) -> Signal {
    Signal::NewTechnologyDetected {
        name: "Widget".to_string(),
        relevance_score: score,
        source: "GitHub".to_string(),
    }
}

fn vulnerability(severity: Severity) -> Signal {
    Signal::SecurityVulnerability {
        severity,
        cve_id: Some("CVE-2024-0001".to_string()),
        affected_component: "parser".to_string(),
    }
}

fn market(confidence: u32) -> Signal {
    Signal::MarketSignal {
        signal_type: MarketSignalType::BullishTrend,
        confidence,
        details: "details".to_string(),
    }
}

fn paper(score: u32) -> Signal {
    Signal::ResearchPublished {
        title: "A Paper".to_string(),
        relevance_score: score,
        domain: "cs.AI".to_string(),
    }
}

fn trend(momentum: u32) -> Signal {
    Signal::SocialTrend {
        topic: "topic".to_string(),
        momentum,
        platform: "Twitter".to_string(),
    }
}

fn decide(signal: Signal) -> Decision {
    DecisionEngine::new().decide(signal, "decision-1".to_string(), 1_700_000_000)
}

fn finding(title: &str, source: ResearchSource, score: u32) -> ResearchFinding {
    ResearchFinding {
        id: "test-1".to_string(),
        source,
        title: title.to_string(),
        summary: "Test summary".to_string(),
        relevance_score: score,
        discovered_at: 1_700_000_000,
        tags: vec!["cs.AI".to_string()],
        url: None,
        metadata: FindingMetadata { stars: Some(500), ..FindingMetadata::default() },
    }
}

#[test]
fn rule_table_new_technology() {
    let high = decide(technology(800_001));
    assert_eq!(high.action, Action::DeepAnalyze);
    assert_eq!(high.confidence, 900_000);
    assert!(!high.requires_approval);

    let edge = decide(technology(800_000));
    assert_eq!(edge.action, Action::QueueForReview);
    assert_eq!(edge.confidence, 700_000);
    assert!(edge.requires_approval);

    let middle = decide(technology(500_001));
    assert_eq!(middle.action, Action::QueueForReview);

    let low = decide(technology(500_000));
    assert_eq!(low.action, Action::Archive);
    assert_eq!(low.confidence, 800_000);
    assert!(!low.requires_approval);
}

#[test]
fn rule_table_security_vulnerability() {
    let critical = decide(vulnerability(Severity::Critical));
    assert_eq!(critical.action, Action::ImmediateAlert);
    assert_eq!(critical.confidence, 950_000);
    assert!(!critical.requires_approval);

    let high = decide(vulnerability(Severity::High));
    assert_eq!(high.action, Action::DeepAnalyze);
    assert_eq!(high.confidence, 850_000);
    assert!(!high.requires_approval);

    for severity in [Severity::Medium, Severity::Low, Severity::Info] {
        let other = decide(vulnerability(severity));
        assert_eq!(other.action, Action::StandardProcess);
        assert_eq!(other.confidence, 700_000);
        assert!(!other.requires_approval);
    }
}

#[test]
fn rule_table_market_signal() {
    let sure = decide(market(900_001));
    assert_eq!(sure.action, Action::RecommendAction);
    assert_eq!(sure.confidence, 850_000);
    assert!(sure.requires_approval);

    let likely = decide(market(900_000));
    assert_eq!(likely.action, Action::RequestValidation);
    assert_eq!(likely.confidence, 750_000);
    assert!(likely.requires_approval);

    let unsure = decide(market(700_000));
    assert_eq!(unsure.action, Action::Monitor);
    assert_eq!(unsure.confidence, 600_000);
    assert!(!unsure.requires_approval);
}

#[test]
fn rule_table_research_published() {
    let relevant = decide(paper(700_001));
    assert_eq!(relevant.action, Action::DeepAnalyze);
    assert_eq!(relevant.confidence, 800_000);
    assert!(relevant.requires_approval);

    let marginal = decide(paper(700_000));
    assert_eq!(marginal.action, Action::Archive);
    assert_eq!(marginal.confidence, 700_000);
    assert!(!marginal.requires_approval);
}

#[test]
fn rule_table_social_trend() {
    let strong = decide(trend(800_001));
    assert_eq!(strong.action, Action::DeepAnalyze);
    assert_eq!(strong.confidence, 700_000);
    assert!(strong.requires_approval);

    let weak = decide(trend(800_000));
    assert_eq!(weak.action, Action::Monitor);
    assert_eq!(weak.confidence, 600_000);
    assert!(!weak.requires_approval);
}

#[test]
fn decisions_are_repeatable() {
    let engine = DecisionEngine::new();
    let first = engine.process_signal(market(950_000));
    let second = engine.process_signal(market(950_000));
    assert_eq!(first.action, second.action);
    assert_eq!(first.confidence, second.confidence);
    assert_eq!(first.rationale, second.rationale);
    assert_eq!(first.signal_type, second.signal_type);
    assert_eq!(first.requires_approval, second.requires_approval);
    assert_ne!(first.id, second.id);
}

#[test]
fn decision_carries_identifier_and_time() {
    let decision = decide(paper(750_000));
    assert_eq!(decision.id, "decision-1");
    assert_eq!(decision.timestamp, 1_700_000_000);
    assert_eq!(decision.signal_type, "research_published");
}

#[test]
fn signal_type_labels() {
    let engine = DecisionEngine::new();
    assert_eq!(engine.get_signal_type(&technology(1)), "new_technology_detected");
    assert_eq!(engine.get_signal_type(&vulnerability(Severity::Low)), "security_vulnerability");
    assert_eq!(engine.get_signal_type(&market(1)), "market_signal");
    assert_eq!(engine.get_signal_type(&paper(1)), "research_published");
    assert_eq!(engine.get_signal_type(&trend(1)), "social_trend");
}

#[test]
fn context_of_each_signal() {
    let engine = DecisionEngine::new();
    assert_eq!(
        engine.build_context(&technology(640_000)),
        SignalContext { relevance_score: 640_000, severity: None, confidence: 640_000 }
    );
    assert_eq!(
        engine.build_context(&vulnerability(Severity::High)),
        SignalContext {
            relevance_score: 1_000_000,
            severity: Some(Severity::High),
            confidence: 900_000
        }
    );
    assert_eq!(
        engine.build_context(&market(810_000)),
        SignalContext { relevance_score: 700_000, severity: None, confidence: 810_000 }
    );
    assert_eq!(
        engine.build_context(&trend(500_000)),
        SignalContext { relevance_score: 500_000, severity: None, confidence: 350_000 }
    );
}

#[test]
fn rationale_templates() {
    let engine = DecisionEngine::new();
    assert_eq!(
        engine.generate_rationale(&vulnerability(Severity::Critical), &Action::ImmediateAlert),
        "Critical security vulnerability detected - immediate attention required"
    );
    assert_eq!(
        engine.generate_rationale(&technology(900_000), &Action::DeepAnalyze),
        "High relevance technology 'Widget' detected (score: 0.90) - deep analysis recommended"
    );
    assert_eq!(
        engine.generate_rationale(&technology(1_000_000), &Action::DeepAnalyze),
        "High relevance technology 'Widget' detected (score: 1.00) - deep analysis recommended"
    );
    assert_eq!(
        engine.generate_rationale(&technology(854_999), &Action::DeepAnalyze),
        "High relevance technology 'Widget' detected (score: 0.85) - deep analysis recommended"
    );
    assert_eq!(
        engine.generate_rationale(&market(950_000), &Action::RecommendAction),
        "High confidence market signal (95%) - action recommended"
    );
    assert_eq!(
        engine.generate_rationale(&paper(900_000), &Action::DeepAnalyze),
        "Standard processing for DeepAnalyze"
    );
    assert_eq!(
        engine.generate_rationale(&vulnerability(Severity::High), &Action::ImmediateAlert),
        "Standard processing for ImmediateAlert"
    );
}

#[test]
fn approval_policy() {
    let engine = DecisionEngine::new();
    for confidence in [0, 500_000, 1_000_000] {
        assert!(!engine.requires_approval(&Action::ImmediateAlert, confidence));
        assert!(!engine.requires_approval(&Action::Archive, confidence));
        assert!(!engine.requires_approval(&Action::Monitor, confidence));
        assert!(!engine.requires_approval(&Action::StandardProcess, confidence));
        assert!(engine.requires_approval(&Action::RecommendAction, confidence));
        assert!(engine.requires_approval(&Action::RequestValidation, confidence));
        assert!(engine.requires_approval(&Action::QueueForReview, confidence));
    }
    assert!(engine.requires_approval(&Action::DeepAnalyze, 849_999));
    assert!(!engine.requires_approval(&Action::DeepAnalyze, 850_000));
}

#[test]
fn scenario_critical_vulnerability_on_github() {
    let processor = SignalProcessor::default();
    let found = finding("Critical RCE vulnerability CVE-2024-X", ResearchSource::GitHub, 900_000);
    let signal = processor.process(&found).expect("a signal");
    match &signal {
        Signal::SecurityVulnerability { severity, cve_id, affected_component } => {
            assert_eq!(*severity, Severity::Critical);
            assert_eq!(cve_id.as_deref(), Some("test-1"));
            assert_eq!(affected_component, "Critical RCE vulnerability CVE-2024-X");
        }
        other => panic!("Expected SecurityVulnerability signal, got {:?}", other),
    }
    let decision = decide(signal);
    assert_eq!(decision.action, Action::ImmediateAlert);
    assert_eq!(decision.confidence, 950_000);
    assert!(!decision.requires_approval);
}

#[test]
fn scenario_arxiv_paper() {
    let processor = SignalProcessor::default();
    let found = finding("Neural Networks Paper", ResearchSource::ArXiv, 750_000);
    let signal = processor.process(&found).expect("a signal");
    assert!(matches!(signal, Signal::ResearchPublished { .. }));
    let decision = decide(signal);
    assert_eq!(decision.action, Action::DeepAnalyze);
    assert_eq!(decision.confidence, 800_000);
    assert!(decision.requires_approval);
}

#[test]
fn scenario_low_relevance_gives_no_decision() {
    let processor = SignalProcessor::default();
    for source in [
        ResearchSource::GitHub,
        ResearchSource::ArXiv,
        ResearchSource::Twitter,
        ResearchSource::Farcaster,
        ResearchSource::LensProtocol,
        ResearchSource::CustomFeed("feed".to_string()),
    ] {
        let found = finding("Critical vulnerability", source, 300_000);
        assert!(processor.process(&found).is_none());
    }
}
