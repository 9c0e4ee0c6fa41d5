use cla_commander::commander::decision_engine::{Severity, Signal};
use cla_commander::commander::{FindingMetadata, ResearchFinding, ResearchSource};
use cla_commander::research::processors::relevance_scorer::RelevanceScorer;
use cla_commander::research::processors::{
    average_score, concat_batches, dedup_by_title, keep_at_least, merge_findings,
    normalize_title, rank_by_relevance, ProcessorConfig, ResearchProcessor, ScoringWeights,
    SignalProcessor,
};

const NOW: i64 = 1_700_000_000;
const DAY: i64 = 86_400;

fn scored(title: &str, score: u32) -> ResearchFinding {
    ResearchFinding {
        id: format!("id-{}", title),
        source: ResearchSource::GitHub,
        title: title.to_string(),
        summary: "Test summary".to_string(),
        relevance_score: score,
        discovered_at: NOW,
        tags: vec![],
        url: None,
        metadata: FindingMetadata::default(),
    }
}

fn make_finding(title: &str, tags: Vec<&str>) -> ResearchFinding {
    ResearchFinding {
        id: "finding".to_string(),
        source: ResearchSource::GitHub,
        title: title.to_string(),
        summary: "Test summary".to_string(),
        relevance_score: 0,
        discovered_at: chrono::Utc::now().timestamp(),
        tags: tags.into_iter().map(|s| s.to_string()).collect(),
        url: None,
        metadata: FindingMetadata { stars: Some(100), ..FindingMetadata::default() },
    }
}

fn create_finding(title: &str, source: ResearchSource, score: u32) -> ResearchFinding {
    ResearchFinding {
        id: "test-1".to_string(),
        source,
        title: title.to_string(),
        summary: "Test summary".to_string(),
        relevance_score: score,
        discovered_at: NOW,
        tags: vec!["cs.AI".to_string()],
        url: None,
        metadata: FindingMetadata { stars: Some(500), ..FindingMetadata::default() },
    }
}

#[test]
fn test_merge_findings_dedup() {
    let config = ProcessorConfig::default();
    let findings = vec![
        vec![scored("Test Title", 800_000)],
        vec![scored("Test Title", 700_000)],
    ];

    let result = merge_findings(findings, &config);
    assert_eq!(result.stats.duplicates_removed, 1);
    assert_eq!(result.findings.len(), 1);
}

#[test]
fn test_merge_findings_threshold() {
    let config = ProcessorConfig { min_score_threshold: 500_000, ..ProcessorConfig::default() };
    let findings = vec![vec![scored("High Score", 900_000)], vec![scored("Low Score", 200_000)]];

    let result = merge_findings(findings, &config);
    assert_eq!(result.stats.threshold_filtered, 1);
    assert_eq!(result.findings.len(), 1);
}

#[test]
fn merge_keeps_the_higher_scored_duplicate() {
    let config = ProcessorConfig::default();
    let findings = vec![
        vec![scored("Rust: Async  Runtime!", 700_000)],
        vec![scored("rust async runtime", 800_000)],
    ];
    let result = merge_findings(findings, &config);
    assert_eq!(result.stats.input_count, 2);
    assert_eq!(result.stats.duplicates_removed, 1);
    assert_eq!(result.stats.threshold_filtered, 0);
    assert_eq!(result.stats.output_count, 1);
    assert_eq!(result.stats.avg_score, 800_000);
    assert_eq!(result.findings.len(), 1);
    assert_eq!(result.findings[0].title, "rust async runtime");
    assert_eq!(result.findings[0].relevance_score, 800_000);
}

#[test]
fn merge_without_deduplication_keeps_both() {
    let config = ProcessorConfig { deduplicate: false, ..ProcessorConfig::default() };
    let findings = vec![vec![scored("Same", 400_000)], vec![scored("Same", 500_000)]];
    let result = merge_findings(findings, &config);
    assert_eq!(result.stats.duplicates_removed, 0);
    assert_eq!(result.findings.len(), 2);
    assert_eq!(result.findings[0].relevance_score, 500_000);
    assert_eq!(result.findings[1].relevance_score, 400_000);
    assert_eq!(result.stats.avg_score, 450_000);
}

#[test]
fn merge_of_nothing() {
    let result = merge_findings(vec![], &ProcessorConfig::default());
    assert!(result.findings.is_empty());
    assert_eq!(result.stats.input_count, 0);
    assert_eq!(result.stats.output_count, 0);
    assert_eq!(result.stats.avg_score, 0);
}

#[test]
fn normalized_titles() {
    assert_eq!(normalize_title("Test Title"), "test title");
    assert_eq!(normalize_title("  Hello,   World!  "), "hello world");
    assert_eq!(normalize_title("CVE-2024-X"), "cve2024x");
    assert_eq!(normalize_title(""), "");
    assert_eq!(normalize_title("a\tb\nc"), "a b c");
}

#[test]
fn ranking_is_descending_and_stable() {
    let ranked = rank_by_relevance(vec![
        scored("a", 500_000),
        scored("b", 900_000),
        scored("c", 500_000),
        scored("d", 700_000),
        scored("e", 900_000),
    ]);
    let titles: Vec<&str> = ranked.iter().map(|f| f.title.as_str()).collect();
    assert_eq!(titles, vec!["b", "e", "d", "a", "c"]);
}

#[test]
fn default_configuration() {
    let config = ProcessorConfig::default();
    assert_eq!(config.min_score_threshold, 300_000);
    assert_eq!(config.max_per_source, 20);
    assert!(config.deduplicate);
    assert_eq!(
        config.weights,
        ScoringWeights {
            keyword_match: 400_000,
            recency: 200_000,
            source_authority: 250_000,
            engagement: 150_000
        }
    );
}

#[test]
fn test_keyword_scoring() {
    let scorer = RelevanceScorer::with_keywords(vec!["rust".to_string(), "async".to_string()]);

    let finding = make_finding("Rust Async Runtime", vec!["rust"]);
    let score = scorer.keyword_score(&finding);

    assert!(score > 500_000);
    assert_eq!(score, 1_000_000);
}

#[test]
fn test_source_authority() {
    let scorer = RelevanceScorer::new();

    let arxiv = ResearchFinding { source: ResearchSource::ArXiv, ..make_finding("Paper", vec![]) };
    let twitter =
        ResearchFinding { source: ResearchSource::Twitter, ..make_finding("Tweet", vec![]) };

    assert!(scorer.source_authority_score(&arxiv) > scorer.source_authority_score(&twitter));
}

#[test]
fn test_process() {
    let scorer = RelevanceScorer::new().with_threshold(0);
    let findings = vec![make_finding("Test 1", vec![]), make_finding("Test 2", vec![])];

    let result = scorer.process(findings);
    assert_eq!(result.stats.input_count, 2);
    assert_eq!(result.findings.len(), 2);
}

#[test]
fn keyword_score_fractions() {
    let neutral = RelevanceScorer::new();
    assert_eq!(neutral.keyword_score(&make_finding("anything", vec![])), 500_000);

    let scorer = RelevanceScorer::with_keywords(vec![
        "Rust".to_string(),
        "rust".to_string(),
        "python".to_string(),
        "tokio".to_string(),
    ]);
    assert_eq!(scorer.keyword_score(&make_finding("Rust runtime", vec!["TOKIO"])), 666_666);
    assert_eq!(scorer.keyword_score(&make_finding("nothing here", vec![])), 0);
}

#[test]
fn recency_steps() {
    let scorer = RelevanceScorer::new();
    let at = |age: i64| ResearchFinding { discovered_at: NOW - age, ..scored("x", 0) };
    assert_eq!(scorer.recency_score(&at(0), NOW), 1_000_000);
    assert_eq!(scorer.recency_score(&at(-5), NOW), 1_000_000);
    assert_eq!(scorer.recency_score(&at(DAY - 1), NOW), 1_000_000);
    assert_eq!(scorer.recency_score(&at(DAY), NOW), 800_000);
    assert_eq!(scorer.recency_score(&at(7 * DAY - 1), NOW), 800_000);
    assert_eq!(scorer.recency_score(&at(7 * DAY), NOW), 500_000);
    assert_eq!(scorer.recency_score(&at(30 * DAY - 1), NOW), 500_000);
    assert_eq!(scorer.recency_score(&at(30 * DAY), NOW), 200_000);
}

#[test]
fn authority_of_each_source() {
    let scorer = RelevanceScorer::new();
    let from = |source: ResearchSource| ResearchFinding { source, ..scored("x", 0) };
    assert_eq!(scorer.source_authority_score(&from(ResearchSource::ArXiv)), 950_000);
    assert_eq!(scorer.source_authority_score(&from(ResearchSource::GitHub)), 850_000);
    assert_eq!(scorer.source_authority_score(&from(ResearchSource::Twitter)), 500_000);
    assert_eq!(scorer.source_authority_score(&from(ResearchSource::Farcaster)), 600_000);
    assert_eq!(scorer.source_authority_score(&from(ResearchSource::LensProtocol)), 600_000);
    assert_eq!(
        scorer.source_authority_score(&from(ResearchSource::CustomFeed("f".to_string()))),
        700_000
    );
}

#[test]
fn engagement_is_logarithmic() {
    let scorer = RelevanceScorer::new();
    let with = |stars: Option<u64>, citations: Option<u64>, likes: Option<u64>| ResearchFinding {
        metadata: FindingMetadata { stars, citations, likes, ..FindingMetadata::default() },
        ..scored("x", 0)
    };
    assert_eq!(scorer.engagement_score(&with(None, None, None)), 300_000);
    assert_eq!(scorer.engagement_score(&with(Some(0), Some(0), Some(0))), 300_000);
    assert_eq!(scorer.engagement_score(&with(Some(1), None, None)), 0);
    assert_eq!(scorer.engagement_score(&with(Some(2), None, None)), 301_030);
    assert_eq!(scorer.engagement_score(&with(Some(4), None, Some(5))), 954_243);
    assert_eq!(scorer.engagement_score(&with(None, Some(1), None)), 1_000_000);
    assert_eq!(scorer.engagement_score(&with(Some(u64::MAX), Some(u64::MAX), Some(u64::MAX))), 1_000_000);
}

#[test]
fn weighted_sum_with_default_weights() {
    let scorer = RelevanceScorer::new();
    let finding = ResearchFinding {
        source: ResearchSource::ArXiv,
        discovered_at: NOW - 2 * DAY,
        metadata: FindingMetadata { stars: Some(5), ..FindingMetadata::default() },
        ..scored("x", 0)
    };
    // 0.5 * 0.40 + 0.8 * 0.20 + 0.95 * 0.25 + log10(5) * 0.15
    assert_eq!(scorer.score_at(&finding, NOW), 200_000 + 160_000 + 237_500 + 104_845);
}

#[test]
fn scores_are_clamped_to_the_unit_interval() {
    let heavy = ScoringWeights {
        keyword_match: u32::MAX,
        recency: u32::MAX,
        source_authority: u32::MAX,
        engagement: u32::MAX,
    };
    let scorer = RelevanceScorer::new().with_weights(heavy);
    assert_eq!(scorer.score_at(&scored("x", 0), NOW), 1_000_000);
    assert!(scorer.score(&scored("x", 0)) <= 1_000_000);

    let none =
        ScoringWeights { keyword_match: 0, recency: 0, source_authority: 0, engagement: 0 };
    let scorer = RelevanceScorer::new().with_weights(none);
    assert_eq!(scorer.score_at(&scored("x", 0), NOW), 0);
}

#[test]
fn score_all_rescores_every_finding() {
    let scorer = RelevanceScorer::with_keywords(vec!["rust".to_string()]);
    let mut findings =
        vec![scored("rust", 4_000_000), scored("python", 0), scored("Rust again", 17)];
    scorer.score_all(&mut findings);
    assert_eq!(findings.len(), 3);
    for finding in &findings {
        assert!(finding.relevance_score <= 1_000_000);
    }
    assert_eq!(findings[0].title, "rust");
    assert_eq!(findings[1].title, "python");
    assert_eq!(findings[2].title, "Rust again");
    assert!(findings[0].relevance_score > findings[1].relevance_score);
    assert_eq!(findings[0].relevance_score, findings[2].relevance_score);
}

#[test]
fn process_at_ranks_and_filters() {
    let scorer = RelevanceScorer::with_keywords(vec!["rust".to_string()]).with_threshold(700_000);
    let old = ResearchFinding { discovered_at: NOW - 400 * DAY, ..scored("python", 0) };
    let fresh = scored("rust", 0);
    let result = scorer.process_at(vec![old, fresh], NOW);
    assert_eq!(result.stats.input_count, 2);
    assert_eq!(result.stats.threshold_filtered, 1);
    assert_eq!(result.stats.output_count, 1);
    assert_eq!(result.stats.duplicates_removed, 0);
    assert_eq!(result.findings.len(), 1);
    assert_eq!(result.findings[0].title, "rust");
    // 1.0 * 0.40 + 1.0 * 0.20 + 0.85 * 0.25 + 0.3 * 0.15
    assert_eq!(result.findings[0].relevance_score, 857_500);
    assert_eq!(result.stats.avg_score, 857_500);
    assert_eq!(scorer.name(), "RelevanceScorer");
}

#[test]
fn test_process_github_finding() {
    let processor = SignalProcessor::default();
    let finding = create_finding("AI Framework", ResearchSource::GitHub, 800_000);

    let signal = processor.process(&finding);
    assert!(signal.is_some());

    if let Some(Signal::NewTechnologyDetected { name, .. }) = signal {
        assert_eq!(name, "AI Framework");
    } else {
        panic!("Expected NewTechnologyDetected signal");
    }
}

#[test]
fn test_process_arxiv_finding() {
    let processor = SignalProcessor::default();
    let finding = create_finding("Neural Networks Paper", ResearchSource::ArXiv, 700_000);

    let signal = processor.process(&finding);
    assert!(signal.is_some());

    if let Some(Signal::ResearchPublished { title, .. }) = signal {
        assert_eq!(title, "Neural Networks Paper");
    } else {
        panic!("Expected ResearchPublished signal");
    }
}

#[test]
fn test_low_relevance_skipped() {
    let processor = SignalProcessor::default();
    let finding = create_finding("Low relevance", ResearchSource::GitHub, 300_000);

    let signal = processor.process(&finding);
    assert!(signal.is_none());
}

#[test]
fn github_routing() {
    let processor = SignalProcessor::new(600_000, 100);
    let quiet = ResearchFinding {
        metadata: FindingMetadata { stars: Some(99), ..FindingMetadata::default() },
        ..create_finding("Small library", ResearchSource::GitHub, 700_000)
    };
    assert!(processor.process(&quiet).is_none());

    let popular = ResearchFinding {
        metadata: FindingMetadata { stars: Some(100), ..FindingMetadata::default() },
        ..create_finding("Small library", ResearchSource::GitHub, 700_000)
    };
    assert_eq!(
        processor.process(&popular),
        Some(Signal::NewTechnologyDetected {
            name: "Small library".to_string(),
            relevance_score: 700_000,
            source: "GitHub".to_string(),
        })
    );

    let relevant = ResearchFinding {
        metadata: FindingMetadata::default(),
        ..create_finding("Small library", ResearchSource::GitHub, 800_000)
    };
    assert!(matches!(processor.process(&relevant), Some(Signal::NewTechnologyDetected { .. })));
}

#[test]
fn star_counts_beyond_thirty_two_bits_are_popular() {
    let processor = SignalProcessor::new(600_000, 100);
    for stars in [1u64 << 32, (1u64 << 32) + 5, u64::MAX] {
        let finding = ResearchFinding {
            metadata: FindingMetadata { stars: Some(stars), ..FindingMetadata::default() },
            ..create_finding("Huge library", ResearchSource::GitHub, 700_000)
        };
        assert_eq!(
            processor.process(&finding),
            Some(Signal::NewTechnologyDetected {
                name: "Huge library".to_string(),
                relevance_score: 700_000,
                source: "GitHub".to_string(),
            })
        );
    }
}

#[test]
fn github_security_severity() {
    let processor = SignalProcessor::default();
    let severity_of = |title: &str, summary: &str| {
        let finding = ResearchFinding {
            summary: summary.to_string(),
            ..create_finding(title, ResearchSource::GitHub, 900_000)
        };
        match processor.process(&finding) {
            Some(Signal::SecurityVulnerability { severity, .. }) => Some(severity),
            _ => None,
        }
    };
    assert_eq!(severity_of("Patch release", "fixes a CRITICAL bug"), Some(Severity::Critical));
    assert_eq!(severity_of("Security advisory", "high impact"), Some(Severity::High));
    assert_eq!(severity_of("Exploit found", "details inside"), Some(Severity::Medium));
    assert_eq!(severity_of("New vulnerability", "nothing more"), Some(Severity::Medium));
    assert_eq!(severity_of("Plain library", "A parser"), None);
    assert_eq!(severity_of("Plain library", "mentions CVE-2024-1"), Some(Severity::Medium));
}

#[test]
fn arxiv_domain_is_the_first_tag() {
    let processor = SignalProcessor::default();
    let tagged = create_finding("Paper", ResearchSource::ArXiv, 600_000);
    assert_eq!(
        processor.process(&tagged),
        Some(Signal::ResearchPublished {
            title: "Paper".to_string(),
            relevance_score: 600_000,
            domain: "cs.AI".to_string(),
        })
    );
    let untagged =
        ResearchFinding { tags: vec![], ..create_finding("Paper", ResearchSource::ArXiv, 600_000) };
    assert_eq!(
        processor.process(&untagged),
        Some(Signal::ResearchPublished {
            title: "Paper".to_string(),
            relevance_score: 600_000,
            domain: "Unknown".to_string(),
        })
    );
}

#[test]
fn social_routing() {
    let processor = SignalProcessor::default();
    let post = |source: ResearchSource, score: u32, engagement: Option<u64>| ResearchFinding {
        metadata: FindingMetadata { engagement, ..FindingMetadata::default() },
        ..create_finding("Post", source, score)
    };
    assert!(processor.process(&post(ResearchSource::Twitter, 700_000, Some(1000))).is_none());
    assert_eq!(
        processor.process(&post(ResearchSource::Twitter, 700_000, Some(1001))),
        Some(Signal::SocialTrend {
            topic: "Post".to_string(),
            momentum: 700_000,
            platform: "Twitter".to_string(),
        })
    );
    assert_eq!(
        processor.process(&post(ResearchSource::Farcaster, 750_000, None)),
        Some(Signal::SocialTrend {
            topic: "Post".to_string(),
            momentum: 750_000,
            platform: "Farcaster".to_string(),
        })
    );
    assert_eq!(
        processor.process(&post(ResearchSource::LensProtocol, 990_000, None)),
        Some(Signal::SocialTrend {
            topic: "Post".to_string(),
            momentum: 990_000,
            platform: "LensProtocol".to_string(),
        })
    );
}

#[test]
fn custom_feed_routing() {
    let processor = SignalProcessor::default();
    let feed = || ResearchSource::CustomFeed("news".to_string());
    assert!(processor.process(&create_finding("Item", feed(), 699_999)).is_none());
    assert_eq!(
        processor.process(&create_finding("Item", feed(), 700_000)),
        Some(Signal::NewTechnologyDetected {
            name: "Item".to_string(),
            relevance_score: 700_000,
            source: "CustomFeed".to_string(),
        })
    );
}

#[test]
fn batch_keeps_the_order_of_the_signals() {
    let processor = SignalProcessor::default();
    let findings = vec![
        create_finding("First paper", ResearchSource::ArXiv, 900_000),
        create_finding("Too low", ResearchSource::ArXiv, 100_000),
        create_finding("Item", ResearchSource::CustomFeed("news".to_string()), 650_000),
        create_finding("Second paper", ResearchSource::ArXiv, 600_000),
    ];
    let signals = processor.process_batch(&findings);
    assert_eq!(signals.len(), 2);
    assert!(
        matches!(&signals[0], Signal::ResearchPublished { title, .. } if title == "First paper")
    );
    assert!(
        matches!(&signals[1], Signal::ResearchPublished { title, .. } if title == "Second paper")
    );
    assert!(processor.process_batch(&vec![]).is_empty());
}

#[test]
fn source_names() {
    assert_eq!(ResearchSource::GitHub.debug_name(), "GitHub");
    assert_eq!(ResearchSource::ArXiv.debug_name(), "ArXiv");
    assert_eq!(
        ResearchSource::CustomFeed("my \"feed\"".to_string()).debug_name(),
        "CustomFeed(\"my \\\"feed\\\"\")"
    );
    assert!(ResearchSource::GitHub.same_as(&ResearchSource::GitHub));
    assert!(!ResearchSource::GitHub.same_as(&ResearchSource::ArXiv));
    assert!(ResearchSource::CustomFeed("a".to_string())
        .same_as(&ResearchSource::CustomFeed("a".to_string())));
    assert!(!ResearchSource::CustomFeed("a".to_string())
        .same_as(&ResearchSource::CustomFeed("b".to_string())));
}

#[test]
fn batches_are_joined_in_order() {
    let all = concat_batches(vec![
        vec![scored("a", 100_000), scored("b", 900_000)],
        vec![],
        vec![scored("A!", 500_001)],
    ]);
    let titles: Vec<&str> = all.iter().map(|f| f.title.as_str()).collect();
    assert_eq!(titles, vec!["a", "b", "A!"]);
    assert_eq!(average_score(&all), 500_000);
    assert_eq!(average_score(&vec![]), 0);

    let unique = dedup_by_title(all);
    let titles: Vec<&str> = unique.iter().map(|f| f.title.as_str()).collect();
    assert_eq!(titles, vec!["a", "b"]);

    let kept = keep_at_least(unique, 100_001);
    let titles: Vec<&str> = kept.iter().map(|f| f.title.as_str()).collect();
    assert_eq!(titles, vec!["b"]);
}

#[test]
fn test_special_characters() {
    let text = "User's \"quoted\" text\u{2014}with dashes";
    let cleaned = normalize_title(text);

    assert!(!cleaned.contains('"'));
    assert!(!cleaned.contains('\u{2014}'));
    assert_eq!(cleaned, "users quoted textwith dashes");
}
