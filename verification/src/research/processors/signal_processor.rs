//! Routing of scored findings to typed signals.

use vstd::prelude::*;
use crate::commander::decision_engine::{Severity, Signal, SignalView};
use crate::commander::{FindingView, ResearchFinding, ResearchSource, SourceView};
use crate::text::{contains, spec_lowercase, spec_contains};

verus! {

/// Turns findings into signals for the decision engine.
#[derive(Debug, Clone, Copy, PartialEq, Eq, Structural)]
pub struct SignalProcessor {
    /// The least relevance, as a fixed-point fraction, that yields a signal.
    pub relevance_threshold: u32,
    /// The least popularity that marks a repository as a new technology.
    pub popularity_threshold: u32,
}

/// A popularity counter as the routing rules read it: absent counts as
/// zero.
pub open spec fn spec_counter(value: Option<u64>) -> u64 {
    match value {
        Some(n) => n,
        None => 0,
    }
}

/// The text, once lowercased, holds one of the security keywords.
pub open spec fn spec_mentions_security(text: Seq<char>) -> bool {
    let lower = spec_lowercase(text);
    ||| spec_contains(lower, "cve"@)
    ||| spec_contains(lower, "vulnerability"@)
    ||| spec_contains(lower, "security"@)
    ||| spec_contains(lower, "exploit"@)
    ||| spec_contains(lower, "patch"@)
}

/// The severity that the wording of title and summary suggests.
pub open spec fn spec_severity(title: Seq<char>, summary: Seq<char>) -> Severity {
    if spec_contains(spec_lowercase(title), "critical"@) || spec_contains(
        spec_lowercase(summary),
        "critical"@,
    ) {
        Severity::Critical
    } else if spec_contains(spec_lowercase(title), "high"@) || spec_contains(
        spec_lowercase(summary),
        "high"@,
    ) {
        Severity::High
    } else {
        Severity::Medium
    }
}

impl SignalProcessor {
    /// The signal for a finding from a code repository.
    pub open spec fn spec_repository_signal(self, finding: FindingView) -> Option<SignalView> {
        if spec_mentions_security(finding.title) || spec_mentions_security(finding.summary) {
            Some(
                SignalView::SecurityVulnerability {
                    severity: spec_severity(finding.title, finding.summary),
                    cve_id: Some(finding.id),
                    affected_component: finding.title,
                },
            )
        } else if spec_counter(finding.metadata.stars) >= self.popularity_threshold
            || finding.relevance_score >= 800_000 {
            Some(
                SignalView::NewTechnologyDetected {
                    name: finding.title,
                    relevance_score: finding.relevance_score,
                    source: "GitHub"@,
                },
            )
        } else {
            None
        }
    }

    /// The signal for an academic paper.
    pub open spec fn spec_paper_signal(self, finding: FindingView) -> Option<SignalView> {
        Some(
            SignalView::ResearchPublished {
                title: finding.title,
                relevance_score: finding.relevance_score,
                domain: if finding.tags.len() > 0 {
                    finding.tags[0]
                } else {
                    "Unknown"@
                },
            },
        )
    }

    /// The signal for a finding from a social network.
    pub open spec fn spec_social_signal(self, finding: FindingView) -> Option<SignalView> {
        if spec_counter(finding.metadata.engagement) > 1000 || finding.relevance_score
            >= 750_000 {
            Some(
                SignalView::SocialTrend {
                    topic: finding.title,
                    momentum: finding.relevance_score,
                    platform: finding.source.debug_name(),
                },
            )
        } else {
            None
        }
    }

    /// The signal for a finding from a custom feed.
    pub open spec fn spec_custom_signal(self, finding: FindingView) -> Option<SignalView> {
        if finding.relevance_score >= 700_000 {
            Some(
                SignalView::NewTechnologyDetected {
                    name: finding.title,
                    relevance_score: finding.relevance_score,
                    source: "CustomFeed"@,
                },
            )
        } else {
            None
        }
    }

    /// The signal that a finding gives rise to, if any: nothing below the
    /// relevance threshold, else what the rules of its source say.
    pub open spec fn spec_process(self, finding: FindingView) -> Option<SignalView> {
        if finding.relevance_score < self.relevance_threshold {
            None
        } else {
            match finding.source {
                SourceView::GitHub => self.spec_repository_signal(finding),
                SourceView::ArXiv => self.spec_paper_signal(finding),
                SourceView::Twitter | SourceView::Farcaster | SourceView::LensProtocol => {
                    self.spec_social_signal(finding)
                },
                SourceView::CustomFeed(_) => self.spec_custom_signal(finding),
            }
        }
    }

    /// A processor with the thresholds given.
    pub fn new(relevance_threshold: u32, popularity_threshold: u32) -> (r: Self)
        ensures
            r.relevance_threshold == relevance_threshold,
            r.popularity_threshold == popularity_threshold,
    {
        SignalProcessor { relevance_threshold, popularity_threshold }
    }

    /// The signal that `finding` gives rise to, if any.
    pub fn process(&self, finding: &ResearchFinding) -> (r: Option<Signal>)
        ensures
            r.deep_view() == self.spec_process(finding.deep_view()),
    {
        if finding.relevance_score < self.relevance_threshold {
            return None;
        }
        match &finding.source {
            ResearchSource::GitHub => self.process_github_finding(finding),
            ResearchSource::ArXiv => self.process_arxiv_finding(finding),
            ResearchSource::Twitter | ResearchSource::Farcaster | ResearchSource::LensProtocol => {
                self.process_social_finding(finding)
            },
            ResearchSource::CustomFeed(_) => self.process_custom_finding(finding),
        }
    }

    /// Security findings first, then popular or highly relevant repositories.
    pub fn process_github_finding(&self, finding: &ResearchFinding) -> (r: Option<Signal>)
        ensures
            r.deep_view() == self.spec_repository_signal(finding.deep_view()),
    {
        let title = finding.title.as_str().to_lowercase();
        let summary = finding.summary.as_str().to_lowercase();
        if mentions_security(title.as_str()) || mentions_security(summary.as_str()) {
            let severity = if contains(title.as_str(), "critical") || contains(
                summary.as_str(),
                "critical",
            ) {
                Severity::Critical
            } else if contains(title.as_str(), "high") || contains(summary.as_str(), "high") {
                Severity::High
            } else {
                Severity::Medium
            };
            return Some(
                Signal::SecurityVulnerability {
                    severity,
                    cve_id: Some(finding.id.clone()),
                    affected_component: finding.title.clone(),
                },
            );
        }
        let stars = counter(finding.metadata.stars);
        if stars >= self.popularity_threshold as u64 || finding.relevance_score >= 800_000 {
            Some(
                Signal::NewTechnologyDetected {
                    name: finding.title.clone(),
                    relevance_score: finding.relevance_score,
                    source: String::from_str("GitHub"),
                },
            )
        } else {
            None
        }
    }

    /// Every paper that passed the threshold is announced.
    pub fn process_arxiv_finding(&self, finding: &ResearchFinding) -> (r: Option<Signal>)
        ensures
            r.deep_view() == self.spec_paper_signal(finding.deep_view()),
    {
        let domain = if finding.tags.len() > 0 {
            finding.tags[0].clone()
        } else {
            String::from_str("Unknown")
        };
        Some(
            Signal::ResearchPublished {
                title: finding.title.clone(),
                relevance_score: finding.relevance_score,
                domain,
            },
        )
    }

    /// Trending or highly relevant posts.
    pub fn process_social_finding(&self, finding: &ResearchFinding) -> (r: Option<Signal>)
        ensures
            r.deep_view() == self.spec_social_signal(finding.deep_view()),
    {
        let engagement = counter(finding.metadata.engagement);
        if engagement > 1000 || finding.relevance_score >= 750_000 {
            Some(
                Signal::SocialTrend {
                    topic: finding.title.clone(),
                    momentum: finding.relevance_score,
                    platform: finding.source.debug_name(),
                },
            )
        } else {
            None
        }
    }

    /// Custom feeds only announce what is clearly relevant.
    pub fn process_custom_finding(&self, finding: &ResearchFinding) -> (r: Option<Signal>)
        ensures
            r.deep_view() == self.spec_custom_signal(finding.deep_view()),
    {
        if finding.relevance_score >= 700_000 {
            Some(
                Signal::NewTechnologyDetected {
                    name: finding.title.clone(),
                    relevance_score: finding.relevance_score,
                    source: String::from_str("CustomFeed"),
                },
            )
        } else {
            None
        }
    }

    /// The signals of the findings that give rise to one, in the findings' order.
    pub fn process_batch(&self, findings: &Vec<ResearchFinding>) -> (r: Vec<Signal>)
        ensures
            r.deep_view() == findings.deep_view().filter_map(
                |f: FindingView| self.spec_process(f),
            ),
    {
        let ghost route = |f: FindingView| self.spec_process(f);
        let ghost views = findings.deep_view();
        let mut signals: Vec<Signal> = Vec::new();
        let mut i: usize = 0;
        assert(views.take(0).filter_map(route) =~= Seq::<SignalView>::empty());
        assert(signals.deep_view() =~= Seq::<SignalView>::empty());
        while i < findings.len()
            invariant
                i <= findings.len(),
                views == findings.deep_view(),
                route == |f: FindingView| self.spec_process(f),
                signals.deep_view() == views.take(i as int).filter_map(route),
            decreases findings.len() - i,
        {
            let ghost before = signals.deep_view();
            let signal = self.process(&findings[i]);
            proof {
                views.lemma_filter_map_take_succ(route, i as int);
                assert(views[i as int] == findings@[i as int].deep_view());
            }
            match signal {
                Some(s) => {
                    signals.push(s);
                    assert(signals.deep_view() =~= before + seq![s.deep_view()]);
                },
                None => {},
            }
            i += 1;
        }
        assert(views.take(findings.len() as int) == views);
        signals
    }
}

impl Default for SignalProcessor {
    fn default() -> (r: Self)
        ensures
            r.relevance_threshold == 600_000,
            r.popularity_threshold == 100,
    {
        SignalProcessor { relevance_threshold: 600_000, popularity_threshold: 100 }
    }
}

/// A popularity counter as the routing rules read it.
fn counter(value: Option<u64>) -> (r: u64)
    ensures
        r == spec_counter(value),
{
    match value {
        Some(n) => n,
        None => 0,
    }
}

/// Whether the lowercased text holds one of the security keywords.
fn mentions_security(lower: &str) -> (r: bool)
    ensures
        r == (spec_contains(lower@, "cve"@) || spec_contains(lower@, "vulnerability"@)
            || spec_contains(lower@, "security"@) || spec_contains(lower@, "exploit"@)
            || spec_contains(lower@, "patch"@)),
{
    contains(lower, "cve") || contains(lower, "vulnerability") || contains(lower, "security")
        || contains(lower, "exploit") || contains(lower, "patch")
}

/// Nothing below the global threshold reaches the rules of a source.
pub proof fn lemma_below_threshold_is_silent(processor: SignalProcessor, finding: FindingView)
    requires
        finding.relevance_score < processor.relevance_threshold,
    ensures
        processor.spec_process(finding) is None,
{
}

/// Every paper at or above the threshold is announced as published research.
pub proof fn lemma_papers_always_announced(processor: SignalProcessor, finding: FindingView)
    requires
        finding.source is ArXiv,
        finding.relevance_score >= processor.relevance_threshold,
    ensures
        processor.spec_process(finding) matches Some(SignalView::ResearchPublished {
            title,
            relevance_score,
            ..
        }) && title == finding.title && relevance_score == finding.relevance_score,
{
}

} // verus!
