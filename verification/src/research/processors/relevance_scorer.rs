//! Relevance scoring: a weighted sum of keyword match, recency, source
//! authority and engagement.

use vstd::prelude::*;
use super::{
    average_score, keep_at_least, rank_by_relevance, spec_all_wf, spec_at_least, spec_average,
    spec_rank,
    ProcessingResult, ProcessingStats, ResearchProcessor, ScoringWeights,
};
use crate::commander::{FindingView, MetadataView, ResearchFinding, ResearchSource, SourceView};
use crate::platform::now_timestamp;
use crate::score::{clamp_unit, log10_millionths, mul_wide, spec_clamp_unit, spec_log10, SCORE_ONE};
use crate::text::{
    chars_of, find_from, join_words, lemma_find_iff_contains, spec_contains, spec_join,
    spec_lowercase, string_of,
};

verus! {

/// Scores findings against a set of keywords.
#[derive(Debug)]
pub struct RelevanceScorer {
    /// Lowercased keywords; none occurs twice.
    keywords: Vec<String>,
    weights: ScoringWeights,
    min_threshold: u32,
}

/// The model of a `RelevanceScorer`.
pub struct ScorerView {
    pub keywords: Seq<Seq<char>>,
    pub weights: ScoringWeights,
    pub min_threshold: u32,
}

impl View for RelevanceScorer {
    type V = ScorerView;

    closed spec fn view(&self) -> ScorerView {
        ScorerView {
            keywords: self.keywords.deep_view(),
            weights: self.weights,
            min_threshold: self.min_threshold,
        }
    }
}

/// The keyword set with the lowercased `keyword` in it.
pub open spec fn spec_with_keyword(keywords: Seq<Seq<char>>, keyword: Seq<char>) -> Seq<
    Seq<char>,
> {
    if keywords.contains(spec_lowercase(keyword)) {
        keywords
    } else {
        keywords.push(spec_lowercase(keyword))
    }
}

/// The keyword set with all of `added` in it, lowercased.
pub open spec fn spec_with_keywords(keywords: Seq<Seq<char>>, added: Seq<Seq<char>>) -> Seq<
    Seq<char>,
>
    decreases added.len(),
{
    if added.len() == 0 {
        keywords
    } else {
        spec_with_keyword(spec_with_keywords(keywords, added.drop_last()), added.last())
    }
}

/// The text that keywords are looked for in: title, summary and tags, lowercased.
pub open spec fn spec_search_text(finding: FindingView) -> Seq<char> {
    spec_lowercase(finding.title) + seq![' '] + spec_lowercase(finding.summary) + seq![' ']
        + spec_lowercase(spec_join(finding.tags, seq![' ']))
}

/// How many of the keywords occur in the text.
pub open spec fn spec_keyword_hits(keywords: Seq<Seq<char>>, text: Seq<char>) -> nat {
    keywords.filter(|k: Seq<char>| spec_contains(text, k)).len()
}

/// The fraction of the keywords that occur in the finding; one half where
/// no keyword is configured.
pub open spec fn spec_keyword_score(keywords: Seq<Seq<char>>, finding: FindingView) -> int {
    if keywords.len() == 0 {
        500_000
    } else {
        spec_keyword_hits(keywords, spec_search_text(finding)) * (SCORE_ONE as int) / (
        keywords.len() as int)
    }
}

/// The recency score of a finding that is `age` seconds old.
pub open spec fn spec_recency_score(age: int) -> int {
    if age < 86_400 {
        1_000_000
    } else if age < 7 * 86_400 {
        800_000
    } else if age < 30 * 86_400 {
        500_000
    } else {
        200_000
    }
}

/// The authority of a source.
pub open spec fn spec_authority_score(source: SourceView) -> int {
    match source {
        SourceView::ArXiv => 950_000,
        SourceView::GitHub => 850_000,
        SourceView::Twitter => 500_000,
        SourceView::Farcaster => 600_000,
        SourceView::LensProtocol => 600_000,
        SourceView::CustomFeed(_) => 700_000,
    }
}

/// A counter that is absent counts as zero.
pub open spec fn spec_count(value: Option<u64>) -> int {
    match value {
        Some(n) => n as int,
        None => 0,
    }
}

/// Stars, citations (tenfold) and likes together.
pub open spec fn spec_engagement_total(metadata: MetadataView) -> int {
    spec_count(metadata.stars) + 10 * spec_count(metadata.citations) + spec_count(metadata.likes)
}

/// The engagement score: the decimal logarithm of the total, at most one;
/// three tenths where nothing is known.
pub open spec fn spec_engagement_score(metadata: MetadataView) -> int {
    let total = spec_engagement_total(metadata);
    if total == 0 {
        300_000
    } else if total >= 10 {
        1_000_000
    } else {
        spec_log10(total)
    }
}

/// The relevance of a finding at the time `now`: the weighted sum of the four
/// factors, limited to the unit interval.
pub open spec fn spec_score(scorer: ScorerView, finding: FindingView, now: i64) -> int {
    spec_clamp_unit(
        (spec_keyword_score(scorer.keywords, finding) * scorer.weights.keyword_match
            + spec_recency_score(now - finding.discovered_at) * scorer.weights.recency
            + spec_authority_score(finding.source) * scorer.weights.source_authority
            + spec_engagement_score(finding.metadata) * scorer.weights.engagement) / (
        SCORE_ONE as int),
    )
}

/// `finding` with its relevance score replaced.
pub open spec fn spec_rescored(finding: ResearchFinding, score: u32) -> ResearchFinding {
    ResearchFinding { relevance_score: score, ..finding }
}

/// The findings, each scored at the time `now`.
pub open spec fn spec_score_all(scorer: ScorerView, findings: Seq<ResearchFinding>, now: i64) -> Seq<
    ResearchFinding,
> {
    Seq::new(
        findings.len(),
        |i: int| spec_rescored(findings[i], spec_score(scorer, findings[i].deep_view(), now) as u32),
    )
}

impl RelevanceScorer {
    /// No keyword occurs twice.
    pub open spec fn wf(&self) -> bool {
        self@.keywords.no_duplicates()
    }

    /// A scorer without keywords, with the default weights and threshold.
    pub fn new() -> (r: Self)
        ensures
            r.wf(),
            r@.keywords == Seq::<Seq<char>>::empty(),
            r@.weights == ScoringWeights::default_weights(),
            r@.min_threshold == 300_000,
    {
        let keywords: Vec<String> = Vec::new();
        assert(keywords.deep_view() =~= Seq::<Seq<char>>::empty());
        RelevanceScorer { keywords, weights: ScoringWeights::default(), min_threshold: 300_000 }
    }

    /// A scorer for the keywords given, lowercased.
    pub fn with_keywords(keywords: Vec<String>) -> (r: Self)
        ensures
            r.wf(),
            r@.keywords == spec_with_keywords(Seq::empty(), keywords.deep_view()),
            r@.weights == ScoringWeights::default_weights(),
            r@.min_threshold == 300_000,
    {
        let mut scorer = RelevanceScorer::new();
        scorer.add_keywords(keywords);
        scorer
    }

    /// The same scorer with other weights.
    pub fn with_weights(self, weights: ScoringWeights) -> (r: Self)
        ensures
            r@ == (ScorerView { weights, ..self@ }),
    {
        RelevanceScorer { keywords: self.keywords, weights, min_threshold: self.min_threshold }
    }

    /// The same scorer with another threshold.
    pub fn with_threshold(self, threshold: u32) -> (r: Self)
        ensures
            r@ == (ScorerView { min_threshold: threshold, ..self@ }),
    {
        RelevanceScorer { keywords: self.keywords, weights: self.weights, min_threshold: threshold }
    }

    /// Adds the keywords, lowercased, to the set.
    pub fn add_keywords(&mut self, keywords: Vec<String>)
        ensures
            final(self)@ == (ScorerView {
                keywords: spec_with_keywords(old(self)@.keywords, keywords.deep_view()),
                ..old(self)@
            }),
            old(self).wf() ==> final(self).wf(),
    {
        let ghost added = keywords.deep_view();
        let ghost start = self.keywords.deep_view();
        let mut i: usize = 0;
        assert(added.take(0) =~= Seq::<Seq<char>>::empty());
        while i < keywords.len()
            invariant
                i <= keywords.len(),
                added == keywords.deep_view(),
                self.keywords.deep_view() == spec_with_keywords(start, added.take(i as int)),
                old(self).wf() ==> self.keywords.deep_view().no_duplicates(),
                self.weights == old(self).weights,
                self.min_threshold == old(self).min_threshold,
            decreases keywords.len() - i,
        {
            let lower = keywords[i].as_str().to_lowercase();
            let ghost current = self.keywords.deep_view();
            let mut known = false;
            let mut k: usize = 0;
            while k < self.keywords.len()
                invariant
                    k <= self.keywords.len(),
                    current == self.keywords.deep_view(),
                    known == exists|j: int| 0 <= j < k && #[trigger] current[j] == lower@,
                decreases self.keywords.len() - k,
            {
                if self.keywords[k] == lower {
                    known = true;
                    assert(current[k as int] == lower@);
                }
                k += 1;
            }
            proof {
                assert(added.take(i + 1).drop_last() =~= added.take(i as int));
                assert(added.take(i + 1).last() == keywords@[i as int]@);
                assert(known == current.contains(lower@));
            }
            if !known {
                self.keywords.push(lower);
                assert(self.keywords.deep_view() =~= current.push(lower@));
            }
            i += 1;
        }
        assert(added.take(keywords.len() as int) =~= added);
    }

    /// The fraction of the keywords that occur in the finding.
    pub fn keyword_score(&self, finding: &ResearchFinding) -> (r: u32)
        ensures
            r == spec_keyword_score(self@.keywords, finding.deep_view()),
            r <= SCORE_ONE,
    {
        if self.keywords.len() == 0 {
            return 500_000;
        }
        let text = search_text(finding);
        let ghost hit = |k: Seq<char>| spec_contains(text@, k);
        let ghost all = self.keywords.deep_view();
        let mut hits: usize = 0;
        let mut i: usize = 0;
        assert(all.take(0).filter(hit) =~= Seq::<Seq<char>>::empty()) by {
            reveal(Seq::filter);
        }
        while i < self.keywords.len()
            invariant
                i <= self.keywords.len(),
                all == self.keywords.deep_view(),
                hit == |k: Seq<char>| spec_contains(text@, k),
                hits == all.take(i as int).filter(hit).len(),
                hits <= i,
            decreases self.keywords.len() - i,
        {
            let keyword = chars_of(self.keywords[i].as_str());
            proof {
                lemma_find_iff_contains(text@, keyword@);
                all.take(i as int).lemma_filter_push(keyword@, hit);
                assert(all.take(i + 1) =~= all.take(i as int).push(keyword@));
            }
            if find_from(&text, &keyword, 0).is_some() {
                hits += 1;
            }
            i += 1;
        }
        assert(all.take(self.keywords.len() as int) =~= all);
        let n: u128 = self.keywords.len() as u128;
        let scaled: u128 = (hits as u128) * 1_000_000u128 / n;
        assert(scaled <= 1_000_000) by (nonlinear_arith)
            requires
                scaled == (hits as int) * 1_000_000 / (n as int),
                0 <= hits <= n,
                n > 0,
        ;
        scaled as u32
    }

    /// The recency score of the finding at the time `now`.
    pub fn recency_score(&self, finding: &ResearchFinding, now: i64) -> (r: u32)
        ensures
            r == spec_recency_score(now - finding.discovered_at),
            r <= SCORE_ONE,
    {
        let age: i128 = now as i128 - finding.discovered_at as i128;
        if age < 86_400 {
            1_000_000
        } else if age < 7 * 86_400 {
            800_000
        } else if age < 30 * 86_400 {
            500_000
        } else {
            200_000
        }
    }

    /// The authority of the finding's source.
    pub fn source_authority_score(&self, finding: &ResearchFinding) -> (r: u32)
        ensures
            r == spec_authority_score(finding.source.deep_view()),
            r <= SCORE_ONE,
    {
        match finding.source {
            ResearchSource::ArXiv => 950_000,
            ResearchSource::GitHub => 850_000,
            ResearchSource::Twitter => 500_000,
            ResearchSource::Farcaster => 600_000,
            ResearchSource::LensProtocol => 600_000,
            ResearchSource::CustomFeed(_) => 700_000,
        }
    }

    /// The engagement score of the finding.
    pub fn engagement_score(&self, finding: &ResearchFinding) -> (r: u32)
        ensures
            r == spec_engagement_score(finding.metadata.deep_view()),
            r <= SCORE_ONE,
    {
        let stars: u128 = count(finding.metadata.stars) as u128;
        let citations: u128 = count(finding.metadata.citations) as u128;
        let likes: u128 = count(finding.metadata.likes) as u128;
        let total: u128 = stars + 10 * citations + likes;
        if total == 0 {
            300_000
        } else if total >= 10 {
            1_000_000
        } else {
            log10_millionths(total as u64)
        }
    }

    /// The relevance of the finding at the time `now`.
    pub fn score_at(&self, finding: &ResearchFinding, now: i64) -> (r: u32)
        ensures
            r == spec_score(self@, finding.deep_view(), now),
            r <= SCORE_ONE,
    {
        let keyword = self.keyword_score(finding);
        let recency = self.recency_score(finding, now);
        let authority = self.source_authority_score(finding);
        let engagement = self.engagement_score(finding);
        let a: u64 = mul_wide(keyword, self.weights.keyword_match);
        let b: u64 = mul_wide(recency, self.weights.recency);
        let c: u64 = mul_wide(authority, self.weights.source_authority);
        let d: u64 = mul_wide(engagement, self.weights.engagement);
        proof {
            lemma_term_bound(keyword, self.weights.keyword_match);
            lemma_term_bound(recency, self.weights.recency);
            lemma_term_bound(authority, self.weights.source_authority);
            lemma_term_bound(engagement, self.weights.engagement);
        }
        let total: u64 = (a + b + c + d) / 1_000_000;
        clamp_unit(total)
    }

    /// The relevance of the finding now. Whatever the clock says, the score
    /// lies in the unit interval and is the score at some time.
    pub fn score(&self, finding: &ResearchFinding) -> (r: u32)
        ensures
            r <= SCORE_ONE,
            exists|now: i64| r == spec_score(self@, finding.deep_view(), now),
    {
        let now = now_timestamp();
        self.score_at(finding, now)
    }

    /// Gives every finding its relevance at the time `now`.
    pub fn score_all_at(&self, findings: &mut Vec<ResearchFinding>, now: i64)
        ensures
            final(findings)@ == spec_score_all(self@, old(findings)@, now),
            forall|i: int| 0 <= i < final(findings)@.len() ==> (#[trigger] final(findings)@[i]).wf(),
    {
        let ghost initial = findings@;
        let mut i: usize = 0;
        while i < findings.len()
            invariant
                i <= findings.len(),
                findings@.len() == initial.len(),
                forall|k: int|
                    0 <= k < i ==> #[trigger] findings@[k] == spec_rescored(
                        initial[k],
                        spec_score(self@, initial[k].deep_view(), now) as u32,
                    ),
                forall|k: int| 0 <= k < i ==> (#[trigger] findings@[k]).wf(),
                forall|k: int| i <= k < findings.len() ==> findings@[k] == initial[k],
            decreases findings.len() - i,
        {
            let score = self.score_at(&findings[i], now);
            findings[i].relevance_score = score;
            i += 1;
        }
        assert(findings@ =~= spec_score_all(self@, initial, now));
    }

    /// Gives every finding its relevance now. Afterwards every score lies in
    /// the unit interval, and nothing but the scores has changed.
    pub fn score_all(&self, findings: &mut Vec<ResearchFinding>)
        ensures
            final(findings)@.len() == old(findings)@.len(),
            forall|i: int| 0 <= i < final(findings)@.len() ==> (#[trigger] final(findings)@[i]).wf(),
            exists|now: i64| final(findings)@ == spec_score_all(self@, old(findings)@, now),
    {
        let now = now_timestamp();
        self.score_all_at(findings, now);
    }

    /// Scores the findings at the time `now`, ranks them and drops those
    /// below the threshold.
    pub fn process_at(&self, findings: Vec<ResearchFinding>, now: i64) -> (r: ProcessingResult)
        ensures
            r.findings@ == spec_at_least(
                spec_rank(spec_score_all(self@, findings@, now)),
                self@.min_threshold,
            ),
            r.stats.input_count == findings@.len(),
            r.stats.output_count == r.findings@.len(),
            r.stats.threshold_filtered == findings@.len() - r.findings@.len(),
            r.stats.duplicates_removed == 0,
            r.stats.avg_score == spec_average(r.findings@),
            spec_all_wf(r.findings@),
    {
        let mut scored = findings;
        let input_count = scored.len();
        self.score_all_at(&mut scored, now);
        let ranked = rank_by_relevance(scored);
        let kept = keep_at_least(ranked, self.min_threshold);
        let output_count = kept.len();
        let avg_score = average_score(&kept);
        ProcessingResult {
            findings: kept,
            stats: ProcessingStats {
                input_count,
                output_count,
                threshold_filtered: input_count - output_count,
                duplicates_removed: 0,
                avg_score,
            },
        }
    }
}

impl ScoringWeights {
    /// The default weights: 0.40, 0.20, 0.25 and 0.15.
    pub open spec fn default_weights() -> ScoringWeights {
        ScoringWeights {
            keyword_match: 400_000,
            recency: 200_000,
            source_authority: 250_000,
            engagement: 150_000,
        }
    }
}

impl Default for RelevanceScorer {
    fn default() -> (r: Self)
        ensures
            r.wf(),
            r@.keywords == Seq::<Seq<char>>::empty(),
            r@.weights == ScoringWeights::default_weights(),
            r@.min_threshold == 300_000,
    {
        RelevanceScorer::new()
    }
}

impl ResearchProcessor for RelevanceScorer {
    /// Scores the findings now, ranks them and drops those below the threshold.
    fn process(&self, findings: Vec<ResearchFinding>) -> (r: ProcessingResult)
        ensures
            r.stats.input_count == findings@.len(),
            r.stats.output_count == r.findings@.len(),
            r.stats.threshold_filtered == findings@.len() - r.findings@.len(),
            r.stats.duplicates_removed == 0,
            r.stats.avg_score == spec_average(r.findings@),
            spec_all_wf(r.findings@),
            exists|now: i64|
                r.findings@ == spec_at_least(
                    spec_rank(spec_score_all(self@, findings@, now)),
                    self@.min_threshold,
                ),
    {
        let now = now_timestamp();
        self.process_at(findings, now)
    }

    fn name(&self) -> (r: &str)
        ensures
            r@ == "RelevanceScorer"@,
    {
        "RelevanceScorer"
    }
}

/// A counter that is absent counts as zero.
fn count(value: Option<u64>) -> (r: u64)
    ensures
        r == spec_count(value),
{
    match value {
        Some(n) => n,
        None => 0,
    }
}

/// The text that keywords are looked for in.
fn search_text(finding: &ResearchFinding) -> (r: Vec<char>)
    ensures
        r@ == spec_search_text(finding.deep_view()),
{
    let mut tags: Vec<Vec<char>> = Vec::new();
    let mut i: usize = 0;
    while i < finding.tags.len()
        invariant
            i <= finding.tags.len(),
            tags.len() == i,
            forall|k: int| 0 <= k < i ==> (#[trigger] tags@[k])@ == finding.tags@[k]@,
        decreases finding.tags.len() - i,
    {
        tags.push(chars_of(finding.tags[i].as_str()));
        i += 1;
    }
    assert(tags.deep_view() =~= finding.tags.deep_view()) by {
        assert forall|k: int| 0 <= k < tags.len() implies tags.deep_view()[k]
            == finding.tags.deep_view()[k] by {
            assert(tags@[k].deep_view() =~= tags@[k]@);
        }
    }
    let mut space: Vec<char> = Vec::new();
    space.push(' ');
    assert(space@ =~= seq![' ']);
    let joined = string_of(&join_words(&tags, &space));
    let mut text = chars_of(finding.title.as_str().to_lowercase().as_str());
    text.push(' ');
    let summary = chars_of(finding.summary.as_str().to_lowercase().as_str());
    crate::text::append_chars(&mut text, &summary);
    text.push(' ');
    let lower_tags = chars_of(joined.as_str().to_lowercase().as_str());
    crate::text::append_chars(&mut text, &lower_tags);
    assert(text@ =~= spec_search_text(finding.deep_view()));
    text
}

/// A factor in the unit interval times a weight stays within 64 bits.
proof fn lemma_term_bound(factor: u32, weight: u32)
    requires
        factor <= SCORE_ONE,
    ensures
        factor as int * weight as int <= 1_000_000 * 0xffff_ffff,
{
    assert(factor as int * weight as int <= 1_000_000 * 0xffff_ffff) by (nonlinear_arith)
        requires
            0 <= factor <= 1_000_000,
            0 <= weight <= 0xffff_ffff,
    ;
}

/// Scoring leaves every finding with a score in the unit interval.
pub proof fn lemma_score_in_unit_interval(scorer: ScorerView, finding: FindingView, now: i64)
    ensures
        0 <= spec_score(scorer, finding, now) <= SCORE_ONE,
{
}

} // verus!
