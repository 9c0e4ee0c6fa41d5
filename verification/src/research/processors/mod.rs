//! Post-processing of research findings: ranking, deduplication, thresholds.

pub mod relevance_scorer;
pub mod signal_processor;

pub use relevance_scorer::RelevanceScorer;
pub use signal_processor::SignalProcessor;

use vstd::prelude::*;
use vstd::hash_set::StringHashSet;
use crate::commander::ResearchFinding;
use crate::text::{char_is_whitespace, chars_of, join_words, spec_alphanumeric, spec_join, spec_lowercase, spec_whitespace, spec_words, split_words, string_of};

verus! {

/// Weights of the four scoring factors, as fixed-point fractions of one.
#[derive(Debug, Clone, Copy, PartialEq, Eq, Structural)]
pub struct ScoringWeights {
    pub keyword_match: u32,
    pub recency: u32,
    pub source_authority: u32,
    pub engagement: u32,
}

impl Default for ScoringWeights {
    fn default() -> (r: Self)
        ensures
            r.keyword_match == 400_000,
            r.recency == 200_000,
            r.source_authority == 250_000,
            r.engagement == 150_000,
    {
        ScoringWeights {
            keyword_match: 400_000,
            recency: 200_000,
            source_authority: 250_000,
            engagement: 150_000,
        }
    }
}

/// Settings of the post-processing.
#[derive(Debug, Clone, Copy, PartialEq, Eq, Structural)]
pub struct ProcessorConfig {
    /// The least score, as a fixed-point fraction, that a finding is kept at.
    pub min_score_threshold: u32,
    /// The most findings kept per source.
    pub max_per_source: usize,
    /// Whether findings with the same normalized title are merged.
    pub deduplicate: bool,
    pub weights: ScoringWeights,
}

impl Default for ProcessorConfig {
    fn default() -> (r: Self)
        ensures
            r.min_score_threshold == 300_000,
            r.max_per_source == 20,
            r.deduplicate,
            r.weights.keyword_match == 400_000,
            r.weights.recency == 200_000,
            r.weights.source_authority == 250_000,
            r.weights.engagement == 150_000,
    {
        ProcessorConfig {
            min_score_threshold: 300_000,
            max_per_source: 20,
            deduplicate: true,
            weights: ScoringWeights::default(),
        }
    }
}

/// Counts of one processing run.
#[derive(Debug, Clone, Copy, PartialEq, Eq, Structural)]
pub struct ProcessingStats {
    pub input_count: usize,
    pub output_count: usize,
    pub threshold_filtered: usize,
    pub duplicates_removed: usize,
    /// The mean score of the findings kept, rounded down; zero where none is kept.
    pub avg_score: u32,
}

/// What a processing run gives back.
#[derive(Debug, PartialEq)]
pub struct ProcessingResult {
    pub findings: Vec<ResearchFinding>,
    pub stats: ProcessingStats,
}

/// A step of the post-processing pipeline.
pub trait ResearchProcessor {
    /// Filters and scores the findings.
    fn process(&self, findings: Vec<ResearchFinding>) -> ProcessingResult;

    /// The processor's name.
    fn name(&self) -> &str;
}

/// `sorted` with `finding` put behind every entry that scores at least as high.
pub open spec fn spec_insert_ranked(
    sorted: Seq<ResearchFinding>,
    finding: ResearchFinding,
) -> Seq<ResearchFinding>
    decreases sorted.len(),
{
    if sorted.len() == 0 {
        seq![finding]
    } else if sorted.last().relevance_score >= finding.relevance_score {
        sorted.push(finding)
    } else {
        spec_insert_ranked(sorted.drop_last(), finding).push(sorted.last())
    }
}

/// The findings by descending score; findings of equal score keep their order.
pub open spec fn spec_rank(findings: Seq<ResearchFinding>) -> Seq<ResearchFinding>
    decreases findings.len(),
{
    if findings.len() == 0 {
        findings
    } else {
        spec_insert_ranked(spec_rank(findings.drop_last()), findings.last())
    }
}

/// No finding scores higher than one before it.
pub open spec fn spec_is_ranked(findings: Seq<ResearchFinding>) -> bool {
    forall|i: int, j: int|
        0 <= i <= j < findings.len() ==> findings[i].relevance_score
            >= findings[j].relevance_score
}

/// Ranking is stable: a finding goes behind the last entry that scores at
/// least as high, and before every entry that scores lower.
pub proof fn lemma_insert_ranked_at(sorted: Seq<ResearchFinding>, finding: ResearchFinding, at: int)
    requires
        0 <= at <= sorted.len(),
        forall|k: int| at <= k < sorted.len() ==> sorted[k].relevance_score
            < finding.relevance_score,
        at > 0 ==> sorted[at - 1].relevance_score >= finding.relevance_score,
    ensures
        spec_insert_ranked(sorted, finding) == sorted.insert(at, finding),
    decreases sorted.len(),
{
    if sorted.len() == 0 {
        assert(sorted.insert(at, finding) =~= seq![finding]);
    } else if at == sorted.len() {
        assert(sorted.insert(at, finding) =~= sorted.push(finding));
    } else {
        lemma_insert_ranked_at(sorted.drop_last(), finding, at);
        assert(sorted.drop_last().insert(at, finding).push(sorted.last()) =~= sorted.insert(
            at,
            finding,
        ));
    }
}

/// Inserting keeps a ranked sequence ranked, and adds exactly the new finding.
pub proof fn lemma_insert_ranked_props(sorted: Seq<ResearchFinding>, finding: ResearchFinding)
    requires
        spec_is_ranked(sorted),
    ensures
        spec_is_ranked(spec_insert_ranked(sorted, finding)),
        spec_insert_ranked(sorted, finding).len() == sorted.len() + 1,
        spec_insert_ranked(sorted, finding).to_multiset() == sorted.to_multiset().insert(finding),
    decreases sorted.len(),
{
    broadcast use vstd::seq_lib::group_to_multiset_ensures;

    let out = spec_insert_ranked(sorted, finding);
    if sorted.len() == 0 {
        assert(sorted =~= Seq::empty());
        assert(out =~= Seq::<ResearchFinding>::empty().push(finding));
    } else if sorted.last().relevance_score >= finding.relevance_score {
    } else {
        let front = sorted.drop_last();
        assert(spec_is_ranked(front));
        lemma_insert_ranked_props(front, finding);
        let inner = spec_insert_ranked(front, finding);
        assert(sorted =~= front.push(sorted.last()));
        assert forall|i: int, j: int| 0 <= i <= j < out.len() implies out[i].relevance_score
            >= out[j].relevance_score by {
            if j == out.len() - 1 && i < j {
                assert(inner.to_multiset().count(inner[i]) > 0);
                if inner[i] != finding {
                    assert(front.to_multiset().count(inner[i]) > 0);
                    assert(front.contains(inner[i]));
                    let k = choose|k: int| 0 <= k < front.len() && front[k] == inner[i];
                    assert(sorted[k].relevance_score >= sorted[sorted.len() - 1].relevance_score);
                }
            }
        }
    }
}

/// Ranking sorts by descending score and neither loses nor invents a finding.
pub proof fn lemma_rank_props(findings: Seq<ResearchFinding>)
    ensures
        spec_is_ranked(spec_rank(findings)),
        spec_rank(findings).len() == findings.len(),
        spec_rank(findings).to_multiset() == findings.to_multiset(),
    decreases findings.len(),
{
    broadcast use vstd::seq_lib::group_to_multiset_ensures;

    if findings.len() == 0 {
    } else {
        lemma_rank_props(findings.drop_last());
        lemma_insert_ranked_props(spec_rank(findings.drop_last()), findings.last());
        assert(findings =~= findings.drop_last().push(findings.last()));
    }
}

/// Every score lies in the unit interval.
pub open spec fn spec_all_wf(findings: Seq<ResearchFinding>) -> bool {
    forall|i: int| 0 <= i < findings.len() ==> (#[trigger] findings[i]).wf()
}

/// Ranking findings with scores in the unit interval gives such findings.
pub proof fn lemma_rank_keeps_scores(findings: Seq<ResearchFinding>)
    requires
        spec_all_wf(findings),
    ensures
        spec_all_wf(spec_rank(findings)),
{
    broadcast use vstd::seq_lib::group_to_multiset_ensures;

    lemma_rank_props(findings);
    let ranked = spec_rank(findings);
    assert forall|i: int| 0 <= i < ranked.len() implies (#[trigger] ranked[i]).wf() by {
        assert(ranked.to_multiset().count(ranked[i]) > 0);
        assert(findings.contains(ranked[i]));
    }
}

/// Filtering findings with scores in the unit interval gives such findings.
pub proof fn lemma_filter_keeps_scores(
    findings: Seq<ResearchFinding>,
    keep: spec_fn(ResearchFinding) -> bool,
)
    requires
        spec_all_wf(findings),
    ensures
        spec_all_wf(findings.filter(keep)),
{
    let kept = findings.filter(keep);
    assert forall|i: int| 0 <= i < kept.len() implies (#[trigger] kept[i]).wf() by {
        assert(kept.contains(kept[i]));
        findings.lemma_filter_contains_rev(keep, kept[i]);
    }
}

/// Sorts by descending score; findings of equal score keep their order.
pub fn rank_by_relevance(findings: Vec<ResearchFinding>) -> (r: Vec<ResearchFinding>)
    ensures
        r@ == spec_rank(findings@),
        spec_is_ranked(r@),
        r@.len() == findings@.len(),
        r@.to_multiset() == findings@.to_multiset(),
        spec_all_wf(findings@) ==> spec_all_wf(r@),
{
    let mut out: Vec<ResearchFinding> = Vec::new();
    assert(findings@.take(0) =~= Seq::<ResearchFinding>::empty());
    for finding in it: findings
        invariant
            it.seq() == findings@,
            out@ == spec_rank(findings@.take(it.index())),
    {
        let ghost done = it.index();
        let mut at: usize = out.len();
        proof {
            lemma_rank_props(findings@.take(done));
        }
        while at > 0 && out[at - 1].relevance_score < finding.relevance_score
            invariant
                at <= out.len(),
                forall|k: int|
                    at <= k < out.len() ==> out@[k].relevance_score < finding.relevance_score,
            decreases at,
        {
            at -= 1;
        }
        proof {
            lemma_insert_ranked_at(out@, finding, at as int);
            assert(findings@.take(done + 1).drop_last() =~= findings@.take(done));
            assert(findings@.take(done + 1).last() == finding);
        }
        out.insert(at, finding);
    }
    proof {
        assert(findings@.take(findings@.len() as int) =~= findings@);
        lemma_rank_props(findings@);
        if spec_all_wf(findings@) {
            lemma_rank_keeps_scores(findings@);
        }
    }
    out
}

/// Whether a character of a title counts when titles are compared.
pub open spec fn spec_title_char(c: char) -> bool {
    spec_alphanumeric(c) || spec_whitespace(c)
}

/// A title as it is compared: lowercased, without punctuation, its words
/// separated by single spaces.
pub open spec fn spec_normalize_title(title: Seq<char>) -> Seq<char> {
    spec_join(
        spec_words(spec_lowercase(title).filter(|c: char| spec_title_char(c))),
        seq![' '],
    )
}

/// The title as it is compared with other titles.
pub fn normalize_title(title: &str) -> (r: String)
    ensures
        r@ == spec_normalize_title(title@),
{
    let lower = title.to_lowercase();
    let chars = chars_of(lower.as_str());
    let ghost keep = |c: char| spec_title_char(c);
    let mut kept: Vec<char> = Vec::new();
    let mut i: usize = 0;
    assert(chars@.take(0).filter(keep) =~= Seq::<char>::empty()) by {
        reveal(Seq::filter);
    }
    while i < chars.len()
        invariant
            i <= chars.len(),
            keep == |c: char| spec_title_char(c),
            kept@ == chars@.take(i as int).filter(keep),
        decreases chars.len() - i,
    {
        let c = chars[i];
        proof {
            chars@.take(i as int).lemma_filter_push(c, keep);
            assert(chars@.take(i + 1) =~= chars@.take(i as int).push(c));
        }
        if c.is_alphanumeric() || char_is_whitespace(c) {
            kept.push(c);
        }
        i += 1;
    }
    assert(chars@.take(chars.len() as int) =~= chars@);
    let words = split_words(&kept);
    let mut space: Vec<char> = Vec::new();
    space.push(' ');
    assert(space@ =~= seq![' ']);
    let joined = join_words(&words, &space);
    string_of(&joined)
}

/// All findings of all batches, batch after batch.
pub open spec fn spec_concat(batches: Seq<Vec<ResearchFinding>>) -> Seq<ResearchFinding>
    decreases batches.len(),
{
    if batches.len() == 0 {
        Seq::empty()
    } else {
        spec_concat(batches.drop_last()) + batches.last()@
    }
}

/// One of `findings` has the same normalized title as `title`.
pub open spec fn spec_title_seen(findings: Seq<ResearchFinding>, title: Seq<char>) -> bool {
    exists|j: int|
        0 <= j < findings.len() && spec_normalize_title(#[trigger] findings[j].title@)
            == spec_normalize_title(title)
}

/// The findings without those whose normalized title an earlier finding has.
pub open spec fn spec_dedup(findings: Seq<ResearchFinding>) -> Seq<ResearchFinding>
    decreases findings.len(),
{
    if findings.len() == 0 {
        findings
    } else {
        let front = spec_dedup(findings.drop_last());
        if spec_title_seen(findings.drop_last(), findings.last().title@) {
            front
        } else {
            front.push(findings.last())
        }
    }
}

/// The findings that score at least `threshold`.
pub open spec fn spec_at_least(findings: Seq<ResearchFinding>, threshold: u32) -> Seq<
    ResearchFinding,
> {
    findings.filter(|f: ResearchFinding| f.relevance_score >= threshold)
}

/// The sum of the scores.
pub open spec fn spec_score_sum(findings: Seq<ResearchFinding>) -> int
    decreases findings.len(),
{
    if findings.len() == 0 {
        0
    } else {
        spec_score_sum(findings.drop_last()) + findings.last().relevance_score
    }
}

/// The mean score, rounded down; zero for no findings.
pub open spec fn spec_average(findings: Seq<ResearchFinding>) -> int {
    if findings.len() == 0 {
        0
    } else {
        spec_score_sum(findings) / (findings.len() as int)
    }
}

/// A sum of scores is bounded by the number of findings.
pub proof fn lemma_score_sum_bounds(findings: Seq<ResearchFinding>)
    ensures
        0 <= spec_score_sum(findings) <= findings.len() * 0xffff_ffff,
        0 <= spec_average(findings) <= 0xffff_ffff,
    decreases findings.len(),
{
    if findings.len() > 0 {
        lemma_score_sum_bounds(findings.drop_last());
        let n = findings.len() as int;
        let sum = spec_score_sum(findings);
        assert(sum <= n * 0xffff_ffff) by (nonlinear_arith)
            requires
                sum <= (n - 1) * 0xffff_ffff + 0xffff_ffff,
        ;
        assert(0 <= sum / n <= 0xffff_ffff) by (nonlinear_arith)
            requires
                0 <= sum <= n * 0xffff_ffff,
                n > 0,
        ;
    }
}

/// The mean score of the findings, rounded down; zero for no findings.
pub fn average_score(findings: &Vec<ResearchFinding>) -> (r: u32)
    ensures
        r == spec_average(findings@),
{
    if findings.len() == 0 {
        return 0;
    }
    let mut sum: u128 = 0;
    let mut i: usize = 0;
    while i < findings.len()
        invariant
            i <= findings.len(),
            sum == spec_score_sum(findings@.take(i as int)),
        decreases findings.len() - i,
    {
        proof {
            lemma_score_sum_bounds(findings@.take(i as int));
            assert(findings@.take(i + 1).drop_last() =~= findings@.take(i as int));
            assert(i * 0xffff_ffff <= 0xffff_ffff_ffff_ffff * 0xffff_ffff) by (nonlinear_arith)
                requires
                    i <= 0xffff_ffff_ffff_ffff,
            ;
        }
        sum = sum + findings[i].relevance_score as u128;
        i += 1;
    }
    proof {
        assert(findings@.take(findings.len() as int) =~= findings@);
        lemma_score_sum_bounds(findings@);
    }
    (sum / (findings.len() as u128)) as u32
}

/// Removes the findings whose normalized title an earlier finding has.
pub fn dedup_by_title(findings: Vec<ResearchFinding>) -> (r: Vec<ResearchFinding>)
    ensures
        r@ == spec_dedup(findings@),
        r@.len() <= findings@.len(),
{
    let mut out: Vec<ResearchFinding> = Vec::new();
    let mut seen = StringHashSet::new();
    assert(findings@.take(0) =~= Seq::<ResearchFinding>::empty());
    for finding in it: findings
        invariant
            it.seq() == findings@,
            out@ == spec_dedup(findings@.take(it.index())),
            out@.len() <= it.index(),
            forall|j: int|
                0 <= j < it.index() ==> seen@.contains(
                    spec_normalize_title(#[trigger] findings@[j].title@),
                ),
            forall|title: Seq<char>|
                seen@.contains(title) ==> exists|j: int|
                    0 <= j < it.index() && spec_normalize_title(#[trigger] findings@[j].title@)
                        == title,
    {
        let ghost done = it.index();
        let ghost before = seen@;
        let key = normalize_title(finding.title.as_str());
        let fresh = seen.insert(key);
        proof {
            let front = findings@.take(done);
            assert(findings@.take(done + 1).drop_last() =~= front);
            assert(findings@.take(done + 1).last() == finding);
            if !fresh {
                let j = choose|j: int|
                    0 <= j < done && spec_normalize_title(#[trigger] findings@[j].title@) == key@;
                assert(spec_normalize_title(front[j].title@) == spec_normalize_title(
                    finding.title@,
                ));
            } else {
                if spec_title_seen(front, finding.title@) {
                    let j = choose|j: int|
                        0 <= j < front.len() && spec_normalize_title(
                            #[trigger] front[j].title@,
                        ) == spec_normalize_title(finding.title@);
                    assert(before.contains(spec_normalize_title(findings@[j].title@)));
                }
            }
            assert forall|title: Seq<char>| seen@.contains(title) implies exists|j: int|
                0 <= j < done + 1 && spec_normalize_title(#[trigger] findings@[j].title@)
                    == title by {
                if title == key@ {
                    assert(spec_normalize_title(findings@[done].title@) == title);
                } else {
                    assert(before.contains(title));
                    let j = choose|j: int|
                        0 <= j < done && spec_normalize_title(#[trigger] findings@[j].title@)
                            == title;
                    assert(0 <= j < done + 1);
                }
            }
        }
        if fresh {
            out.push(finding);
        }
    }
    assert(findings@.take(findings@.len() as int) =~= findings@);
    out
}

/// Keeps the findings that score at least `threshold`.
pub fn keep_at_least(findings: Vec<ResearchFinding>, threshold: u32) -> (r: Vec<ResearchFinding>)
    ensures
        r@ == spec_at_least(findings@, threshold),
        r@.len() <= findings@.len(),
        spec_all_wf(findings@) ==> spec_all_wf(r@),
{
    let ghost keep = |f: ResearchFinding| f.relevance_score >= threshold;
    let mut out: Vec<ResearchFinding> = Vec::new();
    assert(findings@.take(0).filter(keep) =~= Seq::<ResearchFinding>::empty()) by {
        reveal(Seq::filter);
    }
    for finding in it: findings
        invariant
            it.seq() == findings@,
            keep == |f: ResearchFinding| f.relevance_score >= threshold,
            out@ == findings@.take(it.index()).filter(keep),
            out@.len() <= it.index(),
    {
        proof {
            findings@.take(it.index()).lemma_filter_push(finding, keep);
            assert(findings@.take(it.index() + 1) =~= findings@.take(it.index()).push(finding));
        }
        if finding.relevance_score >= threshold {
            out.push(finding);
        }
    }
    proof {
        assert(findings@.take(findings@.len() as int) =~= findings@);
        if spec_all_wf(findings@) {
            lemma_filter_keeps_scores(findings@, keep);
        }
    }
    out
}

/// All findings of all batches, batch after batch.
pub fn concat_batches(batches: Vec<Vec<ResearchFinding>>) -> (r: Vec<ResearchFinding>)
    ensures
        r@ == spec_concat(batches@),
{
    let mut out: Vec<ResearchFinding> = Vec::new();
    assert(batches@.take(0) =~= Seq::<Vec<ResearchFinding>>::empty());
    for batch in outer: batches
        invariant
            outer.seq() == batches@,
            out@ == spec_concat(batches@.take(outer.index())),
    {
        let ghost before = out@;
        assert(batch@.take(0) =~= Seq::<ResearchFinding>::empty());
        proof {
            assert(batches@.take(outer.index() + 1).drop_last() =~= batches@.take(outer.index()));
            assert(batches@.take(outer.index() + 1).last() == batch);
        }
        for finding in inner: batch
            invariant
                inner.seq() == batch@,
                out@ == before + batch@.take(inner.index()),
        {
            out.push(finding);
            assert(out@ =~= before + batch@.take(inner.index() + 1));
        }
        assert(batch@.take(batch@.len() as int) =~= batch@);
    }
    assert(batches@.take(batches@.len() as int) =~= batches@);
    out
}

/// What is left of all findings after ranking and, where asked for, merging
/// of equal titles.
pub open spec fn spec_merge_candidates(
    batches: Seq<Vec<ResearchFinding>>,
    config: ProcessorConfig,
) -> Seq<ResearchFinding> {
    if config.deduplicate {
        spec_dedup(spec_rank(spec_concat(batches)))
    } else {
        spec_rank(spec_concat(batches))
    }
}

/// Combines batches of findings into one list: ranked by descending score,
/// one finding per normalized title (the highest-scored), none below the
/// threshold.
pub fn merge_findings(all_findings: Vec<Vec<ResearchFinding>>, config: &ProcessorConfig) -> (r:
    ProcessingResult)
    ensures
        r.findings@ == spec_at_least(
            spec_merge_candidates(all_findings@, *config),
            config.min_score_threshold,
        ),
        r.stats.input_count == spec_concat(all_findings@).len(),
        r.stats.duplicates_removed == spec_concat(all_findings@).len() - spec_merge_candidates(
            all_findings@,
            *config,
        ).len(),
        r.stats.threshold_filtered == spec_merge_candidates(all_findings@, *config).len()
            - r.findings@.len(),
        r.stats.output_count == r.findings@.len(),
        r.stats.avg_score == spec_average(r.findings@),
{
    let all = concat_batches(all_findings);
    let input_count = all.len();
    let ranked = rank_by_relevance(all);
    let unique = if config.deduplicate {
        dedup_by_title(ranked)
    } else {
        ranked
    };
    let candidate_count = unique.len();
    let kept = keep_at_least(unique, config.min_score_threshold);
    let output_count = kept.len();
    let avg_score = average_score(&kept);
    ProcessingResult {
        findings: kept,
        stats: ProcessingStats {
            input_count,
            output_count,
            threshold_filtered: candidate_count - output_count,
            duplicates_removed: input_count - candidate_count,
            avg_score,
        },
    }
}

/// Of two findings with the same normalized title, only the higher-scored
/// survives a merge, and one duplicate is counted.
pub proof fn lemma_merge_keeps_higher_score(high: ResearchFinding, low: ResearchFinding)
    requires
        spec_normalize_title(high.title@) == spec_normalize_title(low.title@),
        high.relevance_score > low.relevance_score,
    ensures
        spec_dedup(spec_rank(seq![high, low])) == seq![high],
        spec_dedup(spec_rank(seq![low, high])) == seq![high],
{
    let empty = Seq::<ResearchFinding>::empty();
    assert(seq![high, low].drop_last() =~= seq![high]);
    assert(seq![low, high].drop_last() =~= seq![low]);
    assert(seq![high].drop_last() =~= empty);
    assert(seq![low].drop_last() =~= empty);
    assert(spec_rank(empty) =~= empty);
    assert(spec_rank(seq![high]) =~= seq![high]);
    assert(spec_rank(seq![low]) =~= seq![low]);
    assert(spec_insert_ranked(seq![high], low) =~= seq![high, low]);
    assert(spec_insert_ranked(empty, high) =~= seq![high]);
    assert(spec_insert_ranked(seq![low], high) =~= seq![high, low]) by {
        assert(seq![low].drop_last() =~= empty);
        assert(seq![high].push(low) =~= seq![high, low]);
    }
    assert(spec_rank(seq![high, low]) == seq![high, low]);
    assert(spec_rank(seq![low, high]) == seq![high, low]);
    assert(spec_dedup(empty) =~= empty);
    assert(spec_dedup(seq![high]) =~= seq![high]) by {
        assert(!spec_title_seen(empty, high.title@));
        assert(empty.push(high) =~= seq![high]);
    }
    assert(spec_title_seen(seq![high], low.title@)) by {
        assert(seq![high][0] == high);
    }
}

} // verus!
