//! The arXiv source: papers from the Atom feed of the arXiv API as findings.

use vstd::prelude::*;
use crate::commander::{
    FindingMetadata, FindingView, MetadataView, ResearchFinding, ResearchSource, SourceView,
};
use crate::platform::{
    fresh_id, now_rfc3339, now_timestamp, parse_rfc3339, rfc3339_seconds, utc_date,
    utc_date_text,
};
use crate::research::processors::{keep_at_least, rank_by_relevance, spec_all_wf, spec_rank};
use crate::research::traits::{
    spec_effective_limit, ResearchAdapter, ResearchError, SearchOptions, SortOrder,
};
use crate::score::{clamp_unit, spec_clamp_unit, SCORE_ONE};
use crate::sequence::{
    is_first_at, lemma_position_found, lemma_position_missing, none_satisfies, spec_position,
};
use crate::text::{
    append_chars, chars_of, clone_strings, enclosed, find_from, join_words,
    last_segment, lemma_find_iff_contains, lemma_find_is_first, push_decimal, sections,
    slice_chars, spec_contains, spec_decimal, spec_enclosed, spec_find, spec_join,
    spec_last_segment, spec_lowercase, spec_sections, spec_trim, spec_words, split_words,
    string_of, trim_chars,
};

verus! {

/// A paper as the feed reports it.
#[derive(Debug, PartialEq)]
pub struct ArXivEntry {
    pub id: String,
    pub title: String,
    pub summary: String,
    pub authors: Vec<String>,
    pub published: String,
    pub updated: String,
    pub categories: Vec<String>,
    pub link: String,
}

/// The model of an `ArXivEntry`.
pub struct EntryView {
    pub id: Seq<char>,
    pub title: Seq<char>,
    pub summary: Seq<char>,
    pub authors: Seq<Seq<char>>,
    pub published: Seq<char>,
    pub updated: Seq<char>,
    pub categories: Seq<Seq<char>>,
    pub link: Seq<char>,
}

impl DeepView for ArXivEntry {
    type V = EntryView;

    open spec fn deep_view(&self) -> EntryView {
        EntryView {
            id: self.id@,
            title: self.title@,
            summary: self.summary@,
            authors: self.authors.deep_view(),
            published: self.published@,
            updated: self.updated@,
            categories: self.categories.deep_view(),
            link: self.link@,
        }
    }
}

/// What one entry of the feed says, before anything missing is filled in.
#[derive(Debug, PartialEq)]
pub struct RawEntry {
    pub id: Option<String>,
    pub title: String,
    pub summary: String,
    pub authors: Vec<String>,
    pub published: Option<String>,
    pub updated: Option<String>,
    pub categories: Vec<String>,
    pub link: Option<String>,
}

/// The model of a `RawEntry`.
pub struct RawEntryView {
    pub id: Option<Seq<char>>,
    pub title: Seq<char>,
    pub summary: Seq<char>,
    pub authors: Seq<Seq<char>>,
    pub published: Option<Seq<char>>,
    pub updated: Option<Seq<char>>,
    pub categories: Seq<Seq<char>>,
    pub link: Option<Seq<char>>,
}

impl DeepView for RawEntry {
    type V = RawEntryView;

    open spec fn deep_view(&self) -> RawEntryView {
        RawEntryView {
            id: self.id.deep_view(),
            title: self.title@,
            summary: self.summary@,
            authors: self.authors.deep_view(),
            published: self.published.deep_view(),
            updated: self.updated.deep_view(),
            categories: self.categories.deep_view(),
            link: self.link.deep_view(),
        }
    }
}

/// The text with every run of whitespace turned into one space, and none at
/// its ends.
pub open spec fn spec_collapse(text: Seq<char>) -> Seq<char> {
    spec_join(spec_words(text), seq![' '])
}

/// What stands between the first opening tag of the name and the closing
/// tag that follows it, without the whitespace at its ends.
pub open spec fn spec_extract_tag(xml: Seq<char>, tag: Seq<char>) -> Option<Seq<char>> {
    let open = seq!['<'] + tag + seq!['>'];
    let close = seq!['<', '/'] + tag + seq!['>'];
    match spec_find(xml, open, 0) {
        Some(start) => match spec_find(xml, close, start + open.len()) {
            Some(end) => if 0 <= start + open.len() <= end <= xml.len() {
                Some(spec_trim(xml.subrange(start + open.len(), end)))
            } else {
                None
            },
            None => None,
        },
        None => None,
    }
}

/// The first quoted address of the entry that points to an abstract page.
pub open spec fn spec_extract_link(xml: Seq<char>) -> Option<Seq<char>> {
    let addresses = spec_enclosed(xml, "href=\""@, "\""@, 0);
    match spec_position(addresses, |a: Seq<char>| spec_contains(a, "arxiv.org/abs/"@)) {
        Some(at) => Some(addresses[at]),
        None => None,
    }
}

/// The names of the authors: one for each author section that holds a name.
pub open spec fn spec_author_names(author_sections: Seq<Seq<char>>) -> Seq<Seq<char>>
    decreases author_sections.len(),
{
    if author_sections.len() == 0 {
        Seq::empty()
    } else {
        let front = spec_author_names(author_sections.drop_last());
        match spec_extract_tag(author_sections.last(), "name"@) {
            Some(name) => front.push(name),
            None => front,
        }
    }
}

/// What the text of one entry says.
pub open spec fn spec_parse_entry(content: Seq<char>) -> RawEntryView {
    RawEntryView {
        id: spec_extract_tag(content, "id"@),
        title: match spec_extract_tag(content, "title"@) {
            Some(title) => spec_collapse(title),
            None => "Untitled"@,
        },
        summary: match spec_extract_tag(content, "summary"@) {
            Some(summary) => spec_collapse(summary),
            None => Seq::empty(),
        },
        authors: spec_author_names(spec_sections(content, "<author>"@, 0)),
        published: spec_extract_tag(content, "published"@),
        updated: spec_extract_tag(content, "updated"@),
        categories: spec_enclosed(content, "category term=\""@, "\""@, 0),
        link: spec_extract_link(content),
    }
}

/// The text of an entry: what follows its opening tag up to its closing
/// tag, or all of it where the closing tag is missing.
pub open spec fn spec_entry_content(section: Seq<char>) -> Seq<char> {
    match spec_find(section, "</entry>"@, 0) {
        Some(end) => if 0 <= end <= section.len() {
            section.take(end)
        } else {
            section
        },
        None => section,
    }
}

/// What the entries of a feed say, in the feed's order.
pub open spec fn spec_parse_feed(xml: Seq<char>) -> Seq<RawEntryView> {
    spec_sections(xml, "<entry>"@, 0).map_values(
        |section: Seq<char>| spec_parse_entry(spec_entry_content(section)),
    )
}

/// The entry with what is missing filled in: the identifier and the date of
/// publication from the fallbacks, the date of the update from that of
/// publication, and the link from the identifier.
pub open spec fn spec_complete(
    raw: RawEntryView,
    fallback_id: Seq<char>,
    fallback_published: Seq<char>,
) -> EntryView {
    let id = match raw.id {
        Some(id) => id,
        None => fallback_id,
    };
    let published = match raw.published {
        Some(published) => published,
        None => fallback_published,
    };
    EntryView {
        id,
        title: raw.title,
        summary: raw.summary,
        authors: raw.authors,
        published,
        updated: match raw.updated {
            Some(updated) => updated,
            None => published,
        },
        categories: raw.categories,
        link: match raw.link {
            Some(link) => link,
            None => "https://arxiv.org/abs/"@ + spec_last_segment(id),
        },
    }
}

/// The entry is the raw entry completed with some identifier and some date.
pub open spec fn spec_completes(entry: EntryView, raw: RawEntryView) -> bool {
    exists|id: Seq<char>, published: Seq<char>|
        entry == #[trigger] spec_complete(raw, id, published)
}

/// The entries are those of the feed, each completed with some identifier
/// and some date.
pub open spec fn spec_entries_of(entries: Seq<ArXivEntry>, xml: Seq<char>) -> bool {
    &&& entries.len() == spec_parse_feed(xml).len()
    &&& forall|i: int|
        0 <= i < entries.len() ==> spec_completes(
            (#[trigger] entries[i]).deep_view(),
            spec_parse_feed(xml)[i],
        )
}

/// The characters of a string literal.
fn literal(text: &str) -> (r: Vec<char>)
    ensures
        r@ == text@,
{
    chars_of(text)
}

/// The strings of the character vectors.
fn strings_of(items: &Vec<Vec<char>>) -> (r: Vec<String>)
    ensures
        r.deep_view() == items.deep_view(),
{
    let mut out: Vec<String> = Vec::new();
    let mut i: usize = 0;
    while i < items.len()
        invariant
            i <= items.len(),
            out.len() == i,
            forall|k: int| 0 <= k < i ==> (#[trigger] out@[k])@ == items@[k]@,
        decreases items.len() - i,
    {
        out.push(string_of(&items[i]));
        i += 1;
    }
    assert(out.deep_view() =~= items.deep_view()) by {
        assert forall|k: int| 0 <= k < out.len() implies out.deep_view()[k]
            == items.deep_view()[k] by {
            assert(items@[k].deep_view() =~= items@[k]@);
        }
    }
    out
}

/// Every run of whitespace turned into one space, and none at the ends.
fn collapse(text: &Vec<char>) -> (r: Vec<char>)
    ensures
        r@ == spec_collapse(text@),
{
    let words = split_words(text);
    let mut space: Vec<char> = Vec::new();
    space.push(' ');
    assert(space@ =~= seq![' ']);
    join_words(&words, &space)
}

/// An adapter for the arXiv API.
#[derive(Debug, PartialEq)]
pub struct ArXivAdapter {
    base_url: String,
}

impl ArXivAdapter {
    /// The address of the API.
    pub closed spec fn api_url(&self) -> Seq<char> {
        self.base_url@
    }

    /// An adapter for the public arXiv API.
    pub fn new() -> (r: Self)
        ensures
            r.api_url() == "http://export.arxiv.org/api/query"@,
    {
        ArXivAdapter { base_url: String::from_str("http://export.arxiv.org/api/query") }
    }

    /// What stands between the first opening tag of the name and the
    /// closing tag that follows it, without the whitespace at its ends.
    pub fn extract_tag(xml: &Vec<char>, tag: &str) -> (r: Option<Vec<char>>)
        ensures
            match r {
                Some(content) => spec_extract_tag(xml@, tag@) == Some(content@),
                None => spec_extract_tag(xml@, tag@) is None,
            },
    {
        let name = chars_of(tag);
        let mut opening: Vec<char> = Vec::new();
        opening.push('<');
        append_chars(&mut opening, &name);
        opening.push('>');
        let mut closing: Vec<char> = Vec::new();
        closing.push('<');
        closing.push('/');
        append_chars(&mut closing, &name);
        closing.push('>');
        assert(opening@ =~= seq!['<'] + tag@ + seq!['>']);
        assert(closing@ =~= seq!['<', '/'] + tag@ + seq!['>']);
        proof {
            lemma_find_is_first(xml@, opening@, 0);
        }
        let start = match find_from(xml, &opening, 0) {
            Some(start) => start,
            None => {
                return None;
            },
        };
        assert(start + opening.len() <= xml.len()) by {
            assert(crate::text::matches_at(xml@, opening@, start as int));
        }
        let content_start: usize = start + opening.len();
        proof {
            lemma_find_is_first(xml@, closing@, content_start as int);
        }
        let end = match find_from(xml, &closing, content_start) {
            Some(end) => end,
            None => {
                return None;
            },
        };
        let content = slice_chars(xml, content_start, end);
        Some(trim_chars(&content))
    }

    /// The first quoted address that points to an abstract page.
    pub fn extract_link(xml: &Vec<char>) -> (r: Option<Vec<char>>)
        ensures
            match r {
                Some(link) => spec_extract_link(xml@) == Some(link@),
                None => spec_extract_link(xml@) is None,
            },
    {
        let marker = literal("href=\"");
        let quote = literal("\"");
        let wanted = literal("arxiv.org/abs/");
        let addresses = enclosed(xml, &marker, &quote);
        let ghost views = addresses.deep_view();
        let ghost is_abstract = |a: Seq<char>| spec_contains(a, "arxiv.org/abs/"@);
        let mut i: usize = 0;
        while i < addresses.len()
            invariant
                i <= addresses.len(),
                views == addresses.deep_view(),
                views == spec_enclosed(xml@, "href=\""@, "\""@, 0),
                wanted@ == "arxiv.org/abs/"@,
                is_abstract == |a: Seq<char>| spec_contains(a, "arxiv.org/abs/"@),
                forall|k: int| 0 <= k < i ==> !is_abstract(#[trigger] views[k]),
            decreases addresses.len() - i,
        {
            proof {
                lemma_find_iff_contains(addresses@[i as int]@, wanted@);
                assert(addresses@[i as int].deep_view() =~= addresses@[i as int]@);
            }
            if find_from(&addresses[i], &wanted, 0).is_some() {
                proof {
                    assert(is_first_at(views, is_abstract, i as int));
                    lemma_position_found(views, is_abstract, i as int);
                }
                let link = slice_chars(&addresses[i], 0, addresses[i].len());
                assert(link@ =~= addresses@[i as int]@);
                assert(views[i as int] =~= addresses@[i as int]@);
                return Some(link);
            }
            i += 1;
        }
        proof {
            assert(none_satisfies(views, is_abstract));
            lemma_position_missing(views, is_abstract);
        }
        None
    }

    /// What the text of one entry says.
    pub fn parse_entry(content: &Vec<char>) -> (r: RawEntry)
        ensures
            r.deep_view() == spec_parse_entry(content@),
    {
        let id = optional_string(ArXivAdapter::extract_tag(content, "id"));
        let title = match ArXivAdapter::extract_tag(content, "title") {
            Some(title) => string_of(&collapse(&title)),
            None => String::from_str("Untitled"),
        };
        let summary = match ArXivAdapter::extract_tag(content, "summary") {
            Some(summary) => string_of(&collapse(&summary)),
            None => String::new(),
        };
        let author_sections = sections(content, &literal("<author>"));
        let ghost section_views = author_sections.deep_view();
        let mut authors: Vec<String> = Vec::new();
        let mut i: usize = 0;
        assert(section_views.take(0) =~= Seq::<Seq<char>>::empty());
        assert(authors.deep_view() =~= Seq::<Seq<char>>::empty());
        while i < author_sections.len()
            invariant
                i <= author_sections.len(),
                section_views == author_sections.deep_view(),
                authors.deep_view() == spec_author_names(section_views.take(i as int)),
            decreases author_sections.len() - i,
        {
            proof {
                assert(section_views.take(i + 1).drop_last() =~= section_views.take(i as int));
                assert(section_views.take(i + 1).last() == author_sections@[i as int].deep_view());
                assert(author_sections@[i as int].deep_view() =~= author_sections@[i as int]@);
            }
            let ghost before = authors.deep_view();
            match ArXivAdapter::extract_tag(&author_sections[i], "name") {
                Some(name) => {
                    let name = string_of(&name);
                    authors.push(name);
                    assert(authors.deep_view() =~= before.push(name@));
                },
                None => {},
            }
            i += 1;
        }
        assert(section_views.take(author_sections.len() as int) =~= section_views);
        let published = optional_string(ArXivAdapter::extract_tag(content, "published"));
        let updated = optional_string(ArXivAdapter::extract_tag(content, "updated"));
        let categories = strings_of(
            &enclosed(content, &literal("category term=\""), &literal("\"")),
        );
        let link = optional_string(ArXivAdapter::extract_link(content));
        RawEntry { id, title, summary, authors, published, updated, categories, link }
    }

    /// What the entries of a feed say, in the feed's order.
    pub fn parse_feed(xml: &str) -> (r: Vec<RawEntry>)
        ensures
            r.deep_view() == spec_parse_feed(xml@),
    {
        let chars = chars_of(xml);
        let parts = sections(&chars, &literal("<entry>"));
        let closing = literal("</entry>");
        let mut entries: Vec<RawEntry> = Vec::new();
        let mut i: usize = 0;
        while i < parts.len()
            invariant
                i <= parts.len(),
                closing@ == "</entry>"@,
                entries.len() == i,
                forall|k: int|
                    0 <= k < i ==> (#[trigger] entries@[k]).deep_view() == spec_parse_entry(
                        spec_entry_content(parts@[k]@),
                    ),
            decreases parts.len() - i,
        {
            let part = &parts[i];
            proof {
                lemma_find_is_first(part@, closing@, 0);
            }
            let end: usize = match find_from(part, &closing, 0) {
                Some(end) => end,
                None => part.len(),
            };
            let content = slice_chars(part, 0, end);
            assert(content@ =~= spec_entry_content(part@));
            entries.push(ArXivAdapter::parse_entry(&content));
            i += 1;
        }
        assert(entries.deep_view() =~= spec_parse_feed(xml@)) by {
            assert forall|k: int| 0 <= k < entries.len() implies entries.deep_view()[k]
                == spec_parse_feed(xml@)[k] by {
                assert(parts@[k].deep_view() =~= parts@[k]@);
            }
        }
        entries
    }

    /// Fills in what an entry lacks: the identifier and the date of
    /// publication from the fallbacks given, the date of the update from
    /// that of publication, and the link from the identifier.
    pub fn complete_entry(raw: RawEntry, fallback_id: String, fallback_published: String) -> (r:
        ArXivEntry)
        ensures
            r.deep_view() == spec_complete(raw.deep_view(), fallback_id@, fallback_published@),
    {
        let id = match raw.id {
            Some(id) => id,
            None => fallback_id,
        };
        let published = match raw.published {
            Some(published) => published,
            None => fallback_published,
        };
        let updated = match raw.updated {
            Some(updated) => updated,
            None => published.clone(),
        };
        let link = match raw.link {
            Some(link) => link,
            None => {
                let mut link = String::from_str("https://arxiv.org/abs/");
                let segment = string_of(&last_segment(&chars_of(id.as_str())));
                link.append(segment.as_str());
                link
            },
        };
        ArXivEntry {
            id,
            title: raw.title,
            summary: raw.summary,
            authors: raw.authors,
            published,
            updated,
            categories: raw.categories,
            link,
        }
    }

    /// The papers of a feed. An entry without an identifier gets a new one,
    /// and one without a date of publication the current time.
    pub fn parse_atom_response(xml: &str) -> (r: Result<Vec<ArXivEntry>, String>)
        ensures
            r matches Ok(entries) && spec_entries_of(entries@, xml@),
    {
        let ghost raws = spec_parse_feed(xml@);
        let parsed = ArXivAdapter::parse_feed(xml);
        assert(raws.len() == parsed@.len()) by {
            assert(parsed.deep_view().len() == parsed@.len());
        }
        assert forall|k: int| 0 <= k < parsed@.len() implies (#[trigger] parsed@[k]).deep_view()
            == raws[k] by {
            assert(parsed.deep_view()[k] == parsed@[k].deep_view());
        }
        let mut entries: Vec<ArXivEntry> = Vec::new();
        for raw in it: parsed
            invariant
                it.seq() == parsed@,
                raws.len() == parsed@.len(),
                forall|k: int|
                    0 <= k < parsed@.len() ==> (#[trigger] parsed@[k]).deep_view() == raws[k],
                entries.len() == it.index(),
                forall|i: int|
                    0 <= i < it.index() ==> spec_completes(
                        (#[trigger] entries@[i]).deep_view(),
                        raws[i],
                    ),
        {
            let ghost at = it.index();
            let id = fresh_id();
            let published = now_rfc3339();
            let ghost witness_id = id@;
            let ghost witness_published = published@;
            let entry = ArXivAdapter::complete_entry(raw, id, published);
            proof {
                assert(entry.deep_view() == spec_complete(raws[at], witness_id, witness_published));
                assert(spec_completes(entry.deep_view(), raws[at]));
            }
            entries.push(entry);
        }
        Ok(entries)
    }
}

/// How many of the terms occur in the text.
pub open spec fn spec_plain_hits(text: Seq<char>, terms: Seq<Seq<char>>) -> nat
    decreases terms.len(),
{
    if terms.len() == 0 {
        0
    } else {
        spec_plain_hits(text, terms.drop_last()) + if spec_contains(text, terms.last()) {
            1nat
        } else {
            0nat
        }
    }
}

/// What the age of a paper contributes: most within 30 days of its
/// publication, less within 90 and 365 days, nothing later or where the
/// date cannot be read.
pub open spec fn spec_paper_recency(published: Seq<char>, now: i64) -> int {
    match rfc3339_seconds(published) {
        Some(moment) => if now - moment < 30 * 86_400 {
            150_000
        } else if now - moment < 90 * 86_400 {
            80_000
        } else if now - moment < 365 * 86_400 {
            30_000
        } else {
            0
        },
        None => 0,
    }
}

/// Whether a category belongs to artificial intelligence and machine learning.
pub open spec fn spec_ai_category(category: Seq<char>) -> bool {
    ||| category == "cs.AI"@
    ||| category == "cs.LG"@
    ||| category == "cs.CL"@
    ||| category == "cs.CV"@
    ||| category == "stat.ML"@
}

/// Whether one of the categories belongs to artificial intelligence and
/// machine learning.
pub open spec fn spec_has_ai_category(categories: Seq<Seq<char>>) -> bool {
    exists|k: int| 0 <= k < categories.len() && spec_ai_category(#[trigger] categories[k])
}

/// Whether a lowercased query asks about artificial intelligence.
pub open spec fn spec_ai_query(query_lower: Seq<char>) -> bool {
    ||| spec_contains(query_lower, "ai"@)
    ||| spec_contains(query_lower, "machine learning"@)
    ||| spec_contains(query_lower, "neural"@)
    ||| spec_contains(query_lower, "deep learning"@)
}

/// What the summary contributes: five hundredths per query term in it, at
/// most two tenths.
pub open spec fn spec_summary_bonus(hits: nat) -> int {
    if hits >= 4 {
        200_000
    } else {
        (hits * 50_000) as int
    }
}

/// The provisional relevance of a paper for a query at the time `now`.
pub open spec fn spec_entry_relevance(entry: EntryView, query: Seq<char>, now: i64) -> int {
    let query_lower = spec_lowercase(query);
    let terms = spec_words(query_lower);
    let title = spec_lowercase(entry.title);
    spec_clamp_unit(
        300_000 + 150_000 * spec_plain_hits(title, terms) + (if spec_contains(
            title,
            query_lower,
        ) {
            200_000int
        } else {
            0int
        }) + spec_summary_bonus(spec_plain_hits(spec_lowercase(entry.summary), terms))
            + spec_paper_recency(entry.published, now) + (if spec_has_ai_category(
            entry.categories,
        ) && spec_ai_query(query_lower) {
            100_000int
        } else {
            0int
        }),
    )
}

/// How the authors are named in a summary: the first and "et al." for more
/// than three, else all of them.
pub open spec fn spec_authors_line(authors: Seq<Seq<char>>) -> Seq<char> {
    if authors.len() > 3 {
        authors[0] + " et al."@
    } else {
        spec_join(authors, ", "@)
    }
}

/// An abstract as it is shown: its first 500 characters and an ellipsis
/// where it is longer.
pub open spec fn spec_abridged(summary: Seq<char>) -> Seq<char> {
    if summary.len() > 500 {
        summary.take(500) + "..."@
    } else {
        summary
    }
}

/// The finding that a paper becomes for a query at the time `now`.
pub open spec fn spec_entry_finding(entry: EntryView, query: Seq<char>, now: i64) -> FindingView {
    FindingView {
        id: "arxiv-"@ + spec_last_segment(entry.id),
        source: SourceView::ArXiv,
        title: entry.title,
        summary: "Authors: "@ + spec_authors_line(entry.authors) + "\n\n"@ + spec_abridged(
            entry.summary,
        ),
        relevance_score: spec_entry_relevance(entry, query, now) as u32,
        discovered_at: match rfc3339_seconds(entry.updated) {
            Some(moment) => moment,
            None => match rfc3339_seconds(entry.published) {
                Some(moment) => moment,
                None => now,
            },
        },
        tags: entry.categories.push("arxiv"@).push("academic"@),
        url: Some(entry.link),
        metadata: MetadataView {
            authors: entry.authors,
            categories: entry.categories,
            published: Some(entry.published),
            updated: Some(entry.updated),
            ..MetadataView::empty()
        },
    }
}

/// The field that arXiv sorts by for an order.
pub open spec fn spec_sort_field(sort: Option<SortOrder>) -> Seq<char> {
    match sort {
        Some(SortOrder::DateDesc) | Some(SortOrder::DateAsc) => "submittedDate"@,
        _ => "relevance"@,
    }
}

/// The direction that arXiv sorts in for an order.
pub open spec fn spec_sort_direction(sort: Option<SortOrder>) -> Seq<char> {
    match sort {
        Some(SortOrder::DateAsc) => "ascending"@,
        _ => "descending"@,
    }
}

/// One character of a query as it stands in the address.
pub open spec fn spec_query_char(c: char) -> Seq<char> {
    if c == ' ' {
        "+AND+"@
    } else if c == ':' {
        "%3A"@
    } else {
        seq![c]
    }
}

/// A query as it stands in the address: spaces join the terms with AND,
/// and colons are escaped.
pub open spec fn spec_query_terms(query: Seq<char>) -> Seq<char>
    decreases query.len(),
{
    if query.len() == 0 {
        Seq::empty()
    } else {
        spec_query_terms(query.drop_last()) + spec_query_char(query.last())
    }
}

/// The address of a search.
pub open spec fn spec_search_url(base_url: Seq<char>, query: Seq<char>, options: SearchOptions) -> Seq<
    char,
> {
    base_url + "?search_query=all:"@ + spec_query_terms(query) + "&max_results="@ + spec_decimal(
        spec_effective_limit(options.limit) as nat,
    ) + "&sortBy="@ + spec_sort_field(options.sort_by) + "&sortOrder="@ + spec_sort_direction(
        options.sort_by,
    )
}

/// The findings were built from the entries, one each, in order.
pub open spec fn spec_built_from(
    built: Seq<ResearchFinding>,
    entries: Seq<ArXivEntry>,
    query: Seq<char>,
    now: i64,
) -> bool {
    &&& built.len() == entries.len()
    &&& forall|i: int|
        0 <= i < built.len() ==> (#[trigger] built[i]).deep_view() == spec_entry_finding(
            entries[i].deep_view(),
            query,
            now,
        )
}

/// The time that findings have to be discovered at or after: the one asked
/// for, or `now` where that one is out of the calendar's range.
pub open spec fn spec_since(since: i64, now: i64) -> i64 {
    if utc_date_text(since) is Some {
        since
    } else {
        now
    }
}

/// The findings that pass the filters of the options: at least as relevant
/// as asked for, and discovered since the time asked for.
pub open spec fn spec_filtered(findings: Seq<ResearchFinding>, options: SearchOptions, now: i64) -> Seq<
    ResearchFinding,
> {
    let relevant = match options.min_relevance {
        Some(least) => findings.filter(|f: ResearchFinding| f.relevance_score >= least),
        None => findings,
    };
    match options.since_timestamp {
        Some(since) => relevant.filter(
            |f: ResearchFinding| f.discovered_at >= spec_since(since, now),
        ),
        None => relevant,
    }
}

impl ArXivAdapter {
    /// The provisional relevance of a paper for a query at the time `now`:
    /// from its title, abstract, age and categories.
    pub fn calculate_relevance(entry: &ArXivEntry, query: &str, now: i64) -> (r: u32)
        ensures
            r == spec_entry_relevance(entry.deep_view(), query@, now),
            r <= SCORE_ONE,
    {
        let query_lower = chars_of(query.to_lowercase().as_str());
        let terms = split_words(&query_lower);
        let title = chars_of(entry.title.as_str().to_lowercase().as_str());
        let summary = chars_of(entry.summary.as_str().to_lowercase().as_str());
        let title_hits: u64 = plain_hits(&title, &terms);
        let phrase: u64 = if occurs(&title, &query_lower) {
            200_000
        } else {
            0
        };
        let summary_hits: u64 = plain_hits(&summary, &terms);
        let summary_bonus: u64 = if summary_hits >= 4 {
            200_000
        } else {
            summary_hits * 50_000
        };
        let recency: u64 = match parse_rfc3339(entry.published.as_str()) {
            Some(moment) => {
                let age: i128 = now as i128 - moment as i128;
                if age < 30 * 86_400 {
                    150_000
                } else if age < 90 * 86_400 {
                    80_000
                } else if age < 365 * 86_400 {
                    30_000
                } else {
                    0
                }
            },
            None => 0,
        };
        let topical: u64 = if has_ai_category(&entry.categories) && is_ai_query(&query_lower) {
            100_000
        } else {
            0
        };
        let total: u64 = 300_000 + 150_000 * title_hits + phrase + summary_bonus + recency
            + topical;
        clamp_unit(total)
    }

    /// Reads a date as arXiv writes it.
    pub fn parse_arxiv_date(date_str: &str) -> (r: Result<i64, ()>)
        ensures
            match rfc3339_seconds(date_str@) {
                Some(moment) => r == Ok::<i64, ()>(moment),
                None => r is Err,
            },
    {
        match parse_rfc3339(date_str) {
            Some(moment) => Ok(moment),
            None => Err(()),
        }
    }

    /// The finding that a paper becomes for a query at the time `now`.
    pub fn entry_to_finding(entry: ArXivEntry, query: &str, now: i64) -> (r: ResearchFinding)
        ensures
            r.deep_view() == spec_entry_finding(entry.deep_view(), query@, now),
            r.wf(),
    {
        let relevance_score = ArXivAdapter::calculate_relevance(&entry, query, now);
        let discovered_at = match parse_rfc3339(entry.updated.as_str()) {
            Some(moment) => moment,
            None => match parse_rfc3339(entry.published.as_str()) {
                Some(moment) => moment,
                None => now,
            },
        };
        let mut tags = clone_strings(&entry.categories);
        let ghost categories = tags.deep_view();
        tags.push(String::from_str("arxiv"));
        assert(tags.deep_view() =~= categories.push("arxiv"@));
        let ghost with_source = tags.deep_view();
        tags.push(String::from_str("academic"));
        assert(tags.deep_view() =~= with_source.push("academic"@));
        let mut summary = String::from_str("Authors: ");
        summary.append(authors_line(&entry.authors).as_str());
        summary.append("\n\n");
        let text = chars_of(entry.summary.as_str());
        if text.len() > 500 {
            let head = slice_chars(&text, 0, 500);
            assert(head@ =~= text@.take(500));
            summary.append(string_of(&head).as_str());
            summary.append("...");
        } else {
            summary.append(entry.summary.as_str());
        }
        let mut id = String::from_str("arxiv-");
        id.append(string_of(&last_segment(&chars_of(entry.id.as_str()))).as_str());
        let metadata = FindingMetadata {
            stars: None,
            forks: None,
            citations: None,
            likes: None,
            engagement: None,
            language: None,
            created_at: None,
            published: Some(entry.published),
            updated: Some(entry.updated),
            authors: entry.authors,
            categories: entry.categories,
        };
        proof {
            let want = spec_entry_finding(entry.deep_view(), query@, now);
            assert(id@ == want.id);
            assert(summary@ == want.summary);
            assert(tags.deep_view() == want.tags);
            assert(metadata.deep_view() == want.metadata);
            assert(discovered_at == want.discovered_at);
        }
        ResearchFinding {
            id,
            source: ResearchSource::ArXiv,
            title: entry.title,
            summary,
            relevance_score,
            discovered_at,
            tags,
            url: Some(entry.link),
            metadata,
        }
    }

    /// The field that arXiv sorts by for an order.
    pub fn build_sort_param(sort: &Option<SortOrder>) -> (r: &'static str)
        ensures
            r@ == spec_sort_field(*sort),
    {
        match sort {
            Some(SortOrder::DateDesc) => "submittedDate",
            Some(SortOrder::DateAsc) => "submittedDate",
            Some(SortOrder::PopularityDesc) => "relevance",
            _ => "relevance",
        }
    }

    /// The address that the API's availability is checked at.
    pub fn validation_url(&self) -> (r: String)
        ensures
            r@ == self.api_url() + "?search_query=all:test&max_results=1"@,
    {
        let mut url = self.base_url.clone();
        url.append("?search_query=all:test&max_results=1");
        url
    }

    /// What the status of the availability check means.
    pub fn check_validation(status: u16) -> (r: Result<(), ResearchError>)
        ensures
            200 <= status < 300 ==> r is Ok,
            !(200 <= status < 300) ==> (r matches Err(
                ResearchError::ApiError { status: s, message },
            ) && s == status && message@ == "ArXiv API unavailable"@),
    {
        if 200 <= status && status < 300 {
            Ok(())
        } else {
            Err(
                ResearchError::ApiError {
                    status,
                    message: String::from_str("ArXiv API unavailable"),
                },
            )
        }
    }

    /// The address of the search for `query`. A query that is empty but for
    /// whitespace is refused.
    pub fn search_url(&self, query: &str, options: &SearchOptions) -> (r: Result<
        String,
        ResearchError,
    >)
        ensures
            spec_trim(query@).len() == 0 ==> (r matches Err(ResearchError::InvalidQuery(m)) && m@
                == "Query cannot be empty"@),
            spec_trim(query@).len() > 0 ==> (r matches Ok(url) && url@ == spec_search_url(
                self.api_url(),
                query@,
                *options,
            )),
    {
        let chars = chars_of(query);
        if trim_chars(&chars).len() == 0 {
            return Err(ResearchError::InvalidQuery(String::from_str("Query cannot be empty")));
        }
        let limit = options.effective_limit();
        let sort_by = ArXivAdapter::build_sort_param(&options.sort_by);
        let sort_order = match options.sort_by {
            Some(SortOrder::DateAsc) => "ascending",
            _ => "descending",
        };
        let mut url = self.base_url.clone();
        url.append("?search_query=all:");
        let ghost prefix = url@;
        let mut i: usize = 0;
        assert(chars@.take(0) =~= Seq::<char>::empty());
        while i < chars.len()
            invariant
                i <= chars.len(),
                url@ == prefix + spec_query_terms(chars@.take(i as int)),
            decreases chars.len() - i,
        {
            let c = chars[i];
            let ghost before = url@;
            proof {
                assert(chars@.take(i + 1).drop_last() =~= chars@.take(i as int));
                assert(chars@.take(i + 1).last() == c);
            }
            if c == ' ' {
                url.append("+AND+");
            } else if c == ':' {
                url.append("%3A");
            } else {
                url.push(c);
            }
            assert(url@ =~= before + spec_query_char(c));
            i += 1;
        }
        assert(chars@.take(chars.len() as int) =~= chars@);
        url.append("&max_results=");
        push_decimal(&mut url, limit as u64);
        url.append("&sortBy=");
        url.append(sort_by);
        url.append("&sortOrder=");
        url.append(sort_order);
        Ok(url)
    }

    /// What the status of a search means: any failure is an API error with
    /// the body as its message.
    pub fn check_response(status: u16, body: String) -> (r: Result<(), ResearchError>)
        ensures
            200 <= status < 300 ==> r is Ok,
            !(200 <= status < 300) ==> r == Err::<(), ResearchError>(
                ResearchError::ApiError { status, message: body },
            ),
    {
        if 200 <= status && status < 300 {
            Ok(())
        } else {
            Err(ResearchError::ApiError { status, message: body })
        }
    }

    /// The findings for the papers of a search at the time `now`: one per
    /// paper, those that the options filter out left out, by descending
    /// relevance.
    pub fn findings_at(
        entries: Vec<ArXivEntry>,
        query: &str,
        options: &SearchOptions,
        now: i64,
    ) -> (r: Vec<ResearchFinding>)
        ensures
            exists|built: Seq<ResearchFinding>|
                #[trigger] spec_built_from(built, entries@, query@, now) && r@ == spec_rank(
                    spec_filtered(built, *options, now),
                ),
            spec_all_wf(r@),
    {
        let mut built: Vec<ResearchFinding> = Vec::new();
        for entry in it: entries
            invariant
                it.seq() == entries@,
                built@.len() == it.index(),
                forall|i: int|
                    0 <= i < it.index() ==> (#[trigger] built@[i]).deep_view()
                        == spec_entry_finding(entries@[i].deep_view(), query@, now),
                forall|i: int| 0 <= i < it.index() ==> (#[trigger] built@[i]).wf(),
        {
            built.push(ArXivAdapter::entry_to_finding(entry, query, now));
        }
        let ghost all = built@;
        assert(spec_built_from(all, entries@, query@, now));
        assert(spec_all_wf(all));
        let relevant = match options.min_relevance {
            Some(least) => keep_at_least(built, least),
            None => built,
        };
        let recent = match options.since_timestamp {
            Some(since) => {
                let threshold = if utc_date(since).is_some() {
                    since
                } else {
                    now
                };
                keep_since(relevant, threshold)
            },
            None => relevant,
        };
        rank_by_relevance(recent)
    }

    /// The findings for the feed of a search, now.
    pub fn findings(xml: &str, query: &str, options: &SearchOptions) -> (r: Vec<ResearchFinding>)
        ensures
            exists|entries: Seq<ArXivEntry>, now: i64, built: Seq<ResearchFinding>|
                spec_entries_of(entries, xml@) && #[trigger] spec_built_from(
                    built,
                    entries,
                    query@,
                    now,
                ) && r@ == spec_rank(spec_filtered(built, *options, now)),
            spec_all_wf(r@),
    {
        let entries = match ArXivAdapter::parse_atom_response(xml) {
            Ok(entries) => entries,
            Err(_) => Vec::new(),
        };
        let now = now_timestamp();
        ArXivAdapter::findings_at(entries, query, options, now)
    }

    /// The search for what is trending: the newest papers on artificial
    /// intelligence, machine learning and computational linguistics.
    pub fn trending_request(limit: usize) -> (r: (String, SearchOptions))
        ensures
            r.0@ == "cat:cs.AI OR cat:cs.LG OR cat:cs.CL"@,
            r.1.limit == Some(limit),
            r.1.sort_by == Some(SortOrder::DateDesc),
            r.1.min_relevance is None,
            r.1.since_timestamp is None,
            r.1.tags is None,
    {
        (
            String::from_str("cat:cs.AI OR cat:cs.LG OR cat:cs.CL"),
            SearchOptions {
                limit: Some(limit),
                min_relevance: None,
                since_timestamp: None,
                tags: None,
                sort_by: Some(SortOrder::DateDesc),
            },
        )
    }
}

impl Default for ArXivAdapter {
    fn default() -> (r: Self)
        ensures
            r.api_url() == "http://export.arxiv.org/api/query"@,
    {
        ArXivAdapter::new()
    }
}

impl ResearchAdapter for ArXivAdapter {
    open spec fn spec_name(&self) -> Seq<char> {
        "ArXiv"@
    }

    open spec fn spec_source(&self) -> SourceView {
        SourceView::ArXiv
    }

    fn name(&self) -> (r: String) {
        String::from_str("ArXiv")
    }

    fn source(&self) -> (r: ResearchSource) {
        ResearchSource::ArXiv
    }
}

/// Whether `needle` occurs in `hay`.
fn occurs(hay: &Vec<char>, needle: &Vec<char>) -> (r: bool)
    ensures
        r == spec_contains(hay@, needle@),
{
    proof {
        lemma_find_iff_contains(hay@, needle@);
    }
    find_from(hay, needle, 0).is_some()
}

/// How many of the terms occur in the text, counted up to ten.
fn plain_hits(text: &Vec<char>, terms: &Vec<Vec<char>>) -> (r: u64)
    ensures
        r <= 10,
        r == if spec_plain_hits(text@, terms.deep_view()) < 10 {
            spec_plain_hits(text@, terms.deep_view())
        } else {
            10
        },
{
    let ghost views = terms.deep_view();
    let mut hits: u64 = 0;
    let mut i: usize = 0;
    assert(views.take(0) =~= Seq::<Seq<char>>::empty());
    while i < terms.len()
        invariant
            i <= terms.len(),
            views == terms.deep_view(),
            hits <= 10,
            hits == if spec_plain_hits(text@, views.take(i as int)) < 10 {
                spec_plain_hits(text@, views.take(i as int))
            } else {
                10
            },
        decreases terms.len() - i,
    {
        proof {
            assert(views.take(i + 1).drop_last() =~= views.take(i as int));
            assert(views.take(i + 1).last() == terms@[i as int].deep_view());
            assert(terms@[i as int].deep_view() =~= terms@[i as int]@);
        }
        if occurs(text, &terms[i]) {
            if hits < 10 {
                hits += 1;
            }
        }
        i += 1;
    }
    assert(views.take(terms.len() as int) =~= views);
    hits
}

/// Whether one of the categories belongs to artificial intelligence.
fn has_ai_category(categories: &Vec<String>) -> (r: bool)
    ensures
        r == spec_has_ai_category(categories.deep_view()),
{
    let wanted = [
        String::from_str("cs.AI"),
        String::from_str("cs.LG"),
        String::from_str("cs.CL"),
        String::from_str("cs.CV"),
        String::from_str("stat.ML"),
    ];
    let ghost views = categories.deep_view();
    let mut i: usize = 0;
    while i < categories.len()
        invariant
            i <= categories.len(),
            views == categories.deep_view(),
            wanted@.len() == 5,
            wanted@[0]@ == "cs.AI"@,
            wanted@[1]@ == "cs.LG"@,
            wanted@[2]@ == "cs.CL"@,
            wanted@[3]@ == "cs.CV"@,
            wanted@[4]@ == "stat.ML"@,
            forall|k: int| 0 <= k < i ==> !spec_ai_category(#[trigger] views[k]),
        decreases categories.len() - i,
    {
        let c = &categories[i];
        assert(views[i as int] == c@);
        if *c == wanted[0] || *c == wanted[1] || *c == wanted[2] || *c == wanted[3] || *c
            == wanted[4] {
            assert(spec_ai_category(views[i as int]));
            return true;
        }
        i += 1;
    }
    false
}

/// Whether a lowercased query asks about artificial intelligence.
fn is_ai_query(query_lower: &Vec<char>) -> (r: bool)
    ensures
        r == spec_ai_query(query_lower@),
{
    occurs(query_lower, &literal("ai")) || occurs(query_lower, &literal("machine learning"))
        || occurs(query_lower, &literal("neural")) || occurs(
        query_lower,
        &literal("deep learning"),
    )
}

/// How the authors are named in a summary.
fn authors_line(authors: &Vec<String>) -> (r: String)
    ensures
        r@ == spec_authors_line(authors.deep_view()),
{
    if authors.len() > 3 {
        let mut line = authors[0].clone();
        line.append(" et al.");
        line
    } else {
        let mut names: Vec<Vec<char>> = Vec::new();
        let mut i: usize = 0;
        while i < authors.len()
            invariant
                i <= authors.len(),
                names.len() == i,
                forall|k: int| 0 <= k < i ==> (#[trigger] names@[k])@ == authors@[k]@,
            decreases authors.len() - i,
        {
            names.push(chars_of(authors[i].as_str()));
            i += 1;
        }
        assert(names.deep_view() =~= authors.deep_view()) by {
            assert forall|k: int| 0 <= k < names.len() implies names.deep_view()[k]
                == authors.deep_view()[k] by {
                assert(names@[k].deep_view() =~= names@[k]@);
            }
        }
        string_of(&join_words(&names, &literal(", ")))
    }
}

/// Keeps the findings discovered at or after `threshold`.
fn keep_since(findings: Vec<ResearchFinding>, threshold: i64) -> (r: Vec<ResearchFinding>)
    ensures
        r@ == findings@.filter(|f: ResearchFinding| f.discovered_at >= threshold),
        spec_all_wf(findings@) ==> spec_all_wf(r@),
{
    let ghost keep = |f: ResearchFinding| f.discovered_at >= threshold;
    let mut out: Vec<ResearchFinding> = Vec::new();
    assert(findings@.take(0).filter(keep) =~= Seq::<ResearchFinding>::empty()) by {
        reveal(Seq::filter);
    }
    for finding in it: findings
        invariant
            it.seq() == findings@,
            keep == |f: ResearchFinding| f.discovered_at >= threshold,
            out@ == findings@.take(it.index()).filter(keep),
    {
        proof {
            findings@.take(it.index()).lemma_filter_push(finding, keep);
            assert(findings@.take(it.index() + 1) =~= findings@.take(it.index()).push(finding));
        }
        if finding.discovered_at >= threshold {
            out.push(finding);
        }
    }
    proof {
        assert(findings@.take(findings@.len() as int) =~= findings@);
        if spec_all_wf(findings@) {
            crate::research::processors::lemma_filter_keeps_scores(findings@, keep);
        }
    }
    out
}

/// The string of optional characters.
fn optional_string(chars: Option<Vec<char>>) -> (r: Option<String>)
    ensures
        match (chars, r) {
            (Some(c), Some(s)) => s@ == c@,
            (None, None) => true,
            _ => false,
        },
{
    match chars {
        Some(c) => Some(string_of(&c)),
        None => None,
    }
}

} // verus!
