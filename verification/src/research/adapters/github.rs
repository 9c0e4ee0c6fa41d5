//! The GitHub source: repositories as findings.

use vstd::prelude::*;
use crate::commander::{
    FindingMetadata, FindingView, MetadataView, ResearchFinding, ResearchSource, SourceView,
};
use crate::platform::{now_timestamp, parse_rfc3339, rfc3339_seconds, utc_date, utc_date_text};
use crate::research::processors::{
    keep_at_least, rank_by_relevance, spec_all_wf, spec_at_least, spec_rank,
};
use crate::research::traits::{ResearchAdapter, ResearchError, SearchOptions, SortOrder};
use crate::score::{clamp_unit, log10_millionths, spec_clamp_unit, spec_log10, SCORE_ONE};
use crate::text::{
    chars_of, clone_optional_string, clone_strings, find_from, lemma_find_iff_contains,
    parse_u64, push_decimal, spec_contains, spec_decimal, spec_lowercase, spec_parse_u64, spec_trim, spec_words, split_words,
    string_of, trim_chars,
};

verus! {

/// A repository as the GitHub search reports it.
#[derive(Debug, PartialEq)]
pub struct GitHubRepo {
    pub id: u64,
    pub name: String,
    pub full_name: String,
    pub description: Option<String>,
    pub html_url: String,
    pub stargazers_count: u32,
    pub forks_count: u32,
    pub language: Option<String>,
    pub topics: Vec<String>,
    pub created_at: String,
    pub updated_at: String,
    pub pushed_at: Option<String>,
}

/// The model of a `GitHubRepo`.
pub struct RepoView {
    pub id: u64,
    pub name: Seq<char>,
    pub full_name: Seq<char>,
    pub description: Option<Seq<char>>,
    pub html_url: Seq<char>,
    pub stargazers_count: u32,
    pub forks_count: u32,
    pub language: Option<Seq<char>>,
    pub topics: Seq<Seq<char>>,
    pub created_at: Seq<char>,
    pub updated_at: Seq<char>,
    pub pushed_at: Option<Seq<char>>,
}

impl DeepView for GitHubRepo {
    type V = RepoView;

    open spec fn deep_view(&self) -> RepoView {
        RepoView {
            id: self.id,
            name: self.name@,
            full_name: self.full_name@,
            description: self.description.deep_view(),
            html_url: self.html_url@,
            stargazers_count: self.stargazers_count,
            forks_count: self.forks_count,
            language: self.language.deep_view(),
            topics: self.topics.deep_view(),
            created_at: self.created_at@,
            updated_at: self.updated_at@,
            pushed_at: self.pushed_at.deep_view(),
        }
    }
}

/// The hexadecimal digit for `d`, in upper case.
pub open spec fn spec_hex_digit(d: int) -> char {
    if d < 10 {
        crate::text::spec_digit(d)
    } else if d == 10 {
        'A'
    } else if d == 11 {
        'B'
    } else if d == 12 {
        'C'
    } else if d == 13 {
        'D'
    } else if d == 14 {
        'E'
    } else {
        'F'
    }
}

/// Whether a byte stands for itself in a query string.
pub open spec fn spec_unreserved(b: u8) -> bool {
    ||| 0x41 <= b <= 0x5a
    ||| 0x61 <= b <= 0x7a
    ||| 0x30 <= b <= 0x39
    ||| b == 0x2d
    ||| b == 0x5f
    ||| b == 0x2e
    ||| b == 0x7e
}

/// One byte in a query string: itself where it is unreserved, a plus sign
/// for a space, else a percent sign and its two hexadecimal digits.
pub open spec fn spec_encode_byte(b: u8) -> Seq<char> {
    if spec_unreserved(b) {
        seq![b as char]
    } else if b == 0x20 {
        seq!['+']
    } else {
        seq!['%', spec_hex_digit(b as int / 16), spec_hex_digit(b as int % 16)]
    }
}

/// The bytes as they stand in a query string.
pub open spec fn spec_encode(bytes: Seq<u8>) -> Seq<char>
    decreases bytes.len(),
{
    if bytes.len() == 0 {
        Seq::empty()
    } else {
        spec_encode(bytes.drop_last()) + spec_encode_byte(bytes.last())
    }
}

/// The hexadecimal digit for `d`, in upper case.
fn hex_digit(d: u8) -> (c: char)
    requires
        d < 16,
    ensures
        c == spec_hex_digit(d as int),
{
    if d < 10 {
        crate::text::digit_char(d)
    } else if d == 10 {
        'A'
    } else if d == 11 {
        'B'
    } else if d == 12 {
        'C'
    } else if d == 13 {
        'D'
    } else if d == 14 {
        'E'
    } else {
        'F'
    }
}

/// Encodes text for a query string, byte by byte of its UTF-8 form.
pub fn encode(input: &str) -> (r: String)
    ensures
        r@ == spec_encode(vstd::utf8::encode_utf8(input@)),
{
    let bytes = input.as_bytes();
    let mut encoded = String::new();
    let mut i: usize = 0;
    assert(bytes@.take(0) =~= Seq::<u8>::empty());
    while i < bytes.len()
        invariant
            i <= bytes.len(),
            encoded@ == spec_encode(bytes@.take(i as int)),
        decreases bytes.len() - i,
    {
        let b = bytes[i];
        let ghost before = encoded@;
        proof {
            assert(bytes@.take(i + 1).drop_last() =~= bytes@.take(i as int));
            assert(bytes@.take(i + 1).last() == b);
        }
        if (0x41 <= b && b <= 0x5a) || (0x61 <= b && b <= 0x7a) || (0x30 <= b && b <= 0x39) || b
            == 0x2d || b == 0x5f || b == 0x2e || b == 0x7e {
            encoded.push(b as char);
            assert(encoded@ =~= before + spec_encode_byte(b));
        } else if b == 0x20 {
            encoded.push('+');
            assert(encoded@ =~= before + spec_encode_byte(b));
        } else {
            encoded.push('%');
            encoded.push(hex_digit(b / 16));
            encoded.push(hex_digit(b % 16));
            assert(encoded@ =~= before + spec_encode_byte(b));
        }
        i += 1;
    }
    assert(bytes@.take(bytes.len() as int) =~= bytes@);
    encoded
}

/// What popularity contributes to a repository's relevance: a fifth of the
/// decimal logarithm of its stars, at most three tenths.
pub open spec fn spec_star_score(stars: int) -> int {
    if stars >= 32 {
        300_000
    } else {
        spec_log10(stars) / 5
    }
}

/// How many of the terms, lowercased, occur in the text.
pub open spec fn spec_term_hits(text: Seq<char>, terms: Seq<Seq<char>>) -> nat
    decreases terms.len(),
{
    if terms.len() == 0 {
        0
    } else {
        spec_term_hits(text, terms.drop_last()) + if spec_contains(
            text,
            spec_lowercase(terms.last()),
        ) {
            1nat
        } else {
            0nat
        }
    }
}

/// How many pairs of a topic and a term there are such that the term
/// occurs in the topic, both lowercased.
pub open spec fn spec_topic_hits(topics: Seq<Seq<char>>, terms: Seq<Seq<char>>) -> nat
    decreases topics.len(),
{
    if topics.len() == 0 {
        0
    } else {
        spec_topic_hits(topics.drop_last(), terms) + spec_term_hits(
            spec_lowercase(topics.last()),
            terms,
        )
    }
}

/// The bonus for a time that lies less than `days` days before `now`.
pub open spec fn spec_within_days(moment: i64, now: i64, days: int) -> bool {
    now - moment < days * 86_400
}

/// What recent activity contributes: two tenths for a push within 30 days,
/// one tenth within 90 days.
pub open spec fn spec_activity_bonus(pushed_at: Option<Seq<char>>, now: i64) -> int {
    match pushed_at {
        Some(text) => match rfc3339_seconds(text) {
            Some(moment) => if spec_within_days(moment, now, 30) {
                200_000
            } else if spec_within_days(moment, now, 90) {
                100_000
            } else {
                0
            },
            None => 0,
        },
        None => 0,
    }
}

/// What the description contributes: two tenths where it holds the query,
/// both lowercased.
pub open spec fn spec_description_bonus(description: Option<Seq<char>>, query: Seq<char>) -> int {
    match description {
        Some(text) => if spec_contains(spec_lowercase(text), spec_lowercase(query)) {
            200_000
        } else {
            0
        },
        None => 0,
    }
}

/// The provisional relevance of a repository for a query at the time `now`.
/// A repository without stars has none.
pub open spec fn spec_repo_relevance(repo: RepoView, query: Seq<char>, now: i64) -> int {
    if repo.stargazers_count == 0 {
        0
    } else {
        spec_clamp_unit(
            spec_star_score(repo.stargazers_count as int) + spec_description_bonus(
                repo.description,
                query,
            ) + 100_000 * spec_topic_hits(repo.topics, spec_words(query)) + spec_activity_bonus(
                repo.pushed_at,
                now,
            ) + if repo.forks_count > 100 {
                100_000int
            } else {
                0int
            },
        )
    }
}

/// The tags of a repository's finding: its topics, its language, and the
/// source's own tag.
pub open spec fn spec_repo_tags(repo: RepoView) -> Seq<Seq<char>> {
    match repo.language {
        Some(language) => repo.topics.push("language:"@ + spec_lowercase(language)).push(
            "github"@,
        ),
        None => repo.topics.push("github"@),
    }
}

/// The finding that a repository becomes for a query at the time `now`.
pub open spec fn spec_repo_finding(repo: RepoView, query: Seq<char>, now: i64) -> FindingView {
    FindingView {
        id: "github-"@ + spec_decimal(repo.id as nat),
        source: SourceView::GitHub,
        title: repo.full_name,
        summary: match repo.description {
            Some(text) => text,
            None => "No description"@,
        },
        relevance_score: spec_repo_relevance(repo, query, now) as u32,
        discovered_at: match rfc3339_seconds(repo.updated_at) {
            Some(moment) => moment,
            None => now,
        },
        tags: spec_repo_tags(repo),
        url: Some(repo.html_url),
        metadata: MetadataView {
            stars: Some(repo.stargazers_count as u64),
            forks: Some(repo.forks_count as u64),
            language: repo.language,
            created_at: Some(repo.created_at),
            ..MetadataView::empty()
        },
    }
}

/// The adapter for GitHub.
#[derive(Debug, PartialEq)]
pub struct GitHubAdapter {
    api_token: Option<String>,
    base_url: String,
}

/// The value that GitHub's search takes for an order.
pub open spec fn spec_sort_value(sort: Option<SortOrder>) -> Seq<char> {
    match sort {
        Some(SortOrder::DateDesc) | Some(SortOrder::DateAsc) => "updated"@,
        Some(SortOrder::PopularityDesc) => "stars"@,
        _ => "best-match"@,
    }
}

/// The query as it is sent: with a filter on the push date where results
/// since a time are asked for and the time has a calendar date.
pub open spec fn spec_search_terms(query: Seq<char>, since: Option<i64>) -> Seq<char> {
    match since {
        Some(moment) => match utc_date_text(moment) {
            Some(date) => if date.len() > 0 {
                query + " pushed:>"@ + date
            } else {
                query
            },
            None => query,
        },
        None => query,
    }
}

/// The address of a repository search.
pub open spec fn spec_search_url(
    base_url: Seq<char>,
    terms: Seq<char>,
    limit: Option<usize>,
    sort: Option<SortOrder>,
) -> Seq<char> {
    base_url + "/search/repositories?q="@ + spec_encode(vstd::utf8::encode_utf8(terms))
        + "&per_page="@
        + spec_decimal(crate::research::traits::spec_effective_limit(limit) as nat) + "&sort="@
        + spec_sort_value(sort)
}

/// Whether a status code reports success.
pub open spec fn spec_is_success(status: u16) -> bool {
    200 <= status < 300
}

/// The seconds to wait after a refusal: from `now` until the limit is
/// reset, none where the reset lies in the past; unknown where the header
/// is missing or no number.
pub open spec fn spec_retry_after(reset_header: Option<Seq<char>>, now: i64) -> Option<u64> {
    match reset_header {
        Some(text) => match spec_parse_u64(text) {
            Some(reset) => {
                let now_unsigned = (now as int) % 0x1_0000_0000_0000_0000;
                if reset >= now_unsigned {
                    Some((reset - now_unsigned) as u64)
                } else {
                    Some(0u64)
                }
            },
            None => None,
        },
        None => None,
    }
}

/// The findings were built from the repositories, one each, in order.
pub open spec fn spec_built_from(
    built: Seq<ResearchFinding>,
    repos: Seq<RepoView>,
    query: Seq<char>,
    now: i64,
) -> bool {
    &&& built.len() == repos.len()
    &&& forall|i: int|
        0 <= i < built.len() ==> (#[trigger] built[i]).deep_view() == spec_repo_finding(
            repos[i],
            query,
            now,
        )
}

/// The findings that are at least as relevant as asked for; all of them
/// where nothing is asked.
pub open spec fn spec_relevant(findings: Seq<ResearchFinding>, min_relevance: Option<u32>) -> Seq<
    ResearchFinding,
> {
    match min_relevance {
        Some(least) => spec_at_least(findings, least),
        None => findings,
    }
}

impl GitHubAdapter {
    /// The token that requests are authorized with, if any.
    pub closed spec fn token(&self) -> Option<Seq<char>> {
        self.api_token.deep_view()
    }

    /// The address of the API.
    pub closed spec fn api_url(&self) -> Seq<char> {
        self.base_url@
    }

    /// An adapter for the public GitHub API.
    pub fn new(api_token: Option<String>) -> (r: Self)
        ensures
            r.token() == api_token.deep_view(),
            r.api_url() == "https://api.github.com"@,
    {
        GitHubAdapter { api_token, base_url: String::from_str("https://api.github.com") }
    }

    /// Name and value of the parameter that asks for an order.
    pub fn build_sort_param(sort: &Option<SortOrder>) -> (r: (&'static str, &'static str))
        ensures
            r.0@ == "sort"@,
            r.1@ == spec_sort_value(*sort),
    {
        match sort {
            Some(SortOrder::DateDesc) | Some(SortOrder::DateAsc) => ("sort", "updated"),
            Some(SortOrder::PopularityDesc) => ("sort", "stars"),
            _ => ("sort", "best-match"),
        }
    }

    /// The provisional relevance of a repository for a query at the time
    /// `now`: from its stars, description, topics, latest push and forks.
    pub fn calculate_relevance(repo: &GitHubRepo, query: &str, now: i64) -> (r: u32)
        ensures
            r == spec_repo_relevance(repo.deep_view(), query@, now),
            r <= SCORE_ONE,
    {
        if repo.stargazers_count == 0 {
            return 0;
        }
        let star: u64 = if repo.stargazers_count >= 32 {
            300_000
        } else {
            (log10_millionths(repo.stargazers_count as u64) / 5) as u64
        };
        let description: u64 = match &repo.description {
            Some(text) => {
                let hay = chars_of(text.as_str().to_lowercase().as_str());
                let needle = chars_of(query.to_lowercase().as_str());
                proof {
                    lemma_find_iff_contains(hay@, needle@);
                }
                if find_from(&hay, &needle, 0).is_some() {
                    200_000
                } else {
                    0
                }
            },
            None => 0,
        };
        let hits: u64 = topic_hits(&repo.topics, query);
        let activity: u64 = match &repo.pushed_at {
            Some(text) => match parse_rfc3339(text.as_str()) {
                Some(moment) => if within_days(moment, now, 30) {
                    200_000
                } else if within_days(moment, now, 90) {
                    100_000
                } else {
                    0
                },
                None => 0,
            },
            None => 0,
        };
        let forks: u64 = if repo.forks_count > 100 {
            100_000
        } else {
            0
        };
        let total: u64 = star + description + 100_000 * hits + activity + forks;
        clamp_unit(total)
    }

    /// The finding that a repository becomes for a query at the time `now`.
    pub fn repo_to_finding(repo: GitHubRepo, query: &str, now: i64) -> (r: ResearchFinding)
        ensures
            r.deep_view() == spec_repo_finding(repo.deep_view(), query@, now),
            r.wf(),
    {
        let relevance_score = GitHubAdapter::calculate_relevance(&repo, query, now);
        let discovered_at = match parse_rfc3339(repo.updated_at.as_str()) {
            Some(moment) => moment,
            None => now,
        };
        let mut tags = clone_strings(&repo.topics);
        let ghost topics = tags.deep_view();
        match &repo.language {
            Some(language) => {
                let mut tag = String::from_str("language:");
                tag.append(language.as_str().to_lowercase().as_str());
                tags.push(tag);
                assert(tags.deep_view() =~= topics.push(tag@));
            },
            None => {},
        }
        let ghost with_language = tags.deep_view();
        tags.push(String::from_str("github"));
        assert(tags.deep_view() =~= with_language.push("github"@));
        let mut id = String::from_str("github-");
        push_decimal(&mut id, repo.id);
        let language = clone_optional_string(&repo.language);
        let metadata = FindingMetadata {
            stars: Some(repo.stargazers_count as u64),
            forks: Some(repo.forks_count as u64),
            citations: None,
            likes: None,
            engagement: None,
            language,
            created_at: Some(repo.created_at),
            published: None,
            updated: None,
            authors: Vec::new(),
            categories: Vec::new(),
        };
        assert(metadata.authors.deep_view() =~= Seq::<Seq<char>>::empty());
        assert(metadata.categories.deep_view() =~= Seq::<Seq<char>>::empty());
        ResearchFinding {
            id,
            source: ResearchSource::GitHub,
            title: repo.full_name,
            summary: match repo.description {
                Some(text) => text,
                None => String::from_str("No description"),
            },
            relevance_score,
            discovered_at,
            tags,
            url: Some(repo.html_url),
            metadata,
        }
    }

    /// The address that the API's availability is checked at.
    pub fn validation_url(&self) -> (r: String)
        ensures
            r@ == self.api_url() + "/rate_limit"@,
    {
        let mut url = self.base_url.clone();
        url.append("/rate_limit");
        url
    }

    /// What the status of the availability check means: success is fine, 401
    /// is a wrong token, anything else an unavailable API.
    pub fn check_validation(status: u16) -> (r: Result<(), ResearchError>)
        ensures
            spec_is_success(status) ==> r is Ok,
            !spec_is_success(status) && status == 401 ==> (r matches Err(
                ResearchError::ConfigError(m),
            ) && m@ == "Invalid GitHub token"@),
            !spec_is_success(status) && status != 401 ==> (r matches Err(
                ResearchError::ApiError { status: s, message },
            ) && s == status && message@ == "GitHub API unavailable"@),
    {
        if 200 <= status && status < 300 {
            Ok(())
        } else if status == 401 {
            Err(ResearchError::ConfigError(String::from_str("Invalid GitHub token")))
        } else {
            Err(
                ResearchError::ApiError {
                    status,
                    message: String::from_str("GitHub API unavailable"),
                },
            )
        }
    }

    /// The headers of a request: the token where there is one, and for a
    /// search the media type asked for.
    pub fn request_headers(&self, for_search: bool) -> (r: Vec<(String, String)>)
        ensures
            crate::research::adapters::common::spec_header_views(r@)
                == crate::research::adapters::common::spec_headers(
                self.token(),
                if for_search {
                    seq![("Accept"@, "application/vnd.github.v3+json"@)]
                } else {
                    Seq::empty()
                },
            ),
    {
        let mut headers: Vec<(String, String)> = Vec::new();
        match &self.api_token {
            Some(token) => {
                let mut value = String::from_str("Bearer ");
                value.append(token.as_str());
                headers.push((String::from_str("Authorization"), value));
            },
            None => {},
        }
        if for_search {
            headers.push(
                (String::from_str("Accept"), String::from_str("application/vnd.github.v3+json")),
            );
        }
        assert(crate::research::adapters::common::spec_header_views(headers@)
            =~= crate::research::adapters::common::spec_headers(
            self.token(),
            if for_search {
                seq![("Accept"@, "application/vnd.github.v3+json"@)]
            } else {
                Seq::empty()
            },
        ));
        headers
    }

    /// The address of the search for `query`. A query that is empty but for
    /// whitespace is refused.
    pub fn search_url(&self, query: &str, options: &SearchOptions) -> (r: Result<
        String,
        ResearchError,
    >)
        ensures
            spec_trim(query@).len() == 0 ==> (r matches Err(ResearchError::InvalidQuery(m)) && m@
                == "Query cannot be empty"@),
            spec_trim(query@).len() > 0 ==> (r matches Ok(url) && url@ == spec_search_url(
                self.api_url(),
                spec_search_terms(query@, options.since_timestamp),
                options.limit,
                options.sort_by,
            )),
    {
        let trimmed = trim_chars(&chars_of(query));
        if trimmed.len() == 0 {
            return Err(ResearchError::InvalidQuery(String::from_str("Query cannot be empty")));
        }
        let limit = options.effective_limit();
        let (_sort_key, sort_value) = GitHubAdapter::build_sort_param(&options.sort_by);
        let mut terms = String::from_str(query);
        match options.since_timestamp {
            Some(moment) => match utc_date(moment) {
                Some(date) => {
                    if date.as_str().unicode_len() > 0 {
                        terms.append(" pushed:>");
                        terms.append(date.as_str());
                    }
                },
                None => {},
            },
            None => {},
        }
        let mut url = self.base_url.clone();
        url.append("/search/repositories?q=");
        url.append(encode(terms.as_str()).as_str());
        url.append("&per_page=");
        push_decimal(&mut url, limit as u64);
        url.append("&sort=");
        url.append(sort_value);
        assert(terms@ == spec_search_terms(query@, options.since_timestamp));
        Ok(url)
    }

    /// What the status of a search means at the time `now`: 403 is a
    /// refusal for too many requests, any other failure an API error with
    /// the body as its message.
    pub fn check_response_at(
        status: u16,
        body: String,
        reset_header: Option<String>,
        now: i64,
    ) -> (r: Result<(), ResearchError>)
        ensures
            status == 403 ==> r == Err::<(), ResearchError>(
                ResearchError::RateLimited {
                    retry_after_secs: spec_retry_after(reset_header.deep_view(), now),
                },
            ),
            status != 403 && !spec_is_success(status) ==> r == Err::<(), ResearchError>(
                ResearchError::ApiError { status, message: body },
            ),
            spec_is_success(status) ==> r is Ok,
    {
        if status == 403 {
            let retry_after_secs = match &reset_header {
                Some(text) => match parse_u64(text.as_str()) {
                    Some(reset) => {
                        let now_unsigned: u64 = if now >= 0 {
                            now as u64
                        } else {
                            (now as i128 + 0x1_0000_0000_0000_0000) as u64
                        };
                        if reset >= now_unsigned {
                            Some(reset - now_unsigned)
                        } else {
                            Some(0)
                        }
                    },
                    None => None,
                },
                None => None,
            };
            return Err(ResearchError::RateLimited { retry_after_secs });
        }
        if !(200 <= status && status < 300) {
            return Err(ResearchError::ApiError { status, message: body });
        }
        Ok(())
    }

    /// What the status of a search means now.
    pub fn check_response(status: u16, body: String, reset_header: Option<String>) -> (r: Result<
        (),
        ResearchError,
    >)
        ensures
            status == 403 ==> exists|now: i64|
                r == Err::<(), ResearchError>(
                    ResearchError::RateLimited {
                        retry_after_secs: #[trigger] spec_retry_after(
                            reset_header.deep_view(),
                            now,
                        ),
                    },
                ),
            status != 403 && !spec_is_success(status) ==> r == Err::<(), ResearchError>(
                ResearchError::ApiError { status, message: body },
            ),
            spec_is_success(status) ==> r is Ok,
    {
        let now = now_timestamp();
        GitHubAdapter::check_response_at(status, body, reset_header, now)
    }

    /// The findings of a search at the time `now`: one per repository, those
    /// below the relevance asked for left out, by descending relevance.
    pub fn findings_at(
        repos: Vec<GitHubRepo>,
        query: &str,
        options: &SearchOptions,
        now: i64,
    ) -> (r: Vec<ResearchFinding>)
        ensures
            exists|built: Seq<ResearchFinding>|
                #[trigger] spec_built_from(built, repos.deep_view(), query@, now) && r@
                    == spec_rank(spec_relevant(built, options.min_relevance)),
            spec_all_wf(r@),
    {
        let mut built: Vec<ResearchFinding> = Vec::new();
        for repo in it: repos
            invariant
                it.seq() == repos@,
                built@.len() == it.index(),
                forall|i: int|
                    0 <= i < it.index() ==> (#[trigger] built@[i]).deep_view() == spec_repo_finding(
                        repos@[i].deep_view(),
                        query@,
                        now,
                    ),
                forall|i: int| 0 <= i < it.index() ==> (#[trigger] built@[i]).wf(),
        {
            built.push(GitHubAdapter::repo_to_finding(repo, query, now));
        }
        let ghost all = built@;
        assert(spec_built_from(all, repos.deep_view(), query@, now));
        assert(spec_all_wf(all));
        let relevant = match options.min_relevance {
            Some(least) => keep_at_least(built, least),
            None => built,
        };
        rank_by_relevance(relevant)
    }

    /// The findings of a search now.
    pub fn findings(repos: Vec<GitHubRepo>, query: &str, options: &SearchOptions) -> (r: Vec<
        ResearchFinding,
    >)
        ensures
            exists|now: i64, built: Seq<ResearchFinding>|
                #[trigger] spec_built_from(built, repos.deep_view(), query@, now) && r@
                    == spec_rank(spec_relevant(built, options.min_relevance)),
            spec_all_wf(r@),
    {
        let now = now_timestamp();
        GitHubAdapter::findings_at(repos, query, options, now)
    }

    /// The search for what is trending at the time `now`: repositories made
    /// in the week before with more than 50 stars, most popular first.
    pub fn trending_request_at(limit: usize, now: i64) -> (r: (String, SearchOptions))
        ensures
            r.0@ == "created:>"@ + spec_week_ago(now) + " stars:>50"@,
            r.1.limit == Some(limit),
            r.1.sort_by == Some(SortOrder::PopularityDesc),
            r.1.min_relevance is None,
            r.1.since_timestamp is None,
            r.1.tags is None,
    {
        let mut query = String::from_str("created:>");
        if now >= i64::MIN + 604_800 {
            match utc_date(now - 604_800) {
                Some(date) => {
                    query.append(date.as_str());
                },
                None => {},
            }
        }
        query.append(" stars:>50");
        assert(query@ =~= "created:>"@ + spec_week_ago(now) + " stars:>50"@);
        (
            query,
            SearchOptions {
                limit: Some(limit),
                min_relevance: None,
                since_timestamp: None,
                tags: None,
                sort_by: Some(SortOrder::PopularityDesc),
            },
        )
    }

    /// The search for what is trending now.
    pub fn trending_request(limit: usize) -> (r: (String, SearchOptions))
        ensures
            exists|now: i64| r.0@ == "created:>"@ + #[trigger] spec_week_ago(now) + " stars:>50"@,
            r.1.limit == Some(limit),
            r.1.sort_by == Some(SortOrder::PopularityDesc),
            r.1.min_relevance is None,
            r.1.since_timestamp is None,
            r.1.tags is None,
    {
        let now = now_timestamp();
        GitHubAdapter::trending_request_at(limit, now)
    }
}

/// The calendar date a week before `now`; empty where that time is out of
/// the calendar's range.
pub open spec fn spec_week_ago(now: i64) -> Seq<char> {
    if now >= i64::MIN + 604_800 {
        match utc_date_text((now - 604_800) as i64) {
            Some(date) => date,
            None => Seq::empty(),
        }
    } else {
        Seq::empty()
    }
}

impl ResearchAdapter for GitHubAdapter {
    open spec fn spec_name(&self) -> Seq<char> {
        "GitHub"@
    }

    open spec fn spec_source(&self) -> SourceView {
        SourceView::GitHub
    }

    fn name(&self) -> (r: String) {
        String::from_str("GitHub")
    }

    fn source(&self) -> (r: ResearchSource) {
        ResearchSource::GitHub
    }
}

/// Whether `moment` lies less than `days` days before `now`.
fn within_days(moment: i64, now: i64, days: i64) -> (r: bool)
    requires
        0 <= days <= 366,
    ensures
        r == spec_within_days(moment, now, days as int),
{
    (now as i128) - (moment as i128) < (days as i128) * 86_400
}

/// How many pairs of a topic and a query term match, counted up to ten.
fn topic_hits(topics: &Vec<String>, query: &str) -> (r: u64)
    ensures
        r <= 10,
        r == if spec_topic_hits(topics.deep_view(), spec_words(query@)) < 10 {
            spec_topic_hits(topics.deep_view(), spec_words(query@))
        } else {
            10
        },
{
    let terms = split_words(&chars_of(query));
    let ghost term_views = terms.deep_view();
    let mut lowered: Vec<Vec<char>> = Vec::new();
    let mut t: usize = 0;
    while t < terms.len()
        invariant
            t <= terms.len(),
            term_views == terms.deep_view(),
            lowered.len() == t,
            forall|k: int| 0 <= k < t ==> (#[trigger] lowered@[k])@ == spec_lowercase(term_views[k]),
        decreases terms.len() - t,
    {
        assert(terms@[t as int].deep_view() =~= terms@[t as int]@);
        let term = string_of(&terms[t]);
        lowered.push(chars_of(term.as_str().to_lowercase().as_str()));
        t += 1;
    }
    let ghost topic_views = topics.deep_view();
    let mut hits: u64 = 0;
    let mut i: usize = 0;
    assert(topic_views.take(0) =~= Seq::<Seq<char>>::empty());
    while i < topics.len()
        invariant
            i <= topics.len(),
            topic_views == topics.deep_view(),
            term_views == terms.deep_view(),
            term_views == spec_words(query@),
            lowered.len() == terms.len(),
            forall|k: int|
                0 <= k < lowered.len() ==> (#[trigger] lowered@[k])@ == spec_lowercase(
                    term_views[k],
                ),
            hits <= 10,
            hits == if spec_topic_hits(topic_views.take(i as int), term_views) < 10 {
                spec_topic_hits(topic_views.take(i as int), term_views)
            } else {
                10
            },
        decreases topics.len() - i,
    {
        let topic = chars_of(topics[i].as_str().to_lowercase().as_str());
        let ghost base = spec_topic_hits(topic_views.take(i as int), term_views);
        let mut j: usize = 0;
        assert(term_views.take(0) =~= Seq::<Seq<char>>::empty());
        while j < lowered.len()
            invariant
                j <= lowered.len(),
                lowered.len() == term_views.len(),
                topic@ == spec_lowercase(topic_views[i as int]),
                forall|k: int|
                    0 <= k < lowered.len() ==> (#[trigger] lowered@[k])@ == spec_lowercase(
                        term_views[k],
                    ),
                hits <= 10,
                hits == if base + spec_term_hits(topic@, term_views.take(j as int)) < 10 {
                    base + spec_term_hits(topic@, term_views.take(j as int))
                } else {
                    10
                },
            decreases lowered.len() - j,
        {
            proof {
                assert(term_views.take(j + 1).drop_last() =~= term_views.take(j as int));
                assert(term_views.take(j + 1).last() == term_views[j as int]);
                lemma_find_iff_contains(topic@, lowered@[j as int]@);
            }
            if find_from(&topic, &lowered[j], 0).is_some() {
                if hits < 10 {
                    hits += 1;
                }
            }
            j += 1;
        }
        proof {
            assert(term_views.take(lowered.len() as int) =~= term_views);
            assert(topic_views.take(i + 1).drop_last() =~= topic_views.take(i as int));
            assert(topic_views.take(i + 1).last() == topic_views[i as int]);
        }
        i += 1;
    }
    assert(topic_views.take(topics.len() as int) =~= topic_views);
    hits
}

} // verus!
