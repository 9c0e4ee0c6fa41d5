use cla_commander::commander::task_scheduler::AdapterChoice;
use cla_commander::commander::{ResearchFinding, ResearchSource};
use cla_commander::research::adapters::arxiv::{ArXivAdapter, ArXivEntry, RawEntry};
use cla_commander::research::adapters::common::{
    sanitize_query, AcquireStep, AdapterConfig, HttpHelper, RateLimiter,
};
use cla_commander::research::adapters::github::{encode, GitHubAdapter, GitHubRepo};
use cla_commander::text::parse_u64;
use cla_commander::research::adapters::{BuiltinAdapter, ResearchAdapterRegistry};
use cla_commander::research::traits::{
    health_of, ResearchAdapter, ResearchError, SearchOptions, SortOrder,
};

const NOW: i64 = 1_705_320_000; // 2024-01-15T12:00:00Z
const DAY: i64 = 86_400;
const SECOND: u128 = 1_000_000_000;

fn repo(stars: u32) -> GitHubRepo {
    GitHubRepo {
        id: 42,
        name: "runtime".to_string(),
        full_name: "acme/runtime".to_string(),
        description: Some("An Async Runtime for Rust".to_string()),
        html_url: "https://github.com/acme/runtime".to_string(),
        stargazers_count: stars,
        forks_count: 101,
        language: Some("Rust".to_string()),
        topics: vec!["async".to_string(), "Runtime".to_string()],
        created_at: "2020-01-01T00:00:00Z".to_string(),
        updated_at: "2024-01-14T12:00:00Z".to_string(),
        pushed_at: Some("2024-01-10T12:00:00Z".to_string()),
    }
}

fn entry() -> ArXivEntry {
    ArXivEntry {
        id: "http://arxiv.org/abs/2401.01234v1".to_string(),
        title: "Neural Networks for Code".to_string(),
        summary: "We study neural models.".to_string(),
        authors: vec!["Ada".to_string(), "Grace".to_string()],
        published: "2024-01-10T12:00:00Z".to_string(),
        updated: "2024-01-12T12:00:00Z".to_string(),
        categories: vec!["cs.LG".to_string()],
        link: "http://arxiv.org/abs/2401.01234v1".to_string(),
    }
}

#[test]
fn test_sanitize_query() {
    assert_eq!(sanitize_query("hello world"), "hello world");
    assert_eq!(sanitize_query("rust-lang"), "rust-lang");
    assert_eq!(sanitize_query("test<script>"), "testscript");
}

#[test]
fn sanitize_query_trims() {
    assert_eq!(sanitize_query("  a_b  "), "a_b");
    assert_eq!(sanitize_query("!?"), "");
    assert_eq!(sanitize_query(" ! a ! "), "a");
}

#[test]
fn common_test_rate_limiter() {
    let mut limiter = RateLimiter::new(2, 1);

    assert!(limiter.check());
    limiter.record();

    assert!(limiter.check());
    limiter.record();

    assert!(!limiter.check());
}

#[test]
fn rate_limiter_window_elapses() {
    let mut limiter = RateLimiter::new(2, 10);
    assert!(limiter.check_at(0));
    limiter.record();
    limiter.record();
    assert!(!limiter.check_at(0));
    assert!(!limiter.check_at(10 * SECOND - 1));
    assert!(limiter.check_at(10 * SECOND));
    limiter.record();
    assert!(limiter.check_at(10 * SECOND + 5));
    limiter.record();
    assert!(!limiter.check_at(19 * SECOND));
    assert!(limiter.check_at(20 * SECOND));
}

#[test]
fn rate_limiter_of_nothing_never_allows() {
    let mut limiter = RateLimiter::new(0, 1);
    assert!(!limiter.check_at(0));
    assert!(!limiter.check_at(5 * SECOND));
}

#[test]
fn acquisition_steps() {
    let mut limiter = RateLimiter::new(1, 30);
    assert_eq!(limiter.acquire_at(0, 0), AcquireStep::Granted);
    assert_eq!(limiter.acquire_at(0, SECOND), AcquireStep::Wait);
    assert_eq!(limiter.acquire_at(59, 2 * SECOND), AcquireStep::Wait);
    assert_eq!(
        limiter.acquire_at(60, 3 * SECOND),
        AcquireStep::Refused(ResearchError::RateLimited { retry_after_secs: Some(30) })
    );
    assert_eq!(limiter.acquire_at(60, 30 * SECOND), AcquireStep::Granted);
    assert_eq!(limiter.acquire(0), AcquireStep::Wait);
}

#[test]
fn helper_plans_requests() {
    let config = AdapterConfig {
        base_url: "https://api.example.com".to_string(),
        api_key: Some("test-token".to_string()),
        ..AdapterConfig::default()
    };
    let mut helper = HttpHelper::new(config, Some((1, 60)));
    assert_eq!(helper.base_url(), "https://api.example.com");
    assert_eq!(helper.max_results(), 50);
    assert_eq!(helper.timeout_secs(), 30);
    assert_eq!(helper.user_agent(), "CLA-ResearchAdapter/1.0 (Cirkelline Local Agent)");
    assert_eq!(helper.acquire(0), AcquireStep::Granted);
    assert_eq!(helper.acquire(0), AcquireStep::Wait);

    let plain = helper.get("https://api.example.com/items");
    assert_eq!(plain.url, "https://api.example.com/items");
    assert_eq!(
        plain.headers,
        vec![("Authorization".to_string(), "Bearer test-token".to_string())]
    );

    let extra = vec![("Accept".to_string(), "text/plain".to_string())];
    let request = helper.get_with_headers("https://api.example.com/items", &extra);
    assert_eq!(
        request.headers,
        vec![
            ("Authorization".to_string(), "Bearer test-token".to_string()),
            ("Accept".to_string(), "text/plain".to_string())
        ]
    );

    let anonymous = HttpHelper::new(AdapterConfig::default(), None);
    assert!(anonymous.get("http://x").headers.is_empty());
}

#[test]
fn default_adapter_configuration() {
    let config = AdapterConfig::default();
    assert_eq!(config.base_url, "");
    assert_eq!(config.api_key, None);
    assert_eq!(config.timeout_secs, 30);
    assert_eq!(config.max_results, 50);
    assert_eq!(config.user_agent, "CLA-ResearchAdapter/1.0 (Cirkelline Local Agent)");
}

#[test]
fn query_string_encoding() {
    assert_eq!(encode("rust async"), "rust+async");
    assert_eq!(encode("a-b_c.d~e"), "a-b_c.d~e");
    assert_eq!(encode("stars:>50"), "stars%3A%3E50");
    assert_eq!(encode("caf\u{e9}"), "caf%C3%A9");
    assert_eq!(encode("a+b/c"), "a%2Bb%2Fc");
    assert_eq!(encode(""), "");
}

#[test]
fn numbers_in_headers() {
    assert_eq!(parse_u64("0"), Some(0));
    assert_eq!(parse_u64("+17"), Some(17));
    assert_eq!(parse_u64("007"), Some(7));
    assert_eq!(parse_u64("18446744073709551615"), Some(u64::MAX));
    assert_eq!(parse_u64("18446744073709551616"), None);
    assert_eq!(parse_u64(""), None);
    assert_eq!(parse_u64("+"), None);
    assert_eq!(parse_u64("-1"), None);
    assert_eq!(parse_u64("12a"), None);
    assert_eq!(parse_u64(" 12"), None);
}

#[test]
fn github_search_url() {
    let adapter = GitHubAdapter::new(None);
    let options = SearchOptions::default();
    assert_eq!(
        adapter.search_url("rust async", &options),
        Ok("https://api.github.com/search/repositories?q=rust+async&per_page=10&sort=best-match"
            .to_string())
    );
    let options = SearchOptions {
        limit: Some(500),
        since_timestamp: Some(NOW),
        sort_by: Some(SortOrder::PopularityDesc),
        ..SearchOptions::default()
    };
    assert_eq!(
        adapter.search_url("rust", &options),
        Ok("https://api.github.com/search/repositories?q=rust+pushed%3A%3E2024-01-15&per_page=100&sort=stars"
            .to_string())
    );
    let options = SearchOptions { sort_by: Some(SortOrder::DateAsc), ..SearchOptions::default() };
    assert!(adapter.search_url("x", &options).unwrap().ends_with("&sort=updated"));
    assert_eq!(
        adapter.search_url("  \t ", &SearchOptions::default()),
        Err(ResearchError::InvalidQuery("Query cannot be empty".to_string()))
    );
}

#[test]
fn github_status_handling() {
    assert_eq!(GitHubAdapter::check_validation(200), Ok(()));
    assert_eq!(
        GitHubAdapter::check_validation(401),
        Err(ResearchError::ConfigError("Invalid GitHub token".to_string()))
    );
    assert_eq!(
        GitHubAdapter::check_validation(503),
        Err(ResearchError::ApiError {
            status: 503,
            message: "GitHub API unavailable".to_string()
        })
    );
    assert_eq!(GitHubAdapter::check_response_at(204, String::new(), None, NOW), Ok(()));
    assert_eq!(
        GitHubAdapter::check_response_at(
            403,
            "slow down".to_string(),
            Some((NOW + 30).to_string()),
            NOW
        ),
        Err(ResearchError::RateLimited { retry_after_secs: Some(30) })
    );
    assert_eq!(
        GitHubAdapter::check_response_at(403, String::new(), Some("5".to_string()), NOW),
        Err(ResearchError::RateLimited { retry_after_secs: Some(0) })
    );
    assert_eq!(
        GitHubAdapter::check_response_at(403, String::new(), Some("soon".to_string()), NOW),
        Err(ResearchError::RateLimited { retry_after_secs: None })
    );
    assert_eq!(
        GitHubAdapter::check_response_at(403, String::new(), None, NOW),
        Err(ResearchError::RateLimited { retry_after_secs: None })
    );
    assert_eq!(
        GitHubAdapter::check_response_at(500, "boom".to_string(), None, NOW),
        Err(ResearchError::ApiError { status: 500, message: "boom".to_string() })
    );
    assert!(matches!(
        GitHubAdapter::check_response(403, String::new(), None),
        Err(ResearchError::RateLimited { retry_after_secs: None })
    ));
}

#[test]
fn github_request_headers() {
    let adapter = GitHubAdapter::new(Some("test-token".to_string()));
    assert_eq!(
        adapter.request_headers(true),
        vec![
            ("Authorization".to_string(), "Bearer test-token".to_string()),
            ("Accept".to_string(), "application/vnd.github.v3+json".to_string())
        ]
    );
    assert_eq!(
        adapter.request_headers(false),
        vec![("Authorization".to_string(), "Bearer test-token".to_string())]
    );
    assert!(GitHubAdapter::new(None).request_headers(false).is_empty());
    assert_eq!(adapter.validation_url(), "https://api.github.com/rate_limit");
}

#[test]
fn github_relevance() {
    // stars: log10(20) / 5; description holds the query; two topics match
    // one term each; pushed five days ago; more than a hundred forks.
    let expected = 260_206 + 200_000 + 200_000 + 200_000 + 100_000;
    assert_eq!(GitHubAdapter::calculate_relevance(&repo(20), "async runtime", NOW), expected);

    // Without stars a repository has no relevance at all.
    assert_eq!(GitHubAdapter::calculate_relevance(&repo(0), "async runtime", NOW), 0);

    let quiet = GitHubRepo {
        description: None,
        topics: vec![],
        pushed_at: Some("2023-11-01T00:00:00Z".to_string()),
        forks_count: 100,
        ..repo(1000)
    };
    assert_eq!(GitHubAdapter::calculate_relevance(&quiet, "async", NOW), 300_000 + 100_000);

    let stale = GitHubRepo {
        description: None,
        topics: vec![],
        pushed_at: Some("not a date".to_string()),
        forks_count: 0,
        ..repo(1)
    };
    assert_eq!(GitHubAdapter::calculate_relevance(&stale, "async", NOW), 0);

    let busy = GitHubRepo {
        topics: (0..40).map(|i| format!("async-{}", i)).collect(),
        ..repo(5000)
    };
    assert_eq!(GitHubAdapter::calculate_relevance(&busy, "async", NOW), 1_000_000);
}

#[test]
fn github_repository_becomes_a_finding() {
    let finding = GitHubAdapter::repo_to_finding(repo(20), "async runtime", NOW);
    assert_eq!(finding.id, "github-42");
    assert_eq!(finding.source, ResearchSource::GitHub);
    assert_eq!(finding.title, "acme/runtime");
    assert_eq!(finding.summary, "An Async Runtime for Rust");
    assert_eq!(finding.relevance_score, 960_206);
    assert_eq!(finding.discovered_at, NOW - DAY);
    assert_eq!(finding.tags, vec!["async", "Runtime", "language:rust", "github"]);
    assert_eq!(finding.url.as_deref(), Some("https://github.com/acme/runtime"));
    assert_eq!(finding.metadata.stars, Some(20));
    assert_eq!(finding.metadata.forks, Some(101));
    assert_eq!(finding.metadata.language.as_deref(), Some("Rust"));
    assert_eq!(finding.metadata.created_at.as_deref(), Some("2020-01-01T00:00:00Z"));

    let bare = GitHubRepo {
        description: None,
        language: None,
        updated_at: "yesterday".to_string(),
        ..repo(20)
    };
    let finding = GitHubAdapter::repo_to_finding(bare, "x", NOW);
    assert_eq!(finding.summary, "No description");
    assert_eq!(finding.discovered_at, NOW);
    assert_eq!(finding.tags, vec!["async", "Runtime", "github"]);
}

#[test]
fn github_findings_are_filtered_and_ranked() {
    let low = GitHubRepo { id: 1, description: None, topics: vec![], pushed_at: None, forks_count: 0, ..repo(2) };
    let high = GitHubRepo { id: 2, ..repo(20) };
    let middle = GitHubRepo { id: 3, description: None, ..repo(20) };
    let options = SearchOptions { min_relevance: Some(500_000), ..SearchOptions::default() };
    let findings: Vec<ResearchFinding> =
        GitHubAdapter::findings_at(vec![low, middle, high], "async runtime", &options, NOW);
    let ids: Vec<&str> = findings.iter().map(|f| f.id.as_str()).collect();
    assert_eq!(ids, vec!["github-2", "github-3"]);

    let all = GitHubAdapter::findings(vec![repo(20), repo(0)], "x", &SearchOptions::default());
    assert_eq!(all.len(), 2);
    assert_eq!(all[1].relevance_score, 0);
}

#[test]
fn github_trending_request() {
    let (query, options) = GitHubAdapter::trending_request_at(25, NOW);
    assert_eq!(query, "created:>2024-01-08 stars:>50");
    assert_eq!(options.limit, Some(25));
    assert_eq!(options.sort_by, Some(SortOrder::PopularityDesc));
    let (query, _) = GitHubAdapter::trending_request(5);
    assert!(query.starts_with("created:>20"));
    assert!(query.ends_with(" stars:>50"));
}

#[test]
fn github_sort_parameter() {
    assert_eq!(GitHubAdapter::build_sort_param(&None), ("sort", "best-match"));
    assert_eq!(
        GitHubAdapter::build_sort_param(&Some(SortOrder::Relevance)),
        ("sort", "best-match")
    );
    assert_eq!(GitHubAdapter::build_sort_param(&Some(SortOrder::DateDesc)), ("sort", "updated"));
    assert_eq!(
        GitHubAdapter::build_sort_param(&Some(SortOrder::PopularityDesc)),
        ("sort", "stars")
    );
}

const FEED: &str = r#"<?xml version="1.0"?>
<feed>
  <title>ArXiv Query</title>
  <entry>
    <id>http://arxiv.org/abs/2401.01234v1</id>
    <updated>2024-01-12T12:00:00Z</updated>
    <published>2024-01-10T12:00:00Z</published>
    <title>Neural   Networks
      for Code</title>
    <summary>  We study
 neural models.  </summary>
    <author><name>Ada Lovelace</name></author>
    <author><affiliation>Nowhere</affiliation></author>
    <author><name> Grace Hopper </name></author>
    <link href="http://arxiv.org/pdf/2401.01234v1" rel="related"/>
    <link href="http://arxiv.org/abs/2401.01234v1" rel="alternate"/>
    <category term="cs.LG" scheme="x"/>
    <category term="cs.AI" scheme="x"/>
  </entry>
  <entry>
    <summary>No title here</summary>
    <category term="unterminated
  <entry>
    <id>http://arxiv.org/abs/2401.09999v2</id>
    <title>Third</title>
  </entry>
</feed>"#;

#[test]
fn arxiv_feed_is_parsed() {
    let entries: Vec<RawEntry> = ArXivAdapter::parse_feed(FEED);
    assert_eq!(entries.len(), 3);

    let first = &entries[0];
    assert_eq!(first.id.as_deref(), Some("http://arxiv.org/abs/2401.01234v1"));
    assert_eq!(first.title, "Neural Networks for Code");
    assert_eq!(first.summary, "We study neural models.");
    assert_eq!(first.authors, vec!["Ada Lovelace", "Grace Hopper"]);
    assert_eq!(first.published.as_deref(), Some("2024-01-10T12:00:00Z"));
    assert_eq!(first.updated.as_deref(), Some("2024-01-12T12:00:00Z"));
    assert_eq!(first.categories, vec!["cs.LG", "cs.AI"]);
    assert_eq!(first.link.as_deref(), Some("http://arxiv.org/abs/2401.01234v1"));

    let second = &entries[1];
    assert_eq!(second.id, None);
    assert_eq!(second.title, "Untitled");
    assert_eq!(second.summary, "No title here");
    assert!(second.authors.is_empty());
    assert_eq!(second.published, None);
    assert!(second.categories.is_empty());
    assert_eq!(second.link, None);

    let third = &entries[2];
    assert_eq!(third.id.as_deref(), Some("http://arxiv.org/abs/2401.09999v2"));
    assert_eq!(third.title, "Third");
    assert_eq!(third.summary, "");

    assert!(ArXivAdapter::parse_feed("<feed></feed>").is_empty());
    assert!(ArXivAdapter::parse_feed("").is_empty());
}

#[test]
fn arxiv_entries_are_completed() {
    let mut raws = ArXivAdapter::parse_feed(FEED);
    let third = raws.pop().unwrap();
    let second = raws.pop().unwrap();

    let entry =
        ArXivAdapter::complete_entry(third, "fallback".to_string(), "2024-01-01T00:00:00Z".to_string());
    assert_eq!(entry.id, "http://arxiv.org/abs/2401.09999v2");
    assert_eq!(entry.published, "2024-01-01T00:00:00Z");
    assert_eq!(entry.updated, "2024-01-01T00:00:00Z");
    assert_eq!(entry.link, "https://arxiv.org/abs/2401.09999v2");

    let entry =
        ArXivAdapter::complete_entry(second, "fallback".to_string(), "2024-01-01T00:00:00Z".to_string());
    assert_eq!(entry.id, "fallback");
    assert_eq!(entry.link, "https://arxiv.org/abs/fallback");

    let entries = ArXivAdapter::parse_atom_response(FEED).unwrap();
    assert_eq!(entries.len(), 3);
    assert_eq!(entries[0].link, "http://arxiv.org/abs/2401.01234v1");
    assert_eq!(entries[1].id.len(), 36);
    assert!(ArXivAdapter::parse_arxiv_date(&entries[1].published).is_ok());
    assert_eq!(entries[1].updated, entries[1].published);
}

#[test]
fn arxiv_tags_are_extracted() {
    let xml: Vec<char> = "<a> x </a><b>y</b><a>z</a><c>open".chars().collect();
    let text = |found: Option<Vec<char>>| found.map(|c| c.into_iter().collect::<String>());
    assert_eq!(text(ArXivAdapter::extract_tag(&xml, "a")), Some("x".to_string()));
    assert_eq!(text(ArXivAdapter::extract_tag(&xml, "b")), Some("y".to_string()));
    assert_eq!(text(ArXivAdapter::extract_tag(&xml, "c")), None);
    assert_eq!(text(ArXivAdapter::extract_tag(&xml, "d")), None);

    let links: Vec<char> =
        r#"<link href="http://x/pdf/1"/><link href="http://arxiv.org/abs/1"/><link href="http://arxiv.org/abs/2"/>"#
            .chars()
            .collect();
    assert_eq!(
        text(ArXivAdapter::extract_link(&links)),
        Some("http://arxiv.org/abs/1".to_string())
    );
    let none: Vec<char> = r#"<link href="http://x/pdf/1"/>"#.chars().collect();
    assert_eq!(text(ArXivAdapter::extract_link(&none)), None);
}

#[test]
fn arxiv_dates() {
    assert_eq!(ArXivAdapter::parse_arxiv_date("2024-01-15T12:00:00Z"), Ok(NOW));
    assert_eq!(ArXivAdapter::parse_arxiv_date("2024-01-15T14:00:00+02:00"), Ok(NOW));
    assert_eq!(ArXivAdapter::parse_arxiv_date("2024-01-15"), Err(()));
    assert_eq!(ArXivAdapter::parse_arxiv_date(""), Err(()));
}

#[test]
fn arxiv_relevance() {
    // base; one term in the title; the phrase in the title; one term in the
    // abstract; published five days ago; a machine-learning category for a
    // query about neural networks.
    let expected = 300_000 + 150_000 + 200_000 + 50_000 + 150_000 + 100_000;
    assert_eq!(ArXivAdapter::calculate_relevance(&entry(), "Neural", NOW), expected);

    let plain = ArXivEntry {
        categories: vec!["math.CO".to_string()],
        published: "2023-06-01T00:00:00Z".to_string(),
        ..entry()
    };
    assert_eq!(
        ArXivAdapter::calculate_relevance(&plain, "graphs", NOW),
        300_000 + 30_000
    );
    let old = ArXivEntry { published: "2020-06-01T00:00:00Z".to_string(), ..plain };
    assert_eq!(ArXivAdapter::calculate_relevance(&old, "graphs", NOW), 300_000);
    let recent = ArXivEntry { published: "2023-11-01T00:00:00Z".to_string(), ..old };
    assert_eq!(ArXivAdapter::calculate_relevance(&recent, "graphs", NOW), 380_000);

    let many = "neural networks for code we study models";
    assert_eq!(ArXivAdapter::calculate_relevance(&entry(), many, NOW), 1_000_000);
}

#[test]
fn arxiv_entry_becomes_a_finding() {
    let finding = ArXivAdapter::entry_to_finding(entry(), "neural", NOW);
    assert_eq!(finding.id, "arxiv-2401.01234v1");
    assert_eq!(finding.source, ResearchSource::ArXiv);
    assert_eq!(finding.title, "Neural Networks for Code");
    assert_eq!(finding.summary, "Authors: Ada, Grace\n\nWe study neural models.");
    assert_eq!(finding.relevance_score, 950_000);
    assert_eq!(finding.discovered_at, NOW - 3 * DAY);
    assert_eq!(finding.tags, vec!["cs.LG", "arxiv", "academic"]);
    assert_eq!(finding.url.as_deref(), Some("http://arxiv.org/abs/2401.01234v1"));
    assert_eq!(finding.metadata.authors, vec!["Ada", "Grace"]);
    assert_eq!(finding.metadata.categories, vec!["cs.LG"]);
    assert_eq!(finding.metadata.published.as_deref(), Some("2024-01-10T12:00:00Z"));
    assert_eq!(finding.metadata.updated.as_deref(), Some("2024-01-12T12:00:00Z"));

    let crowded = ArXivEntry {
        authors: vec!["A".to_string(), "B".to_string(), "C".to_string(), "D".to_string()],
        summary: "x".repeat(501),
        updated: "unknown".to_string(),
        ..entry()
    };
    let finding = ArXivAdapter::entry_to_finding(crowded, "neural", NOW);
    assert_eq!(finding.summary, format!("Authors: A et al.\n\n{}...", "x".repeat(500)));
    assert_eq!(finding.discovered_at, NOW - 5 * DAY);

    let undated = ArXivEntry {
        authors: vec![],
        summary: "y".repeat(500),
        updated: "unknown".to_string(),
        published: "unknown".to_string(),
        ..entry()
    };
    let finding = ArXivAdapter::entry_to_finding(undated, "neural", NOW);
    assert_eq!(finding.summary, format!("Authors: \n\n{}", "y".repeat(500)));
    assert_eq!(finding.discovered_at, NOW);
}

#[test]
fn arxiv_search_url() {
    let adapter = ArXivAdapter::new();
    assert_eq!(
        adapter.search_url("deep learning", &SearchOptions::default()),
        Ok("http://export.arxiv.org/api/query?search_query=all:deep+AND+learning&max_results=10&sortBy=relevance&sortOrder=descending".to_string())
    );
    let options = SearchOptions {
        limit: Some(3),
        sort_by: Some(SortOrder::DateAsc),
        ..SearchOptions::default()
    };
    assert_eq!(
        adapter.search_url("cat:cs.AI", &options),
        Ok("http://export.arxiv.org/api/query?search_query=all:cat%3Acs.AI&max_results=3&sortBy=submittedDate&sortOrder=ascending".to_string())
    );
    assert_eq!(
        adapter.search_url("", &options),
        Err(ResearchError::InvalidQuery("Query cannot be empty".to_string()))
    );
    assert_eq!(
        adapter.validation_url(),
        "http://export.arxiv.org/api/query?search_query=all:test&max_results=1"
    );
    assert_eq!(ArXivAdapter::build_sort_param(&Some(SortOrder::DateDesc)), "submittedDate");
    assert_eq!(ArXivAdapter::build_sort_param(&Some(SortOrder::PopularityDesc)), "relevance");
    assert_eq!(ArXivAdapter::build_sort_param(&None), "relevance");
}

#[test]
fn arxiv_status_handling() {
    assert_eq!(ArXivAdapter::check_validation(200), Ok(()));
    assert_eq!(
        ArXivAdapter::check_validation(500),
        Err(ResearchError::ApiError { status: 500, message: "ArXiv API unavailable".to_string() })
    );
    assert_eq!(ArXivAdapter::check_response(299, "ok".to_string()), Ok(()));
    assert_eq!(
        ArXivAdapter::check_response(404, "gone".to_string()),
        Err(ResearchError::ApiError { status: 404, message: "gone".to_string() })
    );
}

#[test]
fn arxiv_findings_are_filtered_and_ranked() {
    let strong = entry();
    let weak = ArXivEntry {
        id: "http://arxiv.org/abs/1".to_string(),
        title: "Graphs".to_string(),
        summary: "Combinatorics".to_string(),
        categories: vec![],
        ..entry()
    };
    let early = ArXivEntry {
        id: "http://arxiv.org/abs/2".to_string(),
        updated: "2023-01-01T00:00:00Z".to_string(),
        ..entry()
    };
    let all = SearchOptions::default();
    let findings =
        ArXivAdapter::findings_at(vec![weak, strong, early], "neural", &all, NOW);
    let ids: Vec<&str> = findings.iter().map(|f| f.id.as_str()).collect();
    assert_eq!(ids, vec!["arxiv-2401.01234v1", "arxiv-2", "arxiv-1"]);

    let weak = ArXivEntry {
        id: "http://arxiv.org/abs/1".to_string(),
        title: "Graphs".to_string(),
        summary: "Combinatorics".to_string(),
        categories: vec![],
        ..entry()
    };
    let early = ArXivEntry {
        id: "http://arxiv.org/abs/2".to_string(),
        updated: "2023-01-01T00:00:00Z".to_string(),
        ..entry()
    };
    let narrowed = SearchOptions {
        min_relevance: Some(500_000),
        since_timestamp: Some(NOW - 30 * DAY),
        ..SearchOptions::default()
    };
    let findings =
        ArXivAdapter::findings_at(vec![weak, entry(), early], "neural", &narrowed, NOW);
    let ids: Vec<&str> = findings.iter().map(|f| f.id.as_str()).collect();
    assert_eq!(ids, vec!["arxiv-2401.01234v1"]);

    let from_feed = ArXivAdapter::findings(FEED, "neural", &SearchOptions::default());
    assert_eq!(from_feed.len(), 3);
    assert_eq!(from_feed[0].id, "arxiv-2401.01234v1");
}

#[test]
fn arxiv_trending_request() {
    let (query, options) = ArXivAdapter::trending_request(7);
    assert_eq!(query, "cat:cs.AI OR cat:cs.LG OR cat:cs.CL");
    assert_eq!(options.limit, Some(7));
    assert_eq!(options.sort_by, Some(SortOrder::DateDesc));
}

#[test]
fn test_registry_create() {
    let registry: ResearchAdapterRegistry<BuiltinAdapter> = ResearchAdapterRegistry::new();
    assert!(registry.list_names().is_empty());
    assert!(registry.get("GitHub").is_none());
    assert!(registry.get_by_source(&ResearchSource::GitHub).is_none());
}

#[test]
fn test_registry_register() {
    let mut registry = ResearchAdapterRegistry::new();
    let github = GitHubAdapter::new(None);

    registry.register(github).unwrap();

    let names = registry.list_names();
    assert!(names.contains(&"GitHub".to_string()));
}

#[test]
fn registry_with_defaults() {
    let mut registry = ResearchAdapterRegistry::with_defaults().unwrap();
    assert_eq!(registry.list_names(), vec!["GitHub", "ArXiv"]);
    assert_eq!(registry.all().len(), 2);
    assert_eq!(registry.get("ArXiv").map(|a| a.name()), Some("ArXiv".to_string()));
    assert!(registry.get("Twitter").is_none());
    assert_eq!(
        registry.get_by_source(&ResearchSource::ArXiv).map(|a| a.source()),
        Some(ResearchSource::ArXiv)
    );
    assert!(registry.get_by_source(&ResearchSource::Twitter).is_none());

    // Registering under a name that is taken replaces the adapter in place.
    registry
        .register(BuiltinAdapter::GitHub(GitHubAdapter::new(Some("test-token".to_string()))))
        .unwrap();
    assert_eq!(registry.list_names(), vec!["GitHub", "ArXiv"]);
    assert_eq!(
        registry.get("GitHub"),
        Some(&BuiltinAdapter::GitHub(GitHubAdapter::new(Some("test-token".to_string()))))
    );

    assert_eq!(
        registry.unregister("Twitter"),
        Err(ResearchError::AdapterUnavailable("Twitter".to_string()))
    );
    assert_eq!(registry.unregister("GitHub"), Ok(()));
    assert_eq!(registry.list_names(), vec!["ArXiv"]);
}

#[test]
fn registry_health() {
    let registry = ResearchAdapterRegistry::with_defaults().unwrap();
    let ok: Result<(), ResearchError> = Ok(());
    let down: Result<(), ResearchError> = Err(ResearchError::NetworkError("down".to_string()));
    let health = vec![health_of(&down), health_of(&ok)];
    let available = registry.available(&health);
    assert_eq!(available.len(), 1);
    assert_eq!(available[0].name(), "ArXiv");
    assert_eq!(
        registry.health_check(&health),
        vec![("GitHub".to_string(), false), ("ArXiv".to_string(), true)]
    );
    assert_eq!(
        registry.health_check(&vec![true]),
        vec![("GitHub".to_string(), true), ("ArXiv".to_string(), false)]
    );
    assert!(registry.available(&vec![]).is_empty());
}

#[test]
fn research_error_messages() {
    assert_eq!(ResearchError::NetworkError("down".to_string()).message(), "Network error: down");
    assert_eq!(
        ResearchError::RateLimited { retry_after_secs: Some(60) }.message(),
        "Rate limited, retry after 60 seconds"
    );
    assert_eq!(ResearchError::RateLimited { retry_after_secs: None }.message(), "Rate limited");
    assert_eq!(
        ResearchError::ApiError { status: 404, message: "gone".to_string() }.message(),
        "API error (404): gone"
    );
    assert_eq!(ResearchError::ParseError("bad".to_string()).message(), "Parse error: bad");
    assert_eq!(ResearchError::ConfigError("bad".to_string()).message(), "Config error: bad");
    assert_eq!(
        ResearchError::AdapterUnavailable("X".to_string()).message(),
        "Adapter unavailable: X"
    );
    assert_eq!(ResearchError::InvalidQuery("bad".to_string()).message(), "Invalid query: bad");
}

#[test]
fn search_limits_are_capped() {
    assert_eq!(SearchOptions::default().effective_limit(), 10);
    let options = SearchOptions { limit: Some(0), ..SearchOptions::default() };
    assert_eq!(options.effective_limit(), 0);
    let options = SearchOptions { limit: Some(100), ..SearchOptions::default() };
    assert_eq!(options.effective_limit(), 100);
    let options = SearchOptions { limit: Some(101), ..SearchOptions::default() };
    assert_eq!(options.effective_limit(), 100);
    assert_eq!(SortOrder::default(), SortOrder::Relevance);
}

#[test]
fn registry_resolves_choices() {
    let registry = ResearchAdapterRegistry::with_defaults().unwrap();
    let by_name = registry.resolve(&AdapterChoice::ByName("GitHub".to_string()));
    assert_eq!(by_name.map(|a| a.name()), Some("GitHub".to_string()));
    let by_source = registry.resolve(&AdapterChoice::BySource(ResearchSource::ArXiv));
    assert_eq!(by_source.map(|a| a.name()), Some("ArXiv".to_string()));
    assert!(registry.resolve(&AdapterChoice::ByName("Twitter".to_string())).is_none());
    assert!(registry.resolve(&AdapterChoice::BySource(ResearchSource::Twitter)).is_none());
}
