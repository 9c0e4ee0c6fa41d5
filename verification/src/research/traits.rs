//! What every research source has in common: errors, search options, and the
//! capability interface.

use vstd::prelude::*;
use crate::commander::{ResearchSource, SourceView};
use crate::text::{push_decimal, spec_decimal};

verus! {

/// Why a research operation failed.
#[derive(Debug, PartialEq)]
pub enum ResearchError {
    /// The connection failed or timed out.
    NetworkError(String),
    /// The source asked to slow down.
    RateLimited { retry_after_secs: Option<u64> },
    /// The source answered with an error status.
    ApiError { status: u16, message: String },
    /// The answer could not be read.
    ParseError(String),
    /// The adapter is configured wrongly.
    ConfigError(String),
    /// No such adapter.
    AdapterUnavailable(String),
    /// The query is not acceptable.
    InvalidQuery(String),
}

/// The model of a `ResearchError`.
pub enum ErrorView {
    NetworkError(Seq<char>),
    RateLimited { retry_after_secs: Option<u64> },
    ApiError { status: u16, message: Seq<char> },
    ParseError(Seq<char>),
    ConfigError(Seq<char>),
    AdapterUnavailable(Seq<char>),
    InvalidQuery(Seq<char>),
}

impl DeepView for ResearchError {
    type V = ErrorView;

    open spec fn deep_view(&self) -> ErrorView {
        match self {
            ResearchError::NetworkError(m) => ErrorView::NetworkError(m@),
            ResearchError::RateLimited { retry_after_secs } => ErrorView::RateLimited {
                retry_after_secs: *retry_after_secs,
            },
            ResearchError::ApiError { status, message } => ErrorView::ApiError {
                status: *status,
                message: message@,
            },
            ResearchError::ParseError(m) => ErrorView::ParseError(m@),
            ResearchError::ConfigError(m) => ErrorView::ConfigError(m@),
            ResearchError::AdapterUnavailable(m) => ErrorView::AdapterUnavailable(m@),
            ResearchError::InvalidQuery(m) => ErrorView::InvalidQuery(m@),
        }
    }
}

impl ErrorView {
    /// The error as a sentence for the user.
    pub open spec fn message(self) -> Seq<char> {
        match self {
            ErrorView::NetworkError(m) => "Network error: "@ + m,
            ErrorView::RateLimited { retry_after_secs: Some(secs) } => {
                "Rate limited, retry after "@ + spec_decimal(secs as nat) + " seconds"@
            },
            ErrorView::RateLimited { retry_after_secs: None } => "Rate limited"@,
            ErrorView::ApiError { status, message } => {
                "API error ("@ + spec_decimal(status as nat) + "): "@ + message
            },
            ErrorView::ParseError(m) => "Parse error: "@ + m,
            ErrorView::ConfigError(m) => "Config error: "@ + m,
            ErrorView::AdapterUnavailable(m) => "Adapter unavailable: "@ + m,
            ErrorView::InvalidQuery(m) => "Invalid query: "@ + m,
        }
    }
}

impl ResearchError {
    /// The error as a sentence for the user.
    pub fn message(&self) -> (r: String)
        ensures
            r@ == self.deep_view().message(),
    {
        match self {
            ResearchError::NetworkError(m) => prefixed("Network error: ", m),
            ResearchError::RateLimited { retry_after_secs } => {
                match retry_after_secs {
                    Some(secs) => {
                        let mut r = String::from_str("Rate limited, retry after ");
                        push_decimal(&mut r, *secs);
                        r.append(" seconds");
                        r
                    },
                    None => String::from_str("Rate limited"),
                }
            },
            ResearchError::ApiError { status, message } => {
                let mut r = String::from_str("API error (");
                push_decimal(&mut r, *status as u64);
                r.append("): ");
                r.append(message.as_str());
                r
            },
            ResearchError::ParseError(m) => prefixed("Parse error: ", m),
            ResearchError::ConfigError(m) => prefixed("Config error: ", m),
            ResearchError::AdapterUnavailable(m) => prefixed("Adapter unavailable: ", m),
            ResearchError::InvalidQuery(m) => prefixed("Invalid query: ", m),
        }
    }
}

/// `prefix` followed by `rest`.
fn prefixed(prefix: &str, rest: &String) -> (r: String)
    ensures
        r@ == prefix@ + rest@,
{
    let mut r = String::from_str(prefix);
    r.append(rest.as_str());
    r
}

/// The order that results are asked for in.
#[derive(Debug, Clone, Copy, PartialEq, Eq, Structural)]
pub enum SortOrder {
    Relevance,
    DateDesc,
    DateAsc,
    PopularityDesc,
}

impl Default for SortOrder {
    fn default() -> (r: Self)
        ensures
            r == SortOrder::Relevance,
    {
        SortOrder::Relevance
    }
}

/// How a search is narrowed.
#[derive(Debug, PartialEq)]
pub struct SearchOptions {
    /// The most results wanted.
    pub limit: Option<usize>,
    /// The least relevance wanted, as a fixed-point fraction of one.
    pub min_relevance: Option<u32>,
    /// Only results since this time, in seconds since the Unix epoch.
    pub since_timestamp: Option<i64>,
    /// Only results with these tags.
    pub tags: Option<Vec<String>>,
    /// The order wanted.
    pub sort_by: Option<SortOrder>,
}

impl Default for SearchOptions {
    fn default() -> (r: Self)
        ensures
            r.limit is None,
            r.min_relevance is None,
            r.since_timestamp is None,
            r.tags is None,
            r.sort_by is None,
    {
        SearchOptions {
            limit: None,
            min_relevance: None,
            since_timestamp: None,
            tags: None,
            sort_by: None,
        }
    }
}

/// The most results that any source is asked for at once.
pub const MAX_RESULT_LIMIT: usize = 100;

/// The number of results to ask for: ten unless the options say otherwise,
/// and never more than the cap.
pub open spec fn spec_effective_limit(limit: Option<usize>) -> usize {
    match limit {
        Some(n) => if n < MAX_RESULT_LIMIT {
            n
        } else {
            MAX_RESULT_LIMIT
        },
        None => 10,
    }
}

impl SearchOptions {
    /// The number of results to ask a source for.
    pub fn effective_limit(&self) -> (r: usize)
        ensures
            r == spec_effective_limit(self.limit),
            r <= MAX_RESULT_LIMIT,
    {
        match self.limit {
            Some(n) => if n < MAX_RESULT_LIMIT {
                n
            } else {
                MAX_RESULT_LIMIT
            },
            None => 10,
        }
    }
}

/// A research source behind a uniform interface. What needs the network
/// (validating, searching) is driven from outside with the requests that an
/// adapter plans and the answers that it interprets.
pub trait ResearchAdapter {
    /// The name that the adapter is registered under.
    spec fn spec_name(&self) -> Seq<char>;

    /// The kind of source that the adapter's findings come from.
    spec fn spec_source(&self) -> SourceView;

    /// The name that the adapter is registered under.
    fn name(&self) -> (r: String)
        ensures
            r@ == self.spec_name(),
    ;

    /// The kind of source that the adapter's findings come from.
    fn source(&self) -> (r: ResearchSource)
        ensures
            r.deep_view() == self.spec_source(),
    ;
}

/// An adapter is healthy exactly when its validation succeeded.
pub fn health_of(validation: &Result<(), ResearchError>) -> (r: bool)
    ensures
        r == validation is Ok,
{
    validation.is_ok()
}

} // verus!
