//! Core data model: jobs, per-page results, crawl statistics and the bundle
//! returned by a finished crawl. Timestamps are milliseconds since the Unix
//! epoch.
use vstd::prelude::*;

use crate::clock::now_millis;

verus! {

/// A unit of work: a URL together with the depth at which it was discovered.
#[derive(Clone, Debug)]
pub struct CrawlJob {
    pub url: String,
    pub depth: usize,
}

/// The outcome of fetching and parsing one page.
#[derive(Clone, Debug)]
pub struct PageResult {
    /// Page URL.
    pub url: String,
    /// Text of the first `<title>` element, or `"No title"`.
    pub title: String,
    /// HTTP status code.
    pub status_code: u16,
    /// Crawl depth from the seed.
    pub depth: usize,
    /// Absolute outgoing links, in document order.
    pub links: Vec<String>,
    /// Error message when the fetch failed.
    pub error: Option<String>,
    /// When the page was crawled, in milliseconds since the epoch.
    pub crawled_at: i64,
    /// Content-Type header of the response.
    pub content_type: String,
}

/// Counters and timing for a whole crawl.
#[derive(Clone, Debug)]
pub struct CrawlStats {
    /// URLs admitted by the pipeline (inserted into the visited set).
    pub pages_found: usize,
    /// Pages fetched and parsed successfully.
    pub pages_crawled: usize,
    /// URLs rejected by the domain scope.
    pub external_links: usize,
    /// Links rejected by the pattern filter or by robots rules.
    pub excluded_links: usize,
    /// Fetches that failed (transport error or non-success status).
    pub errors: usize,
    /// Crawl start, in milliseconds since the epoch.
    pub start_time: i64,
    /// Crawl end, set on termination.
    pub end_time: Option<i64>,
    /// `end_time - start_time`, in milliseconds, set on termination.
    pub duration: Option<u64>,
}

impl CrawlStats {
    /// Fresh statistics: all counters zero, started at the current time.
    pub fn new() -> (s: Self)
        ensures
            s.pages_found == 0,
            s.pages_crawled == 0,
            s.external_links == 0,
            s.excluded_links == 0,
            s.errors == 0,
            s.end_time is None,
            s.duration is None,
    {
        CrawlStats {
            pages_found: 0,
            pages_crawled: 0,
            external_links: 0,
            excluded_links: 0,
            errors: 0,
            start_time: now_millis(),
            end_time: None,
            duration: None,
        }
    }

    /// Fresh statistics with a caller-chosen start time.
    pub fn new_at(start_ms: i64) -> (s: Self)
        ensures
            s == (CrawlStats {
                pages_found: 0,
                pages_crawled: 0,
                external_links: 0,
                excluded_links: 0,
                errors: 0,
                start_time: start_ms,
                end_time: None,
                duration: None,
            }),
    {
        CrawlStats {
            pages_found: 0,
            pages_crawled: 0,
            external_links: 0,
            excluded_links: 0,
            errors: 0,
            start_time: start_ms,
            end_time: None,
            duration: None,
        }
    }
}

impl Default for CrawlStats {
    fn default() -> (s: Self)
        ensures
            s.pages_found == 0,
            s.pages_crawled == 0,
            s.external_links == 0,
            s.excluded_links == 0,
            s.errors == 0,
            s.end_time is None,
            s.duration is None,
    {
        CrawlStats::new()
    }
}

/// Everything a crawl produces: final statistics plus one entry per page.
#[derive(Clone, Debug)]
pub struct CrawlResults {
    pub stats: CrawlStats,
    pub results: Vec<PageResult>,
}

/// The URLs of a sequence of page results.
pub open spec fn result_urls(rs: Seq<PageResult>) -> Seq<Seq<char>> {
    rs.map_values(|r: PageResult| r.url@)
}

} // verus!
