//! Output formatting: renders a crawl's outcome as JSON, Markdown, a link
//! list, CSV or plain text. Every format is specified exactly, character by
//! character, over the result values; the HTML report itself is a templating
//! collaborator's work, so the HTML choice falls back to the JSON rendering.
use vstd::prelude::*;

use crate::json::{pages_view, spec_encode_results, write_results, PageResultView};
use crate::text::{ascii_lower, clone_string, spec_ascii_lower, spec_dec, str_eq, u64_to_string};
use crate::types::{CrawlResults, CrawlStats, PageResult};

verus! {

/// The output formats a crawl can be rendered in.
#[derive(Debug, Clone, Copy, PartialEq, Eq, Structural, Hash)]
pub enum OutputFormat {
    /// JSON structured data.
    Json,
    /// Markdown.
    Markdown,
    /// HTML report (rendered by a templating collaborator; the in-library
    /// rendering falls back to JSON).
    Html,
    /// List of links only.
    Links,
    /// CSV.
    Csv,
    /// Plain text.
    Text,
}

/// The format a lower-cased name denotes, if any.
pub open spec fn spec_format_of(low: Seq<char>) -> Option<OutputFormat> {
    if low == "json"@ {
        Some(OutputFormat::Json)
    } else if low == "markdown"@ || low == "md"@ {
        Some(OutputFormat::Markdown)
    } else if low == "html"@ {
        Some(OutputFormat::Html)
    } else if low == "links"@ {
        Some(OutputFormat::Links)
    } else if low == "csv"@ {
        Some(OutputFormat::Csv)
    } else if low == "text"@ || low == "txt"@ {
        Some(OutputFormat::Text)
    } else {
        None
    }
}

impl OutputFormat {
    /// Parses a format name, case-insensitively; an unknown name yields an
    /// error message naming it.
    pub fn from_str(s: &str) -> (r: Result<Self, String>)
        ensures
            match spec_format_of(spec_ascii_lower(s@)) {
                Some(f) => r matches Ok(g) && g == f,
                None => r matches Err(m) && m@ == "Unknown output format: "@ + s@,
            },
    {
        let low = ascii_lower(s);
        if str_eq(low.as_str(), "json") {
            Ok(OutputFormat::Json)
        } else if str_eq(low.as_str(), "markdown") || str_eq(low.as_str(), "md") {
            Ok(OutputFormat::Markdown)
        } else if str_eq(low.as_str(), "html") {
            Ok(OutputFormat::Html)
        } else if str_eq(low.as_str(), "links") {
            Ok(OutputFormat::Links)
        } else if str_eq(low.as_str(), "csv") {
            Ok(OutputFormat::Csv)
        } else if str_eq(low.as_str(), "text") || str_eq(low.as_str(), "txt") {
            Ok(OutputFormat::Text)
        } else {
            let mut m = String::from_str("Unknown output format: ");
            m.append(s);
            Err(m)
        }
    }

    /// The file extension for this format.
    pub fn extension(&self) -> (r: &'static str)
        ensures
            r@ == (match self {
                OutputFormat::Json => "json"@,
                OutputFormat::Markdown => "md"@,
                OutputFormat::Html => "html"@,
                OutputFormat::Links => "txt"@,
                OutputFormat::Csv => "csv"@,
                OutputFormat::Text => "txt"@,
            }),
    {
        match self {
            OutputFormat::Json => "json",
            OutputFormat::Markdown => "md",
            OutputFormat::Html => "html",
            OutputFormat::Links => "txt",
            OutputFormat::Csv => "csv",
            OutputFormat::Text => "txt",
        }
    }
}

/// Which formats to produce, and how.
#[derive(Debug, Clone)]
pub struct OutputFormatterConfig {
    /// Formats to generate.
    pub formats: Vec<OutputFormat>,
    /// Pretty-print JSON. (The in-library writer has one canonical JSON
    /// shape, so this flag does not change the text it produces.)
    pub pretty_json: bool,
    /// Include errors in output.
    pub include_errors: bool,
    /// Cap on the entries of the link list.
    pub max_links: Option<usize>,
}

impl Default for OutputFormatterConfig {
    /// JSON and HTML, pretty JSON, errors included, no link cap.
    fn default() -> (c: Self)
        ensures
            c.formats@.len() == 2,
            c.formats@[0] == OutputFormat::Json,
            c.formats@[1] == OutputFormat::Html,
            c.pretty_json,
            c.include_errors,
            c.max_links is None,
    {
        let mut formats: Vec<OutputFormat> = Vec::new();
        formats.push(OutputFormat::Json);
        formats.push(OutputFormat::Html);
        OutputFormatterConfig { formats, pretty_json: true, include_errors: true, max_links: None }
    }
}

/// One rendered output.
#[derive(Debug, Clone)]
pub struct FormattedOutput {
    /// The format the content is in.
    pub format: OutputFormat,
    /// The rendered content.
    pub content: String,
    /// Suggested file name, without extension.
    pub filename: String,
}

impl FormattedOutput {
    /// The suggested file name with the format's extension.
    pub fn full_filename(&self) -> (r: String)
        ensures
            r@ == self.filename@ + "."@ + (match self.format {
                OutputFormat::Json => "json"@,
                OutputFormat::Markdown => "md"@,
                OutputFormat::Html => "html"@,
                OutputFormat::Links => "txt"@,
                OutputFormat::Csv => "csv"@,
                OutputFormat::Text => "txt"@,
            }),
    {
        let mut r = clone_string(&self.filename);
        r.append(".");
        r.append(self.format.extension());
        r
    }
}

/// The link-list text: one result URL per line, up to the cap, with a note
/// when entries were left out. (With a cap of zero the original emitted
/// nothing, note included; this keeps that behavior.)
pub open spec fn spec_format_links(urls: Seq<Seq<char>>, max_links: Option<usize>) -> Seq<char> {
    let limit = match max_links {
        Some(m) => m as int,
        None => urls.len() as int,
    };
    let shown = if limit < urls.len() {
        limit
    } else {
        urls.len() as int
    };
    spec_link_lines(urls.take(shown)) + (if urls.len() > limit && limit > 0 {
        "\n# "@ + spec_dec((urls.len() - limit) as nat) + " more URLs omitted\n"@
    } else {
        Seq::empty()
    })
}

/// URL lines, one per entry.
pub open spec fn spec_link_lines(urls: Seq<Seq<char>>) -> Seq<char>
    decreases urls.len(),
{
    if urls.len() == 0 {
        Seq::empty()
    } else {
        spec_link_lines(urls.drop_last()) + urls.last() + "\n"@
    }
}

/// The CSV escape: every double quote doubled.
pub open spec fn spec_escape_csv(s: Seq<char>) -> Seq<char>
    decreases s.len(),
{
    if s.len() == 0 {
        Seq::empty()
    } else {
        spec_escape_csv(s.drop_last()) + (if s.last() == '"' {
            seq!['"', '"']
        } else {
            seq![s.last()]
        })
    }
}

/// One CSV row for a page. As in the original, the error message is written
/// unescaped.
pub open spec fn spec_csv_row(p: PageResultView) -> Seq<char> {
    "\""@ + spec_escape_csv(p.url) + "\",\""@ + spec_escape_csv(p.title) + "\","@ + spec_dec(
        p.status_code as nat,
    ) + ","@ + spec_dec(p.depth as nat) + ","@ + spec_dec(p.links.len()) + ",\""@ + (match p.error {
        Some(e) => e,
        None => Seq::empty(),
    }) + "\"\n"@
}

/// The CSV rows of a result list.
pub open spec fn spec_csv_rows(ps: Seq<PageResultView>) -> Seq<char>
    decreases ps.len(),
{
    if ps.len() == 0 {
        Seq::empty()
    } else {
        spec_csv_rows(ps.drop_last()) + spec_csv_row(ps.last())
    }
}

/// The CSV text: a header line, then one row per result.
pub open spec fn spec_format_csv(ps: Seq<PageResultView>) -> Seq<char> {
    "URL,Title,Status Code,Depth,Links Count,Error\n"@ + spec_csv_rows(ps)
}

/// The statistics header shared by the plain-text rendering.
pub open spec fn spec_text_stats(st: CrawlStats) -> Seq<char> {
    "=== CRAWL RESULTS ===\n\nStatistics:\n  Pages Found: "@ + spec_dec(st.pages_found as nat)
        + "\n  Pages Crawled: "@ + spec_dec(st.pages_crawled as nat) + "\n  External Links: "@
        + spec_dec(st.external_links as nat) + "\n  Errors: "@ + spec_dec(st.errors as nat)
        + "\n"@ + (match st.duration {
        Some(d) => "  Duration: "@ + spec_dec(d as nat) + "ms\n"@,
        None => Seq::empty(),
    }) + "\nPages:\n\n"@
}

/// One plain-text entry for a page, under its one-based position.
pub open spec fn spec_text_page(p: PageResultView, number: nat) -> Seq<char> {
    spec_dec(number) + ". "@ + p.title + "\n   URL: "@ + p.url + "\n   Status: "@ + spec_dec(
        p.status_code as nat,
    ) + "\n   Depth: "@ + spec_dec(p.depth as nat) + "\n   Links: "@ + spec_dec(p.links.len())
        + "\n"@ + (match p.error {
        Some(e) => "   Error: "@ + e + "\n"@,
        None => Seq::empty(),
    }) + "\n"@
}

/// The plain-text entries of a result list, numbered from one.
pub open spec fn spec_text_pages(ps: Seq<PageResultView>) -> Seq<char>
    decreases ps.len(),
{
    if ps.len() == 0 {
        Seq::empty()
    } else {
        spec_text_pages(ps.drop_last()) + spec_text_page(ps.last(), ps.len())
    }
}

/// The plain-text rendering: statistics, then the numbered pages.
pub open spec fn spec_format_text(st: CrawlStats, ps: Seq<PageResultView>) -> Seq<char> {
    spec_text_stats(st) + spec_text_pages(ps)
}

/// Renders the link list.
#[verifier::rlimit(100)]
pub fn format_links(results: &Vec<PageResult>, max_links: Option<usize>) -> (r: String)
    ensures
        r@ == spec_format_links(
            results@.map_values(|p: PageResult| p.url@),
            max_links,
        ),
{
    let ghost urls = results@.map_values(|p: PageResult| p.url@);
    let limit = match max_links {
        Some(m) => m,
        None => results.len(),
    };
    let shown = if limit < results.len() {
        limit
    } else {
        results.len()
    };
    let mut out = String::new();
    let mut i: usize = 0;
    proof {
        assert(spec_link_lines(urls.take(0)) =~= Seq::<char>::empty());
        assert(out@ == spec_link_lines(urls.take(0)));
    }
    while i < shown
        invariant
            i <= shown,
            shown <= results@.len(),
            urls == results@.map_values(|p: PageResult| p.url@),
            urls.len() == results@.len(),
            out@ == spec_link_lines(urls.take(i as int)),
        decreases shown - i,
    {
        out.append(results[i].url.as_str());
        out.append("\n");
        proof {
            assert(urls.take(i + 1).drop_last() =~= urls.take(i as int));
            assert(urls.take(i + 1).last() == urls[i as int]);
            assert(out@ =~= spec_link_lines(urls.take(i as int)) + urls[i as int] + "\n"@);
        }
        i = i + 1;
    }
    if results.len() > limit && limit > 0 {
        out.append("\n# ");
        out.append(u64_to_string((results.len() - limit) as u64).as_str());
        out.append(" more URLs omitted\n");
        proof {
            assert(out@ =~= spec_format_links(urls, max_links));
        }
    } else {
        proof {
            assert(out@ =~= spec_format_links(urls, max_links));
        }
    }
    out
}

/// Doubles every double quote, for a CSV field.
pub fn escape_csv(s: &str) -> (r: String)
    ensures
        r@ == spec_escape_csv(s@),
{
    let n = s.unicode_len();
    let mut r = String::new();
    let mut i: usize = 0;
    proof {
        assert(spec_escape_csv(s@.take(0)) =~= Seq::<char>::empty());
    }
    while i < n
        invariant
            i <= n,
            n == s@.len(),
            r@ == spec_escape_csv(s@.take(i as int)),
        decreases n - i,
    {
        let c = s.get_char(i);
        if c == '"' {
            r.push('"');
            r.push('"');
        } else {
            r.push(c);
        }
        proof {
            assert(s@.take(i + 1).drop_last() =~= s@.take(i as int));
            assert(s@.take(i + 1).last() == s@[i as int]);
            if s@[i as int] == '"' {
                assert(r@ =~= spec_escape_csv(s@.take(i as int)) + seq!['"', '"']);
            } else {
                assert(r@ =~= spec_escape_csv(s@.take(i as int)) + seq![s@[i as int]]);
            }
        }
        i = i + 1;
    }
    proof {
        assert(s@.take(n as int) =~= s@);
    }
    r
}

/// Renders the CSV text.
#[verifier::rlimit(100)]
pub fn format_csv(results: &Vec<PageResult>) -> (r: String)
    ensures
        r@ == spec_format_csv(pages_view(results@)),
{
    let ghost pv = pages_view(results@);
    let mut out = String::from_str("URL,Title,Status Code,Depth,Links Count,Error\n");
    let mut i: usize = 0;
    proof {
        assert(spec_csv_rows(pv.take(0)) =~= Seq::<char>::empty());
        assert(out@ =~= "URL,Title,Status Code,Depth,Links Count,Error\n"@ + spec_csv_rows(
            pv.take(0),
        ));
    }
    while i < results.len()
        invariant
            i <= results.len(),
            pv == pages_view(results@),
            pv.len() == results@.len(),
            out@ == "URL,Title,Status Code,Depth,Links Count,Error\n"@ + spec_csv_rows(
                pv.take(i as int),
            ),
        decreases results.len() - i,
    {
        let p = &results[i];
        out.append("\"");
        let eu = escape_csv(p.url.as_str());
        out.append(eu.as_str());
        out.append("\",\"");
        let et = escape_csv(p.title.as_str());
        out.append(et.as_str());
        out.append("\",");
        out.append(u64_to_string(p.status_code as u64).as_str());
        out.append(",");
        out.append(u64_to_string(p.depth as u64).as_str());
        out.append(",");
        out.append(u64_to_string(p.links.len() as u64).as_str());
        out.append(",\"");
        match &p.error {
            Some(e) => out.append(e.as_str()),
            None => {},
        }
        out.append("\"\n");
        proof {
            assert(pv.take(i + 1).drop_last() =~= pv.take(i as int));
            assert(pv.take(i + 1).last() == pv[i as int]);
            assert(out@ =~= "URL,Title,Status Code,Depth,Links Count,Error\n"@ + (spec_csv_rows(
                pv.take(i as int),
            ) + spec_csv_row(pv[i as int])));
        }
        i = i + 1;
    }
    proof {
        assert(pv.take(results@.len() as int) =~= pv);
    }
    out
}

/// Renders one plain-text page entry under its one-based position.
#[verifier::rlimit(100)]
fn text_page(p: &PageResult, number: u64) -> (r: String)
    ensures
        r@ == spec_text_page(crate::json::page_view(*p), number as nat),
{
    let mut out = u64_to_string(number);
    out.append(". ");
    out.append(p.title.as_str());
    out.append("\n   URL: ");
    out.append(p.url.as_str());
    out.append("\n   Status: ");
    out.append(u64_to_string(p.status_code as u64).as_str());
    out.append("\n   Depth: ");
    out.append(u64_to_string(p.depth as u64).as_str());
    out.append("\n   Links: ");
    out.append(u64_to_string(p.links.len() as u64).as_str());
    out.append("\n");
    match &p.error {
        Some(e) => {
            out.append("   Error: ");
            out.append(e.as_str());
            out.append("\n");
        },
        None => {},
    }
    out.append("\n");
    proof {
        assert(out@ =~= spec_text_page(crate::json::page_view(*p), number as nat));
    }
    out
}

/// Renders the plain-text report.
#[verifier::rlimit(100)]
pub fn format_text(stats: &CrawlStats, results: &Vec<PageResult>) -> (r: String)
    ensures
        r@ == spec_format_text(*stats, pages_view(results@)),
{
    let ghost pv = pages_view(results@);
    let mut out = String::from_str("=== CRAWL RESULTS ===\n\nStatistics:\n  Pages Found: ");
    out.append(u64_to_string(stats.pages_found as u64).as_str());
    out.append("\n  Pages Crawled: ");
    out.append(u64_to_string(stats.pages_crawled as u64).as_str());
    out.append("\n  External Links: ");
    out.append(u64_to_string(stats.external_links as u64).as_str());
    out.append("\n  Errors: ");
    out.append(u64_to_string(stats.errors as u64).as_str());
    out.append("\n");
    match stats.duration {
        Some(d) => {
            out.append("  Duration: ");
            out.append(u64_to_string(d).as_str());
            out.append("ms\n");
        },
        None => {},
    }
    out.append("\nPages:\n\n");
    proof {
        assert(out@ =~= spec_text_stats(*stats));
        assert(spec_text_pages(pv.take(0)) =~= Seq::<char>::empty());
        assert(out@ =~= spec_text_stats(*stats) + spec_text_pages(pv.take(0)));
    }
    let mut i: usize = 0;
    while i < results.len()
        invariant
            i <= results.len(),
            pv == pages_view(results@),
            pv.len() == results@.len(),
            out@ == spec_text_stats(*stats) + spec_text_pages(pv.take(i as int)),
        decreases results.len() - i,
    {
        let entry = text_page(&results[i], (i + 1) as u64);
        out.append(entry.as_str());
        proof {
            assert(pv.take(i + 1).drop_last() =~= pv.take(i as int));
            assert(pv.take(i + 1).last() == pv[i as int]);
            assert(pv.take(i + 1).len() == i + 1);
            assert(out@ =~= spec_text_stats(*stats) + (spec_text_pages(pv.take(i as int))
                + spec_text_page(pv[i as int], (i + 1) as nat)));
        }
        i = i + 1;
    }
    proof {
        assert(pv.take(results@.len() as int) =~= pv);
    }
    out
}

/// The Markdown statistics header.
pub open spec fn spec_md_stats(st: CrawlStats) -> Seq<char> {
    "# Crawl Results\n\n## Statistics\n\n- **Pages Found**: "@ + spec_dec(st.pages_found as nat)
        + "\n- **Pages Crawled**: "@ + spec_dec(st.pages_crawled as nat)
        + "\n- **External Links**: "@ + spec_dec(st.external_links as nat) + "\n- **Errors**: "@
        + spec_dec(st.errors as nat) + "\n"@ + (match st.duration {
        Some(d) => "- **Duration**: "@ + spec_dec(d as nat) + "ms\n"@,
        None => Seq::empty(),
    }) + "\n"@
}

/// Numbered link lines, one per entry, numbered from one.
pub open spec fn spec_md_link_lines(ls: Seq<Seq<char>>) -> Seq<char>
    decreases ls.len(),
{
    if ls.len() == 0 {
        Seq::empty()
    } else {
        spec_md_link_lines(ls.drop_last()) + spec_dec(ls.len()) + ". "@ + ls.last() + "\n"@
    }
}

/// The Markdown block for one page: title, URL, status, up to ten links
/// with a note for the rest, and the error if any.
pub open spec fn spec_md_page(p: PageResultView) -> Seq<char> {
    "### "@ + p.title + "\n\n**URL**: "@ + p.url + "\n\n**Status**: "@ + spec_dec(
        p.status_code as nat,
    ) + "\n\n"@ + (if p.links.len() == 0 {
        Seq::<char>::empty()
    } else {
        "**Links** ("@ + spec_dec(p.links.len()) + "):\n\n"@ + spec_md_link_lines(
            p.links.take(
                if p.links.len() < 10 {
                    p.links.len() as int
                } else {
                    10
                },
            ),
        ) + (if p.links.len() > 10 {
            "\n*...and "@ + spec_dec((p.links.len() - 10) as nat) + " more*\n"@
        } else {
            Seq::<char>::empty()
        }) + "\n"@
    }) + (match p.error {
        Some(e) => "**Error**: "@ + e + "\n\n"@,
        None => Seq::<char>::empty(),
    }) + "---\n\n"@
}

/// The pages of one depth, in insertion order.
pub open spec fn spec_pages_at(ps: Seq<PageResultView>, d: nat) -> Seq<PageResultView>
    decreases ps.len(),
{
    if ps.len() == 0 {
        Seq::empty()
    } else if ps.last().depth == d {
        spec_pages_at(ps.drop_last(), d).push(ps.last())
    } else {
        spec_pages_at(ps.drop_last(), d)
    }
}

/// The Markdown blocks of a page list.
pub open spec fn spec_md_pages(ps: Seq<PageResultView>) -> Seq<char>
    decreases ps.len(),
{
    if ps.len() == 0 {
        Seq::empty()
    } else {
        spec_md_pages(ps.drop_last()) + spec_md_page(ps.last())
    }
}

/// The Markdown section for one depth; empty when no page sits there.
pub open spec fn spec_md_section(ps: Seq<PageResultView>, d: nat) -> Seq<char> {
    if spec_pages_at(ps, d).len() == 0 {
        Seq::empty()
    } else {
        "## Depth "@ + spec_dec(d) + " ("@ + spec_dec(spec_pages_at(ps, d).len())
            + " pages)\n\n"@ + spec_md_pages(spec_pages_at(ps, d))
    }
}

/// The Markdown sections for depths below `n`, in ascending depth order.
pub open spec fn spec_md_sections(ps: Seq<PageResultView>, n: nat) -> Seq<char>
    decreases n,
{
    if n == 0 {
        Seq::empty()
    } else {
        spec_md_sections(ps, (n - 1) as nat) + spec_md_section(ps, (n - 1) as nat)
    }
}

/// The largest depth of a page list (zero when empty).
pub open spec fn spec_max_depth(ps: Seq<PageResultView>) -> nat
    decreases ps.len(),
{
    if ps.len() == 0 {
        0nat
    } else if ps.last().depth as nat > spec_max_depth(ps.drop_last()) {
        ps.last().depth as nat
    } else {
        spec_max_depth(ps.drop_last())
    }
}

/// The Markdown rendering: the statistics header, then one section per
/// depth that holds pages, in ascending depth order with pages in insertion
/// order.
pub open spec fn spec_format_markdown(st: CrawlStats, ps: Seq<PageResultView>) -> Seq<char> {
    spec_md_stats(st) + spec_md_sections(
        ps,
        if ps.len() == 0 {
            0nat
        } else {
            spec_max_depth(ps) + 1
        },
    )
}

/// Renders the Markdown block for one page.
#[verifier::rlimit(100)]
fn md_page(p: &PageResult) -> (r: String)
    ensures
        r@ == spec_md_page(crate::json::page_view(*p)),
{
    let ghost pv = crate::json::page_view(*p);
    let mut out = String::from_str("### ");
    out.append(p.title.as_str());
    out.append("\n\n**URL**: ");
    out.append(p.url.as_str());
    out.append("\n\n**Status**: ");
    out.append(u64_to_string(p.status_code as u64).as_str());
    out.append("\n\n");
    let ghost head = out@;
    if p.links.len() > 0 {
        out.append("**Links** (");
        out.append(u64_to_string(p.links.len() as u64).as_str());
        out.append("):\n\n");
        let shown = if p.links.len() < 10 {
            p.links.len()
        } else {
            10
        };
        let ghost lv = pv.links;
        let ghost shown_l = lv.take(
            if lv.len() < 10 {
                lv.len() as int
            } else {
                10
            },
        );
        let ghost before_links = out@;
        let mut i: usize = 0;
        proof {
            assert(spec_md_link_lines(shown_l.take(0)) =~= Seq::<char>::empty());
        }
        while i < shown
            invariant
                i <= shown,
                shown <= p.links@.len(),
                shown <= 10,
                lv == p.links.deep_view(),
                lv.len() == p.links@.len(),
                shown == if lv.len() < 10 { lv.len() as int } else { 10 },
                shown_l == lv.take(shown as int),
                out@ == before_links + spec_md_link_lines(shown_l.take(i as int)),
            decreases shown - i,
        {
            out.append(u64_to_string((i + 1) as u64).as_str());
            out.append(". ");
            out.append(p.links[i].as_str());
            out.append("\n");
            proof {
                assert(shown_l.take(i + 1).drop_last() =~= shown_l.take(i as int));
                assert(shown_l.take(i + 1).last() == lv[i as int]);
                assert(shown_l.take(i + 1).len() == i + 1);
                assert(out@ =~= before_links + (spec_md_link_lines(shown_l.take(i as int))
                    + spec_dec((i + 1) as nat) + ". "@ + lv[i as int] + "\n"@));
            }
            i = i + 1;
        }
        proof {
            assert(shown_l.take(shown as int) =~= shown_l);
        }
        if p.links.len() > 10 {
            out.append("\n*...and ");
            out.append(u64_to_string((p.links.len() - 10) as u64).as_str());
            out.append(" more*\n");
        }
        out.append("\n");
    }
    match &p.error {
        Some(e) => {
            out.append("**Error**: ");
            out.append(e.as_str());
            out.append("\n\n");
        },
        None => {},
    }
    out.append("---\n\n");
    proof {
        assert(out@ =~= spec_md_page(pv));
    }
    out
}

/// Renders the Markdown report.
#[verifier::rlimit(100)]
pub fn format_markdown(stats: &CrawlStats, results: &Vec<PageResult>) -> (r: String)
    ensures
        r@ == spec_format_markdown(*stats, pages_view(results@)),
{
    let ghost pv = pages_view(results@);
    let mut out = String::from_str("# Crawl Results\n\n## Statistics\n\n- **Pages Found**: ");
    out.append(u64_to_string(stats.pages_found as u64).as_str());
    out.append("\n- **Pages Crawled**: ");
    out.append(u64_to_string(stats.pages_crawled as u64).as_str());
    out.append("\n- **External Links**: ");
    out.append(u64_to_string(stats.external_links as u64).as_str());
    out.append("\n- **Errors**: ");
    out.append(u64_to_string(stats.errors as u64).as_str());
    out.append("\n");
    match stats.duration {
        Some(d) => {
            out.append("- **Duration**: ");
            out.append(u64_to_string(d).as_str());
            out.append("ms\n");
        },
        None => {},
    }
    out.append("\n");
    proof {
        assert(out@ =~= spec_md_stats(*stats));
    }
    if results.len() == 0 {
        proof {
            assert(out@ =~= spec_md_stats(*stats) + spec_md_sections(pv, 0));
        }
        return out;
    }
    let mut maxd: usize = 0;
    let mut i: usize = 0;
    proof {
        assert(spec_max_depth(pv.take(0)) == 0);
    }
    while i < results.len()
        invariant
            i <= results.len(),
            pv == pages_view(results@),
            pv.len() == results@.len(),
            maxd as nat == spec_max_depth(pv.take(i as int)),
        decreases results.len() - i,
    {
        proof {
            assert(pv.take(i + 1).drop_last() =~= pv.take(i as int));
            assert(pv.take(i + 1).last() == pv[i as int]);
        }
        if results[i].depth > maxd {
            maxd = results[i].depth;
        }
        i = i + 1;
    }
    proof {
        assert(pv.take(results@.len() as int) =~= pv);
    }
    let mut dw: u128 = 0;
    proof {
        assert(out@ =~= spec_md_stats(*stats) + spec_md_sections(pv, 0));
    }
    while dw <= maxd as u128
        invariant
            dw <= maxd as u128 + 1,
            maxd as nat == spec_max_depth(pv),
            pv == pages_view(results@),
            pv.len() == results@.len(),
            results@.len() > 0,
            out@ == spec_md_stats(*stats) + spec_md_sections(pv, dw as nat),
        decreases maxd as int + 1 - dw,
    {
        let d: usize = dw as usize;
        proof {
            assert(d as nat == dw as nat);
        }
        let mut count: usize = 0;
        let mut i: usize = 0;
        proof {
            assert(spec_pages_at(pv.take(0), d as nat).len() == 0);
        }
        while i < results.len()
            invariant
                i <= results.len(),
                pv == pages_view(results@),
                pv.len() == results@.len(),
                count as nat == spec_pages_at(pv.take(i as int), d as nat).len(),
                count <= i,
            decreases results.len() - i,
        {
            proof {
                assert(pv.take(i + 1).drop_last() =~= pv.take(i as int));
                assert(pv.take(i + 1).last() == pv[i as int]);
            }
            if results[i].depth == d {
                count = count + 1;
            }
            i = i + 1;
        }
        proof {
            assert(pv.take(results@.len() as int) =~= pv);
        }
        if count > 0 {
            out.append("## Depth ");
            out.append(u64_to_string(d as u64).as_str());
            out.append(" (");
            out.append(u64_to_string(count as u64).as_str());
            out.append(" pages)\n\n");
            let ghost sect_head = out@;
            let mut i: usize = 0;
            proof {
                assert(spec_md_pages(spec_pages_at(pv.take(0), d as nat))
                    =~= Seq::<char>::empty());
            }
            while i < results.len()
                invariant
                    i <= results.len(),
                    pv == pages_view(results@),
                    pv.len() == results@.len(),
                    out@ == sect_head + spec_md_pages(spec_pages_at(pv.take(i as int), d as nat)),
                decreases results.len() - i,
            {
                proof {
                    assert(pv.take(i + 1).drop_last() =~= pv.take(i as int));
                    assert(pv.take(i + 1).last() == pv[i as int]);
                }
                if results[i].depth == d {
                    let block = md_page(&results[i]);
                    out.append(block.as_str());
                    proof {
                        assert(spec_pages_at(pv.take(i + 1), d as nat).drop_last()
                            =~= spec_pages_at(pv.take(i as int), d as nat));
                        assert(out@ =~= sect_head + (spec_md_pages(spec_pages_at(
                            pv.take(i as int),
                            d as nat,
                        )) + spec_md_page(pv[i as int])));
                    }
                }
                i = i + 1;
            }
            proof {
                assert(pv.take(results@.len() as int) =~= pv);
                assert(out@ =~= spec_md_stats(*stats) + (spec_md_sections(pv, d as nat)
                    + spec_md_section(pv, d as nat)));
            }
        } else {
            proof {
                assert(spec_md_section(pv, d as nat) =~= Seq::<char>::empty());
                assert(out@ =~= spec_md_stats(*stats) + (spec_md_sections(pv, d as nat)
                    + spec_md_section(pv, d as nat)));
            }
        }
        dw = dw + 1;
    }
    out
}

/// Renders the JSON text of a whole crawl's outcome. The text is the
/// library's one canonical JSON shape whether or not pretty printing was
/// asked for.
pub fn format_json(results: &CrawlResults, pretty: bool) -> (r: String)
    ensures
        r@ == spec_encode_results(results.stats, pages_view(results.results@)),
{
    let mut out = String::new();
    write_results(&mut out, results);
    proof {
        assert(out@ =~= spec_encode_results(results.stats, pages_view(results.results@)));
    }
    out
}

/// What `format_single` produces for each format choice: JSON for the JSON
/// and HTML choices, and the respective text renderings otherwise.
pub open spec fn spec_format_single(
    st: CrawlStats,
    ps: Seq<PageResultView>,
    urls: Seq<Seq<char>>,
    format: OutputFormat,
    max_links: Option<usize>,
) -> Seq<char> {
    match format {
        OutputFormat::Json => spec_encode_results(st, ps),
        OutputFormat::Html => spec_encode_results(st, ps),
        OutputFormat::Markdown => spec_format_markdown(st, ps),
        OutputFormat::Links => spec_format_links(urls, max_links),
        OutputFormat::Csv => spec_format_csv(ps),
        OutputFormat::Text => spec_format_text(st, ps),
    }
}

/// Renders crawl results in the configured formats.
pub struct DefaultOutputFormatterService {
    /// The formats to produce and their options.
    pub config: OutputFormatterConfig,
}

impl DefaultOutputFormatterService {
    /// A service with the stock configuration.
    pub fn new() -> (s: Self)
        ensures
            s.config.formats@.len() == 2,
            s.config.formats@[0] == OutputFormat::Json,
            s.config.formats@[1] == OutputFormat::Html,
            s.config.pretty_json,
            s.config.max_links is None,
    {
        DefaultOutputFormatterService { config: OutputFormatterConfig::default() }
    }

    /// A service with the given configuration.
    pub fn with_config(config: OutputFormatterConfig) -> (s: Self)
        ensures
            s.config == config,
    {
        DefaultOutputFormatterService { config }
    }

    /// Renders the results in one format, under the file name `results`.
    pub fn format_single(&self, results: &CrawlResults, format: OutputFormat) -> (r:
        FormattedOutput)
        ensures
            r.format == format,
            r.filename@ == "results"@,
            r.content@ == spec_format_single(
                results.stats,
                pages_view(results.results@),
                results.results@.map_values(|p: PageResult| p.url@),
                format,
                self.config.max_links,
            ),
    {
        let content = match format {
            OutputFormat::Json => format_json(results, self.config.pretty_json),
            OutputFormat::Html => format_json(results, false),
            OutputFormat::Markdown => format_markdown(&results.stats, &results.results),
            OutputFormat::Links => format_links(&results.results, self.config.max_links),
            OutputFormat::Csv => format_csv(&results.results),
            OutputFormat::Text => format_text(&results.stats, &results.results),
        };
        FormattedOutput { format, content, filename: String::from_str("results") }
    }

    /// Renders the results in every format of the given configuration, in
    /// order.
    pub fn format_with_config(
        &self,
        results: &CrawlResults,
        config: &OutputFormatterConfig,
    ) -> (r: Vec<FormattedOutput>)
        ensures
            r@.len() == config.formats@.len(),
            forall|i: int|
                0 <= i < r@.len() ==> (#[trigger] r@[i].format) == config.formats@[i]
                    && r@[i].content@ == spec_format_single(
                    results.stats,
                    pages_view(results.results@),
                    results.results@.map_values(|p: PageResult| p.url@),
                    config.formats@[i],
                    self.config.max_links,
                ),
    {
        let mut outputs: Vec<FormattedOutput> = Vec::new();
        let mut i: usize = 0;
        while i < config.formats.len()
            invariant
                i <= config.formats@.len(),
                outputs@.len() == i,
                forall|j: int|
                    0 <= j < i ==> (#[trigger] outputs@[j].format) == config.formats@[j]
                        && outputs@[j].content@ == spec_format_single(
                        results.stats,
                        pages_view(results.results@),
                        results.results@.map_values(|p: PageResult| p.url@),
                        config.formats@[j],
                        self.config.max_links,
                    ),
            decreases config.formats@.len() - i,
        {
            let o = self.format_single(results, config.formats[i]);
            outputs.push(o);
            i = i + 1;
        }
        outputs
    }

    /// Renders the results in every configured format.
    pub fn format(&self, results: &CrawlResults) -> (r: Vec<FormattedOutput>)
        ensures
            r@.len() == self.config.formats@.len(),
            forall|i: int|
                0 <= i < r@.len() ==> (#[trigger] r@[i].format) == self.config.formats@[i]
                    && r@[i].content@ == spec_format_single(
                    results.stats,
                    pages_view(results.results@),
                    results.results@.map_values(|p: PageResult| p.url@),
                    self.config.formats@[i],
                    self.config.max_links,
                ),
    {
        let mut outputs: Vec<FormattedOutput> = Vec::new();
        let mut i: usize = 0;
        while i < self.config.formats.len()
            invariant
                i <= self.config.formats@.len(),
                outputs@.len() == i,
                forall|j: int|
                    0 <= j < i ==> (#[trigger] outputs@[j].format) == self.config.formats@[j]
                        && outputs@[j].content@ == spec_format_single(
                        results.stats,
                        pages_view(results.results@),
                        results.results@.map_values(|p: PageResult| p.url@),
                        self.config.formats@[j],
                        self.config.max_links,
                    ),
            decreases self.config.formats@.len() - i,
        {
            let o = self.format_single(results, self.config.formats[i]);
            outputs.push(o);
            i = i + 1;
        }
        outputs
    }
}

} // verus!
