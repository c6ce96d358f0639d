//! HTML parsing: the title and the outgoing links of a fetched page. The
//! HTML5 tree construction itself is scraper's work; what it extracts from a
//! document is a pure function of the document text, so each extraction gets
//! a name. Resolving each href against the page URL is this crate's logic.
use vstd::prelude::*;

use crate::text::opt_str_view;
use crate::urls::{spec_url_join, url_join};

verus! {

/// The text content of the first `<title>` element of a document, if any:
/// what scraper's `Html::parse_document` and a `title` selector yield. A pure
/// function of the document text.
pub uninterp spec fn spec_title_text(html: Seq<char>) -> Option<Seq<char>>;

/// The `href` attribute values of the `a[href]` elements of a document, in
/// document order: a pure function of the document text.
pub uninterp spec fn spec_hrefs(html: Seq<char>) -> Seq<Seq<char>>;

/// Relies on `scraper::Html::parse_document` and `Selector::parse("title")`:
/// the selected text depends on the document alone.
#[verifier::external_body]
fn html_title(html: &str) -> (r: Option<String>)
    ensures
        opt_str_view(r) == spec_title_text(html@),
{
    let document = scraper::Html::parse_document(html);
    let title_selector = scraper::Selector::parse("title").unwrap();
    document.select(&title_selector).next().map(|el| el.text().collect::<String>())
}

/// Relies on `scraper::Html::parse_document` and `Selector::parse("a[href]")`:
/// the attribute values depend on the document alone.
#[verifier::external_body]
fn html_hrefs(html: &str) -> (r: Vec<String>)
    ensures
        r.deep_view() == spec_hrefs(html@),
{
    let document = scraper::Html::parse_document(html);
    let link_selector = scraper::Selector::parse("a[href]").unwrap();
    let mut hrefs = Vec::new();
    for element in document.select(&link_selector) {
        if let Some(href) = element.value().attr("href") {
            hrefs.push(href.to_string());
        }
    }
    hrefs
}

/// The hrefs of a document resolved against a base URL, in document order,
/// dropping those that fail to resolve.
pub open spec fn spec_resolved_links(base: Seq<char>, hrefs: Seq<Seq<char>>) -> Seq<Seq<char>>
    decreases hrefs.len(),
{
    if hrefs.len() == 0 {
        Seq::empty()
    } else {
        spec_resolved_links(base, hrefs.drop_last()) + (match spec_url_join(base, hrefs.last()) {
            Some(u) => seq![u],
            None => Seq::empty(),
        })
    }
}

/// The title a page result carries: the document's first title text, or the
/// literal `"No title"` when the document has none.
pub open spec fn spec_page_title(html: Seq<char>) -> Seq<char> {
    match spec_title_text(html) {
        Some(t) => t,
        None => "No title"@,
    }
}

/// Extracts titles and absolute links from fetched documents.
pub struct HtmlParser;

impl HtmlParser {
    pub fn new() -> (p: Self) {
        HtmlParser
    }

    /// The text of the document's first `<title>`, if it has one.
    pub fn parse_title_raw(&self, html: &str) -> (r: Option<String>)
        ensures
            opt_str_view(r) == spec_title_text(html@),
    {
        html_title(html)
    }

    /// The text of the document's first `<title>`, or `"No title"`.
    pub fn parse_title(&self, html: &str) -> (r: String)
        ensures
            r@ == spec_page_title(html@),
    {
        match html_title(html) {
            Some(t) => t,
            None => String::from_str("No title"),
        }
    }

    /// Every `<a href>` of the document resolved against `base_url`, in
    /// document order; hrefs that fail to resolve are dropped. No
    /// deduplication happens here.
    pub fn parse_links(&self, html: &str, base_url: &str) -> (r: Vec<String>)
        ensures
            r.deep_view() == spec_resolved_links(base_url@, spec_hrefs(html@)),
    {
        let hrefs = html_hrefs(html);
        let mut links: Vec<String> = Vec::new();
        let ghost hv = spec_hrefs(html@);
        let mut i: usize = 0;
        proof {
            assert(hv.take(0) =~= Seq::<Seq<char>>::empty());
        }
        while i < hrefs.len()
            invariant
                i <= hrefs.len(),
                hrefs.deep_view() == spec_hrefs(html@),
                hv == spec_hrefs(html@),
                hrefs.deep_view().len() == hrefs.len(),
                links.deep_view() == spec_resolved_links(base_url@, hv.take(i as int)),
            decreases hrefs.len() - i,
        {
            proof {
                assert(hv.take(i + 1).drop_last() =~= hv.take(i as int));
                assert(hv.take(i + 1).last() == hv[i as int]);
            }
            let ghost before = links.deep_view();
            match url_join(base_url, hrefs[i].as_str()) {
                Some(u) => {
                    links.push(u);
                    proof {
                        assert(links.deep_view() =~= before + seq![
                            spec_url_join(base_url@, hv[i as int]).unwrap(),
                        ]);
                    }
                },
                None => {},
            }
            i = i + 1;
        }
        proof {
            assert(hv.take(hrefs.len() as int) =~= hv);
        }
        links
    }
}

} // verus!
