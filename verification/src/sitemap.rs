//! Sitemap discovery: the candidate locations tried under a domain, the
//! extraction of `<loc>` entries from sitemap and sitemap-index documents,
//! and the dedup-and-truncate step that turns them into seeds. Fetching the
//! documents is the caller's; everything here is a pure function of the
//! document text, verified against the extraction spec below.
use vstd::prelude::*;

use crate::json::{spec_match_lit, match_lit, str_to_chars};
use crate::text::{clone_string, contains_str};

verus! {

/// The text up to the first `</loc>`, and the characters consumed including
/// the closing tag; nothing when the tag never closes.
pub open spec fn spec_loc_content(s: Seq<char>) -> Option<(Seq<char>, nat)>
    decreases s.len(),
{
    if spec_match_lit(s, "</loc>"@) {
        Some((Seq::empty(), "</loc>"@.len()))
    } else if s.len() == 0 {
        None
    } else {
        match spec_loc_content(s.skip(1)) {
            Some((c, u)) => Some((seq![s.first()] + c, u + 1)),
            None => None,
        }
    }
}

/// A closed `<loc>` body spans at least the closing tag and at most the
/// whole remaining text.
proof fn lemma_loc_content_len(s: Seq<char>)
    ensures
        spec_loc_content(s) matches Some((c, u)) ==> 6 <= u <= s.len(),
    decreases s.len(),
{
    reveal_strlit("</loc>");
    if spec_match_lit(s, "</loc>"@) {
    } else if s.len() == 0 {
    } else {
        lemma_loc_content_len(s.skip(1));
    }
}

/// Every `<loc>` entry of a document, in order: the text between each
/// `<loc>` and its `</loc>`.
pub open spec fn spec_locs(s: Seq<char>) -> Seq<Seq<char>>
    decreases s.len(),
    via spec_locs_dec
{
    if spec_match_lit(s, "<loc>"@) {
        match spec_loc_content(s.skip("<loc>"@.len() as int)) {
            Some((c, u)) => seq![c] + spec_locs(s.skip("<loc>"@.len() as int + u)),
            None => Seq::empty(),
        }
    } else if s.len() > 0 {
        spec_locs(s.skip(1))
    } else {
        Seq::empty()
    }
}

/// The extraction recursion always moves forward.
#[via_fn]
proof fn spec_locs_dec(s: Seq<char>) {
    reveal_strlit("<loc>");
    if spec_match_lit(s, "<loc>"@) {
        lemma_loc_content_len(s.skip("<loc>"@.len() as int));
    }
}

/// Whether the document holds a sitemap index root.
pub open spec fn spec_is_index(s: Seq<char>) -> bool {
    exists|i: int| 0 <= i <= s.len() && spec_match_lit(s.skip(i), "<sitemapindex"@)
}

/// Reads the text up to the first `</loc>` starting at `pos`; mirrors
/// `spec_loc_content`.
fn loc_content(cs: &Vec<char>, pos: usize) -> (r: Option<(String, usize)>)
    requires
        pos <= cs@.len(),
    ensures
        match spec_loc_content(cs@.skip(pos as int)) {
            Some((v, u)) => r matches Some((s, np)) && s@ == v && np == pos + u && np <= cs@.len(),
            None => r is None,
        },
    decreases cs@.len() - pos,
{
    let ghost tail = cs@.skip(pos as int);
    match match_lit(cs, pos, "</loc>") {
        Some(np) => Some((String::new(), np)),
        None => {
            if pos >= cs.len() {
                return None;
            }
            proof {
                assert(tail.first() == cs@[pos as int]);
                assert(tail.skip(1) =~= cs@.skip(pos + 1));
            }
            match loc_content(cs, pos + 1) {
                Some((s, np)) => {
                    let mut out = String::new();
                    out.push(cs[pos]);
                    out.append(s.as_str());
                    proof {
                        assert(out@ =~= seq![tail.first()] + s@);
                    }
                    Some((out, np))
                },
                None => None,
            }
        },
    }
}

/// Extracts every `<loc>` entry of a document, in order.
pub fn extract_locs(xml: &str) -> (r: Vec<String>)
    ensures
        r.deep_view() == spec_locs(xml@),
{
    let cs = str_to_chars(xml);
    proof {
        assert(cs@.skip(0) =~= cs@);
    }
    let r = locs_from(&cs, 0);
    r
}

/// Extracts the `<loc>` entries starting at `pos`; mirrors `spec_locs`.
fn locs_from(cs: &Vec<char>, pos: usize) -> (r: Vec<String>)
    requires
        pos <= cs@.len(),
    ensures
        r.deep_view() == spec_locs(cs@.skip(pos as int)),
    decreases cs@.len() - pos,
{
    let ghost tail = cs@.skip(pos as int);
    match match_lit(cs, pos, "<loc>") {
        Some(np) => {
            proof {
                assert(tail.skip("<loc>"@.len() as int) =~= cs@.skip(np as int));
            }
            match loc_content(cs, np) {
                Some((content, np2)) => {
                    proof {
                        assert(np2 > np) by {
                            reveal_strlit("</loc>");
                            if spec_match_lit(cs@.skip(np as int), "</loc>"@) {
                            }
                        }
                        assert(tail.skip(
                            "<loc>"@.len() as int + (np2 - np),
                        ) =~= cs@.skip(np2 as int));
                    }
                    let mut r = locs_from(cs, np2);
                    r.insert(0, content);
                    proof {
                        assert(r.deep_view() =~= seq![r@[0]@] + r.deep_view().skip(1));
                        assert(r.deep_view().skip(1) =~= spec_locs(cs@.skip(np2 as int)));
                    }
                    r
                },
                None => Vec::new(),
            }
        },
        None => {
            if pos >= cs.len() {
                let r: Vec<String> = Vec::new();
                proof {
                    assert(r.deep_view() =~= Seq::<Seq<char>>::empty());
                }
                r
            } else {
                proof {
                    assert(tail.skip(1) =~= cs@.skip(pos + 1));
                }
                locs_from(cs, pos + 1)
            }
        },
    }
}

/// Decides whether a document is a sitemap index.
pub fn is_sitemap_index(xml: &str) -> (r: bool)
    ensures
        r == spec_is_index(xml@),
{
    let cs = str_to_chars(xml);
    let mut i: usize = 0;
    while i < cs.len()
        invariant
            i <= cs@.len(),
            cs@ == xml@,
            forall|j: int| 0 <= j < i ==> !spec_match_lit(xml@.skip(j), "<sitemapindex"@),
        decreases cs@.len() - i,
    {
        match match_lit(&cs, i, "<sitemapindex") {
            Some(_) => {
                proof {
                    assert(spec_match_lit(xml@.skip(i as int), "<sitemapindex"@));
                }
                return true;
            },
            None => {},
        }
        i = i + 1;
    }
    proof {
        reveal_strlit("<sitemapindex");
        assert(xml@.skip(xml@.len() as int).len() == 0);
        assert(!spec_match_lit(xml@.skip(xml@.len() as int), "<sitemapindex"@));
        assert(forall|j: int|
            0 <= j <= xml@.len() ==> !spec_match_lit(xml@.skip(j), "<sitemapindex"@));
    }
    false
}

/// The first occurrences of a URL list, in order.
pub open spec fn spec_dedup(s: Seq<Seq<char>>) -> Seq<Seq<char>>
    decreases s.len(),
{
    if s.len() == 0 {
        Seq::empty()
    } else if spec_dedup(s.drop_last()).contains(s.last()) {
        spec_dedup(s.drop_last())
    } else {
        spec_dedup(s.drop_last()).push(s.last())
    }
}

/// What one sitemap document yields.
pub enum SitemapParse {
    /// A sitemap index: the locations of its sub-sitemaps, at most the
    /// sub-sitemap bound, to be fetched and parsed as flat sitemaps.
    Index { sub_sitemaps: Vec<String> },
    /// A flat sitemap: its page URLs.
    Urls { urls: Vec<String> },
}

/// Discovers and parses sitemap documents. Fetching is the caller's; the
/// parser classifies each body and extracts its locations.
pub struct SitemapParser {
    /// Per-request timeout in seconds, for the caller's fetches.
    pub timeout: u64,
    /// The cap on URLs taken from the sitemap tree.
    pub max_urls: usize,
}

impl SitemapParser {
    /// A parser with the given fetch timeout and URL cap.
    pub fn new(timeout: u64, max_urls: usize) -> (p: Self)
        ensures
            p.timeout == timeout,
            p.max_urls == max_urls,
    {
        SitemapParser { timeout, max_urls }
    }

    /// The sitemap locations tried under a domain, in order.
    pub fn candidate_urls(&self, domain: &str) -> (r: Vec<String>)
        ensures
            r.deep_view() =~= seq![
                "https://"@ + domain@ + "/sitemap.xml"@,
                "https://"@ + domain@ + "/sitemap_index.xml"@,
                "https://"@ + domain@ + "/wp-sitemap.xml"@,
            ],
    {
        let mut r: Vec<String> = Vec::new();
        let mut a = String::from_str("https://");
        a.append(domain);
        a.append("/sitemap.xml");
        r.push(a);
        let mut b = String::from_str("https://");
        b.append(domain);
        b.append("/sitemap_index.xml");
        r.push(b);
        let mut c = String::from_str("https://");
        c.append(domain);
        c.append("/wp-sitemap.xml");
        r.push(c);
        r
    }

    /// Classifies one fetched document: a sitemap index yields at most ten
    /// sub-sitemap locations to fetch in turn; anything else yields its
    /// `<loc>` entries as page URLs.
    pub fn parse_body(&self, xml: &str) -> (r: SitemapParse)
        ensures
            spec_is_index(xml@) ==> (r matches SitemapParse::Index { sub_sitemaps }
                && sub_sitemaps.deep_view() == spec_locs(xml@).take(
                if spec_locs(xml@).len() < 10 {
                    spec_locs(xml@).len() as int
                } else {
                    10
                },
            )),
            !spec_is_index(xml@) ==> (r matches SitemapParse::Urls { urls } && urls.deep_view()
                == spec_locs(xml@)),
    {
        let mut locs = extract_locs(xml);
        if is_sitemap_index(xml) {
            if locs.len() > 10 {
                locs.truncate(10);
            }
            proof {
                if spec_locs(xml@).len() >= 10 {
                    assert(locs.deep_view() =~= spec_locs(xml@).take(10));
                } else {
                    assert(locs.deep_view() =~= spec_locs(xml@).take(
                        spec_locs(xml@).len() as int,
                    ));
                }
            }
            SitemapParse::Index { sub_sitemaps: locs }
        } else {
            SitemapParse::Urls { urls: locs }
        }
    }

    /// Deduplicates collected URLs (keeping first occurrences, in order) and
    /// truncates to the configured cap.
    pub fn finalize(&self, urls: &Vec<String>) -> (r: Vec<String>)
        ensures
            r.deep_view() == spec_dedup(urls.deep_view()).take(
                if spec_dedup(urls.deep_view()).len() < self.max_urls {
                    spec_dedup(urls.deep_view()).len() as int
                } else {
                    self.max_urls as int
                },
            ),
            r@.len() <= self.max_urls,
    {
        let mut out: Vec<String> = Vec::new();
        let mut i: usize = 0;
        proof {
            assert(urls.deep_view().take(0) =~= Seq::<Seq<char>>::empty());
            assert(out.deep_view() =~= spec_dedup(urls.deep_view().take(0)));
        }
        while i < urls.len()
            invariant
                i <= urls.len(),
                urls.deep_view().len() == urls@.len(),
                out.deep_view() == spec_dedup(urls.deep_view().take(i as int)),
            decreases urls.len() - i,
        {
            proof {
                assert(urls.deep_view().take(i + 1).drop_last() =~= urls.deep_view().take(
                    i as int,
                ));
                assert(urls.deep_view().take(i + 1).last() == urls.deep_view()[i as int]);
            }
            let seen = contains_str(&out, urls[i].as_str());
            if !seen {
                let ghost before = out.deep_view();
                out.push(clone_string(&urls[i]));
                proof {
                    assert(out.deep_view() =~= before.push(urls.deep_view()[i as int]));
                }
            }
            i = i + 1;
        }
        proof {
            assert(urls.deep_view().take(urls@.len() as int) =~= urls.deep_view());
        }
        if out.len() > self.max_urls {
            out.truncate(self.max_urls);
            proof {
                assert(out.deep_view() =~= spec_dedup(urls.deep_view()).take(
                    self.max_urls as int,
                ));
            }
        } else {
            proof {
                assert(out.deep_view() =~= spec_dedup(urls.deep_view()).take(
                    spec_dedup(urls.deep_view()).len() as int,
                ));
            }
        }
        out
    }
}

} // verus!
