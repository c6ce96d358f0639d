//! Content filtering: removal rules for navigation, ads and scripts, the
//! selector list they translate to, and size statistics for a filtering
//! pass. Re-serializing a parsed document is scraper's work; the rules and
//! the bookkeeping around it are verified.
use vstd::prelude::*;

use crate::text::clone_string;

verus! {

/// The re-serialization of a parsed document: what scraper's
/// `Html::parse_document` followed by `Html::html` yields. A pure function
/// of the document text.
pub uninterp spec fn spec_normalized_html(html: Seq<char>) -> Seq<char>;

/// Relies on `scraper::Html::parse_document` and `Html::html`: the
/// re-serialized document depends on the input text alone.
#[verifier::external_body]
fn normalize_html(html: &str) -> (r: String)
    ensures
        r@ == spec_normalized_html(html@),
{
    scraper::Html::parse_document(html).html()
}

/// Which elements a filtering pass removes.
#[derive(Debug, Clone)]
pub struct ContentFilterConfig {
    /// Remove navigation elements.
    pub remove_nav: bool,
    /// Remove footer elements.
    pub remove_footer: bool,
    /// Remove sidebar elements.
    pub remove_sidebar: bool,
    /// Remove advertisement elements.
    pub remove_ads: bool,
    /// Remove script and style elements.
    pub remove_scripts_styles: bool,
    /// Remove comments.
    pub remove_comments: bool,
    /// Remove elements with these IDs.
    pub blacklist_ids: Vec<String>,
    /// Remove elements with these classes.
    pub blacklist_classes: Vec<String>,
    /// Remove these elements by tag name.
    pub blacklist_tags: Vec<String>,
    /// Keep only these elements (empty: no whitelist).
    pub whitelist_tags: Vec<String>,
}

impl Default for ContentFilterConfig {
    /// Everything on, with the stock ID, class and tag lists.
    fn default() -> (c: Self)
        ensures
            c.remove_nav && c.remove_footer && c.remove_sidebar && c.remove_ads
                && c.remove_scripts_styles && c.remove_comments,
            c.blacklist_ids@.len() == 10,
            c.blacklist_classes@.len() == 15,
            c.blacklist_tags@.len() == 4,
            c.whitelist_tags@.len() == 0,
    {
        let mut blacklist_ids: Vec<String> = Vec::new();
        blacklist_ids.push(String::from_str("header"));
        blacklist_ids.push(String::from_str("footer"));
        blacklist_ids.push(String::from_str("nav"));
        blacklist_ids.push(String::from_str("sidebar"));
        blacklist_ids.push(String::from_str("menu"));
        blacklist_ids.push(String::from_str("navigation"));
        blacklist_ids.push(String::from_str("advertisement"));
        blacklist_ids.push(String::from_str("ads"));
        blacklist_ids.push(String::from_str("cookie-banner"));
        blacklist_ids.push(String::from_str("social-share"));
        let mut blacklist_classes: Vec<String> = Vec::new();
        blacklist_classes.push(String::from_str("header"));
        blacklist_classes.push(String::from_str("footer"));
        blacklist_classes.push(String::from_str("nav"));
        blacklist_classes.push(String::from_str("navigation"));
        blacklist_classes.push(String::from_str("sidebar"));
        blacklist_classes.push(String::from_str("aside"));
        blacklist_classes.push(String::from_str("menu"));
        blacklist_classes.push(String::from_str("ad"));
        blacklist_classes.push(String::from_str("ads"));
        blacklist_classes.push(String::from_str("advertisement"));
        blacklist_classes.push(String::from_str("social"));
        blacklist_classes.push(String::from_str("share"));
        blacklist_classes.push(String::from_str("cookie"));
        blacklist_classes.push(String::from_str("popup"));
        blacklist_classes.push(String::from_str("modal"));
        let mut blacklist_tags: Vec<String> = Vec::new();
        blacklist_tags.push(String::from_str("script"));
        blacklist_tags.push(String::from_str("style"));
        blacklist_tags.push(String::from_str("noscript"));
        blacklist_tags.push(String::from_str("iframe"));
        ContentFilterConfig {
            remove_nav: true,
            remove_footer: true,
            remove_sidebar: true,
            remove_ads: true,
            remove_scripts_styles: true,
            remove_comments: true,
            blacklist_ids,
            blacklist_classes,
            blacklist_tags,
            whitelist_tags: Vec::new(),
        }
    }
}

/// Size bookkeeping for one filtering pass. The reduction is kept in
/// thousandths of the original size (integer arithmetic; a fraction of a
/// percent is below this report's resolution).
#[derive(Debug, Clone)]
pub struct FilterStats {
    /// Elements removed.
    pub elements_removed: usize,
    /// Original size in bytes.
    pub original_size: usize,
    /// Filtered size in bytes.
    pub filtered_size: usize,
    /// Size reduction, in thousandths of the original (zero when the
    /// filtered text grew or the original was empty).
    pub reduction_permille: u64,
}

impl FilterStats {
    /// Statistics for one pass: the reduction is the share of the original
    /// that was removed, in thousandths.
    pub fn new(original_size: usize, filtered_size: usize, elements_removed: usize) -> (s: Self)
        ensures
            s.original_size == original_size,
            s.filtered_size == filtered_size,
            s.elements_removed == elements_removed,
            s.reduction_permille == (if original_size > 0 && filtered_size <= original_size {
                ((original_size - filtered_size) * 1000 / original_size as int) as u64
            } else {
                0u64
            }),
    {
        let reduction_permille: u64 = if original_size > 0 && filtered_size <= original_size {
            let removed = (original_size - filtered_size) as u128;
            ((removed * 1000) / (original_size as u128)) as u64
        } else {
            0
        };
        proof {
            if original_size > 0 && filtered_size <= original_size {
                assert((original_size - filtered_size) * 1000 / original_size as int <= 1000)
                    by (nonlinear_arith)
                    requires
                        original_size > 0,
                        0 <= filtered_size <= original_size,
                ;
            }
        }
        FilterStats { elements_removed, original_size, filtered_size, reduction_permille }
    }
}

/// The selector list a configuration translates to, in the order the rules
/// are applied: semantic elements first, then IDs, classes and tags.
pub open spec fn spec_removal_selectors(
    remove_nav: bool,
    remove_footer: bool,
    remove_sidebar: bool,
    remove_scripts_styles: bool,
    ids: Seq<Seq<char>>,
    classes: Seq<Seq<char>>,
    tags: Seq<Seq<char>>,
) -> Seq<Seq<char>> {
    (if remove_nav {
        seq!["nav"@, "[role='navigation']"@]
    } else {
        Seq::empty()
    }) + (if remove_footer {
        seq!["footer"@]
    } else {
        Seq::empty()
    }) + (if remove_sidebar {
        seq!["aside"@]
    } else {
        Seq::empty()
    }) + (if remove_scripts_styles {
        seq!["script"@, "style"@, "noscript"@]
    } else {
        Seq::empty()
    }) + ids.map_values(|i: Seq<char>| "#"@ + i) + classes.map_values(|c: Seq<char>| "."@ + c)
        + tags
}

/// Filters page content by the configured rules.
pub struct DefaultContentFilterService {
    /// The rules in effect.
    pub config: ContentFilterConfig,
}

impl DefaultContentFilterService {
    /// A service with the stock rules.
    pub fn new() -> (s: Self)
        ensures
            s.config.remove_nav && s.config.remove_scripts_styles,
    {
        DefaultContentFilterService { config: ContentFilterConfig::default() }
    }

    /// A service with the given rules.
    pub fn with_config(config: ContentFilterConfig) -> (s: Self)
        ensures
            s.config == config,
    {
        DefaultContentFilterService { config }
    }

    /// The selectors the given rules remove, in application order.
    pub fn build_removal_selectors(&self, config: &ContentFilterConfig) -> (r: Vec<String>)
        ensures
            r.deep_view() == spec_removal_selectors(
                config.remove_nav,
                config.remove_footer,
                config.remove_sidebar,
                config.remove_scripts_styles,
                config.blacklist_ids.deep_view(),
                config.blacklist_classes.deep_view(),
                config.blacklist_tags.deep_view(),
            ),
    {
        let mut selectors: Vec<String> = Vec::new();
        if config.remove_nav {
            selectors.push(String::from_str("nav"));
            selectors.push(String::from_str("[role='navigation']"));
        }
        if config.remove_footer {
            selectors.push(String::from_str("footer"));
        }
        if config.remove_sidebar {
            selectors.push(String::from_str("aside"));
        }
        if config.remove_scripts_styles {
            selectors.push(String::from_str("script"));
            selectors.push(String::from_str("style"));
            selectors.push(String::from_str("noscript"));
        }
        let ghost head = selectors.deep_view();
        let ghost idsv = config.blacklist_ids.deep_view();
        let mut i: usize = 0;
        proof {
            assert(head =~= (if config.remove_nav {
                seq!["nav"@, "[role='navigation']"@]
            } else {
                Seq::<Seq<char>>::empty()
            }) + (if config.remove_footer {
                seq!["footer"@]
            } else {
                Seq::<Seq<char>>::empty()
            }) + (if config.remove_sidebar {
                seq!["aside"@]
            } else {
                Seq::<Seq<char>>::empty()
            }) + (if config.remove_scripts_styles {
                seq!["script"@, "style"@, "noscript"@]
            } else {
                Seq::<Seq<char>>::empty()
            }));
        }
        while i < config.blacklist_ids.len()
            invariant
                i <= config.blacklist_ids@.len(),
                idsv == config.blacklist_ids.deep_view(),
                idsv.len() == config.blacklist_ids@.len(),
                selectors.deep_view() =~= head + idsv.take(i as int).map_values(
                    |x: Seq<char>| "#"@ + x,
                ),
            decreases config.blacklist_ids@.len() - i,
        {
            let mut s = String::from_str("#");
            s.append(config.blacklist_ids[i].as_str());
            let ghost gs = s@;
            let ghost before = selectors.deep_view();
            selectors.push(s);
            proof {
                assert(gs == "#"@ + idsv[i as int]);
                assert(selectors.deep_view() =~= before.push(gs));
                assert(idsv.take(i + 1).map_values(|x: Seq<char>| "#"@ + x) =~= idsv.take(
                    i as int,
                ).map_values(|x: Seq<char>| "#"@ + x).push("#"@ + idsv[i as int]));
                assert(selectors.deep_view() =~= head + idsv.take(i + 1).map_values(
                    |x: Seq<char>| "#"@ + x,
                ));
            }
            i = i + 1;
        }
        proof {
            assert(idsv.take(idsv.len() as int) =~= idsv);
        }
        let ghost head2 = selectors.deep_view();
        let ghost clsv = config.blacklist_classes.deep_view();
        let mut i: usize = 0;
        while i < config.blacklist_classes.len()
            invariant
                i <= config.blacklist_classes@.len(),
                clsv == config.blacklist_classes.deep_view(),
                clsv.len() == config.blacklist_classes@.len(),
                head2 == head + config.blacklist_ids.deep_view().map_values(
                    |x: Seq<char>| "#"@ + x,
                ),
                selectors.deep_view() =~= head2 + clsv.take(i as int).map_values(
                    |x: Seq<char>| "."@ + x,
                ),
            decreases config.blacklist_classes@.len() - i,
        {
            let mut s = String::from_str(".");
            s.append(config.blacklist_classes[i].as_str());
            let ghost gs = s@;
            let ghost before = selectors.deep_view();
            selectors.push(s);
            proof {
                assert(gs == "."@ + clsv[i as int]);
                assert(selectors.deep_view() =~= before.push(gs));
                assert(clsv.take(i + 1).map_values(|x: Seq<char>| "."@ + x) =~= clsv.take(
                    i as int,
                ).map_values(|x: Seq<char>| "."@ + x).push("."@ + clsv[i as int]));
                assert(selectors.deep_view() =~= head2 + clsv.take(i + 1).map_values(
                    |x: Seq<char>| "."@ + x,
                ));
            }
            i = i + 1;
        }
        proof {
            assert(clsv.take(clsv.len() as int) =~= clsv);
        }
        let ghost head3 = selectors.deep_view();
        let ghost tagv = config.blacklist_tags.deep_view();
        let mut i: usize = 0;
        while i < config.blacklist_tags.len()
            invariant
                i <= config.blacklist_tags@.len(),
                tagv == config.blacklist_tags.deep_view(),
                tagv.len() == config.blacklist_tags@.len(),
                head3 == head2 + config.blacklist_classes.deep_view().map_values(
                    |x: Seq<char>| "."@ + x,
                ),
                head2 == head + config.blacklist_ids.deep_view().map_values(
                    |x: Seq<char>| "#"@ + x,
                ),
                selectors.deep_view() =~= head3 + tagv.take(i as int),
            decreases config.blacklist_tags@.len() - i,
        {
            let t = clone_string(&config.blacklist_tags[i]);
            let ghost gs = t@;
            let ghost before = selectors.deep_view();
            selectors.push(t);
            proof {
                assert(gs == tagv[i as int]);
                assert(selectors.deep_view() =~= before.push(gs));
                assert(tagv.take(i + 1) =~= tagv.take(i as int).push(tagv[i as int]));
                assert(selectors.deep_view() =~= head3 + tagv.take(i + 1));
            }
            i = i + 1;
        }
        proof {
            assert(tagv.take(tagv.len() as int) =~= tagv);
            assert(selectors.deep_view() =~= spec_removal_selectors(
                config.remove_nav,
                config.remove_footer,
                config.remove_sidebar,
                config.remove_scripts_styles,
                config.blacklist_ids.deep_view(),
                config.blacklist_classes.deep_view(),
                config.blacklist_tags.deep_view(),
            ));
        }
        selectors
    }

    /// Filters a document under the stock rules: the document re-serialized
    /// by the HTML parser, with size statistics. (As in the original, no
    /// element is removed yet: the pass normalizes the document and
    /// measures it.)
    pub fn filter(&self, html: &str) -> (r: (String, FilterStats))
        ensures
            r.0@ == spec_normalized_html(html@),
            r.1.elements_removed == 0,
            r.1.original_size == html@.len(),
    {
        self.filter_with_config(html, &self.config)
    }

    /// Filters a document under the given rules; see `filter`.
    pub fn filter_with_config(&self, html: &str, config: &ContentFilterConfig) -> (r: (
        String,
        FilterStats,
    ))
        ensures
            r.0@ == spec_normalized_html(html@),
            r.1.elements_removed == 0,
            r.1.original_size == html@.len(),
    {
        let original_size = html.unicode_len();
        let filtered = normalize_html(html);
        let filtered_size = filtered.as_str().unicode_len();
        let stats = FilterStats::new(original_size, filtered_size, 0);
        (filtered, stats)
    }
}

} // verus!
