//! Markdown conversion: turns fetched HTML into Markdown ready for language
//! models. The HTML-to-Markdown translation itself is html2md's work and a
//! pure function of the document, so it gets a name; the metadata
//! extraction, YAML escaping, whitespace clean-up, front matter and word
//! count around it are verified exactly.
use vstd::prelude::*;

use crate::clock::{now_millis, rfc3339_of, spec_rfc3339};
use crate::html::spec_title_text;
use crate::text::opt_str_view;
use crate::urls::{spec_url_domain, url_domain};

verus! {

/// The Markdown translation of a document: what `html2md::parse_html`
/// yields. A pure function of the document text.
pub uninterp spec fn spec_markdown_of(html: Seq<char>) -> Seq<char>;

/// Relies on `html2md::parse_html`: the translation depends on the document
/// text alone.
#[verifier::external_body]
fn markdown_of(html: &str) -> (r: String)
    ensures
        r@ == spec_markdown_of(html@),
{
    html2md::parse_html(html)
}

/// The content of a document's description meta element, if any: what
/// scraper's `Html::parse_document` and a `meta[name='description']`
/// selector yield. A pure function of the document text.
pub uninterp spec fn spec_meta_description(html: Seq<char>) -> Option<Seq<char>>;

/// Relies on `scraper::Html::parse_document` and
/// `Selector::parse("meta[name='description']")`: the attribute value
/// depends on the document alone.
#[verifier::external_body]
fn meta_description(html: &str) -> (r: Option<String>)
    ensures
        opt_str_view(r) == spec_meta_description(html@),
{
    let document = scraper::Html::parse_document(html);
    let selector = scraper::Selector::parse("meta[name='description']").unwrap();
    document.select(&selector).next().and_then(|el| el.value().attr("content")).map(
        |s| s.to_string(),
    )
}

/// ASCII whitespace, as this module trims it.
pub open spec fn is_ws(c: char) -> bool {
    c == ' ' || c == '\t' || c == '\n' || c == '\r' || c == '\u{b}' || c == '\u{c}'
}

/// Decides ASCII whitespace.
fn is_ws_exec(c: char) -> (r: bool)
    ensures
        r == is_ws(c),
{
    c == ' ' || c == '\t' || c == '\n' || c == '\r' || c == '\u{b}' || c == '\u{c}'
}

/// The text without leading whitespace.
pub open spec fn spec_trim_start(s: Seq<char>) -> Seq<char>
    decreases s.len(),
{
    if s.len() > 0 && is_ws(s.first()) {
        spec_trim_start(s.drop_first())
    } else {
        s
    }
}

/// The text without trailing whitespace.
pub open spec fn spec_trim_end(s: Seq<char>) -> Seq<char>
    decreases s.len(),
{
    if s.len() > 0 && is_ws(s.last()) {
        spec_trim_end(s.drop_last())
    } else {
        s
    }
}

/// The text without leading and trailing whitespace.
pub open spec fn spec_trim(s: Seq<char>) -> Seq<char> {
    spec_trim_end(spec_trim_start(s))
}

/// Dropping a whitespace prefix reaches the start-trimmed text.
proof fn lemma_trim_start_at(s: Seq<char>, a: int)
    requires
        0 <= a <= s.len(),
        forall|k: int| 0 <= k < a ==> is_ws(#[trigger] s[k]),
        a == s.len() || !is_ws(s[a]),
    ensures
        spec_trim_start(s) == s.skip(a),
    decreases a,
{
    if a == 0 {
        assert(s.skip(0) =~= s);
    } else {
        assert(is_ws(s.first()));
        let t = s.drop_first();
        assert(forall|k: int| 0 <= k < a - 1 ==> t[k] == s[k + 1]);
        lemma_trim_start_at(t, a - 1);
        assert(t.skip(a - 1) =~= s.skip(a));
    }
}

/// Dropping a whitespace suffix reaches the end-trimmed text.
proof fn lemma_trim_end_at(s: Seq<char>, b: int)
    requires
        0 <= b <= s.len(),
        forall|k: int| b <= k < s.len() ==> is_ws(#[trigger] s[k]),
        b == 0 || !is_ws(s[b - 1]),
    ensures
        spec_trim_end(s) == s.take(b),
    decreases s.len() - b,
{
    if b == s.len() {
        assert(s.take(b) =~= s);
    } else {
        assert(is_ws(s.last()));
        let t = s.drop_last();
        lemma_trim_end_at(t, b);
        assert(t.take(b) =~= s.take(b));
    }
}

/// Trims ASCII whitespace from both ends.
pub fn trim(s: &str) -> (r: String)
    ensures
        r@ == spec_trim(s@),
{
    let n = s.unicode_len();
    let mut a: usize = 0;
    while a < n && is_ws_exec(s.get_char(a))
        invariant
            a <= n,
            n == s@.len(),
            forall|k: int| 0 <= k < a ==> is_ws(#[trigger] s@[k]),
        decreases n - a,
    {
        a = a + 1;
    }
    proof {
        lemma_trim_start_at(s@, a as int);
    }
    let mut b: usize = n;
    while b > a && is_ws_exec(s.get_char(b - 1))
        invariant
            a <= b <= n,
            n == s@.len(),
            forall|k: int| b <= k < n ==> is_ws(#[trigger] s@[k]),
        decreases b,
    {
        b = b - 1;
    }
    let mid = s.substring_char(a, b);
    proof {
        let t = s@.skip(a as int);
        assert(forall|k: int| b - a <= k < t.len() ==> t[k] == s@[k + a]);
        if b == a {
            lemma_trim_end_at(t, 0);
        } else {
            assert(!is_ws(t[b - a - 1]));
            lemma_trim_end_at(t, b - a);
        }
        assert(t.take(b - a) =~= s@.subrange(a as int, b as int));
    }
    String::from_str(mid)
}

/// The YAML escape of a text: double quotes get a backslash, newlines
/// become spaces.
pub open spec fn spec_escape_yaml(s: Seq<char>) -> Seq<char>
    decreases s.len(),
{
    if s.len() == 0 {
        Seq::empty()
    } else {
        spec_escape_yaml(s.drop_last()) + (if s.last() == '"' {
            seq!['\\', '"']
        } else if s.last() == '\n' {
            seq![' ']
        } else {
            seq![s.last()]
        })
    }
}

/// Escapes a text for a double-quoted YAML value.
pub fn escape_yaml(s: &str) -> (r: String)
    ensures
        r@ == spec_escape_yaml(s@),
{
    let n = s.unicode_len();
    let mut r = String::new();
    let mut i: usize = 0;
    proof {
        assert(spec_escape_yaml(s@.take(0)) =~= Seq::<char>::empty());
    }
    while i < n
        invariant
            i <= n,
            n == s@.len(),
            r@ == spec_escape_yaml(s@.take(i as int)),
        decreases n - i,
    {
        let c = s.get_char(i);
        if c == '"' {
            r.append("\\\"");
        } else if c == '\n' {
            r.append(" ");
        } else {
            r.push(c);
        }
        proof {
            assert(s@.take(i + 1).drop_last() =~= s@.take(i as int));
            assert(s@.take(i + 1).last() == s@[i as int]);
            reveal_strlit("\\\"");
            reveal_strlit(" ");
            if s@[i as int] == '"' {
                assert(r@ =~= spec_escape_yaml(s@.take(i as int)) + seq!['\\', '"']);
            } else if s@[i as int] == '\n' {
                assert(r@ =~= spec_escape_yaml(s@.take(i as int)) + seq![' ']);
            } else {
                assert(r@ =~= spec_escape_yaml(s@.take(i as int)) + seq![s@[i as int]]);
            }
        }
        i = i + 1;
    }
    proof {
        assert(s@.take(n as int) =~= s@);
    }
    r
}

/// The collapse of blank runs: any run of three or more newlines becomes
/// two. `run` counts the newlines just written.
pub open spec fn spec_collapse(s: Seq<char>, run: nat) -> Seq<char>
    decreases s.len(),
{
    if s.len() == 0 {
        Seq::empty()
    } else if s.first() == '\n' {
        if run >= 2 {
            spec_collapse(s.drop_first(), run)
        } else {
            seq!['\n'] + spec_collapse(s.drop_first(), run + 1)
        }
    } else {
        seq![s.first()] + spec_collapse(s.drop_first(), 0)
    }
}

/// The text with every line's trailing whitespace removed: whitespace
/// standing before a newline or the end is dropped. `pending` holds
/// whitespace not yet known to be line-trailing.
pub open spec fn spec_trim_line_ends(s: Seq<char>, pending: Seq<char>) -> Seq<char>
    decreases s.len(),
{
    if s.len() == 0 {
        Seq::empty()
    } else if s.first() == '\n' {
        seq!['\n'] + spec_trim_line_ends(s.drop_first(), Seq::empty())
    } else if is_ws(s.first()) {
        spec_trim_line_ends(s.drop_first(), pending.push(s.first()))
    } else {
        pending + seq![s.first()] + spec_trim_line_ends(s.drop_first(), Seq::empty())
    }
}

/// Collapses blank runs, starting at `pos` with `run` newlines written.
fn collapse_from(cs: &Vec<char>, pos: usize, run: u8) -> (r: String)
    requires
        pos <= cs@.len(),
    ensures
        r@ == spec_collapse(cs@.skip(pos as int), run as nat),
    decreases cs@.len() - pos,
{
    let ghost tail = cs@.skip(pos as int);
    if pos >= cs.len() {
        return String::new();
    }
    proof {
        assert(tail.first() == cs@[pos as int]);
        assert(tail.drop_first() =~= cs@.skip(pos + 1));
    }
    let c = cs[pos];
    if c == '\n' {
        if run >= 2 {
            collapse_from(cs, pos + 1, run)
        } else {
            let rest = collapse_from(cs, pos + 1, run + 1);
            let mut out = String::from_str("\n");
            out.append(rest.as_str());
            proof {
                reveal_strlit("\n");
                assert(out@ =~= seq!['\n'] + rest@);
            }
            out
        }
    } else {
        let rest = collapse_from(cs, pos + 1, 0);
        let mut out = String::new();
        out.push(c);
        out.append(rest.as_str());
        proof {
            assert(out@ =~= seq![tail.first()] + rest@);
        }
        out
    }
}

/// Trims line-trailing whitespace, starting at `pos` with `pending`
/// whitespace buffered.
fn trim_line_ends_from(cs: &Vec<char>, pos: usize, pending: String) -> (r: String)
    requires
        pos <= cs@.len(),
    ensures
        r@ == spec_trim_line_ends(cs@.skip(pos as int), pending@),
    decreases cs@.len() - pos,
{
    let ghost tail = cs@.skip(pos as int);
    if pos >= cs.len() {
        return String::new();
    }
    proof {
        assert(tail.first() == cs@[pos as int]);
        assert(tail.drop_first() =~= cs@.skip(pos + 1));
    }
    let c = cs[pos];
    if c == '\n' {
        let rest = trim_line_ends_from(cs, pos + 1, String::new());
        let mut out = String::from_str("\n");
        out.append(rest.as_str());
        proof {
            reveal_strlit("\n");
            assert(out@ =~= seq!['\n'] + rest@);
        }
        out
    } else if is_ws_exec(c) {
        let mut p = pending;
        p.push(c);
        trim_line_ends_from(cs, pos + 1, p)
    } else {
        let rest = trim_line_ends_from(cs, pos + 1, String::new());
        let mut out = pending;
        out.push(c);
        out.append(rest.as_str());
        proof {
            assert(out@ =~= old_pending_view(out@, rest@, tail.first()) + seq![tail.first()]
                + rest@);
        }
        out
    }
}

/// The buffered whitespace a flushed run started from.
pub open spec fn old_pending_view(outv: Seq<char>, restv: Seq<char>, c: char) -> Seq<char> {
    outv.take(outv.len() - restv.len() - 1)
}

/// The Markdown clean-up: blank runs collapsed, line-trailing whitespace
/// removed, and, when asked, a source note naming the page's domain (or
/// `unknown`).
pub open spec fn spec_optimize(
    md: Seq<char>,
    url: Seq<char>,
    include_source: bool,
) -> Seq<char> {
    spec_trim_line_ends(spec_collapse(md, 0), Seq::empty()) + (if include_source {
        "\n\n---\n*Source: "@ + (match spec_url_domain(url) {
            Some(d) => d,
            None => "unknown"@,
        }) + "*\n"@
    } else {
        Seq::empty()
    })
}

/// Cleans converted Markdown up for language models.
pub fn optimize_for_llm(md: &str, url: &str, include_source: bool) -> (r: String)
    ensures
        r@ == spec_optimize(md@, url@, include_source),
{
    let cs = crate::json::str_to_chars(md);
    proof {
        assert(cs@.skip(0) =~= cs@);
    }
    let collapsed = collapse_from(&cs, 0, 0);
    let cs2 = crate::json::str_to_chars(collapsed.as_str());
    proof {
        assert(cs2@.skip(0) =~= cs2@);
    }
    let mut out = trim_line_ends_from(&cs2, 0, String::new());
    if include_source {
        out.append("\n\n---\n*Source: ");
        match url_domain(url) {
            Some(d) => out.append(d.as_str()),
            None => out.append("unknown"),
        }
        out.append("*\n");
        proof {
            assert(out@ =~= spec_optimize(md@, url@, include_source));
        }
    } else {
        proof {
            assert(out@ =~= spec_optimize(md@, url@, include_source));
        }
    }
    out
}

/// The number of whitespace-separated words.
pub open spec fn spec_word_count(s: Seq<char>, in_word: bool) -> nat
    decreases s.len(),
{
    if s.len() == 0 {
        0nat
    } else if is_ws(s.first()) {
        spec_word_count(s.drop_first(), false)
    } else {
        (if in_word {
            0nat
        } else {
            1nat
        }) + spec_word_count(s.drop_first(), true)
    }
}

/// Counts whitespace-separated words.
pub fn count_words(text: &str) -> (r: usize)
    ensures
        r == spec_word_count(text@, false),
{
    let n = text.unicode_len();
    let mut count: usize = 0;
    let mut in_word = false;
    let mut i: usize = 0;
    proof {
        assert(text@.skip(0) =~= text@);
    }
    while i < n
        invariant
            i <= n,
            n == text@.len(),
            count + spec_word_count(text@.skip(i as int), in_word) == spec_word_count(
                text@,
                false,
            ),
            count <= i,
        decreases n - i,
    {
        let c = text.get_char(i);
        proof {
            assert(text@.skip(i as int).first() == text@[i as int]);
            assert(text@.skip(i as int).drop_first() =~= text@.skip(i + 1));
        }
        if is_ws_exec(c) {
            in_word = false;
        } else {
            if !in_word {
                count = count + 1;
            }
            in_word = true;
        }
        i = i + 1;
    }
    proof {
        assert(text@.skip(n as int) =~= Seq::<char>::empty());
    }
    count
}

/// Markdown conversion options.
#[derive(Debug, Clone)]
pub struct MarkdownConfig {
    /// Add front matter with metadata.
    pub include_frontmatter: bool,
    /// Add the source domain at the end.
    pub include_source_url: bool,
    /// Keep code blocks (html2md preserves them; kept for configuration
    /// fidelity).
    pub preserve_code_blocks: bool,
    /// Maximum line length (zero: no limit).
    pub max_line_length: usize,
}

impl Default for MarkdownConfig {
    /// Front matter, source note and code blocks on; no line limit.
    fn default() -> (c: Self)
        ensures
            c.include_frontmatter,
            c.include_source_url,
            c.preserve_code_blocks,
            c.max_line_length == 0,
    {
        MarkdownConfig {
            include_frontmatter: true,
            include_source_url: true,
            preserve_code_blocks: true,
            max_line_length: 0,
        }
    }
}

/// Converted Markdown with its metadata.
#[derive(Debug, Clone)]
pub struct MarkdownOutput {
    /// The converted content.
    pub content: String,
    /// The page title, trimmed, if the document has one.
    pub title: Option<String>,
    /// The description meta value, if the document has one.
    pub description: Option<String>,
    /// Words in the content.
    pub word_count: usize,
}

/// The front matter for a page: title and description when known, the
/// source URL, and the crawl time in RFC 3339.
pub open spec fn spec_frontmatter(
    url: Seq<char>,
    title: Option<Seq<char>>,
    description: Option<Seq<char>>,
    now_ms: int,
) -> Seq<char> {
    "---\n"@ + (match title {
        Some(t) => "title: \""@ + spec_escape_yaml(t) + "\"\n"@,
        None => Seq::<char>::empty(),
    }) + (match description {
        Some(d) => "description: \""@ + spec_escape_yaml(d) + "\"\n"@,
        None => Seq::<char>::empty(),
    }) + "source: \""@ + url + "\"\n"@ + "crawled_at: \""@ + spec_rfc3339(now_ms) + "\"\n"@
        + "---\n\n"@
}

/// The title a document's metadata yields: its first title text, trimmed.
pub open spec fn spec_doc_title(html: Seq<char>) -> Option<Seq<char>> {
    match spec_title_text(html) {
        Some(t) => Some(spec_trim(t)),
        None => None,
    }
}

/// The whole conversion of one document, at a given time.
pub open spec fn spec_convert_content(
    html: Seq<char>,
    url: Seq<char>,
    include_frontmatter: bool,
    include_source: bool,
    now_ms: int,
) -> Seq<char> {
    (if include_frontmatter {
        spec_frontmatter(url, spec_doc_title(html), spec_meta_description(html), now_ms)
    } else {
        Seq::<char>::empty()
    }) + spec_optimize(spec_markdown_of(html), url, include_source)
}

/// Converts HTML to Markdown.
pub trait MarkdownService: Sized {
    /// Converts with the service's own configuration.
    fn convert(&self, html: &str, url: &str) -> (r: Result<MarkdownOutput, String>)
        ensures
            r matches Ok(o) && exists|t: int|
                o.content@ == #[trigger] spec_convert_content(
                    html@,
                    url@,
                    self.spec_include_frontmatter(),
                    self.spec_include_source(),
                    t,
                ) && opt_str_view(o.title) == spec_doc_title(html@) && opt_str_view(o.description)
                == spec_meta_description(html@) && o.word_count == spec_word_count(
                o.content@,
                false,
            ),
    ;

    /// Converts with the given configuration.
    fn convert_with_config(&self, html: &str, url: &str, config: &MarkdownConfig) -> (r: Result<
        MarkdownOutput,
        String,
    >)
        ensures
            r matches Ok(o) && exists|t: int|
                o.content@ == #[trigger] spec_convert_content(
                    html@,
                    url@,
                    config.include_frontmatter,
                    config.include_source_url,
                    t,
                ) && opt_str_view(o.title) == spec_doc_title(html@) && opt_str_view(o.description)
                == spec_meta_description(html@) && o.word_count == spec_word_count(
                o.content@,
                false,
            ),
    ;

    /// Whether this service adds front matter.
    spec fn spec_include_frontmatter(&self) -> bool;

    /// Whether this service adds the source note.
    spec fn spec_include_source(&self) -> bool;
}

/// The stock Markdown conversion.
pub struct DefaultMarkdownService {
    /// The options in effect.
    pub config: MarkdownConfig,
}

impl DefaultMarkdownService {
    /// A service with the stock options.
    pub fn new() -> (s: Self)
        ensures
            s.config.include_frontmatter,
            s.config.include_source_url,
    {
        DefaultMarkdownService { config: MarkdownConfig::default() }
    }

    /// A service with the given options.
    pub fn with_config(config: MarkdownConfig) -> (s: Self)
        ensures
            s.config == config,
    {
        DefaultMarkdownService { config }
    }

    /// The document's trimmed title and description meta value.
    pub fn extract_metadata(&self, html: &str) -> (r: (Option<String>, Option<String>))
        ensures
            opt_str_view(r.0) == spec_doc_title(html@),
            opt_str_view(r.1) == spec_meta_description(html@),
    {
        let title = match crate::html::HtmlParser::new().parse_title_raw(html) {
            Some(t) => Some(trim(t.as_str())),
            None => None,
        };
        let description = meta_description(html);
        (title, description)
    }

    /// The front matter for a page, stamped at the given time.
    pub fn create_frontmatter(
        &self,
        url: &str,
        title: Option<&String>,
        description: Option<&String>,
        now_ms: i64,
    ) -> (r: String)
        ensures
            r@ == spec_frontmatter(
                url@,
                match title {
                    Some(t) => Some(t@),
                    None => None,
                },
                match description {
                    Some(d) => Some(d@),
                    None => None,
                },
                now_ms as int,
            ),
    {
        let mut fm = String::from_str("---\n");
        match title {
            Some(t) => {
                fm.append("title: \"");
                let e = escape_yaml(t.as_str());
                fm.append(e.as_str());
                fm.append("\"\n");
            },
            None => {},
        }
        match description {
            Some(d) => {
                fm.append("description: \"");
                let e = escape_yaml(d.as_str());
                fm.append(e.as_str());
                fm.append("\"\n");
            },
            None => {},
        }
        fm.append("source: \"");
        fm.append(url);
        fm.append("\"\n");
        fm.append("crawled_at: \"");
        let stamp = rfc3339_of(now_ms);
        fm.append(stamp.as_str());
        fm.append("\"\n");
        fm.append("---\n\n");
        proof {
            assert(fm@ =~= spec_frontmatter(
                url@,
                match title {
                    Some(t) => Some(t@),
                    None => None,
                },
                match description {
                    Some(d) => Some(d@),
                    None => None,
                },
                now_ms as int,
            ));
        }
        fm
    }

    /// Converts one document at the given time; the exact form of `convert`.
    pub fn convert_at(&self, html: &str, url: &str, config: &MarkdownConfig, now_ms: i64) -> (o:
        MarkdownOutput)
        ensures
            o.content@ == spec_convert_content(
                html@,
                url@,
                config.include_frontmatter,
                config.include_source_url,
                now_ms as int,
            ),
            opt_str_view(o.title) == spec_doc_title(html@),
            opt_str_view(o.description) == spec_meta_description(html@),
            o.word_count == spec_word_count(o.content@, false),
    {
        let (title, description) = self.extract_metadata(html);
        let md = markdown_of(html);
        let optimized = optimize_for_llm(md.as_str(), url, config.include_source_url);
        let content = if config.include_frontmatter {
            let mut fm = self.create_frontmatter(
                url,
                title.as_ref(),
                description.as_ref(),
                now_ms,
            );
            fm.append(optimized.as_str());
            proof {
                assert(fm@ =~= spec_convert_content(
                    html@,
                    url@,
                    true,
                    config.include_source_url,
                    now_ms as int,
                ));
            }
            fm
        } else {
            proof {
                assert(Seq::<char>::empty() + optimized@ =~= optimized@);
            }
            optimized
        };
        let word_count = count_words(content.as_str());
        MarkdownOutput { content, title, description, word_count }
    }
}

impl MarkdownService for DefaultMarkdownService {
    open spec fn spec_include_frontmatter(&self) -> bool {
        self.config.include_frontmatter
    }

    open spec fn spec_include_source(&self) -> bool {
        self.config.include_source_url
    }

    fn convert(&self, html: &str, url: &str) -> (r: Result<MarkdownOutput, String>) {
        let now = now_millis();
        let o = self.convert_at(html, url, &self.config, now);
        proof {
            assert(o.content@ == spec_convert_content(
                html@,
                url@,
                self.spec_include_frontmatter(),
                self.spec_include_source(),
                now as int,
            ));
        }
        Ok(o)
    }

    fn convert_with_config(&self, html: &str, url: &str, config: &MarkdownConfig) -> (r: Result<
        MarkdownOutput,
        String,
    >) {
        let now = now_millis();
        let o = self.convert_at(html, url, config, now);
        proof {
            assert(o.content@ == spec_convert_content(
                html@,
                url@,
                config.include_frontmatter,
                config.include_source_url,
                now as int,
            ));
        }
        Ok(o)
    }
}

} // verus!
