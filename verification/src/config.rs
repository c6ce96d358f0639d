//! Crawler configuration: the immutable settings of a crawl, named profiles,
//! and a stable fingerprint used to validate checkpoint resumes.
//!
//! The request rate is kept in milli-requests per second so that, for
//! example, half a request per second is the value 500.
use vstd::prelude::*;

use crate::text::{fnv64, spec_dec, spec_fnv64, u64_to_string};

verus! {

/// Immutable after construction; drives every stage of the crawl.
#[derive(Clone, Debug)]
pub struct CrawlerConfig {
    /// Starting URL for the crawl.
    pub base_url: String,
    /// Restrict crawling to this domain (optional).
    pub allowed_domain: Option<String>,
    /// Maximum crawl depth.
    pub max_depth: usize,
    /// Number of concurrent workers.
    pub max_workers: usize,
    /// Rate limit, in milli-requests per second.
    pub rate_limit_milli: u64,
    /// Output directory for results.
    pub output_dir: String,
    /// Use sitemap.xml for URL discovery.
    pub use_sitemap: bool,
    /// Maximum URLs to take from the sitemap.
    pub max_sitemap_urls: usize,
    /// HTTP request timeout in seconds.
    pub timeout: u64,
    /// Respect robots.txt rules.
    pub respect_robots_txt: bool,
    /// URL patterns to exclude (regex sources).
    pub exclude_patterns: Vec<String>,
    /// URL patterns to include (regex sources).
    pub include_patterns: Vec<String>,
}

/// A predefined crawl profile.
#[derive(Clone, Debug)]
pub struct CrawlProfile {
    pub name: String,
    pub description: String,
    pub max_depth: usize,
    pub max_workers: usize,
    /// Rate limit, in milli-requests per second.
    pub rate_limit_milli: u64,
    pub timeout: u64,
}

/// The default exclude list: common binary and asset extensions, plus
/// non-HTTP link schemes.
pub open spec fn spec_default_excludes() -> Seq<Seq<char>> {
    seq![
        "\\.jpg$"@,
        "\\.png$"@,
        "\\.gif$"@,
        "\\.svg$"@,
        "\\.pdf$"@,
        "\\.zip$"@,
        "\\.css$"@,
        "\\.js$"@,
        "^mailto:"@,
        "^tel:"@,
        "^javascript:"@,
    ]
}

/// Builds the default exclude pattern list.
pub fn default_exclude_patterns() -> (r: Vec<String>)
    ensures
        r.deep_view() =~= spec_default_excludes(),
{
    let mut v: Vec<String> = Vec::new();
    v.push(String::from_str("\\.jpg$"));
    v.push(String::from_str("\\.png$"));
    v.push(String::from_str("\\.gif$"));
    v.push(String::from_str("\\.svg$"));
    v.push(String::from_str("\\.pdf$"));
    v.push(String::from_str("\\.zip$"));
    v.push(String::from_str("\\.css$"));
    v.push(String::from_str("\\.js$"));
    v.push(String::from_str("^mailto:"));
    v.push(String::from_str("^tel:"));
    v.push(String::from_str("^javascript:"));
    v
}

/// Relies on `dirs::home_dir`: the platform's home directory, if any. The
/// answer depends on the environment, so nothing further is promised.
#[verifier::external_body]
fn home_dir_string() -> Option<String> {
    dirs::home_dir().and_then(|p| p.to_str().map(|s| s.to_string()))
}

impl Default for CrawlerConfig {
    /// The stock configuration: depth 2, 20 workers, 2 requests per second,
    /// 30 s timeout, sitemap seeding and robots gating on, the default
    /// exclude list and no include list. The output directory comes from the
    /// environment (home desktop, falling back to `./output`), so nothing is
    /// promised of it.
    fn default() -> (c: Self)
        ensures
            c.base_url@ == Seq::<char>::empty(),
            c.allowed_domain is None,
            c.max_depth == 2,
            c.max_workers == 20,
            c.rate_limit_milli == 2000,
            c.use_sitemap == true,
            c.max_sitemap_urls == 1000,
            c.timeout == 30,
            c.respect_robots_txt == true,
            c.exclude_patterns.deep_view() == spec_default_excludes(),
            c.include_patterns@.len() == 0,
    {
        let output_dir = match home_dir_string() {
            Some(home) => home.concat("/Desktop/crawl_results"),
            None => String::from_str("./output"),
        };
        CrawlerConfig {
            base_url: String::new(),
            allowed_domain: None,
            max_depth: 2,
            max_workers: 20,
            rate_limit_milli: 2000,
            output_dir,
            use_sitemap: true,
            max_sitemap_urls: 1000,
            timeout: 30,
            respect_robots_txt: true,
            exclude_patterns: default_exclude_patterns(),
            include_patterns: Vec::new(),
        }
    }
}

/// The canonical fingerprint text of a configuration: the fields that affect
/// a crawl, separated by the ASCII unit separator.
pub open spec fn spec_fingerprint(c: CrawlerConfig) -> Seq<char> {
    c.base_url@ + seq!['\u{1f}'] + (match c.allowed_domain {
        Some(d) => seq!['+'] + d@,
        None => seq!['-'],
    }) + seq!['\u{1f}'] + spec_dec(c.max_depth as nat) + seq!['\u{1f}'] + spec_dec(
        c.max_workers as nat,
    ) + seq!['\u{1f}'] + spec_dec(c.rate_limit_milli as nat) + seq!['\u{1f}'] + spec_dec(
        c.max_sitemap_urls as nat,
    ) + seq!['\u{1f}'] + spec_dec(c.timeout as nat) + seq!['\u{1f}'] + (if c.use_sitemap {
        seq!['1']
    } else {
        seq!['0']
    }) + (if c.respect_robots_txt {
        seq!['1']
    } else {
        seq!['0']
    }) + spec_join_patterns(c.exclude_patterns.deep_view()) + seq!['\u{1e}']
        + spec_join_patterns(c.include_patterns.deep_view())
}

/// Pattern lists in the fingerprint: each pattern preceded by a separator.
pub open spec fn spec_join_patterns(ps: Seq<Seq<char>>) -> Seq<char>
    decreases ps.len(),
{
    if ps.len() == 0 {
        Seq::empty()
    } else {
        spec_join_patterns(ps.drop_last()) + seq!['\u{1f}'] + ps.last()
    }
}

fn join_patterns(ps: &Vec<String>) -> (r: String)
    ensures
        r@ == spec_join_patterns(ps.deep_view()),
{
    let mut r = String::new();
    let mut i: usize = 0;
    while i < ps.len()
        invariant
            i <= ps.len(),
            r@ == spec_join_patterns(ps.deep_view().take(i as int)),
        decreases ps.len() - i,
    {
        r.push('\u{1f}');
        r.append(ps[i].as_str());
        proof {
            let pv = ps.deep_view();
            assert(pv.take(i + 1).drop_last() == pv.take(i as int));
            assert(pv.take(i + 1).last() == pv[i as int]);
        }
        i = i + 1;
    }
    proof {
        assert(ps.deep_view().take(ps.deep_view().len() as int) == ps.deep_view());
    }
    r
}

/// The stable fingerprint of a configuration, as a 64-bit FNV-1a hash of the
/// canonical fingerprint text.
pub open spec fn spec_config_hash(c: CrawlerConfig) -> u64 {
    spec_fnv64(spec_fingerprint(c))
}

/// Computes the configuration fingerprint used to validate checkpoints.
pub fn config_hash(c: &CrawlerConfig) -> (r: u64)
    ensures
        r == spec_config_hash(*c),
{
    let mut s = String::new();
    s.append(c.base_url.as_str());
    s.push('\u{1f}');
    match &c.allowed_domain {
        Some(d) => {
            s.push('+');
            s.append(d.as_str());
        },
        None => {
            s.push('-');
        },
    }
    s.push('\u{1f}');
    s.append(u64_to_string(c.max_depth as u64).as_str());
    s.push('\u{1f}');
    s.append(u64_to_string(c.max_workers as u64).as_str());
    s.push('\u{1f}');
    s.append(u64_to_string(c.rate_limit_milli).as_str());
    s.push('\u{1f}');
    s.append(u64_to_string(c.max_sitemap_urls as u64).as_str());
    s.push('\u{1f}');
    s.append(u64_to_string(c.timeout).as_str());
    s.push('\u{1f}');
    s.push(if c.use_sitemap {
        '1'
    } else {
        '0'
    });
    s.push(if c.respect_robots_txt {
        '1'
    } else {
        '0'
    });
    let ex = join_patterns(&c.exclude_patterns);
    s.append(ex.as_str());
    s.push('\u{1e}');
    let inc = join_patterns(&c.include_patterns);
    s.append(inc.as_str());
    proof {
        assert(s@ =~= spec_fingerprint(*c));
    }
    fnv64(s.as_str())
}

/// The built-in crawl profiles: fast, deep and gentle.
pub fn get_profiles() -> (r: Vec<CrawlProfile>)
    ensures
        r@.len() == 3,
        r@[0].name@ == "fast"@ && r@[0].max_depth == 3 && r@[0].max_workers == 50
            && r@[0].rate_limit_milli == 10000 && r@[0].timeout == 15,
        r@[1].name@ == "deep"@ && r@[1].max_depth == 10 && r@[1].max_workers == 20
            && r@[1].rate_limit_milli == 3000 && r@[1].timeout == 30,
        r@[2].name@ == "gentle"@ && r@[2].max_depth == 5 && r@[2].max_workers == 5
            && r@[2].rate_limit_milli == 1000 && r@[2].timeout == 45,
{
    let mut v: Vec<CrawlProfile> = Vec::new();
    v.push(
        CrawlProfile {
            name: String::from_str("fast"),
            description: String::from_str("Fast crawl with high concurrency"),
            max_depth: 3,
            max_workers: 50,
            rate_limit_milli: 10000,
            timeout: 15,
        },
    );
    v.push(
        CrawlProfile {
            name: String::from_str("deep"),
            description: String::from_str("Deep crawl for comprehensive mapping"),
            max_depth: 10,
            max_workers: 20,
            rate_limit_milli: 3000,
            timeout: 30,
        },
    );
    v.push(
        CrawlProfile {
            name: String::from_str("gentle"),
            description: String::from_str("Gentle crawl respecting server resources"),
            max_depth: 5,
            max_workers: 5,
            rate_limit_milli: 1000,
            timeout: 45,
        },
    );
    v
}

/// Looks a profile up by name.
pub fn get_profile(name: &str) -> (r: Option<CrawlProfile>)
    ensures
        (name@ == "fast"@ || name@ == "deep"@ || name@ == "gentle"@) <==> r is Some,
        r matches Some(p) ==> p.name@ == name@,
{
    let profiles = get_profiles();
    let mut i: usize = 0;
    while i < profiles.len()
        invariant
            i <= profiles.len(),
            profiles@.len() == 3,
            profiles@[0].name@ == "fast"@,
            profiles@[1].name@ == "deep"@,
            profiles@[2].name@ == "gentle"@,
            forall|j: int| 0 <= j < i ==> profiles@[j].name@ != name@,
        decreases profiles.len() - i,
    {
        if crate::text::str_eq(profiles[i].name.as_str(), name) {
            proof {
                assert(i == 0 || i == 1 || i == 2);
                assert(name@ == profiles@[i as int].name@);
            }
            let p = profiles_get(profiles, i);
            return Some(p);
        }
        i = i + 1;
    }
    None
}

/// Moves entry `i` out of a profile vector.
fn profiles_get(mut v: Vec<CrawlProfile>, i: usize) -> (r: CrawlProfile)
    requires
        i < v@.len(),
    ensures
        r == v@[i as int],
{
    v.remove(i)
}

/// Assembles a configuration from explicit choices, starting from the
/// defaults: a profile (if named and known) sets depth, workers, rate and
/// timeout first; explicit values then override; the allowed domain defaults
/// to the host of the base URL.
pub fn build_config(
    base_url: String,
    domain: Option<String>,
    workers: Option<usize>,
    depth: Option<usize>,
    rate_milli: Option<u64>,
    profile: Option<&str>,
    output: Option<String>,
    sitemap: Option<bool>,
) -> (c: CrawlerConfig)
    ensures
        c.base_url@ == base_url@,
        workers matches Some(w) ==> c.max_workers == w,
        depth matches Some(d) ==> c.max_depth == d,
        rate_milli matches Some(r) ==> c.rate_limit_milli == r,
        sitemap matches Some(s) ==> c.use_sitemap == s,
        output matches Some(o) ==> c.output_dir@ == o@,
        domain matches Some(d) ==> c.allowed_domain matches Some(ad) && ad@ == d@,
        domain is None ==> crate::text::opt_str_view(c.allowed_domain)
            == crate::urls::spec_url_domain(base_url@),
{
    let mut config = CrawlerConfig::default();

    if let Some(profile_name) = profile {
        if let Some(p) = get_profile(profile_name) {
            config.max_depth = p.max_depth;
            config.max_workers = p.max_workers;
            config.rate_limit_milli = p.rate_limit_milli;
            config.timeout = p.timeout;
        }
    }

    config.allowed_domain = match domain {
        Some(d) => Some(d),
        None => crate::urls::url_domain(base_url.as_str()),
    };
    config.base_url = base_url;

    if let Some(w) = workers {
        config.max_workers = w;
    }
    if let Some(d) = depth {
        config.max_depth = d;
    }
    if let Some(r) = rate_milli {
        config.rate_limit_milli = r;
    }
    if let Some(o) = output {
        config.output_dir = o;
    }
    if let Some(s) = sitemap {
        config.use_sitemap = s;
    }

    config
}

} // verus!
