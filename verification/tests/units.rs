//! Unit tests for the text utilities, filters, robots cache, sitemap
//! parsing, checkpointing and configuration.
use rcrawler::checkpoint::{Checkpoint, CheckpointManager};
use rcrawler::config::{build_config, config_hash, get_profile, get_profiles, CrawlerConfig};
use rcrawler::filters::UrlFilter;
use rcrawler::markdown::{escape_yaml, count_words, optimize_for_llm, trim};
use rcrawler::robots::{RobotsChecker, RobotsDecision};
use rcrawler::sitemap::{extract_locs, is_sitemap_index, SitemapParse, SitemapParser};
use rcrawler::text::{escape_html, fnv64, host_in_scope, truncate, u64_to_string, i64_to_string};
use rcrawler::types::{CrawlStats, PageResult};

fn stats_zeroed(start: i64) -> CrawlStats {
    CrawlStats {
        pages_found: 0,
        pages_crawled: 0,
        external_links: 0,
        excluded_links: 0,
        errors: 0,
        start_time: start,
        end_time: None,
        duration: None,
    }
}

#[test]
fn test_exclude_patterns() {
    let filter = UrlFilter::new(
        &vec![r"\.jpg$".to_string(), r"\.png$".to_string()],
        &vec![],
    );

    assert!(!filter.should_crawl("https://example.com/image.jpg"));
    assert!(!filter.should_crawl("https://example.com/image.png"));
    assert!(filter.should_crawl("https://example.com/page.html"));
}

#[test]
fn test_include_patterns() {
    let filter = UrlFilter::new(&vec![], &vec![r"^https://example\.com".to_string()]);

    assert!(filter.should_crawl("https://example.com/page"));
    assert!(!filter.should_crawl("https://other.com/page"));
}

#[test]
fn test_combined_patterns() {
    let filter = UrlFilter::new(
        &vec![r"\.jpg$".to_string()],
        &vec![r"^https://example\.com".to_string()],
    );

    assert!(filter.should_crawl("https://example.com/page"));
    assert!(!filter.should_crawl("https://example.com/image.jpg"));
    assert!(!filter.should_crawl("https://other.com/page"));
}

#[test]
fn test_invalid_patterns_are_dropped() {
    let filter = UrlFilter::new(&vec!["[".to_string(), r"\.jpg$".to_string()], &vec![]);
    assert_eq!(filter.exclude_patterns.len(), 1);
    assert!(!filter.should_crawl("https://example.com/image.jpg"));
    assert!(filter.should_crawl("https://example.com/page"));
}

#[test]
fn test_admission_is_idempotent_on_same_url() {
    let filter = UrlFilter::new(&vec![r"\.jpg$".to_string()], &vec![]);
    let first = filter.should_crawl("https://example.com/a");
    let second = filter.should_crawl("https://example.com/a");
    assert_eq!(first, second);
}

#[test]
fn test_host_in_scope_suffix_rule() {
    assert!(host_in_scope("example.com", "example.com"));
    assert!(host_in_scope("sub.example.com", "example.com"));
    assert!(!host_in_scope("badexample.com", "example.com"));
    assert!(!host_in_scope("example.com.evil.org", "example.com"));
}

#[test]
fn test_decimal_rendering() {
    assert_eq!(u64_to_string(0), "0");
    assert_eq!(u64_to_string(907), "907");
    assert_eq!(u64_to_string(u64::MAX), "18446744073709551615");
    assert_eq!(i64_to_string(-42), "-42");
    assert_eq!(i64_to_string(i64::MIN), "-9223372036854775808");
}

#[test]
fn test_fnv_fingerprint_is_stable() {
    assert_eq!(fnv64(""), 0xcbf29ce484222325);
    assert_eq!(fnv64("a"), fnv64("a"));
    assert_ne!(fnv64("a"), fnv64("b"));
}

#[test]
fn test_escape_html_entities() {
    assert_eq!(escape_html("a<b>&\"'"), "a&lt;b&gt;&amp;&quot;&#039;");
    assert_eq!(escape_html("plain"), "plain");
}

#[test]
fn test_truncate_label() {
    assert_eq!(truncate("short", 30), "short");
    assert_eq!(truncate("abcdefghij", 8), "abcde...");
}

#[test]
fn test_robots_cache_and_rules() {
    let mut checker = RobotsChecker::new("rcrawler/0.1.0".to_string());
    match checker.check("https://example.com/private/x") {
        RobotsDecision::NeedFetch { host, robots_url } => {
            assert_eq!(host, "example.com");
            assert_eq!(robots_url, "https://example.com/robots.txt");
            checker.record(host, Some("User-agent: *\nDisallow: /private".to_string()));
        },
        other => panic!("expected a fetch request, got {:?}", other),
    }
    assert!(matches!(
        checker.check("https://example.com/private/x"),
        RobotsDecision::Disallowed
    ));
    assert!(matches!(
        checker.check("https://example.com/public/y"),
        RobotsDecision::Allowed
    ));
    checker.record("other.com".to_string(), None);
    assert!(matches!(
        checker.check("https://other.com/anything"),
        RobotsDecision::Allowed
    ));
    assert!(matches!(checker.check("not a url"), RobotsDecision::Allowed));
}

#[test]
fn test_parse_sitemap() {
    let xml = r#"<?xml version="1.0" encoding="UTF-8"?>
<urlset xmlns="http://www.sitemaps.org/schemas/sitemap/0.9">
  <url>
    <loc>https://example.com/</loc>
  </url>
  <url>
    <loc>https://example.com/about</loc>
  </url>
</urlset>"#;

    let parser = SitemapParser::new(30, 1000);
    let urls = match parser.parse_body(xml) {
        SitemapParse::Urls { urls } => urls,
        SitemapParse::Index { .. } => panic!("not an index"),
    };

    assert_eq!(urls.len(), 2);
    assert_eq!(urls[0], "https://example.com/");
    assert_eq!(urls[1], "https://example.com/about");
}

#[test]
fn test_parse_sitemap_index() {
    let xml = r#"<?xml version="1.0" encoding="UTF-8"?>
<sitemapindex xmlns="http://www.sitemaps.org/schemas/sitemap/0.9">
  <sitemap>
    <loc>https://example.com/sitemap-1.xml</loc>
  </sitemap>
  <sitemap>
    <loc>https://example.com/sitemap-2.xml</loc>
  </sitemap>
</sitemapindex>"#;

    assert!(is_sitemap_index(xml));
    let locs = extract_locs(xml);
    assert_eq!(locs.len(), 2);
    assert_eq!(locs[0], "https://example.com/sitemap-1.xml");
}

#[test]
fn test_sitemap_dedup_and_cap() {
    let parser = SitemapParser::new(30, 2);
    let urls = vec![
        "https://h/a".to_string(),
        "https://h/b".to_string(),
        "https://h/a".to_string(),
        "https://h/c".to_string(),
    ];
    let out = parser.finalize(&urls);
    assert_eq!(out, vec!["https://h/a".to_string(), "https://h/b".to_string()]);
}

#[test]
fn test_sitemap_candidates() {
    let parser = SitemapParser::new(30, 1000);
    let c = parser.candidate_urls("example.com");
    assert_eq!(
        c,
        vec![
            "https://example.com/sitemap.xml".to_string(),
            "https://example.com/sitemap_index.xml".to_string(),
            "https://example.com/wp-sitemap.xml".to_string(),
        ]
    );
}

#[test]
fn test_checkpoint_round_trip() {
    let page = PageResult {
        url: "https://example.com".to_string(),
        title: "Example \"quoted\"\nweird".to_string(),
        status_code: 200,
        depth: 0,
        links: vec!["https://example.com/page1".to_string()],
        error: None,
        crawled_at: 1234,
        content_type: "text/html".to_string(),
    };
    let mut stats = stats_zeroed(77);
    stats.pages_found = 2;
    stats.pages_crawled = 1;
    stats.end_time = Some(99);
    stats.duration = Some(22);
    let checkpoint = Checkpoint {
        visited: vec!["https://example.com".to_string(), "https://example.com/x".to_string()],
        results: vec![page],
        stats,
        timestamp: 555,
        base_url: "https://example.com".to_string(),
        config_hash: 42,
    };
    let text = checkpoint.to_json();
    let back = Checkpoint::from_json(&text).expect("round trip");
    assert_eq!(back.visited, checkpoint.visited);
    assert_eq!(back.results.len(), 1);
    assert_eq!(back.results[0].url, "https://example.com");
    assert_eq!(back.results[0].title, "Example \"quoted\"\nweird");
    assert_eq!(back.results[0].links, vec!["https://example.com/page1".to_string()]);
    assert_eq!(back.stats.pages_found, 2);
    assert_eq!(back.stats.end_time, Some(99));
    assert_eq!(back.timestamp, 555);
    assert_eq!(back.base_url, "https://example.com");
    assert_eq!(back.config_hash, 42);
}

#[test]
fn test_checkpoint_manager_accepts_own_save() {
    let mut mgr = CheckpointManager::new(
        "out".to_string(),
        "https://example.com".to_string(),
        42,
        300,
    );
    assert!(mgr.should_save(0));
    let text = mgr.save(
        vec!["https://example.com".to_string()],
        vec![],
        stats_zeroed(5),
        1_000,
    );
    assert!(!mgr.should_save(1_500));
    assert!(mgr.should_save(301_000));
    let loaded = mgr.try_load(Some(&text)).expect("own save loads");
    assert_eq!(loaded.visited, vec!["https://example.com".to_string()]);
}

#[test]
fn test_checkpoint_fingerprint_mismatch_rejected() {
    let mut mgr = CheckpointManager::new(
        "out".to_string(),
        "https://example.com".to_string(),
        42,
        300,
    );
    let text = mgr.save(vec![], vec![], stats_zeroed(5), 1_000);
    let other = CheckpointManager::new(
        "out".to_string(),
        "https://example.com".to_string(),
        43,
        300,
    );
    assert!(other.try_load(Some(&text)).is_none());
    let other_base = CheckpointManager::new(
        "out".to_string(),
        "https://elsewhere.example".to_string(),
        42,
        300,
    );
    assert!(other_base.try_load(Some(&text)).is_none());
    assert!(mgr.try_load(None).is_none());
    assert!(mgr.try_load(Some("not json")).is_none());
}

#[test]
fn test_config_defaults_and_overrides() {
    let d = CrawlerConfig::default();
    assert_eq!(d.max_depth, 2);
    assert_eq!(d.max_workers, 20);
    assert_eq!(d.rate_limit_milli, 2000);
    assert_eq!(d.max_sitemap_urls, 1000);
    assert_eq!(d.timeout, 30);
    assert!(d.use_sitemap);
    assert!(d.respect_robots_txt);
    assert_eq!(d.exclude_patterns.len(), 11);
    assert!(d.include_patterns.is_empty());

    let c = build_config(
        "https://example.com/start".to_string(),
        None,
        Some(3),
        Some(5),
        Some(750),
        None,
        Some("outdir".to_string()),
        Some(false),
    );
    assert_eq!(c.base_url, "https://example.com/start");
    assert_eq!(c.allowed_domain, Some("example.com".to_string()));
    assert_eq!(c.max_workers, 3);
    assert_eq!(c.max_depth, 5);
    assert_eq!(c.rate_limit_milli, 750);
    assert_eq!(c.output_dir, "outdir");
    assert!(!c.use_sitemap);
}

#[test]
fn test_profiles() {
    assert_eq!(get_profiles().len(), 3);
    let fast = get_profile("fast").expect("fast profile");
    assert_eq!(fast.max_workers, 50);
    assert_eq!(fast.rate_limit_milli, 10_000);
    assert!(get_profile("nosuch").is_none());

    let c = build_config(
        "https://example.com".to_string(),
        None,
        None,
        None,
        None,
        Some("gentle"),
        None,
        None,
    );
    assert_eq!(c.max_workers, 5);
    assert_eq!(c.max_depth, 5);
    assert_eq!(c.timeout, 45);
}

#[test]
fn test_config_hash_changes_with_config() {
    let a = CrawlerConfig::default();
    let mut b = CrawlerConfig::default();
    b.max_depth = 3;
    assert_eq!(config_hash(&a), config_hash(&a));
    assert_ne!(config_hash(&a), config_hash(&b));
}

#[test]
fn test_yaml_escaping() {
    let escaped = escape_yaml("Test \"quoted\" text\nwith newline");
    assert!(escaped.contains("\\\""));
    assert!(!escaped.contains('\n'));
}

#[test]
fn test_trim_and_word_count() {
    assert_eq!(trim("  hello world \n"), "hello world");
    assert_eq!(count_words("One two three four five"), 5);
    assert_eq!(count_words("   "), 0);
}

#[test]
fn test_optimize_collapses_blank_runs() {
    let out = optimize_for_llm("a\n\n\n\nb  \nc", "https://example.com/x", true);
    assert_eq!(out, "a\n\nb\nc\n\n---\n*Source: example.com*\n");
    let plain = optimize_for_llm("a\n\n\n\nb", "https://example.com/x", false);
    assert_eq!(plain, "a\n\nb");
}
