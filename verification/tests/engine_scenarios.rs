//! End-to-end crawls of the engine against small in-memory sites: the
//! caller's loop takes jobs, serves canned pages, records outcomes, and
//! supplies robots bodies on request.
use rcrawler::config::CrawlerConfig;
use rcrawler::engine::{CrawlEngine, EngineError, JobOutcome, PendingOutcome};
use rcrawler::types::CrawlResults;

fn test_config(max_depth: usize, respect_robots: bool, excludes: Vec<String>) -> CrawlerConfig {
    CrawlerConfig {
        base_url: "http://h/".to_string(),
        allowed_domain: Some("h".to_string()),
        max_depth,
        max_workers: 2,
        rate_limit_milli: 100_000,
        output_dir: "out".to_string(),
        use_sitemap: false,
        max_sitemap_urls: 1000,
        timeout: 30,
        respect_robots_txt: respect_robots,
        exclude_patterns: excludes,
        include_patterns: vec![],
    }
}

fn serve<'a>(site: &'a [(&'a str, u16, &'a str)], url: &str) -> Option<(u16, &'a str)> {
    site.iter().find(|(u, _, _)| *u == url).map(|(_, s, b)| (*s, *b))
}

/// Runs the crawl to quiescence: resolves pending robots lookups with the
/// given body, fetches pages from the canned site, and records outcomes.
fn drive(engine: &mut CrawlEngine, site: &[(&str, u16, &str)], robots: Option<&str>) {
    let mut guard: u32 = 0;
    loop {
        guard += 1;
        assert!(guard < 10_000, "crawl did not quiesce");
        loop {
            match engine.resolve_one() {
                PendingOutcome::NoneLeft => break,
                PendingOutcome::NeedFetch { host, robots_url: _ } => {
                    engine.robots_record(host, robots.map(|s| s.to_string()));
                },
                _ => {},
            }
        }
        match engine.take_job() {
            JobOutcome::QueueEmpty => {
                if engine.should_shutdown() {
                    break;
                }
            },
            JobOutcome::AlreadyVisited => {},
            JobOutcome::External { url: _ } => {},
            JobOutcome::Fetch { url, depth } => {
                match serve(site, &url) {
                    Some((status, body)) if status < 400 => {
                        engine.record_page(
                            url,
                            depth,
                            status,
                            "text/html".to_string(),
                            body,
                            1_000,
                        );
                    },
                    _ => engine.record_error(),
                }
            },
        }
    }
    engine.finish(2_000);
}

fn finish_and_check(engine: CrawlEngine) -> CrawlResults {
    assert_eq!(engine.active_jobs, 0, "active jobs drained");
    assert_eq!(engine.queue.len(), 0, "queue drained");
    assert_eq!(engine.in_flight, 0, "nothing in flight");
    assert!(engine.pending.is_empty(), "no pending links");
    let visited = engine.visited.clone();
    let results = engine.into_results();
    assert!(
        results.stats.pages_crawled + results.stats.errors <= results.stats.pages_found,
        "fetch outcomes bounded by admissions"
    );
    for r in &results.results {
        assert!(visited.contains(&r.url), "every result is for a visited URL");
    }
    for (i, a) in results.results.iter().enumerate() {
        for b in &results.results[i + 1..] {
            assert_ne!(a.url, b.url, "no two results share a URL");
        }
    }
    results
}

#[test]
fn scenario_trivial_two_pages() {
    let site = [
        ("http://h/", 200, "<html><title>T</title><a href=\"/a\">x</a></html>"),
        ("http://h/a", 200, "<title>A</title>"),
    ];
    let mut engine = CrawlEngine::new(test_config(1, false, vec![])).unwrap();
    engine.seed_base();
    drive(&mut engine, &site, None);
    let results = finish_and_check(engine);
    assert_eq!(results.results.len(), 2);
    assert_eq!(results.stats.pages_crawled, 2);
    assert_eq!(results.stats.errors, 0);
    let root = results.results.iter().find(|r| r.url == "http://h/").unwrap();
    assert_eq!(root.links, vec!["http://h/a".to_string()]);
    assert_eq!(root.title, "T");
    assert!(results.stats.duration.is_some());
}

#[test]
fn scenario_depth_cap() {
    let site = [
        ("http://h/", 200, "<html><title>T</title><a href=\"/a\">x</a></html>"),
        ("http://h/a", 200, "<title>A</title><a href=\"/b\">x</a>"),
        ("http://h/b", 200, "<title>B</title>"),
    ];
    let mut engine = CrawlEngine::new(test_config(1, false, vec![])).unwrap();
    engine.seed_base();
    drive(&mut engine, &site, None);
    let results = finish_and_check(engine);
    assert_eq!(results.results.len(), 2);
    assert_eq!(results.stats.pages_found, 2);
    assert!(results.results.iter().all(|r| r.url != "http://h/b"));
    assert!(results.results.iter().all(|r| r.depth <= 1));
}

#[test]
fn scenario_depth_zero_fetches_only_the_seed() {
    let site = [
        ("http://h/", 200, "<html><a href=\"/a\">x</a></html>"),
        ("http://h/a", 200, "<title>A</title>"),
    ];
    let mut engine = CrawlEngine::new(test_config(0, false, vec![])).unwrap();
    engine.seed_base();
    drive(&mut engine, &site, None);
    let results = finish_and_check(engine);
    assert_eq!(results.results.len(), 1);
    assert_eq!(results.stats.pages_found, 1);
}

#[test]
fn scenario_domain_scope() {
    let site = [
        ("http://h/", 200, "<html><a href=\"http://other/x\">x</a></html>"),
        ("http://other/x", 200, "<title>X</title>"),
    ];
    let mut engine = CrawlEngine::new(test_config(1, false, vec![])).unwrap();
    engine.seed_base();
    drive(&mut engine, &site, None);
    let results = finish_and_check(engine);
    assert_eq!(results.stats.external_links, 1);
    assert!(results.results.iter().all(|r| r.url != "http://other/x"));
}

#[test]
fn scenario_exclude_regex() {
    let site = [
        ("http://h/", 200, "<html><a href=\"/pic.jpg\">x</a></html>"),
        ("http://h/pic.jpg", 200, "binary"),
    ];
    let excludes = CrawlerConfig::default().exclude_patterns;
    let mut engine = CrawlEngine::new(test_config(1, false, excludes)).unwrap();
    engine.seed_base();
    drive(&mut engine, &site, None);
    let results = finish_and_check(engine);
    assert_eq!(results.stats.excluded_links, 1);
    assert_eq!(results.stats.pages_found, 1);
    assert!(results.results.iter().all(|r| r.url != "http://h/pic.jpg"));
}

#[test]
fn scenario_robots() {
    let site = [
        (
            "http://h/",
            200,
            "<html><a href=\"/private/x\">p</a><a href=\"/public/y\">q</a></html>",
        ),
        ("http://h/private/x", 200, "<title>P</title>"),
        ("http://h/public/y", 200, "<title>Q</title>"),
    ];
    let mut engine = CrawlEngine::new(test_config(1, true, vec![])).unwrap();
    engine.seed_base();
    drive(&mut engine, &site, Some("User-agent: *\nDisallow: /private"));
    let results = finish_and_check(engine);
    assert!(results.results.iter().all(|r| r.url != "http://h/private/x"));
    assert!(results.results.iter().any(|r| r.url == "http://h/public/y"));
    assert!(results.stats.excluded_links >= 1);
}

#[test]
fn scenario_cycle_terminates() {
    let site = [
        ("http://h/", 200, "<html><a href=\"/a\">x</a></html>"),
        ("http://h/a", 200, "<html><a href=\"/\">x</a></html>"),
    ];
    let mut engine = CrawlEngine::new(test_config(5, false, vec![])).unwrap();
    engine.seed_base();
    drive(&mut engine, &site, None);
    let results = finish_and_check(engine);
    assert_eq!(results.results.len(), 2);
}

#[test]
fn scenario_single_worker_processing_order() {
    let site = [
        ("http://h/", 200, "<html><a href=\"/a\">x</a><a href=\"/b\">y</a></html>"),
        ("http://h/a", 200, "<title>A</title>"),
        ("http://h/b", 200, "<title>B</title>"),
    ];
    let mut config = test_config(1, false, vec![]);
    config.max_workers = 1;
    let mut engine = CrawlEngine::new(config).unwrap();
    engine.seed_base();
    drive(&mut engine, &site, None);
    let results = finish_and_check(engine);
    let urls: Vec<&str> = results.results.iter().map(|r| r.url.as_str()).collect();
    assert_eq!(urls, vec!["http://h/", "http://h/a", "http://h/b"]);
}

#[test]
fn scenario_sitemap_seeds_when_present() {
    let site = [
        ("http://h/p1", 200, "<title>P1</title>"),
        ("http://h/p2", 200, "<title>P2</title>"),
    ];
    let mut engine = CrawlEngine::new(test_config(2, false, vec![])).unwrap();
    let used = engine.seed_sitemap(&vec![
        "http://h/p1".to_string(),
        "http://h/p2".to_string(),
    ]);
    assert!(used);
    drive(&mut engine, &site, None);
    let results = finish_and_check(engine);
    assert_eq!(results.results.len(), 2);
    assert!(results.results.iter().all(|r| r.depth == 1));
}

#[test]
fn scenario_empty_sitemap_falls_back_to_seed() {
    let site = [("http://h/", 200, "<title>T</title>")];
    let mut engine = CrawlEngine::new(test_config(2, false, vec![])).unwrap();
    let used = engine.seed_sitemap(&vec![]);
    assert!(!used);
    drive(&mut engine, &site, None);
    let results = finish_and_check(engine);
    assert!(results.stats.pages_found >= 1);
    assert_eq!(results.results[0].url, "http://h/");
}

#[test]
fn scenario_fetch_error_is_counted() {
    let site = [
        ("http://h/", 200, "<html><a href=\"/gone\">x</a></html>"),
        ("http://h/gone", 404, ""),
    ];
    let mut engine = CrawlEngine::new(test_config(1, false, vec![])).unwrap();
    engine.seed_base();
    drive(&mut engine, &site, None);
    let results = finish_and_check(engine);
    assert_eq!(results.stats.errors, 1);
    assert_eq!(results.stats.pages_crawled, 1);
    assert_eq!(results.stats.pages_found, 2);
}

#[test]
fn engine_rejects_zero_workers() {
    let mut config = test_config(1, false, vec![]);
    config.max_workers = 0;
    match CrawlEngine::new(config) {
        Err(e) => assert_eq!(e, EngineError::NoWorkers),
        Ok(_) => panic!("zero workers must be rejected"),
    }
}

#[test]
fn engine_rejects_rate_below_one_per_minute() {
    let mut config = test_config(1, false, vec![]);
    config.rate_limit_milli = 10;
    match CrawlEngine::new(config) {
        Err(e) => assert_eq!(e, EngineError::RateTooLow),
        Ok(_) => panic!("a rate below one request per minute must be rejected"),
    }
}
