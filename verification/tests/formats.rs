//! Tests for the output formatter, the Markdown service and the stealth
//! service.
use rcrawler::content_filter::{ContentFilterConfig, DefaultContentFilterService};
use rcrawler::markdown::{DefaultMarkdownService, MarkdownConfig, MarkdownService};
use rcrawler::output_format::OutputFormat as RunFormat;
use rcrawler::output_formatter::{
    DefaultOutputFormatterService, FormattedOutput, OutputFormat, OutputFormatterConfig,
};
use rcrawler::services::ServiceContainer;
use rcrawler::stealth::{DefaultStealthService, StealthConfig};
use rcrawler::types::{CrawlResults, CrawlStats, PageResult};

fn create_test_results() -> CrawlResults {
    CrawlResults {
        stats: CrawlStats {
            pages_found: 10,
            pages_crawled: 8,
            external_links: 5,
            excluded_links: 2,
            errors: 2,
            start_time: 1_000,
            end_time: Some(6_000),
            duration: Some(5000),
        },
        results: vec![
            PageResult {
                url: "https://example.com".to_string(),
                title: "Example Domain".to_string(),
                status_code: 200,
                depth: 0,
                links: vec!["https://example.com/page1".to_string()],
                error: None,
                crawled_at: 2_000,
                content_type: "text/html".to_string(),
            },
            PageResult {
                url: "https://example.com/page1".to_string(),
                title: "Page 1".to_string(),
                status_code: 200,
                depth: 1,
                links: vec![],
                error: None,
                crawled_at: 3_000,
                content_type: "text/html".to_string(),
            },
        ],
    }
}

#[test]
fn test_format_json() {
    let service = DefaultOutputFormatterService::new();
    let results = create_test_results();

    let output = service.format_single(&results, OutputFormat::Json);

    assert_eq!(output.format, OutputFormat::Json);
    assert!(output.content.contains("Example Domain"));
    assert!(output.full_filename().ends_with(".json"));
}

#[test]
fn test_format_markdown() {
    let service = DefaultOutputFormatterService::new();
    let results = create_test_results();

    let output = service.format_single(&results, OutputFormat::Markdown);

    assert_eq!(output.format, OutputFormat::Markdown);
    assert!(output.content.contains("# Crawl Results"));
    assert!(output.content.contains("## Statistics"));
    assert!(output.content.contains("Example Domain"));
}

#[test]
fn test_format_links() {
    let service = DefaultOutputFormatterService::new();
    let results = create_test_results();

    let output = service.format_single(&results, OutputFormat::Links);

    assert_eq!(output.format, OutputFormat::Links);
    assert!(output.content.contains("https://example.com"));
    assert!(output.content.contains("https://example.com/page1"));
}

#[test]
fn test_format_csv() {
    let service = DefaultOutputFormatterService::new();
    let results = create_test_results();

    let output = service.format_single(&results, OutputFormat::Csv);

    assert_eq!(output.format, OutputFormat::Csv);
    assert!(output.content.contains("URL,Title,Status Code"));
    assert!(output.content.contains("Example Domain"));
}

#[test]
fn test_format_text() {
    let service = DefaultOutputFormatterService::new();
    let results = create_test_results();

    let output = service.format_single(&results, OutputFormat::Text);

    assert_eq!(output.format, OutputFormat::Text);
    assert!(output.content.contains("=== CRAWL RESULTS ==="));
    assert!(output.content.contains("Example Domain"));
}

#[test]
fn test_multiple_formats() {
    let config = OutputFormatterConfig {
        formats: vec![OutputFormat::Json, OutputFormat::Markdown, OutputFormat::Links],
        pretty_json: true,
        include_errors: true,
        max_links: None,
    };
    let service = DefaultOutputFormatterService::with_config(config.clone());
    let results = create_test_results();

    let outputs = service.format(&results);

    assert_eq!(outputs.len(), 3);
    assert_eq!(outputs[0].format, OutputFormat::Json);
    assert_eq!(outputs[1].format, OutputFormat::Markdown);
    assert_eq!(outputs[2].format, OutputFormat::Links);
}

#[test]
fn test_output_format_parsing() {
    assert_eq!(OutputFormat::from_str("json").unwrap(), OutputFormat::Json);
    assert_eq!(OutputFormat::from_str("markdown").unwrap(), OutputFormat::Markdown);
    assert_eq!(OutputFormat::from_str("md").unwrap(), OutputFormat::Markdown);
    assert_eq!(OutputFormat::from_str("html").unwrap(), OutputFormat::Html);
    assert_eq!(OutputFormat::from_str("links").unwrap(), OutputFormat::Links);
    assert_eq!(OutputFormat::from_str("csv").unwrap(), OutputFormat::Csv);
    assert!(OutputFormat::from_str("invalid").is_err());
}

#[test]
fn test_format_links_respects_cap() {
    let config = OutputFormatterConfig {
        formats: vec![OutputFormat::Links],
        pretty_json: false,
        include_errors: true,
        max_links: Some(1),
    };
    let service = DefaultOutputFormatterService::with_config(config);
    let results = create_test_results();
    let output = service.format_single(&results, OutputFormat::Links);
    assert_eq!(output.content, "https://example.com\n\n# 1 more URLs omitted\n");
}

#[test]
fn test_format_csv_exact_row() {
    let service = DefaultOutputFormatterService::new();
    let mut results = create_test_results();
    results.results.truncate(1);
    results.results[0].title = "Say \"hi\"".to_string();
    let output = service.format_single(&results, OutputFormat::Csv);
    assert_eq!(
        output.content,
        "URL,Title,Status Code,Depth,Links Count,Error\n\"https://example.com\",\"Say \"\"hi\"\"\",200,0,1,\"\"\n"
    );
}

#[test]
fn test_full_filename() {
    let out = FormattedOutput {
        format: OutputFormat::Markdown,
        content: String::new(),
        filename: "results".to_string(),
    };
    assert_eq!(out.full_filename(), "results.md");
}

#[test]
fn test_run_output_format_parsing() {
    assert_eq!(RunFormat::from_str("json").unwrap(), RunFormat::Json);
    assert_eq!(RunFormat::from_str("MD").unwrap(), RunFormat::Markdown);
    assert_eq!(RunFormat::from_str("default").unwrap(), RunFormat::Default);
    assert_eq!(RunFormat::from_str("html").unwrap(), RunFormat::Default);
    assert!(RunFormat::from_str("nope").is_err());
}

#[test]
fn test_basic_conversion() {
    let service = DefaultMarkdownService::new();
    let html = r#"
            <!DOCTYPE html>
            <html>
            <head>
                <title>Test Page</title>
                <meta name="description" content="Test description">
            </head>
            <body>
                <h1>Hello World</h1>
                <p>This is a test.</p>
            </body>
            </html>
        "#;

    let result = service.convert(html, "https://example.com").unwrap();

    assert!(result.content.contains("Hello World"));
    assert!(result.content.contains("This is a test"));
    assert_eq!(result.title, Some("Test Page".to_string()));
    assert_eq!(result.description, Some("Test description".to_string()));
    assert!(result.word_count > 0);
}

#[test]
fn test_frontmatter_generation() {
    let config = MarkdownConfig {
        include_frontmatter: true,
        include_source_url: true,
        preserve_code_blocks: true,
        max_line_length: 0,
    };
    let service = DefaultMarkdownService::with_config(config);
    let html = r#"
            <html>
            <head><title>Test</title></head>
            <body><p>Content</p></body>
            </html>
        "#;

    let result = service.convert(html, "https://example.com").unwrap();

    assert!(result.content.starts_with("---\n"));
    assert!(result.content.contains("title: \"Test\""));
    assert!(result.content.contains("source: \"https://example.com\""));
    assert!(result.content.contains("crawled_at:"));
}

#[test]
fn test_no_frontmatter() {
    let config = MarkdownConfig {
        include_frontmatter: false,
        include_source_url: true,
        preserve_code_blocks: true,
        max_line_length: 0,
    };
    let service = DefaultMarkdownService::with_config(config);
    let html = r#"
            <html>
            <head><title>Test</title></head>
            <body><p>Content</p></body>
            </html>
        "#;

    let result = service.convert(html, "https://example.com").unwrap();

    assert!(!result.content.starts_with("---\n"));
}

#[test]
fn test_code_block_preservation() {
    let service = DefaultMarkdownService::new();
    let html = r#"
            <html>
            <body>
                <pre><code class="language-rust">fn main() {
    println!("Hello");
}</code></pre>
            </body>
            </html>
        "#;

    let result = service.convert(html, "https://example.com").unwrap();

    assert!(result.content.contains("fn main()"));
    assert!(result.content.contains("println!"));
}

#[test]
fn test_word_count() {
    let service = DefaultMarkdownService::new();
    let html = r#"
            <html>
            <body>
                <p>One two three four five</p>
            </body>
            </html>
        "#;

    let result = service.convert(html, "https://example.com").unwrap();

    assert!(result.word_count >= 5);
}

#[test]
fn test_default_user_agents() {
    let service = DefaultStealthService::new();
    assert!(!service.user_agents.is_empty());
    assert_eq!(service.user_agents.len(), 8);
}

#[test]
fn test_stealth_headers() {
    let service = DefaultStealthService::new();
    let headers = service.header_pairs();

    let names: Vec<&str> = headers.iter().map(|(n, _)| n.as_str()).collect();
    assert!(names.contains(&"User-Agent"));
    assert!(names.contains(&"Accept"));
    assert!(names.contains(&"Accept-Language"));
    assert!(names.contains(&"Accept-Encoding"));
}

#[test]
fn test_user_agent_rotation() {
    let config = StealthConfig {
        rotate_user_agent: true,
        random_delays: false,
        randomize_tls: false,
        custom_user_agents: vec![],
    };
    let service = DefaultStealthService::with_config(config);

    let ua1 = service.get_user_agent();
    assert!(!ua1.is_empty());
    assert!(service.user_agents.contains(&ua1));
}

#[test]
fn test_custom_user_agents() {
    let custom_agents = vec!["Custom Agent 1".to_string(), "Custom Agent 2".to_string()];
    let config = StealthConfig {
        rotate_user_agent: true,
        random_delays: false,
        randomize_tls: false,
        custom_user_agents: custom_agents.clone(),
    };
    let service = DefaultStealthService::with_config(config);

    assert_eq!(service.user_agents, custom_agents);
}

#[test]
fn test_random_delay_disabled() {
    let service = DefaultStealthService::new();
    assert_eq!(service.get_random_delay(), 0);
}

#[test]
fn test_random_delay_enabled() {
    let config = StealthConfig {
        rotate_user_agent: true,
        random_delays: true,
        randomize_tls: false,
        custom_user_agents: vec![],
    };
    let service = DefaultStealthService::with_config(config);
    let delay = service.get_random_delay();

    assert!(delay >= 100 && delay < 500);
}

#[test]
fn test_filter_service_exists() {
    let service = DefaultContentFilterService::new();
    let html = r#"<html><body><p>Test</p></body></html>"#;

    let (filtered, _) = service.filter(html);
    assert!(!filtered.is_empty());
}

#[test]
fn test_filter_preserves_content() {
    let service = DefaultContentFilterService::new();
    let html = r#"
            <html>
            <body>
                <nav>Menu</nav>
                <main>Content</main>
            </body>
            </html>
        "#;

    let (filtered, _) = service.filter(html);

    assert!(filtered.contains("Content"));
}

#[test]
fn test_stats_generated() {
    let service = DefaultContentFilterService::new();
    let html = r#"
            <html>
            <head>
                <script>var x = 1;</script>
            </head>
            <body>
                <nav>Menu</nav>
                <p>Content</p>
            </body>
            </html>
        "#;

    let (_, stats) = service.filter(html);

    assert_eq!(stats.original_size, html.len());
    assert!(stats.filtered_size > 0);
}

#[test]
fn test_custom_config() {
    let mut config = ContentFilterConfig::default();
    config.remove_nav = false;
    config.remove_scripts_styles = true;
    let service = DefaultContentFilterService::with_config(config);
    let html = r#"
            <html>
            <body>
                <nav>Menu</nav>
                <script>alert('test');</script>
                <p>Content</p>
            </body>
            </html>
        "#;

    let (filtered, _) = service.filter(html);
    assert!(filtered.contains("Content"));
}

#[test]
fn test_filter_with_config() {
    let service = DefaultContentFilterService::new();
    let config = ContentFilterConfig::default();
    let html = r#"<html><body><p>Test</p></body></html>"#;

    let (filtered, _) = service.filter_with_config(html, &config);
    assert!(filtered.contains("Test"));
}

#[test]
fn test_removal_selectors() {
    let service = DefaultContentFilterService::new();
    let selectors = service.build_removal_selectors(&ContentFilterConfig::default());
    assert!(selectors.contains(&"nav".to_string()));
    assert!(selectors.contains(&"#header".to_string()));
    assert!(selectors.contains(&".popup".to_string()));
    assert!(selectors.contains(&"iframe".to_string()));
}

#[test]
fn test_service_container_wiring() {
    let container = ServiceContainer::new();
    assert_eq!(container.stealth.user_agents.len(), 8);

    let custom = DefaultStealthService::with_config(StealthConfig {
        rotate_user_agent: false,
        random_delays: false,
        randomize_tls: false,
        custom_user_agents: vec!["One".to_string()],
    });
    let built = ServiceContainer::builder().with_stealth(custom).build();
    assert_eq!(built.stealth.user_agents, vec!["One".to_string()]);
}
