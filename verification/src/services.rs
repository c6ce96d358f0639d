//! The service layer: one container wiring the stealth, Markdown, content
//! filter and output formatter services, with a builder for swapping any of
//! them in configured form.
use vstd::prelude::*;

use crate::content_filter::{ContentFilterConfig, DefaultContentFilterService};
use crate::markdown::{DefaultMarkdownService, MarkdownConfig};
use crate::output_formatter::DefaultOutputFormatterService;
use crate::stealth::{DefaultStealthService, StealthConfig};

verus! {

/// A service that the crawl pipeline can hold and share.
pub trait Service {

}

impl Service for DefaultStealthService {

}

impl Service for DefaultMarkdownService {

}

impl Service for DefaultContentFilterService {

}

impl Service for DefaultOutputFormatterService {

}

/// The services a crawl uses.
pub struct ServiceContainer {
    pub stealth: DefaultStealthService,
    pub markdown: DefaultMarkdownService,
    pub content_filter: DefaultContentFilterService,
    pub output_formatter: DefaultOutputFormatterService,
}

impl ServiceContainer {
    /// A container with every service in stock configuration.
    pub fn new() -> (c: Self)
        ensures
            c.stealth.user_agents@.len() == 8,
    {
        ServiceContainer {
            stealth: DefaultStealthService::new(),
            markdown: DefaultMarkdownService::new(),
            content_filter: DefaultContentFilterService::new(),
            output_formatter: DefaultOutputFormatterService::new(),
        }
    }

    /// A builder starting from no chosen services.
    pub fn builder() -> (b: ServiceContainerBuilder)
        ensures
            b.stealth is None,
            b.markdown is None,
            b.content_filter is None,
            b.output_formatter is None,
    {
        ServiceContainerBuilder {
            stealth: None,
            markdown: None,
            content_filter: None,
            output_formatter: None,
        }
    }
}

/// Chooses services one by one; anything not chosen gets its stock form.
pub struct ServiceContainerBuilder {
    pub stealth: Option<DefaultStealthService>,
    pub markdown: Option<DefaultMarkdownService>,
    pub content_filter: Option<DefaultContentFilterService>,
    pub output_formatter: Option<DefaultOutputFormatterService>,
}

impl ServiceContainerBuilder {
    /// Chooses the stealth service.
    pub fn with_stealth(self, service: DefaultStealthService) -> (b: Self)
        ensures
            b.stealth == Some(service),
            b.markdown == self.markdown,
            b.content_filter == self.content_filter,
            b.output_formatter == self.output_formatter,
    {
        ServiceContainerBuilder { stealth: Some(service), ..self }
    }

    /// Chooses the Markdown service.
    pub fn with_markdown(self, service: DefaultMarkdownService) -> (b: Self)
        ensures
            b.markdown == Some(service),
            b.stealth == self.stealth,
            b.content_filter == self.content_filter,
            b.output_formatter == self.output_formatter,
    {
        ServiceContainerBuilder { markdown: Some(service), ..self }
    }

    /// Chooses the content filter service.
    pub fn with_content_filter(self, service: DefaultContentFilterService) -> (b: Self)
        ensures
            b.content_filter == Some(service),
            b.stealth == self.stealth,
            b.markdown == self.markdown,
            b.output_formatter == self.output_formatter,
    {
        ServiceContainerBuilder { content_filter: Some(service), ..self }
    }

    /// Chooses the output formatter service.
    pub fn with_output_formatter(self, service: DefaultOutputFormatterService) -> (b: Self)
        ensures
            b.output_formatter == Some(service),
            b.stealth == self.stealth,
            b.markdown == self.markdown,
            b.content_filter == self.content_filter,
    {
        ServiceContainerBuilder { output_formatter: Some(service), ..self }
    }

    /// Builds the container: every chosen service as chosen, the rest in
    /// stock form.
    pub fn build(self) -> (c: ServiceContainer)
        ensures
            self.stealth matches Some(s) ==> c.stealth == s,
            self.markdown matches Some(s) ==> c.markdown == s,
            self.content_filter matches Some(s) ==> c.content_filter == s,
            self.output_formatter matches Some(s) ==> c.output_formatter == s,
    {
        let stealth = match self.stealth {
            Some(s) => s,
            None => DefaultStealthService::new(),
        };
        let markdown = match self.markdown {
            Some(s) => s,
            None => DefaultMarkdownService::new(),
        };
        let content_filter = match self.content_filter {
            Some(s) => s,
            None => DefaultContentFilterService::new(),
        };
        let output_formatter = match self.output_formatter {
            Some(s) => s,
            None => DefaultOutputFormatterService::new(),
        };
        ServiceContainer { stealth, markdown, content_filter, output_formatter }
    }
}

/// Wires the services for one run from the command-line choices: stealth
/// rotation when asked, front matter only under Markdown output, and either
/// the full content-filter rules or a minimal script-and-style pass.
pub fn build_services(stealth: bool, filter_content: bool, markdown: bool) -> (c: ServiceContainer)
    ensures
        c.stealth.config.rotate_user_agent,
        !c.stealth.config.random_delays,
        c.markdown.config.include_frontmatter == markdown,
        c.markdown.config.include_source_url,
        filter_content ==> c.content_filter.config.remove_nav,
        !filter_content ==> !c.content_filter.config.remove_nav
            && c.content_filter.config.remove_scripts_styles
            && c.content_filter.config.blacklist_tags.deep_view() =~= seq!["script"@, "style"@],
{
    let mut builder = ServiceContainer::builder();

    if stealth {
        let stealth_config = StealthConfig {
            rotate_user_agent: true,
            random_delays: false,
            randomize_tls: false,
            custom_user_agents: vec![],
        };
        builder = builder.with_stealth(DefaultStealthService::with_config(stealth_config));
    } else {
        builder = builder.with_stealth(DefaultStealthService::new());
    }

    let markdown_config = MarkdownConfig {
        include_frontmatter: markdown,
        include_source_url: true,
        preserve_code_blocks: true,
        max_line_length: 0,
    };
    builder = builder.with_markdown(DefaultMarkdownService::with_config(markdown_config));

    if filter_content {
        builder = builder.with_content_filter(
            DefaultContentFilterService::with_config(ContentFilterConfig::default()),
        );
    } else {
        let mut minimal_tags: Vec<String> = Vec::new();
        minimal_tags.push(String::from_str("script"));
        minimal_tags.push(String::from_str("style"));
        proof {
            assert(minimal_tags.deep_view() =~= seq!["script"@, "style"@]);
        }
        let filter_config = ContentFilterConfig {
            remove_nav: false,
            remove_footer: false,
            remove_sidebar: false,
            remove_ads: false,
            remove_scripts_styles: true,
            remove_comments: false,
            blacklist_ids: vec![],
            blacklist_classes: vec![],
            blacklist_tags: minimal_tags,
            whitelist_tags: vec![],
        };
        builder = builder.with_content_filter(
            DefaultContentFilterService::with_config(filter_config),
        );
    }

    builder = builder.with_output_formatter(DefaultOutputFormatterService::new());

    builder.build()
}

} // verus!
