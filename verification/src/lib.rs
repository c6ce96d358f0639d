//! A breadth-first web crawler core: URL admission, queue and termination
//! bookkeeping, sitemap seeding, checkpointing, and result formatting.
pub mod checkpoint;
pub mod clock;
pub mod config;
pub mod content_filter;
pub mod engine;
pub mod filters;
pub mod html;
pub mod json;
pub mod markdown;
pub mod output_format;
pub mod output_formatter;
pub mod services;
pub mod rate_limiter;
pub mod robots;
pub mod sitemap;
pub mod stealth;
pub mod text;
pub mod types;
pub mod urls;
