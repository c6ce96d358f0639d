//! The coarse output choice of a whole run: the stock pair of files, JSON
//! only, or Markdown.
use vstd::prelude::*;

use crate::text::{ascii_lower, spec_ascii_lower, str_eq};

verus! {

/// What a run writes: the stock JSON-plus-report pair, JSON only, or
/// Markdown.
#[derive(Debug, Clone, Copy, PartialEq, Eq, Structural)]
pub enum OutputFormat {
    /// JSON results plus the HTML report.
    Default,
    /// JSON results only.
    Json,
    /// Markdown, ready for language models.
    Markdown,
}

/// The run output a lower-cased name denotes, if any.
pub open spec fn spec_run_format_of(low: Seq<char>) -> Option<OutputFormat> {
    if low == "json"@ {
        Some(OutputFormat::Json)
    } else if low == "markdown"@ || low == "md"@ {
        Some(OutputFormat::Markdown)
    } else if low == "default"@ || low == "html"@ {
        Some(OutputFormat::Default)
    } else {
        None
    }
}

impl Default for OutputFormat {
    /// The stock pair.
    fn default() -> (r: Self)
        ensures
            r == OutputFormat::Default,
    {
        OutputFormat::Default
    }
}

impl OutputFormat {
    /// Parses a run output name, case-insensitively; an unknown name yields
    /// an error message naming it.
    pub fn from_str(s: &str) -> (r: Result<Self, String>)
        ensures
            match spec_run_format_of(spec_ascii_lower(s@)) {
                Some(f) => r matches Ok(g) && g == f,
                None => r matches Err(m) && m@ == "Unknown output format: "@ + s@,
            },
    {
        let low = ascii_lower(s);
        if str_eq(low.as_str(), "json") {
            Ok(OutputFormat::Json)
        } else if str_eq(low.as_str(), "markdown") || str_eq(low.as_str(), "md") {
            Ok(OutputFormat::Markdown)
        } else if str_eq(low.as_str(), "default") || str_eq(low.as_str(), "html") {
            Ok(OutputFormat::Default)
        } else {
            let mut m = String::from_str("Unknown output format: ");
            m.append(s);
            Err(m)
        }
    }
}

} // verus!
