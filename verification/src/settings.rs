//! Value records consulted by rules: wikitext settings and page metadata.

use vstd::prelude::*;

verus! {

/// Configuration for one parse or render run.
#[derive(Clone, Debug)]
pub struct WikitextSettings {
    /// Bypass tag conditionals: conditional bodies are always included.
    pub no_conditionals: bool,
    /// Skip module rendering: modules emit nothing.
    pub no_modules: bool,
    /// Emit heading anchors from the raw title instead of a normalized slug.
    pub use_true_ids: bool,
    /// Permit local-file image and link resolution.
    pub allow_local_paths: bool,
    /// Prefix applied when normalizing interwiki links.
    pub interwiki_prefix: String,
    /// The slug of the site the page lives on.
    pub site_slug: String,
    /// Locale used for message lookups.
    pub locale: String,
    /// When non-empty, only blocks named here are recognized.
    pub enable_block_names: Vec<String>,
    /// Blocks named here are never recognized.
    pub disable_block_names: Vec<String>,
}

impl WikitextSettings {
    /// The defaults: every feature on, empty prefixes.
    pub fn ordinary() -> (r: WikitextSettings)
        ensures
            !r.no_conditionals,
            !r.no_modules,
            !r.use_true_ids,
            !r.allow_local_paths,
    {
        WikitextSettings {
            no_conditionals: false,
            no_modules: false,
            use_true_ids: false,
            allow_local_paths: false,
            interwiki_prefix: String::new(),
            site_slug: String::new(),
            locale: String::new(),
            enable_block_names: Vec::new(),
            disable_block_names: Vec::new(),
        }
    }
}

/// A reference to another page, optionally on another site.
#[derive(Clone, Debug, PartialEq)]
pub struct PageRef {
    pub site: Option<String>,
    pub page: String,
}

/// Metadata of the page being parsed; read-only during parsing.
#[derive(Clone, Debug)]
pub struct PageInfo {
    pub page: String,
    pub category: Option<String>,
    pub site: String,
    pub title: String,
    pub alt_title: Option<String>,
    pub score: i64,
    pub tags: Vec<String>,
    pub language: String,
}

impl PageInfo {
    /// A blank page with the given tags; the rest of the fields empty.
    pub fn with_tags(tags: Vec<String>) -> (r: PageInfo)
        ensures
            r.tags == tags,
    {
        PageInfo {
            page: String::new(),
            category: Option::None,
            site: String::new(),
            title: String::new(),
            alt_title: Option::None,
            score: 0,
            tags,
            language: String::new(),
        }
    }
}

} // verus!
