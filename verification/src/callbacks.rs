//! The capability interface supplied by the host: resource lookups that
//! rules and renderers delegate outward.
//!
//! Each operation is paired with a specification function of the same
//! implementor, so that callers know exactly that the returned value is
//! the implementor's answer for the given arguments and nothing more.

use vstd::prelude::*;
use crate::settings::{PageInfo, PageRef, WikitextSettings};
use crate::tree::Attribute;

verus! {

/// What the host can resolve for the engine. Implementations answer from
/// whatever store they have; the contracts tie each answer to the
/// implementor's own specification of it.
pub trait PageCallbacks: Sized {
    /// The URL, if any, that the implementor resolves an image source to,
    /// for the given page and settings.
    spec fn image_link_spec(
        &self,
        source: Seq<char>,
        info: PageInfo,
        settings: WikitextSettings,
    ) -> Option<Seq<char>>;

    /// The markup the implementor renders a module invocation to.
    spec fn module_spec(&self, name: Seq<char>, params: Seq<Attribute>, text: Seq<char>) -> Seq<
        char,
    >;

    /// The localized message for a key.
    spec fn message_spec(&self, key: Seq<char>) -> Seq<char>;

    /// The page metadata, if any, behind a page reference.
    spec fn page_info_spec(&self, page_ref: PageRef) -> Option<PageInfo>;

    /// The wikitext, if any, included from a page reference.
    spec fn included_wikitext_spec(&self, page_ref: PageRef) -> Option<Seq<char>>;

    /// Resolve an image source to a URL.
    fn get_image_link(
        &self,
        source: &String,
        info: &PageInfo,
        settings: &WikitextSettings,
    ) -> (r: Option<String>)
        ensures
            match (r, self.image_link_spec(source@, *info, *settings)) {
                (Option::Some(u), Option::Some(su)) => u@ == su,
                (Option::None, Option::None) => true,
                _ => false,
            },
    ;

    /// Render a module invocation to markup.
    fn render_module(&self, name: &String, params: &Vec<Attribute>, text: &String) -> (r: String)
        ensures
            r@ == self.module_spec(name@, params@, text@),
    ;

    /// Fetch the localized message for a key.
    fn get_message(&self, key: &str) -> (r: String)
        ensures
            r@ == self.message_spec(key@),
    ;

    /// Look up the metadata of another page.
    fn get_page_info(&self, page_ref: &PageRef) -> (r: Option<PageInfo>)
        ensures
            r == self.page_info_spec(*page_ref),
    ;

    /// Fetch the wikitext a reference includes.
    fn fetch_included_wikitext(&self, page_ref: &PageRef) -> (r: Option<String>)
        ensures
            match (r, self.included_wikitext_spec(*page_ref)) {
                (Option::Some(t), Option::Some(st)) => t@ == st,
                (Option::None, Option::None) => true,
                _ => false,
            },
    ;
}

/// The do-nothing host: resolves no image, renders no module, echoes
/// message keys, knows no pages. The test default.
pub struct NullCallbacks;

impl PageCallbacks for NullCallbacks {
    open spec fn image_link_spec(
        &self,
        source: Seq<char>,
        info: PageInfo,
        settings: WikitextSettings,
    ) -> Option<Seq<char>> {
        Option::None
    }

    open spec fn module_spec(
        &self,
        name: Seq<char>,
        params: Seq<Attribute>,
        text: Seq<char>,
    ) -> Seq<char> {
        Seq::empty()
    }

    open spec fn message_spec(&self, key: Seq<char>) -> Seq<char> {
        key
    }

    open spec fn page_info_spec(&self, page_ref: PageRef) -> Option<PageInfo> {
        Option::None
    }

    open spec fn included_wikitext_spec(&self, page_ref: PageRef) -> Option<Seq<char>> {
        Option::None
    }

    fn get_image_link(
        &self,
        source: &String,
        info: &PageInfo,
        settings: &WikitextSettings,
    ) -> (r: Option<String>) {
        Option::None
    }

    fn render_module(&self, name: &String, params: &Vec<Attribute>, text: &String) -> (r: String) {
        String::new()
    }

    fn get_message(&self, key: &str) -> (r: String) {
        key.to_owned()
    }

    fn get_page_info(&self, page_ref: &PageRef) -> (r: Option<PageInfo>) {
        Option::None
    }

    fn fetch_included_wikitext(&self, page_ref: &PageRef) -> (r: Option<String>) {
        Option::None
    }
}

/// A host answering from fixed values: one image URL for every source,
/// one module output, one message. Handy wherever the host's store is a
/// known table.
pub struct StaticCallbacks {
    pub image_url: Option<String>,
    pub module_output: String,
    pub message: String,
}

impl PageCallbacks for StaticCallbacks {
    open spec fn image_link_spec(
        &self,
        source: Seq<char>,
        info: PageInfo,
        settings: WikitextSettings,
    ) -> Option<Seq<char>> {
        match self.image_url {
            Option::Some(u) => Option::Some(u@),
            Option::None => Option::None,
        }
    }

    open spec fn module_spec(
        &self,
        name: Seq<char>,
        params: Seq<Attribute>,
        text: Seq<char>,
    ) -> Seq<char> {
        self.module_output@
    }

    open spec fn message_spec(&self, key: Seq<char>) -> Seq<char> {
        self.message@
    }

    open spec fn page_info_spec(&self, page_ref: PageRef) -> Option<PageInfo> {
        Option::None
    }

    open spec fn included_wikitext_spec(&self, page_ref: PageRef) -> Option<Seq<char>> {
        Option::None
    }

    fn get_image_link(
        &self,
        source: &String,
        info: &PageInfo,
        settings: &WikitextSettings,
    ) -> (r: Option<String>) {
        match &self.image_url {
            Option::Some(u) => Option::Some(u.clone()),
            Option::None => Option::None,
        }
    }

    fn render_module(&self, name: &String, params: &Vec<Attribute>, text: &String) -> (r: String) {
        self.module_output.clone()
    }

    fn get_message(&self, key: &str) -> (r: String) {
        self.message.clone()
    }

    fn get_page_info(&self, page_ref: &PageRef) -> (r: Option<PageInfo>) {
        Option::None
    }

    fn fetch_included_wikitext(&self, page_ref: &PageRef) -> (r: Option<String>) {
        Option::None
    }
}

} // verus!
