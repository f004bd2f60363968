//! A parser and renderer for a Wikidot-style wikitext dialect.
//!
//! From a stream of pre-tokenized input the engine produces an abstract
//! syntax tree of typed document elements, then renders that tree to HTML.
//! The parsing core is a backtracking, rule-driven token consumer with
//! transactional side-effect accumulators (footnotes, table-of-contents
//! entries, code blocks, inline HTML, internal links), paragraph gathering,
//! element conditionals, and a depth-promotion pass that reshapes a flat
//! list of headings into a nested list.

pub mod token;
pub mod warning;
pub mod tree;
pub mod settings;
pub mod callbacks;
pub mod parser;
pub mod condition;
pub mod depth;
pub mod toc;
pub mod gather;
pub mod iftags;
pub mod parsing;
pub mod render;
