//! Tokens as produced by the external tokenizer.
//!
//! The engine consumes a read-only list of extracted tokens, each carrying
//! its kind, the text it covers, and a span of positions into the source.

use vstd::prelude::*;

verus! {

/// The kind of a single token.
#[derive(Clone, Copy, Debug, PartialEq, Eq, Structural)]
pub enum Token {
    /// A run of word characters.
    Word,
    /// A run of spaces or tabs.
    Whitespace,
    /// A single line break.
    LineBreak,
    /// A blank line: two or more consecutive line breaks.
    ParagraphBreak,
    /// `[[`, opening a block.
    LeftBlock,
    /// `[[/`, opening a block end tag.
    LeftBlockEnd,
    /// `]]`, closing a block head or end tag.
    RightBlock,
    /// `**`, toggling bold formatting.
    Bold,
    /// One or more `+` at the start of a line; the slice length is the level.
    Heading,
    /// `|`.
    Pipe,
    /// `=`.
    Equals,
    /// A quoted string literal.
    StringLiteral,
    /// Any other punctuation.
    Punctuation,
    /// The position past the last token; only warnings carry it.
    InputEnd,
}

/// One token produced by the tokenizer: its kind, the text it covers,
/// and the half-open span of source positions it occupies.
#[derive(Clone, Debug)]
pub struct ExtractedToken {
    pub token: Token,
    pub slice: String,
    pub span_start: usize,
    pub span_end: usize,
}

impl ExtractedToken {
    /// The token lies within a source of length `limit`.
    pub open spec fn wf(&self, limit: nat) -> bool {
        self.span_start <= self.span_end && self.span_end <= limit
    }
}

/// The output of the external tokenizer: the source text together with
/// the token list extracted from it.
#[derive(Clone, Debug)]
pub struct Tokenization {
    pub text: String,
    pub tokens: Vec<ExtractedToken>,
}

impl Tokenization {
    /// Every token's span lies within the source's range.
    pub open spec fn wf(&self) -> bool {
        forall|i: int|
            0 <= i < self.tokens@.len() ==> (#[trigger] self.tokens@[i]).wf(self.text@.len())
    }

    pub fn new(text: String, tokens: Vec<ExtractedToken>) -> (r: Tokenization)
        requires
            forall|i: int|
                0 <= i < tokens@.len() ==> (#[trigger] tokens@[i]).wf(text@.len()),
        ensures
            r.wf(),
            r.text == text,
            r.tokens == tokens,
    {
        Tokenization { text, tokens }
    }
}

} // verus!
