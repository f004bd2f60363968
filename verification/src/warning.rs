//! Parse warnings and the result types that carry them.
//!
//! A rule that fails hard returns `Err(ParseWarning)`; the caller rolls the
//! attempt back. A rule that succeeds returns a `ParseSuccess`, which may
//! still carry non-fatal exceptions gathered along the way.

use vstd::prelude::*;
use crate::token::Token;

verus! {

/// What went wrong; one variant per diagnostic the engine can raise.
#[derive(Clone, Copy, Debug, PartialEq, Eq, Structural)]
pub enum ParseWarningKind {
    /// A block needed a head argument and none was given.
    BlockMissingArguments,
    /// `[[` was not followed by a block name.
    BlockMissingName,
    /// A block head was not closed with `]]` before the line ended.
    BlockMissingCloseBrackets,
    /// A block end tag named a different block than the one open.
    BlockExpectedEnd,
    /// A rule matched the opening token but could not complete.
    RuleFailed,
    /// Dispatch made no progress for too many consecutive attempts;
    /// this engine's dispatch always advances, so nothing raises it.
    NoRulesMatch,
    /// Nested rules exceeded the configured recursion depth.
    MaxDepthExceeded,
    /// The cursor stepped past the end of input.
    EndOfInput,
    /// A manual line break; informational, dropped from final warnings.
    ManualBreak,
}

/// A diagnostic anchored at a token: its kind, the token it points at,
/// the rule that raised it, and the span of source positions it covers.
#[derive(Clone, Debug)]
pub struct ParseWarning {
    pub kind: ParseWarningKind,
    pub token: Token,
    pub rule: String,
    pub span_start: usize,
    pub span_end: usize,
}

impl ParseWarning {
    /// The warning's span lies within a source of length `limit`.
    pub open spec fn span_wf(&self, limit: nat) -> bool {
        self.span_start <= self.span_end && self.span_end <= limit
    }
}

/// A non-fatal event gathered during parsing. Currently only warnings;
/// a tagged variant so that other exception kinds can be added.
#[derive(Clone, Debug)]
pub enum ParseException {
    Warning(ParseWarning),
}

impl ParseException {
    /// The exception's span lies within a source of length `limit`.
    pub open spec fn span_wf(&self, limit: nat) -> bool {
        match self {
            ParseException::Warning(w) => w.span_wf(limit),
        }
    }
}

/// All exceptions in the list have spans within a source of length `limit`.
pub open spec fn exceptions_wf(exceptions: Seq<ParseException>, limit: nat) -> bool {
    forall|i: int| 0 <= i < exceptions.len() ==> (#[trigger] exceptions[i]).span_wf(limit)
}

/// All warnings in the list have spans within a source of length `limit`.
pub open spec fn warnings_wf(warnings: Seq<ParseWarning>, limit: nat) -> bool {
    forall|i: int| 0 <= i < warnings.len() ==> (#[trigger] warnings[i]).span_wf(limit)
}

/// A successful rule outcome: the produced item, the exceptions gathered
/// while producing it, and whether the item may live inside a paragraph.
#[derive(Clone, Debug)]
pub struct ParseSuccess<T> {
    pub item: T,
    pub exceptions: Vec<ParseException>,
    pub paragraph_safe: bool,
}

/// The outcome of one rule attempt: success, or a hard failure that the
/// caller answers with a rollback.
pub type ParseResult<T> = Result<ParseSuccess<T>, ParseWarning>;

} // verus!
