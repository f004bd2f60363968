//! The mutable parse state: cursor, recursion depth, side-effect
//! accumulators, and a stack of transaction frames over them.
//!
//! A transaction frame records, per configured flag set, how much of each
//! guarded accumulator existed when the frame was pushed. Accumulators only
//! ever grow between push and pop, so `rollback` restores the guarded
//! substate exactly by truncating back to the recorded lengths, and
//! `commit` folds the frame into its parent by simply dropping it: entries
//! appended since the push stay, in document order.

use vstd::prelude::*;
use crate::token::{ExtractedToken, Token, Tokenization};
use crate::tree::Element;
use crate::settings::{PageInfo, PageRef, WikitextSettings};
use crate::warning::{ParseWarning, ParseWarningKind};

verus! {

/// The most deeply nested rules may recurse before `MaxDepthExceeded`.
pub const MAX_DEPTH: usize = 100;

/// Which substate a transaction frame guards. Unmasked substate is shared
/// with the parent and never rolled back.
#[derive(Clone, Copy, Debug, PartialEq, Eq, Structural)]
pub struct TransactionFlags {
    pub cursor: bool,
    pub table_of_contents: bool,
    pub footnotes: bool,
    pub code: bool,
    pub html: bool,
    pub internal_links: bool,
    pub block_flags: bool,
}

impl TransactionFlags {
    /// Guard everything, the cursor included; what rule dispatch uses, so
    /// that a failed attempt leaves no trace at all.
    pub fn all() -> (r: TransactionFlags)
        ensures
            r.cursor && r.table_of_contents && r.footnotes && r.code && r.html
                && r.internal_links && r.block_flags,
    {
        TransactionFlags {
            cursor: true,
            table_of_contents: true,
            footnotes: true,
            code: true,
            html: true,
            internal_links: true,
            block_flags: true,
        }
    }

    /// Guard every accumulator but share the cursor; what conditional
    /// blocks use, so that discarding a body forgets its side effects
    /// without re-reading its tokens.
    pub fn accumulators() -> (r: TransactionFlags)
        ensures
            !r.cursor && r.table_of_contents && r.footnotes && r.code && r.html
                && r.internal_links && r.block_flags,
    {
        TransactionFlags {
            cursor: false,
            table_of_contents: true,
            footnotes: true,
            code: true,
            html: true,
            internal_links: true,
            block_flags: true,
        }
    }
}

/// One snapshot on the transaction stack: the flag set it guards and how
/// much of each guarded substate existed when it was pushed.
#[derive(Clone, Copy, Debug)]
pub struct TransactionFrame {
    pub flags: TransactionFlags,
    pub saved_index: usize,
    pub saved_toc_len: usize,
    pub saved_footnotes_len: usize,
    pub saved_code_len: usize,
    pub saved_html_len: usize,
    pub saved_links_len: usize,
    pub saved_has_footnote_block: bool,
    pub saved_has_toc_block: bool,
}

/// One frame's recorded lengths never exceed another's pushed later.
pub open spec fn frame_le(a: TransactionFrame, b: TransactionFrame) -> bool {
    a.saved_index <= b.saved_index
        && a.saved_toc_len <= b.saved_toc_len
        && a.saved_footnotes_len <= b.saved_footnotes_len
        && a.saved_code_len <= b.saved_code_len
        && a.saved_html_len <= b.saved_html_len
        && a.saved_links_len <= b.saved_links_len
}

/// The mutable parse state.
pub struct Parser<'t> {
    /// The input, read-only, borrowed from the tokenizer's output.
    pub tokens: &'t Vec<ExtractedToken>,
    /// The length of the source text, bounding every span.
    pub text_len: usize,
    /// The cursor: the next token to consume.
    pub index: usize,
    /// How many nested rules are currently running.
    pub depth: usize,
    /// Metadata of the page being parsed.
    pub page_info: &'t PageInfo,
    /// Configuration for this run.
    pub settings: &'t WikitextSettings,
    /// Accumulated `(depth, title)` pairs for the table of contents.
    pub table_of_contents: Vec<(usize, String)>,
    /// Accumulated footnotes, each the contents of one footnote.
    pub footnotes: Vec<Vec<Element>>,
    /// Accumulated code blocks, each a language and a body.
    pub code: Vec<(String, String)>,
    /// Accumulated raw HTML bodies.
    pub html: Vec<String>,
    /// Accumulated references to other pages.
    pub internal_links: Vec<PageRef>,
    /// Whether a footnote block was placed.
    pub has_footnote_block: bool,
    /// Whether a table-of-contents block was placed.
    pub has_toc_block: bool,
    /// The transaction stack, innermost last.
    pub frames: Vec<TransactionFrame>,
}

/// A word whose appearance as a token can begin a footnote construct.
pub open spec fn is_footnote_word(s: Seq<char>) -> bool {
    s == "footnote"@ || s == "footnoteblock"@
}

/// The word at the given position stands where a block name stands:
/// right after `[[`, or one space later.
pub open spec fn follows_block_open(tokens: Seq<ExtractedToken>, i: int) -> bool {
    (i >= 1 && tokens[i - 1].token is LeftBlock) || (i >= 2 && tokens[i - 1].token is Whitespace
        && tokens[i - 2].token is LeftBlock)
}

/// No token of the input can begin a footnote construct: nowhere does a
/// footnote word stand as a block name. The words may still appear as
/// plain text.
pub open spec fn no_footnote_constructs(tokens: Seq<ExtractedToken>) -> bool {
    forall|i: int|
        0 <= i < tokens.len()
            ==> !((#[trigger] tokens[i]).token is Word && is_footnote_word(tokens[i].slice@)
                && follows_block_open(tokens, i))
}

impl<'t> Parser<'t> {
    /// Every token's span lies within the source's range.
    pub open spec fn tokens_wf(&self) -> bool {
        forall|i: int|
            0 <= i < self.tokens@.len() ==> (#[trigger] self.tokens@[i]).wf(self.text_len as nat)
    }

    /// The frame's recorded lengths do not exceed the current state.
    pub open spec fn frame_wf(&self, f: TransactionFrame) -> bool {
        f.saved_index <= self.index
            && f.saved_toc_len <= self.table_of_contents@.len()
            && f.saved_footnotes_len <= self.footnotes@.len()
            && f.saved_code_len <= self.code@.len()
            && f.saved_html_len <= self.html@.len()
            && f.saved_links_len <= self.internal_links@.len()
    }

    /// The parser's invariant: the cursor is within bounds, spans are
    /// within the source, and the transaction stack is properly nested.
    pub open spec fn wf(&self) -> bool {
        self.index <= self.tokens@.len()
            && self.tokens_wf()
            && (forall|i: int|
                0 <= i < self.frames@.len() ==> self.frame_wf(#[trigger] self.frames@[i]))
            && (forall|i: int, j: int|
                0 <= i <= j < self.frames@.len()
                    ==> frame_le(#[trigger] self.frames@[i], #[trigger] self.frames@[j]))
    }

    /// The frame that a transaction begun now would push.
    pub open spec fn snapshot(&self, flags: TransactionFlags) -> TransactionFrame {
        TransactionFrame {
            flags,
            saved_index: self.index,
            saved_toc_len: self.table_of_contents@.len() as usize,
            saved_footnotes_len: self.footnotes@.len() as usize,
            saved_code_len: self.code@.len() as usize,
            saved_html_len: self.html@.len() as usize,
            saved_links_len: self.internal_links@.len() as usize,
            saved_has_footnote_block: self.has_footnote_block,
            saved_has_toc_block: self.has_toc_block,
        }
    }

    /// The parts of the parser no operation may change.
    pub open spec fn same_base(&self, post: &Parser<'t>) -> bool {
        post.tokens == self.tokens && post.text_len == self.text_len
            && post.page_info == self.page_info && post.settings == self.settings
    }

    /// The accumulators are untouched.
    pub open spec fn same_acc(&self, post: &Parser<'t>) -> bool {
        post.table_of_contents == self.table_of_contents && post.footnotes == self.footnotes
            && post.code == self.code && post.html == self.html
            && post.internal_links == self.internal_links
            && post.has_footnote_block == self.has_footnote_block
            && post.has_toc_block == self.has_toc_block
    }
}

/// Accumulators only grow, keeping document order, and the two has-block
/// flags only latch on.
pub open spec fn acc_extends<'t>(pre: Parser<'t>, post: Parser<'t>) -> bool {
    pre.table_of_contents@.is_prefix_of(post.table_of_contents@)
        && pre.footnotes@.is_prefix_of(post.footnotes@)
        && pre.code@.is_prefix_of(post.code@)
        && pre.html@.is_prefix_of(post.html@)
        && pre.internal_links@.is_prefix_of(post.internal_links@)
        && (pre.has_footnote_block ==> post.has_footnote_block)
        && (pre.has_toc_block ==> post.has_toc_block)
}

/// What every balanced parsing step guarantees about the parser: the input
/// and the transaction stack are as before, the cursor moved only forward,
/// the recursion depth is restored, accumulators were only extended, and
/// footnote state moved only if the input names a footnote construct.
pub open spec fn rule_frame<'t>(pre: Parser<'t>, post: Parser<'t>) -> bool {
    pre.same_base(&post)
        && post.frames@ == pre.frames@
        && post.depth == pre.depth
        && pre.index <= post.index <= post.tokens@.len()
        && acc_extends(pre, post)
        && (no_footnote_constructs(pre.tokens@)
            ==> post.footnotes@ == pre.footnotes@
                && post.has_footnote_block == pre.has_footnote_block)
}

/// `rule_frame` composes across consecutive steps.
pub proof fn lemma_rule_frame_trans<'t>(a: Parser<'t>, b: Parser<'t>, c: Parser<'t>)
    requires
        rule_frame(a, b),
        rule_frame(b, c),
    ensures
        rule_frame(a, c),
{
    lemma_prefix_trans(a.table_of_contents@, b.table_of_contents@, c.table_of_contents@);
    lemma_prefix_trans(a.footnotes@, b.footnotes@, c.footnotes@);
    lemma_prefix_trans(a.code@, b.code@, c.code@);
    lemma_prefix_trans(a.html@, b.html@, c.html@);
    lemma_prefix_trans(a.internal_links@, b.internal_links@, c.internal_links@);
}

/// Accumulators with the same contents extend one another.
pub proof fn lemma_acc_extends_refl<'t>(a: Parser<'t>, b: Parser<'t>)
    requires
        b.table_of_contents@ == a.table_of_contents@,
        b.footnotes@ == a.footnotes@,
        b.code@ == a.code@,
        b.html@ == a.html@,
        b.internal_links@ == a.internal_links@,
        b.has_footnote_block == a.has_footnote_block,
        b.has_toc_block == a.has_toc_block,
    ensures
        acc_extends(a, b),
{
    assert(a.table_of_contents@ =~= b.table_of_contents@.subrange(
        0,
        a.table_of_contents@.len() as int,
    ));
    assert(a.footnotes@ =~= b.footnotes@.subrange(0, a.footnotes@.len() as int));
    assert(a.code@ =~= b.code@.subrange(0, a.code@.len() as int));
    assert(a.html@ =~= b.html@.subrange(0, a.html@.len() as int));
    assert(a.internal_links@ =~= b.internal_links@.subrange(0, a.internal_links@.len() as int));
}

/// Extension composes across consecutive states.
pub proof fn lemma_acc_extends_trans<'t>(a: Parser<'t>, b: Parser<'t>, c: Parser<'t>)
    requires
        acc_extends(a, b),
        acc_extends(b, c),
    ensures
        acc_extends(a, c),
{
    lemma_prefix_trans(a.table_of_contents@, b.table_of_contents@, c.table_of_contents@);
    lemma_prefix_trans(a.footnotes@, b.footnotes@, c.footnotes@);
    lemma_prefix_trans(a.code@, b.code@, c.code@);
    lemma_prefix_trans(a.html@, b.html@, c.html@);
    lemma_prefix_trans(a.internal_links@, b.internal_links@, c.internal_links@);
}

/// Prefix of a prefix is a prefix.
pub proof fn lemma_prefix_trans<T>(a: Seq<T>, b: Seq<T>, c: Seq<T>)
    requires
        a.is_prefix_of(b),
        b.is_prefix_of(c),
    ensures
        a.is_prefix_of(c),
{
    assert(a =~= c.subrange(0, a.len() as int));
}

impl<'t> Parser<'t> {
    /// Fresh state over the given tokens: cursor at the start, no depth,
    /// empty accumulators, no transactions.
    pub fn new(
        tokenization: &'t Tokenization,
        page_info: &'t PageInfo,
        settings: &'t WikitextSettings,
    ) -> (r: Parser<'t>)
        requires
            tokenization.wf(),
        ensures
            r.wf(),
            r.tokens == &tokenization.tokens,
            r.text_len == tokenization.text@.len(),
            r.index == 0,
            r.depth == 0,
            r.page_info == page_info,
            r.settings == settings,
            r.table_of_contents@.len() == 0,
            r.footnotes@.len() == 0,
            r.code@.len() == 0,
            r.html@.len() == 0,
            r.internal_links@.len() == 0,
            !r.has_footnote_block,
            !r.has_toc_block,
            r.frames@.len() == 0,
    {
        let text_len = tokenization.text.as_str().unicode_len();
        Parser {
            tokens: &tokenization.tokens,
            text_len,
            index: 0,
            depth: 0,
            page_info,
            settings,
            table_of_contents: Vec::new(),
            footnotes: Vec::new(),
            code: Vec::new(),
            html: Vec::new(),
            internal_links: Vec::new(),
            has_footnote_block: false,
            has_toc_block: false,
            frames: Vec::new(),
        }
    }

    /// Lookahead without advancing: the current token, or nothing at the
    /// end of input.
    pub fn look(&self) -> (r: Option<&ExtractedToken>)
        ensures
            match r {
                Some(t) => self.index < self.tokens@.len()
                    && *t == self.tokens@[self.index as int],
                None => self.index >= self.tokens@.len(),
            },
    {
        if self.index < self.tokens.len() {
            Some(&self.tokens[self.index])
        } else {
            None
        }
    }

    /// Advance the cursor by one token.
    pub fn step(&mut self)
        requires
            old(self).wf(),
            old(self).index < old(self).tokens@.len(),
        ensures
            final(self).wf(),
            final(self).index == old(self).index + 1,
            old(self).same_base(final(self)),
            old(self).same_acc(final(self)),
            final(self).frames == old(self).frames,
            final(self).depth == old(self).depth,
    {
        let n = self.tokens.len();
        self.index = self.index + 1;
    }

    /// A warning anchored at the current token (or at the end of input)
    /// and attributed to the named rule.
    pub fn make_warn(&self, kind: ParseWarningKind, rule: &str) -> (w: ParseWarning)
        requires
            self.wf(),
        ensures
            w.kind == kind,
            w.rule@ == rule@,
            w.span_wf(self.text_len as nat),
    {
        if self.index < self.tokens.len() {
            let t = &self.tokens[self.index];
            ParseWarning {
                kind,
                token: t.token,
                rule: rule.to_owned(),
                span_start: t.span_start,
                span_end: t.span_end,
            }
        } else {
            ParseWarning {
                kind,
                token: Token::InputEnd,
                rule: rule.to_owned(),
                span_start: self.text_len,
                span_end: self.text_len,
            }
        }
    }

    /// Enter a nested rule; fails with `MaxDepthExceeded` past the bound.
    pub fn enter_depth(&mut self, rule: &str) -> (r: Result<(), ParseWarning>)
        requires
            old(self).wf(),
        ensures
            final(self).wf(),
            old(self).same_base(final(self)),
            old(self).same_acc(final(self)),
            final(self).frames == old(self).frames,
            final(self).index == old(self).index,
            match r {
                Ok(()) => old(self).depth < MAX_DEPTH && final(self).depth == old(self).depth
                    + 1,
                Err(w) => old(self).depth >= MAX_DEPTH && final(self).depth == old(self).depth
                    && w.kind == ParseWarningKind::MaxDepthExceeded && w.span_wf(
                    final(self).text_len as nat,
                ),
            },
    {
        if self.depth < MAX_DEPTH {
            self.depth = self.depth + 1;
            Ok(())
        } else {
            Err(self.make_warn(ParseWarningKind::MaxDepthExceeded, rule))
        }
    }

    /// Leave a nested rule.
    pub fn leave_depth(&mut self)
        requires
            old(self).wf(),
            old(self).depth > 0,
        ensures
            final(self).wf(),
            old(self).same_base(final(self)),
            old(self).same_acc(final(self)),
            final(self).frames == old(self).frames,
            final(self).index == old(self).index,
            final(self).depth == old(self).depth - 1,
    {
        self.depth = self.depth - 1;
    }

    /// Record a `(depth, title)` pair for the table of contents.
    pub fn push_toc(&mut self, depth: usize, title: String)
        requires
            old(self).wf(),
        ensures
            final(self).wf(),
            old(self).same_base(final(self)),
            final(self).frames == old(self).frames,
            final(self).index == old(self).index,
            final(self).depth == old(self).depth,
            final(self).table_of_contents@ == old(self).table_of_contents@.push((depth, title)),
            final(self).footnotes == old(self).footnotes,
            final(self).code == old(self).code,
            final(self).html == old(self).html,
            final(self).internal_links == old(self).internal_links,
            final(self).has_footnote_block == old(self).has_footnote_block,
            final(self).has_toc_block == old(self).has_toc_block,
    {
        self.table_of_contents.push((depth, title));
    }

    /// Record one footnote's contents.
    pub fn push_footnote(&mut self, contents: Vec<Element>)
        requires
            old(self).wf(),
        ensures
            final(self).wf(),
            old(self).same_base(final(self)),
            final(self).frames == old(self).frames,
            final(self).index == old(self).index,
            final(self).depth == old(self).depth,
            final(self).footnotes@ == old(self).footnotes@.push(contents),
            final(self).table_of_contents == old(self).table_of_contents,
            final(self).code == old(self).code,
            final(self).html == old(self).html,
            final(self).internal_links == old(self).internal_links,
            final(self).has_footnote_block == old(self).has_footnote_block,
            final(self).has_toc_block == old(self).has_toc_block,
    {
        self.footnotes.push(contents);
    }

    /// Record one code block.
    pub fn push_code(&mut self, language: String, body: String)
        requires
            old(self).wf(),
        ensures
            final(self).wf(),
            old(self).same_base(final(self)),
            final(self).frames == old(self).frames,
            final(self).index == old(self).index,
            final(self).depth == old(self).depth,
            final(self).code@ == old(self).code@.push((language, body)),
            final(self).table_of_contents == old(self).table_of_contents,
            final(self).footnotes == old(self).footnotes,
            final(self).html == old(self).html,
            final(self).internal_links == old(self).internal_links,
            final(self).has_footnote_block == old(self).has_footnote_block,
            final(self).has_toc_block == old(self).has_toc_block,
    {
        self.code.push((language, body));
    }

    /// Record one raw HTML body.
    pub fn push_html(&mut self, body: String)
        requires
            old(self).wf(),
        ensures
            final(self).wf(),
            old(self).same_base(final(self)),
            final(self).frames == old(self).frames,
            final(self).index == old(self).index,
            final(self).depth == old(self).depth,
            final(self).html@ == old(self).html@.push(body),
            final(self).table_of_contents == old(self).table_of_contents,
            final(self).footnotes == old(self).footnotes,
            final(self).code == old(self).code,
            final(self).internal_links == old(self).internal_links,
            final(self).has_footnote_block == old(self).has_footnote_block,
            final(self).has_toc_block == old(self).has_toc_block,
    {
        self.html.push(body);
    }

    /// Record a reference to another page.
    pub fn push_internal_link(&mut self, link: PageRef)
        requires
            old(self).wf(),
        ensures
            final(self).wf(),
            old(self).same_base(final(self)),
            final(self).frames == old(self).frames,
            final(self).index == old(self).index,
            final(self).depth == old(self).depth,
            final(self).internal_links@ == old(self).internal_links@.push(link),
            final(self).table_of_contents == old(self).table_of_contents,
            final(self).footnotes == old(self).footnotes,
            final(self).code == old(self).code,
            final(self).html == old(self).html,
            final(self).has_footnote_block == old(self).has_footnote_block,
            final(self).has_toc_block == old(self).has_toc_block,
    {
        self.internal_links.push(link);
    }

    /// Note that a footnote block was placed.
    pub fn mark_has_footnote_block(&mut self)
        requires
            old(self).wf(),
        ensures
            final(self).wf(),
            old(self).same_base(final(self)),
            final(self).frames == old(self).frames,
            final(self).index == old(self).index,
            final(self).depth == old(self).depth,
            final(self).has_footnote_block,
            final(self).table_of_contents == old(self).table_of_contents,
            final(self).footnotes == old(self).footnotes,
            final(self).code == old(self).code,
            final(self).html == old(self).html,
            final(self).internal_links == old(self).internal_links,
            final(self).has_toc_block == old(self).has_toc_block,
    {
        self.has_footnote_block = true;
    }

    /// Note that a table-of-contents block was placed.
    pub fn mark_has_toc_block(&mut self)
        requires
            old(self).wf(),
        ensures
            final(self).wf(),
            old(self).same_base(final(self)),
            final(self).frames == old(self).frames,
            final(self).index == old(self).index,
            final(self).depth == old(self).depth,
            final(self).has_toc_block,
            final(self).table_of_contents == old(self).table_of_contents,
            final(self).footnotes == old(self).footnotes,
            final(self).code == old(self).code,
            final(self).html == old(self).html,
            final(self).internal_links == old(self).internal_links,
            final(self).has_footnote_block == old(self).has_footnote_block,
    {
        self.has_toc_block = true;
    }

    /// Push a transaction frame guarding the flagged substate.
    pub fn start_transaction(&mut self, flags: TransactionFlags)
        requires
            old(self).wf(),
        ensures
            final(self).wf(),
            old(self).same_base(final(self)),
            old(self).same_acc(final(self)),
            final(self).index == old(self).index,
            final(self).depth == old(self).depth,
            final(self).frames@ == old(self).frames@.push(old(self).snapshot(flags)),
    {
        let frame = TransactionFrame {
            flags,
            saved_index: self.index,
            saved_toc_len: self.table_of_contents.len(),
            saved_footnotes_len: self.footnotes.len(),
            saved_code_len: self.code.len(),
            saved_html_len: self.html.len(),
            saved_links_len: self.internal_links.len(),
            saved_has_footnote_block: self.has_footnote_block,
            saved_has_toc_block: self.has_toc_block,
        };
        self.frames.push(frame);
    }

    /// Fold the innermost frame into its parent: everything appended since
    /// the push stays, in document order.
    pub fn commit(&mut self)
        requires
            old(self).wf(),
            old(self).frames@.len() > 0,
        ensures
            final(self).wf(),
            old(self).same_base(final(self)),
            old(self).same_acc(final(self)),
            final(self).index == old(self).index,
            final(self).depth == old(self).depth,
            final(self).frames@ == old(self).frames@.drop_last(),
    {
        let popped = self.frames.pop();
    }

    /// Discard the innermost frame, restoring every guarded part of the
    /// state to what it was when the frame was pushed.
    pub fn rollback(&mut self)
        requires
            old(self).wf(),
            old(self).frames@.len() > 0,
        ensures
            final(self).wf(),
            old(self).same_base(final(self)),
            final(self).depth == old(self).depth,
            final(self).frames@ == old(self).frames@.drop_last(),
            ({
                let f = old(self).frames@.last();
                &&& final(self).index == if f.flags.cursor {
                    f.saved_index
                } else {
                    old(self).index
                }
                &&& final(self).table_of_contents@ == if f.flags.table_of_contents {
                    old(self).table_of_contents@.subrange(0, f.saved_toc_len as int)
                } else {
                    old(self).table_of_contents@
                }
                &&& final(self).footnotes@ == if f.flags.footnotes {
                    old(self).footnotes@.subrange(0, f.saved_footnotes_len as int)
                } else {
                    old(self).footnotes@
                }
                &&& final(self).code@ == if f.flags.code {
                    old(self).code@.subrange(0, f.saved_code_len as int)
                } else {
                    old(self).code@
                }
                &&& final(self).html@ == if f.flags.html {
                    old(self).html@.subrange(0, f.saved_html_len as int)
                } else {
                    old(self).html@
                }
                &&& final(self).internal_links@ == if f.flags.internal_links {
                    old(self).internal_links@.subrange(0, f.saved_links_len as int)
                } else {
                    old(self).internal_links@
                }
                &&& final(self).has_footnote_block == if f.flags.block_flags {
                    f.saved_has_footnote_block
                } else {
                    old(self).has_footnote_block
                }
                &&& final(self).has_toc_block == if f.flags.block_flags {
                    f.saved_has_toc_block
                } else {
                    old(self).has_toc_block
                }
            }),
    {
        let frame = match self.frames.pop() {
            Some(f) => f,
            None => {
                proof {
                    assert(false);
                }
                TransactionFrame {
                    flags: TransactionFlags::all(),
                    saved_index: 0,
                    saved_toc_len: 0,
                    saved_footnotes_len: 0,
                    saved_code_len: 0,
                    saved_html_len: 0,
                    saved_links_len: 0,
                    saved_has_footnote_block: false,
                    saved_has_toc_block: false,
                }
            },
        };
        if frame.flags.cursor {
            self.index = frame.saved_index;
        }
        if frame.flags.table_of_contents {
            self.table_of_contents.truncate(frame.saved_toc_len);
        }
        if frame.flags.footnotes {
            self.footnotes.truncate(frame.saved_footnotes_len);
        }
        if frame.flags.code {
            self.code.truncate(frame.saved_code_len);
        }
        if frame.flags.html {
            self.html.truncate(frame.saved_html_len);
        }
        if frame.flags.internal_links {
            self.internal_links.truncate(frame.saved_links_len);
        }
        if frame.flags.block_flags {
            self.has_footnote_block = frame.saved_has_footnote_block;
            self.has_toc_block = frame.saved_has_toc_block;
        }
    }

    /// Move the table-of-contents entries out, leaving none behind.
    pub fn remove_table_of_contents(&mut self) -> (r: Vec<(usize, String)>)
        requires
            old(self).wf(),
            old(self).frames@.len() == 0,
        ensures
            final(self).wf(),
            r == old(self).table_of_contents,
            old(self).same_base(final(self)),
            final(self).frames == old(self).frames,
            final(self).index == old(self).index,
            final(self).depth == old(self).depth,
            final(self).table_of_contents@.len() == 0,
            final(self).footnotes == old(self).footnotes,
            final(self).code == old(self).code,
            final(self).html == old(self).html,
            final(self).internal_links == old(self).internal_links,
            final(self).has_footnote_block == old(self).has_footnote_block,
            final(self).has_toc_block == old(self).has_toc_block,
    {
        let mut out: Vec<(usize, String)> = Vec::new();
        core::mem::swap(&mut out, &mut self.table_of_contents);
        out
    }

    /// Move the footnotes out, leaving none behind.
    pub fn remove_footnotes(&mut self) -> (r: Vec<Vec<Element>>)
        requires
            old(self).wf(),
            old(self).frames@.len() == 0,
        ensures
            final(self).wf(),
            r == old(self).footnotes,
            old(self).same_base(final(self)),
            final(self).frames == old(self).frames,
            final(self).index == old(self).index,
            final(self).depth == old(self).depth,
            final(self).footnotes@.len() == 0,
            final(self).table_of_contents == old(self).table_of_contents,
            final(self).code == old(self).code,
            final(self).html == old(self).html,
            final(self).internal_links == old(self).internal_links,
            final(self).has_footnote_block == old(self).has_footnote_block,
            final(self).has_toc_block == old(self).has_toc_block,
    {
        let mut out: Vec<Vec<Element>> = Vec::new();
        core::mem::swap(&mut out, &mut self.footnotes);
        out
    }

    /// Move the code blocks out, leaving none behind.
    pub fn remove_code(&mut self) -> (r: Vec<(String, String)>)
        requires
            old(self).wf(),
            old(self).frames@.len() == 0,
        ensures
            final(self).wf(),
            r == old(self).code,
            old(self).same_base(final(self)),
            final(self).frames == old(self).frames,
            final(self).index == old(self).index,
            final(self).depth == old(self).depth,
            final(self).code@.len() == 0,
            final(self).table_of_contents == old(self).table_of_contents,
            final(self).footnotes == old(self).footnotes,
            final(self).html == old(self).html,
            final(self).internal_links == old(self).internal_links,
            final(self).has_footnote_block == old(self).has_footnote_block,
            final(self).has_toc_block == old(self).has_toc_block,
    {
        let mut out: Vec<(String, String)> = Vec::new();
        core::mem::swap(&mut out, &mut self.code);
        out
    }

    /// Move the raw HTML bodies out, leaving none behind.
    pub fn remove_html(&mut self) -> (r: Vec<String>)
        requires
            old(self).wf(),
            old(self).frames@.len() == 0,
        ensures
            final(self).wf(),
            r == old(self).html,
            old(self).same_base(final(self)),
            final(self).frames == old(self).frames,
            final(self).index == old(self).index,
            final(self).depth == old(self).depth,
            final(self).html@.len() == 0,
            final(self).table_of_contents == old(self).table_of_contents,
            final(self).footnotes == old(self).footnotes,
            final(self).code == old(self).code,
            final(self).internal_links == old(self).internal_links,
            final(self).has_footnote_block == old(self).has_footnote_block,
            final(self).has_toc_block == old(self).has_toc_block,
    {
        let mut out: Vec<String> = Vec::new();
        core::mem::swap(&mut out, &mut self.html);
        out
    }

    /// Move the internal links out, leaving none behind.
    pub fn remove_internal_links(&mut self) -> (r: Vec<PageRef>)
        requires
            old(self).wf(),
            old(self).frames@.len() == 0,
        ensures
            final(self).wf(),
            r == old(self).internal_links,
            old(self).same_base(final(self)),
            final(self).frames == old(self).frames,
            final(self).index == old(self).index,
            final(self).depth == old(self).depth,
            final(self).internal_links@.len() == 0,
            final(self).table_of_contents == old(self).table_of_contents,
            final(self).footnotes == old(self).footnotes,
            final(self).code == old(self).code,
            final(self).html == old(self).html,
            final(self).has_footnote_block == old(self).has_footnote_block,
            final(self).has_toc_block == old(self).has_toc_block,
    {
        let mut out: Vec<PageRef> = Vec::new();
        core::mem::swap(&mut out, &mut self.internal_links);
        out
    }
}

/// Rollback is observationally atomic: if a rule begins a transaction on
/// state `pre`, only ever appends to the accumulators, and leaves the frame
/// it pushed on top, then the lengths recorded in that frame cut the
/// accumulators back to exactly the contents `pre` held, and the recorded
/// cursor and flags are exactly `pre`'s. Together with the contract of
/// `rollback`, the state after rolling `post` back is `pre`'s state.
pub proof fn lemma_rollback_restores<'t>(pre: Parser<'t>, post: Parser<'t>, flags: TransactionFlags)
    requires
        post.frames@ == pre.frames@.push(pre.snapshot(flags)),
        acc_extends(pre, post),
        pre.same_base(&post),
    ensures
        ({
            let f = post.frames@.last();
            &&& f.saved_index == pre.index
            &&& post.table_of_contents@.subrange(0, f.saved_toc_len as int)
                == pre.table_of_contents@
            &&& post.footnotes@.subrange(0, f.saved_footnotes_len as int) == pre.footnotes@
            &&& post.code@.subrange(0, f.saved_code_len as int) == pre.code@
            &&& post.html@.subrange(0, f.saved_html_len as int) == pre.html@
            &&& post.internal_links@.subrange(0, f.saved_links_len as int) == pre.internal_links@
            &&& f.saved_has_footnote_block == pre.has_footnote_block
            &&& f.saved_has_toc_block == pre.has_toc_block
        }),
{
    let f = post.frames@.last();
    assert(f == pre.snapshot(flags));
    assert(pre.table_of_contents.len() == pre.table_of_contents@.len());
    assert(pre.footnotes.len() == pre.footnotes@.len());
    assert(pre.code.len() == pre.code@.len());
    assert(pre.html.len() == pre.html@.len());
    assert(pre.internal_links.len() == pre.internal_links@.len());
    assert(post.table_of_contents@.subrange(0, f.saved_toc_len as int)
        =~= pre.table_of_contents@);
    assert(post.footnotes@.subrange(0, f.saved_footnotes_len as int) =~= pre.footnotes@);
    assert(post.code@.subrange(0, f.saved_code_len as int) =~= pre.code@);
    assert(post.html@.subrange(0, f.saved_html_len as int) =~= pre.html@);
    assert(post.internal_links@.subrange(0, f.saved_links_len as int) =~= pre.internal_links@);
}

} // verus!
