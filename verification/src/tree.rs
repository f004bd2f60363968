//! The abstract syntax tree: elements, attributes, and the final document.

use vstd::prelude::*;
use crate::warning::ParseWarning;
use crate::settings::PageRef;

verus! {

/// One attribute on an element, a name and a value.
#[derive(Clone, Debug, PartialEq)]
pub struct Attribute {
    pub key: String,
    pub value: String,
}

/// The kind of a generic container element.
#[derive(Clone, Copy, Debug, PartialEq, Eq, Structural)]
pub enum ContainerType {
    Paragraph,
    Div,
    Span,
    Bold,
    Italic,
    /// A heading with its level, 1 through 6.
    Heading(u8),
    ListItem,
}

/// What kind of link an anchor element represents.
#[derive(Clone, Copy, Debug, PartialEq, Eq, Structural)]
pub enum LinkType {
    Direct,
    Page,
    TableOfContents,
}

/// Where a linked image or anchor opens.
#[derive(Clone, Copy, Debug, PartialEq, Eq, Structural)]
pub enum AnchorTarget {
    Same,
    NewTab,
}

impl AnchorTarget {
    /// The value the HTML `target` attribute carries for this variant.
    pub fn html_attr(self) -> (r: &'static str)
        ensures
            self is Same ==> r@ == "_self"@,
            self is NewTab ==> r@ == "_blank"@,
    {
        match self {
            AnchorTarget::Same => "_self",
            AnchorTarget::NewTab => "_blank",
        }
    }
}

/// Horizontal placement of an image.
#[derive(Clone, Copy, Debug, PartialEq, Eq, Structural)]
pub enum Alignment {
    NoAlignment,
    Left,
    Right,
    Center,
}

/// An image's alignment together with whether it floats.
#[derive(Clone, Copy, Debug, PartialEq, Eq, Structural)]
pub struct FloatAlignment {
    pub align: Alignment,
    pub float: bool,
}

/// A node of the document tree.
#[derive(Debug, PartialEq)]
pub enum Element {
    /// A run of plain text.
    Text(String),
    /// A generic container with children and attributes.
    Container(ContainerType, Vec<Element>, Vec<Attribute>),
    /// An anchor: its kind, destination, text label, and where it opens.
    Link(LinkType, String, String, Option<AnchorTarget>),
    /// An image: source, optional link wrapped around it, where that link
    /// opens, optional alignment, and extra attributes.
    Image(String, Option<String>, Option<AnchorTarget>, Option<FloatAlignment>, Vec<Attribute>),
    /// A module invocation: name, parameters, and raw body text.
    Module(String, Vec<Attribute>, String),
    /// A reference to the footnote with the given index.
    FootnoteRef(usize),
    /// The block that lists all footnotes: optional title, and whether
    /// it is hidden.
    FootnoteBlock(Option<String>, bool),
    /// The marker where the table of contents is rendered.
    TableOfContents,
    /// A list of children spliced into the parent with no container.
    Fragment(Vec<Element>),
    /// A manual line break.
    LineBreak,
    /// A horizontal rule.
    HorizontalRule,
}

/// How many of the elements, at the top level of the list, are footnote
/// blocks.
pub open spec fn count_footnote_blocks(elements: Seq<Element>) -> int
    decreases elements.len(),
{
    if elements.len() == 0 {
        0
    } else {
        count_footnote_blocks(elements.drop_last())
            + if elements.last() is FootnoteBlock { 1int } else { 0int }
    }
}

/// Extending a list by elements free of footnote blocks keeps the count.
pub proof fn lemma_count_footnote_blocks_append(a: Seq<Element>, b: Seq<Element>)
    ensures
        count_footnote_blocks(a + b) == count_footnote_blocks(a) + count_footnote_blocks(b),
    decreases b.len(),
{
    if b.len() == 0 {
        assert(a + b =~= a);
    } else {
        lemma_count_footnote_blocks_append(a, b.drop_last());
        assert((a + b).drop_last() =~= a + b.drop_last());
    }
}

/// A single element counts as one footnote block exactly when it is one.
pub proof fn lemma_count_fb_one(e: Element)
    ensures
        count_footnote_blocks(seq![e]) == if e is FootnoteBlock {
            1int
        } else {
            0int
        },
{
    assert(seq![e].drop_last() =~= Seq::<Element>::empty());
    assert(count_footnote_blocks(Seq::<Element>::empty()) == 0);
}

/// What a rule hands back: nothing, one element, or several.
#[derive(Debug, PartialEq)]
pub enum Elements {
    Empty,
    Single(Element),
    Multiple(Vec<Element>),
}

impl View for Elements {
    type V = Seq<Element>;

    /// The elements as a sequence, however many there are.
    open spec fn view(&self) -> Seq<Element> {
        match self {
            Elements::Empty => Seq::empty(),
            Elements::Single(e) => seq![*e],
            Elements::Multiple(v) => v@,
        }
    }
}

/// The final, owned document: its elements and every side channel the
/// parse accumulated.
#[derive(Debug)]
pub struct SyntaxTree {
    pub elements: Vec<Element>,
    pub warnings: Vec<ParseWarning>,
    pub table_of_contents: Vec<Element>,
    pub has_toc_block: bool,
    pub footnotes: Vec<Vec<Element>>,
    pub code: Vec<(String, String)>,
    pub html: Vec<String>,
    pub internal_links: Vec<PageRef>,
}

impl SyntaxTree {
    /// Package the outputs of a finished parse into the final document.
    pub fn from_element_result(
        elements: Vec<Element>,
        warnings: Vec<ParseWarning>,
        table_of_contents: Vec<Element>,
        has_toc_block: bool,
        footnotes: Vec<Vec<Element>>,
        code: Vec<(String, String)>,
        html: Vec<String>,
        internal_links: Vec<PageRef>,
    ) -> (r: SyntaxTree)
        ensures
            r.elements == elements,
            r.warnings == warnings,
            r.table_of_contents == table_of_contents,
            r.has_toc_block == has_toc_block,
            r.footnotes == footnotes,
            r.code == code,
            r.html == html,
            r.internal_links == internal_links,
    {
        SyntaxTree {
            elements,
            warnings,
            table_of_contents,
            has_toc_block,
            footnotes,
            code,
            html,
            internal_links,
        }
    }
}

} // verus!
