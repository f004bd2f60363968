//! The HTML backend: images, modules, and whole-tree rendering.

use ftml::callbacks::{NullCallbacks, StaticCallbacks};
use ftml::render::{render_html, render_image, render_image_element, render_image_missing,
    render_module, HtmlContext, HtmlRender, Render};
use ftml::parsing::parse;
use ftml::settings::{PageInfo, WikitextSettings};
use ftml::token::{ExtractedToken, Token, Tokenization};
use ftml::tree::{Alignment, Attribute, ContainerType, Element, FloatAlignment, SyntaxTree};

fn empty_tree(elements: Vec<Element>) -> SyntaxTree {
    SyntaxTree {
        elements,
        warnings: Vec::new(),
        table_of_contents: Vec::new(),
        has_toc_block: false,
        footnotes: Vec::new(),
        code: Vec::new(),
        html: Vec::new(),
        internal_links: Vec::new(),
    }
}

fn static_callbacks(url: Option<&str>) -> StaticCallbacks {
    StaticCallbacks {
        image_url: url.map(|u| u.to_owned()),
        module_output: "MODULE OUTPUT".to_owned(),
        message: "no image".to_owned(),
    }
}

#[test]
fn image_with_resolved_url_renders_img_tag() {
    let tree = empty_tree(vec![Element::Image(
        "source-name".to_owned(),
        None,
        None,
        None,
        Vec::new(),
    )]);
    let cb = static_callbacks(Some("http://x/y.png"));
    let info = PageInfo::with_tags(Vec::new());
    let settings = WikitextSettings::ordinary();
    let html = render_html(&tree, &info, &cb, &settings);
    assert_eq!(html, "<img src=\"http://x/y.png\" alt=\"y.png\">");
}

#[test]
fn image_without_url_renders_error_block() {
    let tree = empty_tree(vec![Element::Image(
        "source-name".to_owned(),
        None,
        None,
        None,
        Vec::new(),
    )]);
    let cb = static_callbacks(None);
    let info = PageInfo::with_tags(Vec::new());
    let settings = WikitextSettings::ordinary();
    let html = render_html(&tree, &info, &cb, &settings);
    assert_eq!(html, "<div class=\"error-block\">no image</div>");
}

#[test]
fn image_alignment_wraps_in_classed_container() {
    let cb = static_callbacks(Some("http://x/a.png"));
    let info = PageInfo::with_tags(Vec::new());
    let settings = WikitextSettings::ordinary();
    let cases = [
        (Alignment::Left, true, Some("floatleft")),
        (Alignment::Right, true, Some("floatright")),
        (Alignment::Left, false, Some("alignleft")),
        (Alignment::Right, false, Some("alignright")),
        (Alignment::Center, false, Some("aligncenter")),
        (Alignment::NoAlignment, false, None),
    ];
    for (align, float, class) in cases {
        let tree = empty_tree(vec![Element::Image(
            "s".to_owned(),
            None,
            None,
            Some(FloatAlignment { align, float }),
            Vec::new(),
        )]);
        let html = render_html(&tree, &info, &cb, &settings);
        match class {
            Some(c) => {
                assert!(html.starts_with(&format!("<div class=\"image-container {c}\">")));
                assert!(html.ends_with("</div>"));
            }
            None => assert!(html.starts_with("<img ")),
        }
    }
}

#[test]
fn linked_image_wraps_in_anchor() {
    let tree = empty_tree(vec![Element::Image(
        "s".to_owned(),
        Some("http://target/".to_owned()),
        Some(ftml::tree::AnchorTarget::NewTab),
        None,
        Vec::new(),
    )]);
    let cb = static_callbacks(Some("http://x/pic"));
    let info = PageInfo::with_tags(Vec::new());
    let settings = WikitextSettings::ordinary();
    let html = render_html(&tree, &info, &cb, &settings);
    assert_eq!(
        html,
        "<a href=\"http://target/\" target=\"_blank\"><img src=\"http://x/pic\" alt=\"pic\"></a>"
    );
}

#[test]
fn module_rendering_delegates_to_callbacks() {
    let tree = empty_tree(vec![Element::Module(
        "Rate".to_owned(),
        Vec::new(),
        "text".to_owned(),
    )]);
    let cb = static_callbacks(None);
    let info = PageInfo::with_tags(Vec::new());
    let settings = WikitextSettings::ordinary();
    let html = render_html(&tree, &info, &cb, &settings);
    assert_eq!(html, "MODULE OUTPUT");
}

#[test]
fn no_modules_setting_renders_nothing() {
    let tree = empty_tree(vec![Element::Module(
        "Rate".to_owned(),
        Vec::new(),
        "text".to_owned(),
    )]);
    let cb = static_callbacks(None);
    let info = PageInfo::with_tags(Vec::new());
    let mut settings = WikitextSettings::ordinary();
    settings.no_modules = true;
    let html = render_html(&tree, &info, &cb, &settings);
    assert_eq!(html, "");
}

#[test]
fn containers_and_text_render_with_tags() {
    let tree = empty_tree(vec![Element::Container(
        ContainerType::Paragraph,
        vec![
            Element::Text("Hello ".to_owned()),
            Element::Container(
                ContainerType::Bold,
                vec![Element::Text("world".to_owned())],
                Vec::new(),
            ),
        ],
        Vec::new(),
    )]);
    let info = PageInfo::with_tags(Vec::new());
    let settings = WikitextSettings::ordinary();
    let html = render_html(&tree, &info, &NullCallbacks, &settings);
    assert_eq!(html, "<p>Hello <strong>world</strong></p>");
}

#[test]
fn attributes_render_in_insertion_order() {
    let tree = empty_tree(vec![Element::Container(
        ContainerType::Div,
        Vec::new(),
        vec![
            Attribute { key: "class".to_owned(), value: "a".to_owned() },
            Attribute { key: "id".to_owned(), value: "b".to_owned() },
        ],
    )]);
    let info = PageInfo::with_tags(Vec::new());
    let settings = WikitextSettings::ordinary();
    let html = render_html(&tree, &info, &NullCallbacks, &settings);
    assert_eq!(html, "<div class=\"a\" id=\"b\"></div>");
}

#[test]
fn rendering_is_deterministic() {
    let tree = empty_tree(vec![
        Element::Container(
            ContainerType::Heading(2),
            vec![Element::Text("T".to_owned())],
            Vec::new(),
        ),
        Element::FootnoteRef(3),
        Element::LineBreak,
        Element::HorizontalRule,
        Element::FootnoteBlock(Some("Notes".to_owned()), false),
    ]);
    let cb = static_callbacks(Some("u"));
    let info = PageInfo::with_tags(Vec::new());
    let settings = WikitextSettings::ordinary();
    let first = render_html(&tree, &info, &cb, &settings);
    let second = render_html(&tree, &info, &cb, &settings);
    assert_eq!(first, second);
    assert_eq!(
        first,
        "<h2>T</h2><sup class=\"footnote-ref\">3</sup><br><hr><div class=\"footnote-block\">Notes</div>"
    );
}

#[test]
fn render_trait_matches_direct_call() {
    let tree = empty_tree(vec![Element::Text("plain".to_owned())]);
    let info = PageInfo::with_tags(Vec::new());
    let settings = WikitextSettings::ordinary();
    let via_trait = HtmlRender.render(&tree, &info, &NullCallbacks, &settings);
    let direct = render_html(&tree, &info, &NullCallbacks, &settings);
    assert_eq!(via_trait, direct);
    assert_eq!(via_trait, "plain");
}

#[test]
fn context_renderers_append_to_the_buffer() {
    let info = PageInfo::with_tags(Vec::new());
    let settings = WikitextSettings::ordinary();
    let cb = static_callbacks(Some("http://x/y.png"));
    let mut ctx = HtmlContext { buf: String::new(), info: &info, callbacks: &cb, settings: &settings };
    render_image(&mut ctx, &"s".to_owned(), &None, None, None, &Vec::new());
    assert_eq!(ctx.buf, "<img src=\"http://x/y.png\" alt=\"y.png\">");

    let cb_none = static_callbacks(None);
    let mut ctx2 =
        HtmlContext { buf: String::new(), info: &info, callbacks: &cb_none, settings: &settings };
    render_image_missing(&mut ctx2);
    assert_eq!(ctx2.buf, "<div class=\"error-block\">no image</div>");

    let mut ctx3 =
        HtmlContext { buf: String::new(), info: &info, callbacks: &cb, settings: &settings };
    render_image_element(&mut ctx3, &"http://a/b".to_owned(), &None, None, None, &Vec::new());
    assert_eq!(ctx3.buf, "<img src=\"http://a/b\" alt=\"b\">");

    let mut ctx4 =
        HtmlContext { buf: String::new(), info: &info, callbacks: &cb, settings: &settings };
    render_module(&mut ctx4, &"m".to_owned(), &Vec::new(), &"t".to_owned());
    assert_eq!(ctx4.buf, "MODULE OUTPUT");
}

#[test]
fn parsed_image_renders_end_to_end() {
    let tokens = vec![
        ExtractedToken { token: Token::LeftBlock, slice: "[[".to_owned(), span_start: 0, span_end: 2 },
        ExtractedToken { token: Token::Word, slice: "image".to_owned(), span_start: 2, span_end: 7 },
        ExtractedToken { token: Token::Whitespace, slice: " ".to_owned(), span_start: 7, span_end: 8 },
        ExtractedToken {
            token: Token::Word,
            slice: "http://x/y.png".to_owned(),
            span_start: 8,
            span_end: 22,
        },
        ExtractedToken { token: Token::RightBlock, slice: "]]".to_owned(), span_start: 22, span_end: 24 },
    ];
    let tokenization = Tokenization { text: "[[image http://x/y.png]]".to_owned(), tokens };
    let info = PageInfo::with_tags(Vec::new());
    let settings = WikitextSettings::ordinary();
    let cb = static_callbacks(Some("http://x/y.png"));
    let outcome = parse(&tokenization, &info, &cb, &settings);
    assert_eq!(outcome.warnings.len(), 0);
    let html = render_html(&outcome.value, &info, &cb, &settings);
    assert_eq!(
        html,
        "<p><img src=\"http://x/y.png\" alt=\"y.png\"></p><div class=\"footnote-block\"></div>"
    );
}
