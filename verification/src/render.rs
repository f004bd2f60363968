//! Rendering: the renderer interface and the HTML backend.
//!
//! The HTML backend walks elements depth-first and appends markup to a
//! buffer. Its output is pinned, character for character, by
//! specification functions over the tree, the settings, and the
//! callbacks' own specifications: rendering is deterministic in all
//! three.

use vstd::prelude::*;
use vstd::string::{StrSliceExecFns, StringExecFns};
use crate::callbacks::PageCallbacks;
use crate::settings::{PageInfo, WikitextSettings};
use crate::toc::{dec_rep, dec_string};
use crate::tree::{Alignment, AnchorTarget, Attribute, ContainerType, Element, FloatAlignment,
    SyntaxTree};

verus! {

/// The HTML tag a container kind renders to.
pub open spec fn container_tag(ct: ContainerType) -> Seq<char> {
    match ct {
        ContainerType::Paragraph => "p"@,
        ContainerType::Div => "div"@,
        ContainerType::Span => "span"@,
        ContainerType::Bold => "strong"@,
        ContainerType::Italic => "em"@,
        ContainerType::Heading(level) => "h"@ + dec_rep(level as nat),
        ContainerType::ListItem => "li"@,
    }
}

/// Attributes as markup: one ` key="value"` per attribute, in order.
pub open spec fn attrs_html(attrs: Seq<Attribute>) -> Seq<char>
    decreases attrs.len(),
{
    if attrs.len() == 0 {
        Seq::empty()
    } else {
        attrs_html(attrs.drop_last()) + " "@ + attrs.last().key@ + "=\""@ + attrs.last().value@
            + "\""@
    }
}

/// The container class an image's alignment selects; empty for none.
pub open spec fn align_class(alignment: Option<FloatAlignment>) -> Seq<char> {
    match alignment {
        Option::Some(a) => {
            if a.align is Left && a.float {
                "floatleft"@
            } else if a.align is Right && a.float {
                "floatright"@
            } else if a.align is Left && !a.float {
                "alignleft"@
            } else if a.align is Right && !a.float {
                "alignright"@
            } else if a.align is Center && !a.float {
                "aligncenter"@
            } else {
                Seq::empty()
            }
        },
        Option::None => Seq::empty(),
    }
}

/// The text after the last `/` of a URL; the whole URL when it has none.
pub open spec fn alt_of(url: Seq<char>) -> Seq<char>
    decreases url.len(),
{
    if url.len() == 0 {
        Seq::empty()
    } else if url.last() == '/' {
        Seq::empty()
    } else {
        alt_of(url.drop_last()).push(url.last())
    }
}

/// The `img` tag for a resolved URL.
pub open spec fn image_tag_html(url: Seq<char>, attrs: Seq<Attribute>) -> Seq<char> {
    "<img src=\""@ + url + "\" alt=\""@ + alt_of(url) + "\""@ + attrs_html(attrs) + ">"@
}

/// A string option, viewed.
pub open spec fn opt_str_view(o: Option<String>) -> Option<Seq<char>> {
    match o {
        Option::Some(s) => Option::Some(s@),
        Option::None => Option::None,
    }
}

/// The `target` attribute a link target renders to.
pub open spec fn target_attr(target: Option<AnchorTarget>) -> Seq<char> {
    match target {
        Option::Some(AnchorTarget::Same) => " target=\"_self\""@,
        Option::Some(AnchorTarget::NewTab) => " target=\"_blank\""@,
        Option::None => Seq::empty(),
    }
}

/// The image, wrapped in an anchor when it links somewhere. The link is
/// emitted as given: URL normalization is the host's concern, done
/// before the location enters the tree.
pub open spec fn linked_image_html(
    url: Seq<char>,
    link: Option<Seq<char>>,
    target: Option<AnchorTarget>,
    attrs: Seq<Attribute>,
) -> Seq<char> {
    match link {
        Option::Some(l) => "<a href=\""@ + l + "\""@ + target_attr(target) + ">"@
            + image_tag_html(url, attrs) + "</a>"@,
        Option::None => image_tag_html(url, attrs),
    }
}

/// The full markup of a resolved image: alignment wraps it in a classed
/// container.
pub open spec fn image_html(
    url: Seq<char>,
    link: Option<Seq<char>>,
    target: Option<AnchorTarget>,
    alignment: Option<FloatAlignment>,
    attrs: Seq<Attribute>,
) -> Seq<char> {
    if align_class(alignment).len() == 0 {
        linked_image_html(url, link, target, attrs)
    } else {
        "<div class=\"image-container "@ + align_class(alignment) + "\">"@ + linked_image_html(
            url,
            link,
            target,
            attrs,
        ) + "</div>"@
    }
}

/// The markup of an unresolved image: an error container holding the
/// localized message.
pub open spec fn image_missing_html<C: PageCallbacks>(cb: C) -> Seq<char> {
    "<div class=\"error-block\">"@ + cb.message_spec("image-context-bad"@) + "</div>"@
}

/// The markup of an image element: resolve the source through the
/// callbacks, then one of the two shapes above.
pub open spec fn image_render_spec<C: PageCallbacks>(
    cb: C,
    source: Seq<char>,
    link: Option<Seq<char>>,
    target: Option<AnchorTarget>,
    alignment: Option<FloatAlignment>,
    attrs: Seq<Attribute>,
    info: PageInfo,
    settings: WikitextSettings,
) -> Seq<char> {
    match cb.image_link_spec(source, info, settings) {
        Option::Some(url) => image_html(url, link, target, alignment, attrs),
        Option::None => image_missing_html(cb),
    }
}

/// The markup of one element.
pub open spec fn render_elem_spec<C: PageCallbacks>(
    e: Element,
    cb: C,
    info: PageInfo,
    settings: WikitextSettings,
) -> Seq<char>
    decreases e,
{
    match e {
        Element::Text(text) => text@,
        Element::Container(ct, children, attrs) => "<"@ + container_tag(ct) + attrs_html(attrs@)
            + ">"@ + render_elems_spec(children@, cb, info, settings) + "</"@ + container_tag(ct)
            + ">"@,
        Element::Link(ltype, url, label, target) => "<a href=\""@ + url@ + "\""@ + target_attr(
            target,
        ) + ">"@ + label@ + "</a>"@,
        Element::Image(source, link, target, alignment, attrs) => image_render_spec(
            cb,
            source@,
            opt_str_view(link),
            target,
            alignment,
            attrs@,
            info,
            settings,
        ),
        Element::Module(name, params, text) => {
            if settings.no_modules {
                Seq::empty()
            } else {
                cb.module_spec(name@, params@, text@)
            }
        },
        Element::FootnoteRef(index) => "<sup class=\"footnote-ref\">"@ + dec_rep(index as nat)
            + "</sup>"@,
        Element::FootnoteBlock(title, hide) => {
            if hide {
                Seq::empty()
            } else {
                "<div class=\"footnote-block\">"@ + (match title {
                    Option::Some(t) => t@,
                    Option::None => Seq::empty(),
                }) + "</div>"@
            }
        },
        Element::TableOfContents => "<div id=\"toc\"></div>"@,
        Element::Fragment(children) => render_elems_spec(children@, cb, info, settings),
        Element::LineBreak => "<br>"@,
        Element::HorizontalRule => "<hr>"@,
    }
}

/// The markup of a list of elements, in order.
pub open spec fn render_elems_spec<C: PageCallbacks>(
    elems: Seq<Element>,
    cb: C,
    info: PageInfo,
    settings: WikitextSettings,
) -> Seq<char>
    decreases elems,
{
    if elems.len() == 0 {
        Seq::empty()
    } else {
        render_elem_spec(elems[0], cb, info, settings) + render_elems_spec(
            elems.drop_first(),
            cb,
            info,
            settings,
        )
    }
}

/// Rendering a list splits wherever the list does.
pub proof fn lemma_render_elems_concat<C: PageCallbacks>(
    a: Seq<Element>,
    b: Seq<Element>,
    cb: C,
    info: PageInfo,
    settings: WikitextSettings,
)
    ensures
        render_elems_spec(a + b, cb, info, settings) == render_elems_spec(a, cb, info, settings)
            + render_elems_spec(b, cb, info, settings),
    decreases a.len(),
{
    if a.len() == 0 {
        assert(a + b =~= b);
        assert(render_elems_spec(a, cb, info, settings) + render_elems_spec(b, cb, info, settings)
            =~= render_elems_spec(b, cb, info, settings));
    } else {
        assert((a + b)[0] == a[0]);
        assert((a + b).drop_first() =~= a.drop_first() + b);
        lemma_render_elems_concat(a.drop_first(), b, cb, info, settings);
        assert(render_elem_spec(a[0], cb, info, settings) + (render_elems_spec(
            a.drop_first(),
            cb,
            info,
            settings,
        ) + render_elems_spec(b, cb, info, settings)) =~= (render_elem_spec(
            a[0],
            cb,
            info,
            settings,
        ) + render_elems_spec(a.drop_first(), cb, info, settings)) + render_elems_spec(
            b,
            cb,
            info,
            settings,
        ));
        assert(render_elems_spec(a + b, cb, info, settings) =~= render_elems_spec(
            a,
            cb,
            info,
            settings,
        ) + render_elems_spec(b, cb, info, settings));
    }
}

/// The alt text of a URL: everything after its last slash.
#[verifier::loop_isolation(false)]
fn alt_text(url: &String) -> (r: String)
    ensures
        r@ == alt_of(url@),
{
    let s = url.as_str();
    let n = s.unicode_len();
    let mut cut: usize = 0;
    let mut j: usize = 0;
    while j < n
        invariant
            n == url@.len(),
            j <= n,
            cut <= j,
            cut > 0 ==> url@[cut - 1] == '/',
            forall|m: int| cut <= m < j ==> url@[m] != '/',
        decreases n - j,
    {
        if s.get_char(j) == '/' {
            cut = j + 1;
        }
        j = j + 1;
    }
    let suffix = s.substring_char(cut, n);
    proof {
        lemma_alt_suffix(url@, cut as int);
    }
    suffix.to_owned()
}

/// The suffix after the last slash is the alt text.
proof fn lemma_alt_suffix(url: Seq<char>, cut: int)
    requires
        0 <= cut <= url.len(),
        cut > 0 ==> url[cut - 1] == '/',
        forall|m: int| cut <= m < url.len() ==> url[m] != '/',
    ensures
        alt_of(url) == url.subrange(cut, url.len() as int),
    decreases url.len(),
{
    if url.len() == 0 {
        assert(alt_of(url) =~= url.subrange(0, 0));
    } else if cut == url.len() {
        if cut > 0 {
            assert(url.last() == '/');
            assert(alt_of(url) =~= url.subrange(cut, url.len() as int));
        } else {
            assert(url.len() == 0);
        }
    } else {
        assert(url.last() != '/');
        lemma_alt_suffix(url.drop_last(), cut);
        assert(alt_of(url) == alt_of(url.drop_last()).push(url.last()));
        assert(url.drop_last().subrange(cut, url.len() - 1).push(url.last()) =~= url.subrange(
            cut,
            url.len() as int,
        ));
    }
}

/// Attributes as markup, appended in order.
#[verifier::loop_isolation(false)]
fn attrs_string(attrs: &Vec<Attribute>) -> (r: String)
    ensures
        r@ == attrs_html(attrs@),
{
    let mut out = String::new();
    let mut i: usize = 0;
    proof {
        assert(attrs@.subrange(0, 0) =~= Seq::<Attribute>::empty());
        assert(out@ =~= attrs_html(attrs@.subrange(0, 0)));
    }
    while i < attrs.len()
        invariant
            i <= attrs@.len(),
            out@ == attrs_html(attrs@.subrange(0, i as int)),
        decreases attrs@.len() - i,
    {
        out.append(" ");
        out.append(attrs[i].key.as_str());
        out.append("=\"");
        out.append(attrs[i].value.as_str());
        out.append("\"");
        proof {
            assert(attrs@.subrange(0, i + 1).drop_last() =~= attrs@.subrange(0, i as int));
            assert(attrs@.subrange(0, i + 1).last() == attrs@[i as int]);
            assert(out@ =~= attrs_html(attrs@.subrange(0, i + 1)));
        }
        i = i + 1;
    }
    proof {
        assert(attrs@.subrange(0, attrs@.len() as int) =~= attrs@);
    }
    out
}

/// The state an HTML rendering run works in: the output buffer and the
/// read-only context around it.
pub struct HtmlContext<'a, C> {
    pub buf: String,
    pub info: &'a PageInfo,
    pub callbacks: &'a C,
    pub settings: &'a WikitextSettings,
}

/// The `img` tag for a resolved URL: source, alt text, attributes.
fn image_tag_string(url: &String, attributes: &Vec<Attribute>) -> (r: String)
    ensures
        r@ == image_tag_html(url@, attributes@),
{
    let mut out = "<img src=\"".to_owned();
    out.append(url.as_str());
    out.append("\" alt=\"");
    let alt = alt_text(url);
    out.append(alt.as_str());
    out.append("\"");
    let attrs = attrs_string(attributes);
    out.append(attrs.as_str());
    out.append(">");
    proof {
        assert(out@ =~= image_tag_html(url@, attributes@));
    }
    out
}

/// The full markup of a resolved image.
fn image_string(
    url: &String,
    link: &Option<String>,
    link_target: Option<AnchorTarget>,
    alignment: Option<FloatAlignment>,
    attributes: &Vec<Attribute>,
) -> (r: String)
    ensures
        r@ == image_html(url@, opt_str_view(*link), link_target, alignment, attributes@),
{
    let img = image_tag_string(url, attributes);
    let linked = match link {
        Option::Some(l) => {
            let mut out = "<a href=\"".to_owned();
            out.append(l.as_str());
            out.append("\"");
            match link_target {
                Option::Some(AnchorTarget::Same) => out.append(" target=\"_self\""),
                Option::Some(AnchorTarget::NewTab) => out.append(" target=\"_blank\""),
                Option::None => {},
            }
            out.append(">");
            out.append(img.as_str());
            out.append("</a>");
            proof {
                assert(out@ =~= linked_image_html(
                    url@,
                    opt_str_view(*link),
                    link_target,
                    attributes@,
                ));
            }
            out
        },
        Option::None => img,
    };
    let class: &'static str = match alignment {
        Option::Some(a) => {
            match (a.align, a.float) {
                (Alignment::Left, true) => "floatleft",
                (Alignment::Right, true) => "floatright",
                (Alignment::Left, false) => "alignleft",
                (Alignment::Right, false) => "alignright",
                (Alignment::Center, false) => "aligncenter",
                _ => "",
            }
        },
        Option::None => "",
    };
    proof {
        reveal_strlit("");
        reveal_strlit("floatleft");
        reveal_strlit("floatright");
        reveal_strlit("alignleft");
        reveal_strlit("alignright");
        reveal_strlit("aligncenter");
        assert(class@ =~= align_class(alignment));
    }
    if class.unicode_len() == 0 {
        proof {
            assert(align_class(alignment).len() == 0);
        }
        linked
    } else {
        let mut out = "<div class=\"image-container ".to_owned();
        out.append(class);
        out.append("\">");
        out.append(linked.as_str());
        out.append("</div>");
        proof {
            assert(out@ =~= image_html(
                url@,
                opt_str_view(*link),
                link_target,
                alignment,
                attributes@,
            ));
        }
        out
    }
}

/// Render an image element: resolve the source through the callbacks,
/// then emit either the image markup or the error block.
///
/// Appends exactly `image_render_spec` of the arguments to the buffer.
pub fn render_image<'a, C: PageCallbacks>(
    ctx: &mut HtmlContext<'a, C>,
    source: &String,
    link: &Option<String>,
    link_target: Option<AnchorTarget>,
    alignment: Option<FloatAlignment>,
    attributes: &Vec<Attribute>,
)
    ensures
        final(ctx).buf@ == old(ctx).buf@ + image_render_spec(
            *old(ctx).callbacks,
            source@,
            opt_str_view(*link),
            link_target,
            alignment,
            attributes@,
            *old(ctx).info,
            *old(ctx).settings,
        ),
        final(ctx).info == old(ctx).info,
        final(ctx).callbacks == old(ctx).callbacks,
        final(ctx).settings == old(ctx).settings,
{
    let cb = ctx.callbacks;
    let source_url = cb.get_image_link(source, ctx.info, ctx.settings);
    match source_url {
        Option::Some(url) => render_image_element(
            ctx,
            &url,
            link,
            link_target,
            alignment,
            attributes,
        ),
        Option::None => render_image_missing(ctx),
    }
}

/// Emit the markup of an image whose URL resolved.
pub fn render_image_element<'a, C: PageCallbacks>(
    ctx: &mut HtmlContext<'a, C>,
    url: &String,
    link: &Option<String>,
    link_target: Option<AnchorTarget>,
    alignment: Option<FloatAlignment>,
    attributes: &Vec<Attribute>,
)
    ensures
        final(ctx).buf@ == old(ctx).buf@ + image_html(
            url@,
            opt_str_view(*link),
            link_target,
            alignment,
            attributes@,
        ),
        final(ctx).info == old(ctx).info,
        final(ctx).callbacks == old(ctx).callbacks,
        final(ctx).settings == old(ctx).settings,
{
    let piece = image_string(url, link, link_target, alignment, attributes);
    ctx.buf.append(piece.as_str());
}

/// Emit the error block of an image whose URL did not resolve, holding
/// the localized message.
pub fn render_image_missing<'a, C: PageCallbacks>(ctx: &mut HtmlContext<'a, C>)
    ensures
        final(ctx).buf@ == old(ctx).buf@ + image_missing_html(*old(ctx).callbacks),
        final(ctx).info == old(ctx).info,
        final(ctx).callbacks == old(ctx).callbacks,
        final(ctx).settings == old(ctx).settings,
{
    let cb = ctx.callbacks;
    let message = cb.get_message("image-context-bad");
    ctx.buf.append("<div class=\"error-block\">");
    ctx.buf.append(message.as_str());
    ctx.buf.append("</div>");
    proof {
        assert(ctx.buf@ =~= old(ctx).buf@ + image_missing_html(*old(ctx).callbacks));
    }
}

/// Emit a module's rendering, delegated wholly to the callbacks; nothing
/// when the settings disable modules.
pub fn render_module<'a, C: PageCallbacks>(
    ctx: &mut HtmlContext<'a, C>,
    name: &String,
    params: &Vec<Attribute>,
    text: &String,
)
    ensures
        final(ctx).buf@ == old(ctx).buf@ + if old(ctx).settings.no_modules {
            Seq::<char>::empty()
        } else {
            old(ctx).callbacks.module_spec(name@, params@, text@)
        },
        final(ctx).info == old(ctx).info,
        final(ctx).callbacks == old(ctx).callbacks,
        final(ctx).settings == old(ctx).settings,
{
    if ctx.settings.no_modules {
        proof {
            assert(ctx.buf@ =~= old(ctx).buf@ + Seq::<char>::empty());
        }
        return ;
    }
    let cb = ctx.callbacks;
    let rendered = cb.render_module(name, params, text);
    ctx.buf.append(rendered.as_str());
}

/// The markup of one element.
#[verifier::loop_isolation(false)]
fn elem_html<C: PageCallbacks>(
    e: &Element,
    cb: &C,
    info: &PageInfo,
    settings: &WikitextSettings,
) -> (r: String)
    ensures
        r@ == render_elem_spec(*e, *cb, *info, *settings),
    decreases e,
{
    match e {
        Element::Text(text) => text.clone(),
        Element::Container(ct, children, attrs) => {
            let tag: String = match ct {
                ContainerType::Paragraph => "p".to_owned(),
                ContainerType::Div => "div".to_owned(),
                ContainerType::Span => "span".to_owned(),
                ContainerType::Bold => "strong".to_owned(),
                ContainerType::Italic => "em".to_owned(),
                ContainerType::Heading(level) => {
                    let mut t = "h".to_owned();
                    let digits = dec_string(*level as u64);
                    t.append(digits.as_str());
                    t
                },
                ContainerType::ListItem => "li".to_owned(),
            };
            proof {
                assert(tag@ =~= container_tag(*ct));
            }
            let mut out = "<".to_owned();
            out.append(tag.as_str());
            let attrs_piece = attrs_string(attrs);
            out.append(attrs_piece.as_str());
            out.append(">");
            proof {
                broadcast use vstd::std_specs::vec::group_vec_axioms;
                broadcast use vstd::seq::group_seq_axioms;

                assert(decreases_to!(*e => *children));
            }
            let inner = elems_html(children, cb, info, settings);
            out.append(inner.as_str());
            out.append("</");
            out.append(tag.as_str());
            out.append(">");
            proof {
                assert(out@ =~= render_elem_spec(*e, *cb, *info, *settings));
            }
            out
        },
        Element::Link(ltype, url, label, target) => {
            let mut out = "<a href=\"".to_owned();
            out.append(url.as_str());
            out.append("\"");
            match target {
                Option::Some(AnchorTarget::Same) => out.append(" target=\"_self\""),
                Option::Some(AnchorTarget::NewTab) => out.append(" target=\"_blank\""),
                Option::None => {},
            }
            out.append(">");
            out.append(label.as_str());
            out.append("</a>");
            proof {
                assert(out@ =~= render_elem_spec(*e, *cb, *info, *settings));
            }
            out
        },
        Element::Image(source, link, target, alignment, attrs) => {
            let resolved = cb.get_image_link(source, info, settings);
            let out = match resolved {
                Option::Some(url) => image_string(&url, link, *target, *alignment, attrs),
                Option::None => {
                    let message = cb.get_message("image-context-bad");
                    let mut out = "<div class=\"error-block\">".to_owned();
                    out.append(message.as_str());
                    out.append("</div>");
                    proof {
                        assert(out@ =~= image_missing_html(*cb));
                    }
                    out
                },
            };
            out
        },
        Element::Module(name, params, text) => {
            if settings.no_modules {
                String::new()
            } else {
                cb.render_module(name, params, text)
            }
        },
        Element::FootnoteRef(index) => {
            let mut out = "<sup class=\"footnote-ref\">".to_owned();
            let digits = dec_string(*index as u64);
            out.append(digits.as_str());
            out.append("</sup>");
            proof {
                assert(out@ =~= render_elem_spec(*e, *cb, *info, *settings));
            }
            out
        },
        Element::FootnoteBlock(title, hide) => {
            if *hide {
                String::new()
            } else {
                let mut out = "<div class=\"footnote-block\">".to_owned();
                match title {
                    Option::Some(t) => out.append(t.as_str()),
                    Option::None => {},
                }
                out.append("</div>");
                proof {
                    assert(out@ =~= render_elem_spec(*e, *cb, *info, *settings));
                }
                out
            }
        },
        Element::TableOfContents => "<div id=\"toc\"></div>".to_owned(),
        Element::Fragment(children) => {
            proof {
                broadcast use vstd::std_specs::vec::group_vec_axioms;
                broadcast use vstd::seq::group_seq_axioms;

                assert(decreases_to!(*e => *children));
            }
            elems_html(children, cb, info, settings)
        },
        Element::LineBreak => "<br>".to_owned(),
        Element::HorizontalRule => "<hr>".to_owned(),
    }
}

/// The markup of a list of elements, in order.
#[verifier::loop_isolation(false)]
fn elems_html<C: PageCallbacks>(
    elems: &Vec<Element>,
    cb: &C,
    info: &PageInfo,
    settings: &WikitextSettings,
) -> (r: String)
    ensures
        r@ == render_elems_spec(elems@, *cb, *info, *settings),
    decreases elems,
{
    let ghost l0 = elems@;
    let mut out = String::new();
    let mut i: usize = 0;
    proof {
        assert(l0.subrange(0, 0) =~= Seq::<Element>::empty());
        assert(out@ =~= render_elems_spec(l0.subrange(0, 0), *cb, *info, *settings));
    }
    while i < elems.len()
        invariant
            i <= l0.len(),
            elems@ == l0,
            out@ == render_elems_spec(l0.subrange(0, i as int), *cb, *info, *settings),
        decreases l0.len() - i,
    {
        proof {
            broadcast use vstd::std_specs::vec::group_vec_axioms;
            broadcast use vstd::seq::group_seq_axioms;

            assert(decreases_to!(l0 => l0[i as int]));
            assert(l0.subrange(0, i + 1) =~= l0.subrange(0, i as int) + l0.subrange(
                i as int,
                i + 1,
            ));
            assert(l0.subrange(i as int, i + 1) =~= seq![l0[i as int]]);
            assert(seq![l0[i as int]].drop_first() =~= Seq::<Element>::empty());
            assert(render_elems_spec(Seq::<Element>::empty(), *cb, *info, *settings)
                =~= Seq::<char>::empty());
            assert(render_elems_spec(seq![l0[i as int]], *cb, *info, *settings)
                =~= render_elem_spec(l0[i as int], *cb, *info, *settings));
            lemma_render_elems_concat(
                l0.subrange(0, i as int),
                l0.subrange(i as int, i + 1),
                *cb,
                *info,
                *settings,
            );
        }
        let piece = elem_html(&elems[i], cb, info, settings);
        out.append(piece.as_str());
        proof {
            assert(out@ =~= render_elems_spec(l0.subrange(0, i + 1), *cb, *info, *settings));
        }
        i = i + 1;
    }
    proof {
        assert(l0.subrange(0, l0.len() as int) =~= l0);
    }
    out
}

/// Render a syntax tree's elements to HTML markup, exactly as the
/// specification functions describe: deterministic in the tree, the
/// settings, and the callbacks' own specifications.
pub fn render_html<C: PageCallbacks>(
    tree: &SyntaxTree,
    page_info: &PageInfo,
    page_callbacks: &C,
    settings: &WikitextSettings,
) -> (r: String)
    ensures
        r@ == render_elems_spec(tree.elements@, *page_callbacks, *page_info, *settings),
{
    elems_html(&tree.elements, page_callbacks, page_info, settings)
}

/// Abstract interface for any renderer over a given host: whatever
/// state the implementor keeps, it turns a syntax tree and its context
/// into its output type. Each implementor says, through its own matching
/// predicate, exactly which outputs its `render` may produce.
pub trait Render<C: PageCallbacks> {
    /// The type this renderer produces; a string for markup backends.
    type Output;

    /// Whether an output is the rendering of the given tree in the given
    /// context, by this implementor's own definition.
    spec fn render_matches(
        &self,
        tree: &SyntaxTree,
        page_info: &PageInfo,
        page_callbacks: &C,
        settings: &WikitextSettings,
        output: &Self::Output,
    ) -> bool;

    /// Render an abstract syntax tree into the output type.
    fn render(
        &self,
        tree: &SyntaxTree,
        page_info: &PageInfo,
        page_callbacks: &C,
        settings: &WikitextSettings,
    ) -> (r: Self::Output)
        ensures
            self.render_matches(tree, page_info, page_callbacks, settings, &r),
    ;
}

/// The HTML backend. Its output is the one `render_html` pins character
/// for character.
pub struct HtmlRender;

impl<C: PageCallbacks> Render<C> for HtmlRender {
    type Output = String;

    open spec fn render_matches(
        &self,
        tree: &SyntaxTree,
        page_info: &PageInfo,
        page_callbacks: &C,
        settings: &WikitextSettings,
        output: &Self::Output,
    ) -> bool {
        output@ == render_elems_spec(tree.elements@, *page_callbacks, *page_info, *settings)
    }

    fn render(
        &self,
        tree: &SyntaxTree,
        page_info: &PageInfo,
        page_callbacks: &C,
        settings: &WikitextSettings,
    ) -> (r: Self::Output) {
        render_html(tree, page_info, page_callbacks, settings)
    }
}

} // verus!
