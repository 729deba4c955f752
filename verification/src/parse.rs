/*!
The boundary to the HTML parser.

Parsing raw HTML into the [`Document`] tree is done by the `tl` crate;
everything in this module is the trusted bridge that turns `tl`'s
arena-based tree into the crate's own [`Document`].  Nothing is promised
about the resulting tree: attribute order inside a tag may follow the
parser's internal hash map, so two parses of the same text can disagree
on it.  Every converter takes the [`Document`] as an argument and is
verified for every possible tree, so nothing downstream depends on more
than what the converters' own contracts state.
*/
use vstd::prelude::*;

use crate::dom::{Document, Elem, Node};

verus! {

/// Declares `tl::Parser`, the arena all of `tl`'s node handles resolve
/// against; opaque here, only passed through the conversion helpers.
#[verifier::external_type_specification]
#[verifier::external_body]
pub struct ExParser<'a>(tl::Parser<'a>);

/// Declares `tl::NodeHandle`, an index into the parser's node arena.
#[verifier::external_type_specification]
#[verifier::external_body]
pub struct ExNodeHandle(tl::NodeHandle);

/// Declares `tl::HTMLTag`, one parsed element with name, attributes
/// and children.
#[verifier::external_type_specification]
#[verifier::external_body]
pub struct ExHTMLTag<'a>(tl::HTMLTag<'a>);

/// Relies on `tl::parse`: builds the element tree for an HTML string,
/// or returns `None` when the parser rejects the input.
#[verifier::external_body]
pub fn parse_document(html: &str) -> Option<Document> {
    let dom = match tl::parse(html, tl::ParserOptions::default()) {
        Ok(d) => d,
        Err(_) => return None,
    };
    let mut roots: Vec<Node> = Vec::new();
    for h in dom.children() {
        roots.push(convert_handle(dom.parser(), *h));
    }
    Some(Document { roots })
}

/// Relies on `tl::NodeHandle::get`: resolves a handle in the node arena.
/// An unresolvable handle (which a well-formed parse never produces) is
/// kept as an empty text node.
#[verifier::external_body]
fn convert_handle(p: &tl::Parser, h: tl::NodeHandle) -> Node {
    match h.get(p) {
        Some(tl::Node::Tag(t)) => Node::Elem(convert_tag(p, t)),
        Some(tl::Node::Raw(b)) => Node::Text(b.as_utf8_str().into_owned()),
        Some(tl::Node::Comment(_)) => Node::Comment,
        None => Node::Text(String::new()),
    }
}

/// Relies on `tl::HTMLTag`: copies out the tag name, the attribute
/// pairs (via `Attributes::iter`) and the direct children (via
/// `Children::top`).
#[verifier::external_body]
fn convert_tag(p: &tl::Parser, t: &tl::HTMLTag) -> Elem {
    let mut attrs: Vec<(String, Option<String>)> = Vec::new();
    for (k, v) in t.attributes().iter() {
        attrs.push((k.into_owned(), v.map(|x| x.into_owned())));
    }
    let mut children: Vec<Node> = Vec::new();
    for h in t.children().top().iter() {
        children.push(convert_handle(p, *h));
    }
    Elem { tag: t.name().as_utf8_str().into_owned(), attrs, children }
}

} // verus!
