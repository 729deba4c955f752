//! Tests for the document model and the query engine: class and tag
//! search order, absence propagation, child indexing and text
//! extraction.
use hltv::dom::{Document, Elem, Node};
use hltv::rich::RichNode;

fn elem(tag: &str, attrs: Vec<(&str, &str)>, children: Vec<Node>) -> Elem {
    Elem {
        tag: tag.to_string(),
        attrs: attrs.into_iter().map(|(k, v)| (k.to_string(), Some(v.to_string()))).collect(),
        children,
    }
}

fn el(tag: &str, attrs: Vec<(&str, &str)>, children: Vec<Node>) -> Node {
    Node::Elem(elem(tag, attrs, children))
}

fn txt(s: &str) -> Node {
    Node::Text(s.to_string())
}

/// The depth-first search finds matches by class token, in document
/// order, within one root's subtree only.
#[test]
pub fn dfs_test() {
    // root 0 holds two "abc" nodes, the first with text dist1ll;
    // root 1 is plain text; root 2 holds one more "abc" node.
    let d = Document {
        roots: vec![
            el(
                "div",
                vec![("class", "outer")],
                vec![
                    el(
                        "div",
                        vec![("class", "abc")],
                        vec![txt("dist1ll")],
                    ),
                    el(
                        "div",
                        vec![("class", "inner")],
                        vec![el("span", vec![("class", "abc")], vec![txt("second")])],
                    ),
                ],
            ),
            txt("in between"),
            el(
                "div",
                vec![("class", "other")],
                vec![el("span", vec![("class", "abc")], vec![txt("third")])],
            ),
        ],
    };
    let root0 = match &d.roots[0] {
        Node::Elem(e) => e,
        _ => panic!("root 0 is an element"),
    };
    let nodes = RichNode::from_elem(root0).find_all("abc");
    assert_eq!(nodes.len(), 2);
    assert_eq!(nodes[0].inner_text().unwrap(), "dist1ll");
    let node = RichNode::from_elem(root0).find("abc");
    assert_eq!(node.inner_text().unwrap(), "dist1ll");
    let root2 = match &d.roots[2] {
        Node::Elem(e) => e,
        _ => panic!("root 2 is an element"),
    };
    let nodes = RichNode::from_elem(root2).find_all("abc");
    assert_eq!(nodes.len(), 1);
}

/// Chained finds keep working through absence: a missing class gives
/// an absent node, and further lookups on it stay absent.
#[test]
pub fn rich() {
    let d = Document {
        roots: vec![el(
            "div",
            vec![("class", "a")],
            vec![el(
                "div",
                vec![("class", "b")],
                vec![
                    el(
                        "div",
                        vec![("class", "x")],
                        vec![el("div", vec![("class", "y")], vec![txt("deep")])],
                    ),
                    el(
                        "div",
                        vec![("class", "c")],
                        vec![
                            el("div", vec![("class", "d")], vec![txt("d1")]),
                            el("div", vec![("class", "d")], vec![txt("d2")]),
                        ],
                    ),
                ],
            )],
        )],
    };
    let root0 = match &d.roots[0] {
        Node::Elem(e) => e,
        _ => panic!("root is an element"),
    };
    let root = RichNode::from_elem(root0);
    let inner = root.find("b").find("x").find("y");
    assert!(inner.n.is_some());
    let inner = root.find("nsaedoi");
    assert!(inner.n.is_none());
    let inner = root.find("b").find("c").find_all("d");
    assert_eq!(inner.len(), 2);
    assert_eq!(inner[0].inner_text().unwrap(), "d1".to_string());
}

/// Class membership is a token test against the space-separated class
/// list.
#[test]
pub fn has_class() {
    let d = Document {
        roots: vec![el(
            "div",
            vec![("id", "has-class")],
            vec![el("div", vec![("class", "first second")], vec![txt("x")])],
        )],
    };
    let root = RichNode::from_elem(d.element_by_id("has-class").unwrap());
    let n = root.find("first");
    assert!(n.has_class("first").unwrap());
    assert!(n.has_class("second").unwrap());
    assert!(!n.has_class("third").unwrap());
}

/// `child` indexes element children only, skipping text nodes.
#[test]
pub fn child_index() {
    let d = Document {
        roots: vec![el(
            "div",
            vec![("id", "root-child")],
            vec![
                txt("leading text"),
                el("a", vec![("href", "/somewhere")], vec![txt("link")]),
                txt("middle text"),
                el("div", vec![("class", "second-child")], vec![txt("div")]),
            ],
        )],
    };
    let root = RichNode::from_elem(d.element_by_id("root-child").unwrap());
    assert!(root.child(0).unwrap().get_attr_str("href").is_some());
    assert!(root.child(0).unwrap().get_attr_str("class").is_none());
    assert!(root.child(1).unwrap().get_attr_str("class").is_some());
}

/// Text extraction concatenates the subtree's text runs in order and
/// skips comments.
#[test]
pub fn inner_text_concatenation() {
    let d = Document {
        roots: vec![el(
            "div",
            vec![],
            vec![
                txt("Match "),
                Node::Comment,
                el("b", vec![], vec![txt("over")]),
            ],
        )],
    };
    let root0 = match &d.roots[0] {
        Node::Elem(e) => e,
        _ => panic!("root is an element"),
    };
    assert_eq!(RichNode::from_elem(root0).inner_text().unwrap(), "Match over");
}
