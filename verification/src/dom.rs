/*!
The document model: an immutable tree of elements, text and comments,
together with the depth-first query engine that locates elements by
class token or by tag name.

A [`Document`] is produced once (normally by [`parse_document`] from raw
HTML) and is only ever read afterwards.  The traversals walk an
explicit worklist stack instead of recursing, so document depth cannot
exhaust the native stack.  The query functions are specified against
pre-order sequences of the elements of a subtree, so "the first match"
always means first in document order.
*/
use vstd::prelude::*;
use vstd::string::*;

use crate::strutil::ws_tokens;

verus! {

/// One element of the document tree: tag name, attributes in the order
/// the parser reports them (lookups go by name), and child nodes in
/// document order.
///
/// An attribute value is `None` when the attribute is present without a
/// value (`<input disabled>`).
#[derive(Debug)]
pub struct Elem {
    pub tag: String,
    pub attrs: Vec<(String, Option<String>)>,
    pub children: Vec<Node>,
}

/// One node of the document tree.
#[derive(Debug)]
pub enum Node {
    /// An element with tag, attributes and children.
    Elem(Elem),
    /// A run of raw text.
    Text(String),
    /// A comment; it carries no information the converters read.
    Comment,
}

/// An immutable, already-parsed document: the forest of top-level nodes.
#[derive(Debug)]
pub struct Document {
    pub roots: Vec<Node>,
}

/// The value of the first attribute named `name`: `None` if absent,
/// `Some(None)` if present without a value.
pub open spec fn attr_lookup(attrs: Seq<(String, Option<String>)>, name: Seq<char>) -> Option<
    Option<Seq<char>>,
>
    decreases attrs.len(),
{
    if attrs.len() == 0 {
        None
    } else if attrs[0].0@ == name {
        Some(
            match attrs[0].1 {
                Some(v) => Some(v@),
                None => None,
            },
        )
    } else {
        attr_lookup(attrs.drop_first(), name)
    }
}

/// The string value of attribute `name`, if present with a value.
pub open spec fn attr_str_spec(e: Elem, name: Seq<char>) -> Option<Seq<char>> {
    match attr_lookup(e.attrs@, name) {
        Some(Some(v)) => Some(v),
        _ => None,
    }
}

/// Whether `token` is one of the element's class tokens.
pub open spec fn has_class_spec(e: Elem, token: Seq<char>) -> bool {
    match attr_str_spec(e, "class"@) {
        Some(cls) => ws_tokens(cls).contains(token),
        None => false,
    }
}

/// The elements of a forest in pre-order: for each node, the element
/// itself (if it is one) followed by the elements of its subtree.
pub open spec fn elem_list(ns: Seq<Node>) -> Seq<Elem>
    decreases ns,
{
    if ns.len() == 0 {
        Seq::empty()
    } else {
        node_elems(ns[0]) + elem_list(ns.drop_first())
    }
}

/// The elements of one node's subtree in pre-order.
pub open spec fn node_elems(n: Node) -> Seq<Elem>
    decreases n,
{
    match n {
        Node::Elem(e) => seq![e] + elem_list(e.children@),
        _ => Seq::empty(),
    }
}

/// The elements of `e`'s subtree in pre-order; `e` itself comes first.
pub open spec fn subtree(e: Elem) -> Seq<Elem> {
    node_elems(Node::Elem(e))
}

/// The concatenated text of one node's subtree.
pub open spec fn node_text(n: Node) -> Seq<char>
    decreases n,
{
    match n {
        Node::Text(s) => s@,
        Node::Elem(e) => texts(e.children@),
        Node::Comment => Seq::empty(),
    }
}

/// The concatenated text of a forest.
pub open spec fn texts(ns: Seq<Node>) -> Seq<char>
    decreases ns,
{
    if ns.len() == 0 {
        Seq::empty()
    } else {
        node_text(ns[0]) + texts(ns.drop_first())
    }
}

/// The element children of a node list, in order, with text and
/// comments skipped.
pub open spec fn elem_children(ns: Seq<Node>) -> Seq<Elem>
    decreases ns.len(),
{
    if ns.len() == 0 {
        Seq::empty()
    } else {
        match ns[0] {
            Node::Elem(e) => seq![e] + elem_children(ns.drop_first()),
            _ => elem_children(ns.drop_first()),
        }
    }
}

/// The first element of `s` carrying class `token`.
pub open spec fn first_with_class(s: Seq<Elem>, token: Seq<char>) -> Option<Elem>
    decreases s.len(),
{
    if s.len() == 0 {
        None
    } else if has_class_spec(s[0], token) {
        Some(s[0])
    } else {
        first_with_class(s.drop_first(), token)
    }
}

/// Every element of `s` carrying class `token`, in order.
pub open spec fn all_with_class(s: Seq<Elem>, token: Seq<char>) -> Seq<Elem>
    decreases s.len(),
{
    if s.len() == 0 {
        Seq::empty()
    } else if has_class_spec(s[0], token) {
        seq![s[0]] + all_with_class(s.drop_first(), token)
    } else {
        all_with_class(s.drop_first(), token)
    }
}

/// The first element of `s` whose tag is `tag`.
pub open spec fn first_with_tag(s: Seq<Elem>, tag: Seq<char>) -> Option<Elem>
    decreases s.len(),
{
    if s.len() == 0 {
        None
    } else if s[0].tag@ == tag {
        Some(s[0])
    } else {
        first_with_tag(s.drop_first(), tag)
    }
}

/// Every element of `s` whose tag is `tag`, in order.
pub open spec fn all_with_tag(s: Seq<Elem>, tag: Seq<char>) -> Seq<Elem>
    decreases s.len(),
{
    if s.len() == 0 {
        Seq::empty()
    } else if s[0].tag@ == tag {
        seq![s[0]] + all_with_tag(s.drop_first(), tag)
    } else {
        all_with_tag(s.drop_first(), tag)
    }
}

/// Element-children of a concatenation.
pub proof fn lemma_elem_children_add(a: Seq<Node>, b: Seq<Node>)
    ensures
        elem_children(a + b) == elem_children(a) + elem_children(b),
    decreases a.len(),
{
    if a.len() == 0 {
        assert(a + b =~= b);
        assert(elem_children(a) + elem_children(b) =~= elem_children(b));
    } else {
        assert((a + b)[0] == a[0]);
        assert((a + b).drop_first() =~= a.drop_first() + b);
        lemma_elem_children_add(a.drop_first(), b);
        match a[0] {
            Node::Elem(e) => {
                assert(seq![e] + (elem_children(a.drop_first()) + elem_children(b)) =~= (seq![e]
                    + elem_children(a.drop_first())) + elem_children(b));
            },
            _ => {},
        }
    }
}

/// A one-node forest's element children are that node, if an element.
pub proof fn lemma_elem_children_singleton(x: Node)
    ensures
        elem_children(seq![x]) == (match x {
            Node::Elem(e) => seq![e],
            _ => Seq::<Elem>::empty(),
        }),
{
    let m = seq![x];
    assert(m[0] == x);
    assert(m.drop_first() =~= Seq::<Node>::empty());
    assert(elem_children(Seq::<Node>::empty()) == Seq::<Elem>::empty());
    match x {
        Node::Elem(e) => {
            assert(elem_children(m) == seq![e] + elem_children(m.drop_first()));
            assert(seq![e] + Seq::<Elem>::empty() =~= seq![e]);
        },
        _ => {},
    }
}

/// The values behind a sequence of element references.
pub open spec fn derefs(s: Seq<&Elem>) -> Seq<Elem> {
    s.map_values(|x: &Elem| *x)
}

/// The nodes behind a sequence of node references.
pub open spec fn node_refs(s: Seq<&Node>) -> Seq<Node> {
    Seq::new(s.len(), |i: int| *s[i])
}

/// The number of nodes in one subtree; at least 1.  This is the
/// termination measure of the iterative traversals.
pub open spec fn node_size(n: Node) -> nat
    decreases n,
{
    match n {
        Node::Elem(e) => 1 + forest_size(e.children@),
        _ => 1,
    }
}

/// The number of nodes in a forest.
pub open spec fn forest_size(ns: Seq<Node>) -> nat
    decreases ns,
{
    if ns.len() == 0 {
        0
    } else {
        node_size(ns[0]) + forest_size(ns.drop_first())
    }
}

/// The elements still to visit on a traversal stack, in visit order:
/// the subtree on top of the stack (the last entry) comes first.
pub open spec fn stack_elems(st: Seq<Node>) -> Seq<Elem>
    decreases st.len(),
{
    if st.len() == 0 {
        Seq::empty()
    } else {
        node_elems(st.last()) + stack_elems(st.drop_last())
    }
}

/// The text still to emit on a traversal stack, in visit order.
pub open spec fn stack_texts(st: Seq<Node>) -> Seq<char>
    decreases st.len(),
{
    if st.len() == 0 {
        Seq::empty()
    } else {
        node_text(st.last()) + stack_texts(st.drop_last())
    }
}

/// The number of nodes still on a traversal stack.
pub open spec fn stack_size(st: Seq<Node>) -> nat
    decreases st.len(),
{
    if st.len() == 0 {
        0
    } else {
        node_size(st.last()) + stack_size(st.drop_last())
    }
}

/// Pushes a forest onto a traversal stack in reverse, so its first
/// node ends up on top: the pending elements, texts and sizes gain the
/// forest's, in order, in front of what was already pending.
#[verifier::loop_isolation(false)]
fn push_forest<'a>(ns: &'a Vec<Node>, stack: &mut Vec<&'a Node>)
    ensures
        stack_elems(node_refs(final(stack)@)) == elem_list(ns@) + stack_elems(
            node_refs(old(stack)@),
        ),
        stack_texts(node_refs(final(stack)@)) == texts(ns@) + stack_texts(node_refs(old(stack)@)),
        stack_size(node_refs(final(stack)@)) == forest_size(ns@) + stack_size(
            node_refs(old(stack)@),
        ),
{
    let n = ns.len();
    let mut j: usize = n;
    proof {
        assert(ns@.subrange(n as int, n as int) =~= Seq::<Node>::empty());
        assert(elem_list(Seq::<Node>::empty()) + stack_elems(node_refs(stack@)) =~= stack_elems(
            node_refs(stack@),
        ));
        assert(texts(Seq::<Node>::empty()) + stack_texts(node_refs(stack@)) =~= stack_texts(
            node_refs(stack@),
        ));
    }
    while j > 0
        invariant
            0 <= j <= n,
            stack_elems(node_refs(stack@)) == elem_list(ns@.subrange(j as int, n as int))
                + stack_elems(node_refs(old(stack)@)),
            stack_texts(node_refs(stack@)) == texts(ns@.subrange(j as int, n as int))
                + stack_texts(node_refs(old(stack)@)),
            stack_size(node_refs(stack@)) == forest_size(ns@.subrange(j as int, n as int))
                + stack_size(node_refs(old(stack)@)),
        decreases j,
    {
        j -= 1;
        let ghost prev = node_refs(stack@);
        stack.push(&ns[j]);
        proof {
            let cur = node_refs(stack@);
            assert(cur.drop_last() =~= prev);
            assert(cur.last() == ns@[j as int]);
            let tail = ns@.subrange((j + 1) as int, n as int);
            assert(ns@.subrange(j as int, n as int)[0] == ns@[j as int]);
            assert(ns@.subrange(j as int, n as int).drop_first() =~= tail);
            assert(node_elems(ns@[j as int]) + (elem_list(tail) + stack_elems(node_refs(old(stack)@)))
                =~= (node_elems(ns@[j as int]) + elem_list(tail)) + stack_elems(
                node_refs(old(stack)@),
            ));
            assert(node_text(ns@[j as int]) + (texts(tail) + stack_texts(node_refs(old(stack)@)))
                =~= (node_text(ns@[j as int]) + texts(tail)) + stack_texts(
                node_refs(old(stack)@),
            ));
        }
    }
    proof {
        assert(ns@.subrange(0, n as int) =~= ns@);
    }
}

/// Looks up attribute `name` on `e` and clones its value, if any.
#[verifier::loop_isolation(false)]
pub fn elem_attr(e: &Elem, name: &str) -> (r: Option<String>)
    ensures
        match r {
            Some(v) => attr_str_spec(*e, name@) == Some(v@),
            None => attr_str_spec(*e, name@) is None,
        },
{
    let n = e.attrs.len();
    let mut i: usize = 0;
    proof {
        assert(e.attrs@.subrange(0, n as int) =~= e.attrs@);
    }
    while i < n
        invariant
            0 <= i <= n,
            attr_lookup(e.attrs@, name@) == attr_lookup(
                e.attrs@.subrange(i as int, n as int),
                name@,
            ),
        decreases n - i,
    {
        proof {
            assert(e.attrs@.subrange(i as int, n as int)[0] == e.attrs@[i as int]);
            assert(e.attrs@.subrange(i as int, n as int).drop_first() =~= e.attrs@.subrange(
                (i + 1) as int,
                n as int,
            ));
        }
        if crate::strutil::str_eq(e.attrs[i].0.as_str(), name) {
            match &e.attrs[i].1 {
                Some(v) => {
                    return Some(v.clone());
                },
                None => {
                    return None;
                },
            }
        }
        i += 1;
    }
    proof {
        assert(e.attrs@.subrange(n as int, n as int) =~= Seq::<(String, Option<String>)>::empty());
    }
    None
}

/// Whether `token` is one of `e`'s class tokens.
pub fn elem_has_class(e: &Elem, token: &str) -> (r: bool)
    ensures
        r == has_class_spec(*e, token@),
{
    match elem_attr(e, "class") {
        Some(cls) => crate::strutil::has_token(cls.as_str(), token),
        None => false,
    }
}

/// The concatenated text of `n`'s subtree.
pub fn node_text_exec(n: &Node) -> (r: String)
    ensures
        r@ == node_text(*n),
{
    match n {
        Node::Text(s) => s.clone(),
        Node::Comment => String::new(),
        Node::Elem(e) => nodes_text_exec(&e.children),
    }
}

/// The concatenated text of a forest.
#[verifier::loop_isolation(false)]
pub fn nodes_text_exec(ns: &Vec<Node>) -> (r: String)
    ensures
        r@ == texts(ns@),
{
    let mut stack: Vec<&Node> = Vec::new();
    proof {
        assert(node_refs(stack@) =~= Seq::<Node>::empty());
        assert(stack_texts(Seq::<Node>::empty()) == Seq::<char>::empty());
    }
    push_forest(ns, &mut stack);
    proof {
        assert(texts(ns@) + Seq::<char>::empty() =~= texts(ns@));
    }
    let mut out = String::new();
    while stack.len() != 0
        invariant
            out@ + stack_texts(node_refs(stack@)) == texts(ns@),
        decreases stack_size(node_refs(stack@)),
    {
        let ghost prev = node_refs(stack@);
        let n = match stack.pop() {
            Some(n) => n,
            None => {
                proof {
                    assert(false);
                }
                return out;
            },
        };
        proof {
            assert(node_refs(stack@) =~= prev.drop_last());
            assert(prev.last() == *n);
            assert(stack_size(prev) == node_size(prev.last()) + stack_size(prev.drop_last()));
        }
        match n {
            Node::Text(s) => {
                let ghost prev_out = out@;
                out.append(s.as_str());
                proof {
                    assert(node_size(prev.last()) == 1);
                    assert(stack_texts(prev) =~= s@ + stack_texts(prev.drop_last()));
                    assert(prev_out + (s@ + stack_texts(prev.drop_last())) =~= out@ + stack_texts(
                        prev.drop_last(),
                    ));
                }
            },
            Node::Comment => {
                proof {
                    assert(node_size(prev.last()) == 1);
                    assert(node_text(prev.last()) =~= Seq::<char>::empty());
                    assert(Seq::<char>::empty() + stack_texts(prev.drop_last()) =~= stack_texts(
                        prev.drop_last(),
                    ));
                    assert(stack_texts(prev) =~= stack_texts(prev.drop_last()));
                }
            },
            Node::Elem(e) => {
                proof {
                    assert(node_size(prev.last()) == 1 + forest_size(e.children@));
                    assert(stack_texts(prev) =~= texts(e.children@) + stack_texts(
                        prev.drop_last(),
                    ));
                }
                push_forest(&e.children, &mut stack);
            },
        }
    }
    proof {
        assert(node_refs(stack@) =~= Seq::<Node>::empty());
        assert(out@ + Seq::<char>::empty() =~= out@);
    }
    out
}

/// First element of `e`'s subtree (pre-order, `e` itself first) with
/// class `token`.
#[verifier::loop_isolation(false)]
pub fn find_elem_class<'a>(e: &'a Elem, token: &str) -> (r: Option<&'a Elem>)
    ensures
        match r {
            Some(x) => first_with_class(subtree(*e), token@) == Some(*x),
            None => first_with_class(subtree(*e), token@) is None,
        },
{
    proof {
        assert(subtree(*e)[0] == *e);
        assert(subtree(*e).drop_first() =~= elem_list(e.children@));
    }
    if elem_has_class(e, token) {
        return Some(e);
    }
    find_nodes_class(&e.children, token)
}

/// First element with class `token` in the forest `ns`, in document
/// order.
#[verifier::loop_isolation(false)]
pub fn find_nodes_class<'a>(ns: &'a Vec<Node>, token: &str) -> (r: Option<&'a Elem>)
    ensures
        match r {
            Some(x) => first_with_class(elem_list(ns@), token@) == Some(*x),
            None => first_with_class(elem_list(ns@), token@) is None,
        },
{
    let mut stack: Vec<&'a Node> = Vec::new();
    proof {
        assert(node_refs(stack@) =~= Seq::<Node>::empty());
        assert(stack_elems(Seq::<Node>::empty()) == Seq::<Elem>::empty());
    }
    push_forest(ns, &mut stack);
    proof {
        assert(elem_list(ns@) + Seq::<Elem>::empty() =~= elem_list(ns@));
    }
    while stack.len() != 0
        invariant
            first_with_class(elem_list(ns@), token@) == first_with_class(
                stack_elems(node_refs(stack@)),
                token@,
            ),
        decreases stack_size(node_refs(stack@)),
    {
        let ghost prev = node_refs(stack@);
        let n = match stack.pop() {
            Some(n) => n,
            None => {
                proof {
                    assert(false);
                }
                return None;
            },
        };
        proof {
            assert(node_refs(stack@) =~= prev.drop_last());
            assert(prev.last() == *n);
            assert(stack_size(prev) == node_size(prev.last()) + stack_size(prev.drop_last()));
        }
        match n {
            Node::Elem(e) => {
                let ghost rest = stack_elems(prev.drop_last());
                let ghost rem = seq![*e] + (elem_list(e.children@) + rest);
                proof {
                    assert(node_size(prev.last()) == 1 + forest_size(e.children@));
                    assert(stack_elems(prev) =~= rem);
                    assert(rem[0] == *e);
                    assert(rem.drop_first() =~= elem_list(e.children@) + rest);
                }
                if elem_has_class(e, token) {
                    proof {
                        assert(first_with_class(rem, token@) == Some(*e));
                    }
                    return Some(e);
                }
                push_forest(&e.children, &mut stack);
                proof {
                    assert(first_with_class(rem, token@) == first_with_class(
                        elem_list(e.children@) + rest,
                        token@,
                    ));
                }
            },
            _ => {
                proof {
                    assert(node_elems(prev.last()) =~= Seq::<Elem>::empty());
                    assert(node_size(prev.last()) == 1);
                    assert(Seq::<Elem>::empty() + stack_elems(prev.drop_last()) =~= stack_elems(
                        prev.drop_last(),
                    ));
                    assert(stack_elems(prev) =~= stack_elems(prev.drop_last()));
                }
            },
        }
    }
    proof {
        assert(node_refs(stack@) =~= Seq::<Node>::empty());
        assert(first_with_class(Seq::<Elem>::empty(), token@) is None);
    }
    None
}

/// First element of `e`'s subtree (pre-order, `e` itself first) whose
/// tag is `tag`.
#[verifier::loop_isolation(false)]
pub fn find_elem_tag<'a>(e: &'a Elem, tag: &str) -> (r: Option<&'a Elem>)
    ensures
        match r {
            Some(x) => first_with_tag(subtree(*e), tag@) == Some(*x),
            None => first_with_tag(subtree(*e), tag@) is None,
        },
{
    proof {
        assert(subtree(*e)[0] == *e);
        assert(subtree(*e).drop_first() =~= elem_list(e.children@));
    }
    if crate::strutil::str_eq(e.tag.as_str(), tag) {
        return Some(e);
    }
    find_nodes_tag(&e.children, tag)
}

/// First element with tag `tag` in the forest `ns`, in document order.
#[verifier::loop_isolation(false)]
pub fn find_nodes_tag<'a>(ns: &'a Vec<Node>, tag: &str) -> (r: Option<&'a Elem>)
    ensures
        match r {
            Some(x) => first_with_tag(elem_list(ns@), tag@) == Some(*x),
            None => first_with_tag(elem_list(ns@), tag@) is None,
        },
{
    let mut stack: Vec<&'a Node> = Vec::new();
    proof {
        assert(node_refs(stack@) =~= Seq::<Node>::empty());
        assert(stack_elems(Seq::<Node>::empty()) == Seq::<Elem>::empty());
    }
    push_forest(ns, &mut stack);
    proof {
        assert(elem_list(ns@) + Seq::<Elem>::empty() =~= elem_list(ns@));
    }
    while stack.len() != 0
        invariant
            first_with_tag(elem_list(ns@), tag@) == first_with_tag(
                stack_elems(node_refs(stack@)),
                tag@,
            ),
        decreases stack_size(node_refs(stack@)),
    {
        let ghost prev = node_refs(stack@);
        let n = match stack.pop() {
            Some(n) => n,
            None => {
                proof {
                    assert(false);
                }
                return None;
            },
        };
        proof {
            assert(node_refs(stack@) =~= prev.drop_last());
            assert(prev.last() == *n);
            assert(stack_size(prev) == node_size(prev.last()) + stack_size(prev.drop_last()));
        }
        match n {
            Node::Elem(e) => {
                let ghost rest = stack_elems(prev.drop_last());
                let ghost rem = seq![*e] + (elem_list(e.children@) + rest);
                proof {
                    assert(node_size(prev.last()) == 1 + forest_size(e.children@));
                    assert(stack_elems(prev) =~= rem);
                    assert(rem[0] == *e);
                    assert(rem.drop_first() =~= elem_list(e.children@) + rest);
                }
                if crate::strutil::str_eq(e.tag.as_str(), tag) {
                    proof {
                        assert(first_with_tag(rem, tag@) == Some(*e));
                    }
                    return Some(e);
                }
                push_forest(&e.children, &mut stack);
                proof {
                    assert(first_with_tag(rem, tag@) == first_with_tag(
                        elem_list(e.children@) + rest,
                        tag@,
                    ));
                }
            },
            _ => {
                proof {
                    assert(node_elems(prev.last()) =~= Seq::<Elem>::empty());
                    assert(node_size(prev.last()) == 1);
                    assert(Seq::<Elem>::empty() + stack_elems(prev.drop_last()) =~= stack_elems(
                        prev.drop_last(),
                    ));
                    assert(stack_elems(prev) =~= stack_elems(prev.drop_last()));
                }
            },
        }
    }
    proof {
        assert(node_refs(stack@) =~= Seq::<Node>::empty());
        assert(first_with_tag(Seq::<Elem>::empty(), tag@) is None);
    }
    None
}

/// Appends every element of `e`'s subtree carrying class `token` to
/// `out`, in document order.
#[verifier::loop_isolation(false)]
pub fn collect_elem_class<'a>(e: &'a Elem, token: &str, out: &mut Vec<&'a Elem>)
    ensures
        derefs(final(out)@) == derefs(old(out)@) + all_with_class(subtree(*e), token@),
{
    proof {
        assert(subtree(*e)[0] == *e);
        assert(subtree(*e).drop_first() =~= elem_list(e.children@));
    }
    if elem_has_class(e, token) {
        out.push(e);
        proof {
            assert(derefs(out@) =~= derefs(old(out)@) + seq![*e]);
        }
    } else {
        proof {
            assert(derefs(out@) =~= derefs(old(out)@));
        }
    }
    collect_nodes_class(&e.children, token, out);
    proof {
        if has_class_spec(*e, token@) {
            assert(derefs(out@) =~= derefs(old(out)@) + (seq![*e] + all_with_class(
                elem_list(e.children@),
                token@,
            )));
        }
    }
}

/// Appends every element with class `token` in the forest `ns` to
/// `out`, in document order.
#[verifier::loop_isolation(false)]
pub fn collect_nodes_class<'a>(ns: &'a Vec<Node>, token: &str, out: &mut Vec<&'a Elem>)
    ensures
        derefs(final(out)@) == derefs(old(out)@) + all_with_class(elem_list(ns@), token@),
{
    let mut stack: Vec<&'a Node> = Vec::new();
    proof {
        assert(node_refs(stack@) =~= Seq::<Node>::empty());
        assert(stack_elems(Seq::<Node>::empty()) == Seq::<Elem>::empty());
    }
    push_forest(ns, &mut stack);
    proof {
        assert(elem_list(ns@) + Seq::<Elem>::empty() =~= elem_list(ns@));
    }
    while stack.len() != 0
        invariant
            derefs(out@) + all_with_class(stack_elems(node_refs(stack@)), token@) == derefs(
                old(out)@,
            ) + all_with_class(elem_list(ns@), token@),
        decreases stack_size(node_refs(stack@)),
    {
        let ghost prev = node_refs(stack@);
        let n = match stack.pop() {
            Some(n) => n,
            None => {
                proof {
                    assert(false);
                }
                return ;
            },
        };
        proof {
            assert(node_refs(stack@) =~= prev.drop_last());
            assert(prev.last() == *n);
            assert(stack_size(prev) == node_size(prev.last()) + stack_size(prev.drop_last()));
        }
        match n {
            Node::Elem(e) => {
                let ghost rest = stack_elems(prev.drop_last());
                let ghost rem = seq![*e] + (elem_list(e.children@) + rest);
                proof {
                    assert(node_size(prev.last()) == 1 + forest_size(e.children@));
                    assert(stack_elems(prev) =~= rem);
                    assert(rem[0] == *e);
                    assert(rem.drop_first() =~= elem_list(e.children@) + rest);
                }
                if elem_has_class(e, token) {
                    let ghost prev_out = out@;
                    out.push(e);
                    proof {
                        assert(all_with_class(rem, token@) == seq![*e] + all_with_class(
                            elem_list(e.children@) + rest,
                            token@,
                        ));
                        assert(derefs(out@) =~= derefs(prev_out) + seq![*e]);
                        assert(derefs(prev_out) + (seq![*e] + all_with_class(
                            elem_list(e.children@) + rest,
                            token@,
                        )) =~= derefs(out@) + all_with_class(elem_list(e.children@) + rest, token@));
                    }
                } else {
                    proof {
                        assert(all_with_class(rem, token@) == all_with_class(
                            elem_list(e.children@) + rest,
                            token@,
                        ));
                    }
                }
                push_forest(&e.children, &mut stack);
            },
            _ => {
                proof {
                    assert(node_elems(prev.last()) =~= Seq::<Elem>::empty());
                    assert(node_size(prev.last()) == 1);
                    assert(Seq::<Elem>::empty() + stack_elems(prev.drop_last()) =~= stack_elems(
                        prev.drop_last(),
                    ));
                    assert(stack_elems(prev) =~= stack_elems(prev.drop_last()));
                }
            },
        }
    }
    proof {
        assert(node_refs(stack@) =~= Seq::<Node>::empty());
        assert(all_with_class(Seq::<Elem>::empty(), token@) =~= Seq::<Elem>::empty());
        assert(derefs(out@) + Seq::<Elem>::empty() =~= derefs(out@));
    }
}

/// Appends every element of `e`'s subtree with tag `tag` to `out`, in
/// document order.
#[verifier::loop_isolation(false)]
pub fn collect_elem_tag<'a>(e: &'a Elem, tag: &str, out: &mut Vec<&'a Elem>)
    ensures
        derefs(final(out)@) == derefs(old(out)@) + all_with_tag(subtree(*e), tag@),
{
    proof {
        assert(subtree(*e)[0] == *e);
        assert(subtree(*e).drop_first() =~= elem_list(e.children@));
    }
    if crate::strutil::str_eq(e.tag.as_str(), tag) {
        out.push(e);
        proof {
            assert(derefs(out@) =~= derefs(old(out)@) + seq![*e]);
        }
    } else {
        proof {
            assert(derefs(out@) =~= derefs(old(out)@));
        }
    }
    collect_nodes_tag(&e.children, tag, out);
    proof {
        if e.tag@ == tag@ {
            assert(derefs(out@) =~= derefs(old(out)@) + (seq![*e] + all_with_tag(
                elem_list(e.children@),
                tag@,
            )));
        }
    }
}

/// Appends every element with tag `tag` in the forest `ns` to `out`, in
/// document order.
#[verifier::loop_isolation(false)]
pub fn collect_nodes_tag<'a>(ns: &'a Vec<Node>, tag: &str, out: &mut Vec<&'a Elem>)
    ensures
        derefs(final(out)@) == derefs(old(out)@) + all_with_tag(elem_list(ns@), tag@),
{
    let mut stack: Vec<&'a Node> = Vec::new();
    proof {
        assert(node_refs(stack@) =~= Seq::<Node>::empty());
        assert(stack_elems(Seq::<Node>::empty()) == Seq::<Elem>::empty());
    }
    push_forest(ns, &mut stack);
    proof {
        assert(elem_list(ns@) + Seq::<Elem>::empty() =~= elem_list(ns@));
    }
    while stack.len() != 0
        invariant
            derefs(out@) + all_with_tag(stack_elems(node_refs(stack@)), tag@) == derefs(
                old(out)@,
            ) + all_with_tag(elem_list(ns@), tag@),
        decreases stack_size(node_refs(stack@)),
    {
        let ghost prev = node_refs(stack@);
        let n = match stack.pop() {
            Some(n) => n,
            None => {
                proof {
                    assert(false);
                }
                return ;
            },
        };
        proof {
            assert(node_refs(stack@) =~= prev.drop_last());
            assert(prev.last() == *n);
            assert(stack_size(prev) == node_size(prev.last()) + stack_size(prev.drop_last()));
        }
        match n {
            Node::Elem(e) => {
                let ghost rest = stack_elems(prev.drop_last());
                let ghost rem = seq![*e] + (elem_list(e.children@) + rest);
                proof {
                    assert(node_size(prev.last()) == 1 + forest_size(e.children@));
                    assert(stack_elems(prev) =~= rem);
                    assert(rem[0] == *e);
                    assert(rem.drop_first() =~= elem_list(e.children@) + rest);
                }
                if crate::strutil::str_eq(e.tag.as_str(), tag) {
                    let ghost prev_out = out@;
                    out.push(e);
                    proof {
                        assert(all_with_tag(rem, tag@) == seq![*e] + all_with_tag(
                            elem_list(e.children@) + rest,
                            tag@,
                        ));
                        assert(derefs(out@) =~= derefs(prev_out) + seq![*e]);
                        assert(derefs(prev_out) + (seq![*e] + all_with_tag(
                            elem_list(e.children@) + rest,
                            tag@,
                        )) =~= derefs(out@) + all_with_tag(elem_list(e.children@) + rest, tag@));
                    }
                } else {
                    proof {
                        assert(all_with_tag(rem, tag@) == all_with_tag(
                            elem_list(e.children@) + rest,
                            tag@,
                        ));
                    }
                }
                push_forest(&e.children, &mut stack);
            },
            _ => {
                proof {
                    assert(node_elems(prev.last()) =~= Seq::<Elem>::empty());
                    assert(node_size(prev.last()) == 1);
                    assert(Seq::<Elem>::empty() + stack_elems(prev.drop_last()) =~= stack_elems(
                        prev.drop_last(),
                    ));
                    assert(stack_elems(prev) =~= stack_elems(prev.drop_last()));
                }
            },
        }
    }
    proof {
        assert(node_refs(stack@) =~= Seq::<Node>::empty());
        assert(all_with_tag(Seq::<Elem>::empty(), tag@) =~= Seq::<Elem>::empty());
        assert(derefs(out@) + Seq::<Elem>::empty() =~= derefs(out@));
    }
}

/// The `index`-th element child of `e` (text and comments skipped).
#[verifier::loop_isolation(false)]
pub fn elem_child<'a>(e: &'a Elem, index: usize) -> (r: Option<&'a Elem>)
    ensures
        match r {
            Some(x) => index < elem_children(e.children@).len() && *x == elem_children(
                e.children@,
            )[index as int],
            None => index >= elem_children(e.children@).len(),
        },
{
    let n = e.children.len();
    let mut i: usize = 0;
    let mut seen: usize = 0;
    while i < n
        invariant
            0 <= i <= n,
            seen == elem_children(e.children@.subrange(0, i as int)).len(),
            seen <= i,
            elem_children(e.children@.subrange(0, i as int)) =~= elem_children(
                e.children@,
            ).subrange(0, seen as int),
            seen <= index,
        decreases n - i,
    {
        proof {
            assert(e.children@.subrange(0, (i + 1) as int) =~= e.children@.subrange(0, i as int)
                + seq![e.children@[i as int]]);
            lemma_elem_children_add(
                e.children@.subrange(0, i as int),
                seq![e.children@[i as int]],
            );
            lemma_elem_children_singleton(e.children@[i as int]);
            assert(e.children@ =~= e.children@.subrange(0, (i + 1) as int) + e.children@.subrange(
                (i + 1) as int,
                n as int,
            ));
            lemma_elem_children_add(
                e.children@.subrange(0, (i + 1) as int),
                e.children@.subrange((i + 1) as int, n as int),
            );
        }
        match &e.children[i] {
            Node::Elem(c) => {
                proof {
                    assert(elem_children(e.children@.subrange(0, (i + 1) as int)) =~= elem_children(
                        e.children@.subrange(0, i as int),
                    ) + seq![*c]);
                    assert(elem_children(e.children@)[seen as int] == *c);
                }
                if seen == index {
                    return Some(c);
                }
                seen += 1;
                proof {
                    assert(elem_children(e.children@.subrange(0, i + 1)) =~= elem_children(
                        e.children@,
                    ).subrange(0, seen as int));
                }
            },
            _ => {
                proof {
                    assert(elem_children(e.children@.subrange(0, i + 1)) =~= elem_children(
                        e.children@.subrange(0, i as int),
                    ));
                }
            },
        }
        i += 1;
    }
    proof {
        assert(e.children@.subrange(0, n as int) =~= e.children@);
    }
    None
}

/// The first element of `s` whose `id` attribute is `id`.
pub open spec fn first_with_id(s: Seq<Elem>, id: Seq<char>) -> Option<Elem>
    decreases s.len(),
{
    if s.len() == 0 {
        None
    } else if attr_str_spec(s[0], "id"@) == Some(id) {
        Some(s[0])
    } else {
        first_with_id(s.drop_first(), id)
    }
}

/// First element of `e`'s subtree (pre-order, `e` itself first) whose
/// `id` attribute is `id`.
#[verifier::loop_isolation(false)]
pub fn find_elem_id<'a>(e: &'a Elem, id: &str) -> (r: Option<&'a Elem>)
    ensures
        match r {
            Some(x) => first_with_id(subtree(*e), id@) == Some(*x),
            None => first_with_id(subtree(*e), id@) is None,
        },
{
    proof {
        assert(subtree(*e)[0] == *e);
        assert(subtree(*e).drop_first() =~= elem_list(e.children@));
    }
    let matches_here = match elem_attr(e, "id") {
        Some(v) => crate::strutil::str_eq(v.as_str(), id),
        None => false,
    };
    if matches_here {
        return Some(e);
    }
    find_nodes_id(&e.children, id)
}

/// First element with `id` attribute `id` in the forest `ns`, in
/// document order.
#[verifier::loop_isolation(false)]
pub fn find_nodes_id<'a>(ns: &'a Vec<Node>, id: &str) -> (r: Option<&'a Elem>)
    ensures
        match r {
            Some(x) => first_with_id(elem_list(ns@), id@) == Some(*x),
            None => first_with_id(elem_list(ns@), id@) is None,
        },
{
    let mut stack: Vec<&'a Node> = Vec::new();
    proof {
        assert(node_refs(stack@) =~= Seq::<Node>::empty());
        assert(stack_elems(Seq::<Node>::empty()) == Seq::<Elem>::empty());
    }
    push_forest(ns, &mut stack);
    proof {
        assert(elem_list(ns@) + Seq::<Elem>::empty() =~= elem_list(ns@));
    }
    while stack.len() != 0
        invariant
            first_with_id(elem_list(ns@), id@) == first_with_id(
                stack_elems(node_refs(stack@)),
                id@,
            ),
        decreases stack_size(node_refs(stack@)),
    {
        let ghost prev = node_refs(stack@);
        let n = match stack.pop() {
            Some(n) => n,
            None => {
                proof {
                    assert(false);
                }
                return None;
            },
        };
        proof {
            assert(node_refs(stack@) =~= prev.drop_last());
            assert(prev.last() == *n);
            assert(stack_size(prev) == node_size(prev.last()) + stack_size(prev.drop_last()));
        }
        match n {
            Node::Elem(e) => {
                let ghost rest = stack_elems(prev.drop_last());
                let ghost rem = seq![*e] + (elem_list(e.children@) + rest);
                proof {
                    assert(node_size(prev.last()) == 1 + forest_size(e.children@));
                    assert(stack_elems(prev) =~= rem);
                    assert(rem[0] == *e);
                    assert(rem.drop_first() =~= elem_list(e.children@) + rest);
                }
                let matches_here = match elem_attr(e, "id") {
                    Some(v) => crate::strutil::str_eq(v.as_str(), id),
                    None => false,
                };
                if matches_here {
                    proof {
                        assert(first_with_id(rem, id@) == Some(*e));
                    }
                    return Some(e);
                }
                push_forest(&e.children, &mut stack);
                proof {
                    assert(first_with_id(rem, id@) == first_with_id(
                        elem_list(e.children@) + rest,
                        id@,
                    ));
                }
            },
            _ => {
                proof {
                    assert(node_elems(prev.last()) =~= Seq::<Elem>::empty());
                    assert(node_size(prev.last()) == 1);
                    assert(Seq::<Elem>::empty() + stack_elems(prev.drop_last()) =~= stack_elems(
                        prev.drop_last(),
                    ));
                    assert(stack_elems(prev) =~= stack_elems(prev.drop_last()));
                }
            },
        }
    }
    proof {
        assert(node_refs(stack@) =~= Seq::<Node>::empty());
        assert(first_with_id(Seq::<Elem>::empty(), id@) is None);
    }
    None
}

/// The number of element children of `e`.
#[verifier::loop_isolation(false)]
pub fn elem_child_count(e: &Elem) -> (r: usize)
    ensures
        r == elem_children(e.children@).len(),
{
    let n = e.children.len();
    let mut i: usize = 0;
    let mut seen: usize = 0;
    while i < n
        invariant
            0 <= i <= n,
            seen == elem_children(e.children@.subrange(0, i as int)).len(),
            seen <= i,
        decreases n - i,
    {
        proof {
            assert(e.children@.subrange(0, (i + 1) as int) =~= e.children@.subrange(0, i as int)
                + seq![e.children@[i as int]]);
            lemma_elem_children_add(
                e.children@.subrange(0, i as int),
                seq![e.children@[i as int]],
            );
            lemma_elem_children_singleton(e.children@[i as int]);
        }
        match &e.children[i] {
            Node::Elem(_) => {
                seen += 1;
            },
            _ => {},
        }
        i += 1;
    }
    proof {
        assert(e.children@.subrange(0, n as int) =~= e.children@);
    }
    seen
}

impl Document {
    /// All elements of the document, in document order.
    pub open spec fn elems(self) -> Seq<Elem> {
        elem_list(self.roots@)
    }

    /// The first element of the document with class `token`, in
    /// document order.
    pub fn find_first_class<'a>(&'a self, token: &str) -> (r: Option<&'a Elem>)
        ensures
            match r {
                Some(x) => first_with_class(self.elems(), token@) == Some(*x),
                None => first_with_class(self.elems(), token@) is None,
            },
    {
        find_nodes_class(&self.roots, token)
    }

    /// Finds an element by its `id` attribute.
    pub fn element_by_id<'a>(&'a self, id: &str) -> (r: Option<&'a Elem>)
        ensures
            match r {
                Some(x) => first_with_id(self.elems(), id@) == Some(*x),
                None => first_with_id(self.elems(), id@) is None,
            },
    {
        find_nodes_id(&self.roots, id)
    }

    /// Every element of the document with class `token`, in document
    /// order.
    pub fn find_all_class<'a>(&'a self, token: &str) -> (r: Vec<&'a Elem>)
        ensures
            derefs(r@) == all_with_class(self.elems(), token@),
    {
        let mut out: Vec<&'a Elem> = Vec::new();
        proof {
            assert(derefs(out@) =~= Seq::<Elem>::empty());
        }
        collect_nodes_class(&self.roots, token, &mut out);
        out
    }
}

} // verus!
