/*!
A lightweight handle on an element of a [`Document`](crate::dom::Document),
so traversal reads as a pipeline of chained lookups.

An absent node propagates silently: `find` on an absent handle yields an
absent handle, `inner_text` yields `None`, and so on, which lets the
converters write whole lookup chains and test the result once at the
end.
*/
use vstd::prelude::*;

use crate::dom::{
    all_with_class, attr_str_spec, elem_attr, elem_child, elem_children, elem_has_class,
    find_elem_class, find_elem_tag, first_with_class, first_with_tag, has_class_spec,
    nodes_text_exec, subtree, texts, Elem,
};
use crate::strutil::{parse_i64_spec, parse_u32_spec, parse_i64, parse_u32};
use crate::Error;

verus! {

/// A possibly-absent element of a document.
#[derive(Clone, Copy)]
pub struct RichNode<'a> {
    /// The element, or `None` when an earlier lookup found nothing.
    pub n: Option<&'a Elem>,
}

/// The first match for class `token` in the subtree of `cur`, itself
/// included; absent stays absent.
pub open spec fn rich_find(cur: Option<Elem>, token: Seq<char>) -> Option<Elem> {
    match cur {
        Some(e) => first_with_class(subtree(e), token),
        None => None,
    }
}

/// The first match for tag `tag` in the subtree of `cur`, itself
/// included; absent stays absent.
pub open spec fn rich_find_tag(cur: Option<Elem>, tag: Seq<char>) -> Option<Elem> {
    match cur {
        Some(e) => first_with_tag(subtree(e), tag),
        None => None,
    }
}

/// Every match for class `token` in the subtree of `cur`; empty when
/// absent.
pub open spec fn rich_find_all(cur: Option<Elem>, token: Seq<char>) -> Seq<Elem> {
    match cur {
        Some(e) => all_with_class(subtree(e), token),
        None => Seq::empty(),
    }
}

/// Every element with tag `tag` in the subtree of `cur`; empty when
/// absent.
pub open spec fn rich_find_all_tag(cur: Option<Elem>, tag: Seq<char>) -> Seq<Elem> {
    match cur {
        Some(e) => crate::dom::all_with_tag(subtree(e), tag),
        None => Seq::empty(),
    }
}

/// The `i`-th element child of `cur` (text nodes skipped).
pub open spec fn rich_child(cur: Option<Elem>, i: int) -> Option<Elem> {
    match cur {
        Some(e) => if 0 <= i < elem_children(e.children@).len() {
            Some(elem_children(e.children@)[i])
        } else {
            None
        },
        None => None,
    }
}

/// The concatenated text of `cur`'s subtree; `None` when absent.
pub open spec fn rich_text(cur: Option<Elem>) -> Option<Seq<char>> {
    match cur {
        Some(e) => Some(texts(e.children@)),
        None => None,
    }
}

/// The value of attribute `name` on `cur`; `None` when absent or
/// without that attribute.
pub open spec fn rich_attr(cur: Option<Elem>, name: Seq<char>) -> Option<Seq<char>> {
    match cur {
        Some(e) => attr_str_spec(e, name),
        None => None,
    }
}

/// Attribute `name` read as a `u32`: `Ok(None)` if the attribute is
/// absent, `Err` only if it is present but not a number.
pub open spec fn rich_attr_u32(cur: Option<Elem>, name: Seq<char>) -> Result<Option<u32>, Error> {
    match rich_attr(cur, name) {
        None => Ok(None),
        Some(v) => match parse_u32_spec(v) {
            Some(x) => Ok(Some(x)),
            None => Err(Error::ParseError),
        },
    }
}

/// Attribute `name` read as an `i64`, as [`rich_attr_u32`].
pub open spec fn rich_attr_i64(cur: Option<Elem>, name: Seq<char>) -> Result<Option<i64>, Error> {
    match rich_attr(cur, name) {
        None => Ok(None),
        Some(v) => match parse_i64_spec(v) {
            Some(x) => Ok(Some(x)),
            None => Err(Error::ParseError),
        },
    }
}

/// The subtree text read as a `u32`: `Ok(None)` when the node is
/// absent, `Err` when the text is not a number.
pub open spec fn rich_parse_u32(cur: Option<Elem>) -> Result<Option<u32>, Error> {
    match rich_text(cur) {
        None => Ok(None),
        Some(t) => match parse_u32_spec(t) {
            Some(x) => Ok(Some(x)),
            None => Err(Error::ParseError),
        },
    }
}

/// Whether `cur` carries class `token`; `None` when absent.
pub open spec fn rich_has_class(cur: Option<Elem>, token: Seq<char>) -> Option<bool> {
    match cur {
        Some(e) => Some(has_class_spec(e, token)),
        None => None,
    }
}

impl<'a> RichNode<'a> {
    /// The element behind this handle, as a value.
    pub open spec fn opt(self) -> Option<Elem> {
        match self.n {
            Some(e) => Some(*e),
            None => None,
        }
    }

    /// Wraps a present element.
    pub fn from_elem(e: &'a Elem) -> (r: RichNode<'a>)
        ensures
            r.opt() == Some(*e),
    {
        RichNode { n: Some(e) }
    }

    /// The absent handle.
    pub fn absent() -> (r: RichNode<'a>)
        ensures
            r.opt() is None,
    {
        RichNode { n: None }
    }

    /// Returns the first node of this subtree with the given class.
    pub fn find(self, class: &str) -> (r: RichNode<'a>)
        ensures
            r.opt() == rich_find(self.opt(), class@),
    {
        match self.n {
            None => RichNode { n: None },
            Some(e) => RichNode { n: find_elem_class(e, class) },
        }
    }

    /// Returns the first node of this subtree with the given tag name.
    pub fn find_tag(self, tag: &str) -> (r: RichNode<'a>)
        ensures
            r.opt() == rich_find_tag(self.opt(), tag@),
    {
        match self.n {
            None => RichNode { n: None },
            Some(e) => RichNode { n: find_elem_tag(e, tag) },
        }
    }

    /// Returns all nodes of this subtree with the given class.
    pub fn find_all(self, class: &str) -> (r: Vec<RichNode<'a>>)
        ensures
            r@.len() == rich_find_all(self.opt(), class@).len(),
            forall|j: int|
                0 <= j < r@.len() ==> (#[trigger] r@[j]).opt() == Some(
                    rich_find_all(self.opt(), class@)[j],
                ),
    {
        let mut out: Vec<&'a Elem> = Vec::new();
        match self.n {
            None => {},
            Some(e) => {
                proof {
                    assert(crate::dom::derefs(out@) =~= Seq::<Elem>::empty());
                }
                crate::dom::collect_elem_class(e, class, &mut out);
                proof {
                    assert(crate::dom::derefs(out@) =~= all_with_class(subtree(*e), class@));
                }
            },
        }
        let mut rs: Vec<RichNode<'a>> = Vec::new();
        let mut i: usize = 0;
        let n = out.len();
        while i < n
            invariant
                0 <= i <= n,
                n == out@.len(),
                crate::dom::derefs(out@) == rich_find_all(self.opt(), class@),
                rs@.len() == i,
                forall|j: int|
                    0 <= j < i ==> (#[trigger] rs@[j]).opt() == Some(
                        rich_find_all(self.opt(), class@)[j],
                    ),
            decreases n - i,
        {
            rs.push(RichNode { n: Some(out[i]) });
            i += 1;
        }
        rs
    }

    /// Returns all nodes of this subtree with the given tag name.
    pub fn find_all_tag(self, tag: &str) -> (r: Vec<RichNode<'a>>)
        ensures
            r@.len() == rich_find_all_tag(self.opt(), tag@).len(),
            forall|j: int|
                0 <= j < r@.len() ==> (#[trigger] r@[j]).opt() == Some(
                    rich_find_all_tag(self.opt(), tag@)[j],
                ),
    {
        let mut out: Vec<&'a Elem> = Vec::new();
        match self.n {
            None => {},
            Some(e) => {
                proof {
                    assert(crate::dom::derefs(out@) =~= Seq::<Elem>::empty());
                }
                crate::dom::collect_elem_tag(e, tag, &mut out);
                proof {
                    assert(crate::dom::derefs(out@) =~= crate::dom::all_with_tag(
                        subtree(*e),
                        tag@,
                    ));
                }
            },
        }
        let mut rs: Vec<RichNode<'a>> = Vec::new();
        let mut i: usize = 0;
        let n = out.len();
        while i < n
            invariant
                0 <= i <= n,
                n == out@.len(),
                crate::dom::derefs(out@) == rich_find_all_tag(self.opt(), tag@),
                rs@.len() == i,
                forall|j: int|
                    0 <= j < i ==> (#[trigger] rs@[j]).opt() == Some(
                        rich_find_all_tag(self.opt(), tag@)[j],
                    ),
            decreases n - i,
        {
            rs.push(RichNode { n: Some(out[i]) });
            i += 1;
        }
        rs
    }

    /// Gets the `index`-th child that is an element, 0-based.
    pub fn child(self, index: usize) -> (r: Option<RichNode<'a>>)
        ensures
            match r {
                Some(x) => x.opt() == rich_child(self.opt(), index as int) && x.opt() is Some,
                None => rich_child(self.opt(), index as int) is None,
            },
    {
        match self.n {
            None => None,
            Some(e) => match elem_child(e, index) {
                Some(c) => Some(RichNode { n: Some(c) }),
                None => None,
            },
        }
    }

    /// The concatenated text content of the subtree, `None` if the node
    /// is absent.
    pub fn inner_text(self) -> (r: Option<String>)
        ensures
            match r {
                Some(s) => rich_text(self.opt()) == Some(s@),
                None => rich_text(self.opt()) is None,
            },
    {
        match self.n {
            None => None,
            Some(e) => Some(nodes_text_exec(&e.children)),
        }
    }

    /// The value of the given attribute, if the node is present and has
    /// it.
    pub fn get_attr_str(self, attr: &str) -> (r: Option<String>)
        ensures
            match r {
                Some(s) => rich_attr(self.opt(), attr@) == Some(s@),
                None => rich_attr(self.opt(), attr@) is None,
            },
    {
        match self.n {
            None => None,
            Some(e) => elem_attr(e, attr),
        }
    }

    /// The given attribute read as a `u32`: `Ok(None)` if absent, an
    /// error only if present but not numeric.
    pub fn get_attr_u32(self, attr: &str) -> (r: Result<Option<u32>, Error>)
        ensures
            r == rich_attr_u32(self.opt(), attr@),
    {
        match self.get_attr_str(attr) {
            None => Ok(None),
            Some(s) => match parse_u32(s.as_str()) {
                Some(x) => Ok(Some(x)),
                None => Err(Error::ParseError),
            },
        }
    }

    /// The given attribute read as an `i64`, as [`Self::get_attr_u32`].
    pub fn get_attr_i64(self, attr: &str) -> (r: Result<Option<i64>, Error>)
        ensures
            r == rich_attr_i64(self.opt(), attr@),
    {
        match self.get_attr_str(attr) {
            None => Ok(None),
            Some(s) => match parse_i64(s.as_str()) {
                Some(x) => Ok(Some(x)),
                None => Err(Error::ParseError),
            },
        }
    }

    /// The subtree text read as a `u32`: `Ok(None)` if the node is
    /// absent, an error if its text is not a number.
    pub fn inner_parse_u32(self) -> (r: Result<Option<u32>, Error>)
        ensures
            r == rich_parse_u32(self.opt()),
    {
        match self.inner_text() {
            None => Ok(None),
            Some(s) => match parse_u32(s.as_str()) {
                Some(x) => Ok(Some(x)),
                None => Err(Error::ParseError),
            },
        }
    }

    /// Whether the node carries the given class token, `None` if the
    /// node is absent.
    pub fn has_class(self, class: &str) -> (r: Option<bool>)
        ensures
            r == rich_has_class(self.opt(), class@),
    {
        match self.n {
            None => None,
            Some(e) => Some(elem_has_class(e, class)),
        }
    }
}

} // verus!
