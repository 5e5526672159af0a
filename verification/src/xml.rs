//! Owned model of a parsed XML document.
//!
//! The only code that touches the `roxmltree` crate lives here: a parse step
//! that converts the borrowed `roxmltree` node tree into the plain owned tree
//! below. Everything downstream works on `XmlElement` values and is verified.

use vstd::prelude::*;

use crate::error::EpubError;

verus! {

/// One attribute of an element. `name` is the local name; attributes are
/// looked up by local name only, matching the first in document order.
pub struct XmlAttr {
    pub name: String,
    pub value: String,
}

/// An element node: local tag name, optional namespace URI, attributes and
/// child nodes in document order.
pub struct XmlElement {
    pub name: String,
    pub namespace: Option<String>,
    pub attrs: Vec<XmlAttr>,
    pub children: Vec<XmlNode>,
}

/// A node of the document tree. Comments and processing instructions are kept
/// as `Other` so that "first child" tests see them, but they carry no text.
pub enum XmlNode {
    Element(XmlElement),
    Text(String),
    Other,
}

/// The value of the first attribute of `e` whose local name is `name`.
pub open spec fn spec_attr(e: XmlElement, name: Seq<char>) -> Option<Seq<char>>
    decreases e.attrs@.len(),
{
    spec_attr_in(e.attrs@, name)
}

pub open spec fn spec_attr_in(attrs: Seq<XmlAttr>, name: Seq<char>) -> Option<Seq<char>>
    decreases attrs.len(),
{
    if attrs.len() == 0 {
        None
    } else if attrs[0].name@ == name {
        Some(attrs[0].value@)
    } else {
        spec_attr_in(attrs.drop_first(), name)
    }
}

/// All text contained in a node, in document order, depth first.
pub open spec fn spec_node_text(n: XmlNode) -> Seq<char>
    decreases n,
{
    match n {
        XmlNode::Element(e) => spec_nodes_text(e.children@),
        XmlNode::Text(s) => s@,
        XmlNode::Other => Seq::empty(),
    }
}

pub open spec fn spec_nodes_text(ns: Seq<XmlNode>) -> Seq<char>
    decreases ns,
{
    if ns.len() == 0 {
        Seq::empty()
    } else {
        spec_node_text(ns[0]) + spec_nodes_text(ns.drop_first())
    }
}

/// Declares `roxmltree::Node`, the borrowed node handle the converters below
/// read; its values are opaque here.
#[verifier::external_type_specification]
#[verifier::external_body]
pub struct ExNode<'a, 'input: 'a>(roxmltree::Node<'a, 'input>);

/// Relies on `roxmltree::Node`: `tag_name().name()` is the local tag name,
/// `tag_name().namespace()` the namespace URI, `attributes()` the attributes
/// in document order (local names), `children()` the child nodes in document
/// order. The returned tree mirrors the node tree under `n`.
#[verifier::external_body]
fn convert_element(n: roxmltree::Node) -> XmlElement {
    XmlElement {
        name: n.tag_name().name().to_string(),
        namespace: n.tag_name().namespace().map(|s| s.to_string()),
        attrs: n.attributes().map(|a| XmlAttr { name: a.name().to_string(), value: a.value().to_string() }).collect(),
        children: n.children().map(convert_node).collect(),
    }
}

/// Relies on `roxmltree::Node`: `is_element` and `is_text` discriminate the
/// node kinds, and `text()` of a text node is its character data.
#[verifier::external_body]
fn convert_node(n: roxmltree::Node) -> XmlNode {
    if n.is_element() {
        XmlNode::Element(convert_element(n))
    } else if n.is_text() {
        XmlNode::Text(n.text().unwrap_or("").to_string())
    } else {
        XmlNode::Other
    }
}

/// The owned tree of the document's root element, or `None` when the text is
/// not well-formed XML. `roxmltree::Document::parse` depends on the text
/// alone, so its converted result bears a name.
pub uninterp spec fn tree_of(text: Seq<char>) -> Option<XmlElement>;

/// Relies on `roxmltree::Document::parse`: it parses well-formed XML and
/// rejects the rest, depending on the text alone, and `root_element()` is the
/// document's root element.
#[verifier::external_body]
fn parse_tree(text: &str) -> (r: Result<XmlElement, EpubError>)
    ensures
        r matches Ok(e) ==> tree_of(text@) == Some(e),
        r is Err <==> tree_of(text@) is None,
        r matches Err(e) ==> e == EpubError::MalformedXml,
{
    match roxmltree::Document::parse(text) {
        Ok(d) => Ok(convert_element(d.root_element())),
        Err(_) => Err(EpubError::MalformedXml),
    }
}

/// Parses an XML document into its owned root element: `tree_of` the text.
pub fn parse(text: &str) -> (r: Result<XmlElement, EpubError>)
    ensures
        r matches Ok(e) ==> tree_of(text@) == Some(e),
        r is Err <==> tree_of(text@) is None,
        r matches Err(e) ==> e == EpubError::MalformedXml,
{
    parse_tree(text)
}

impl XmlElement {
    /// The value of the first attribute with the given local name.
    pub fn attr<'a>(&'a self, name: &str) -> (r: Option<&'a String>)
        ensures
            match r {
                Some(v) => spec_attr(*self, name@) == Some(v@),
                None => spec_attr(*self, name@) is None,
            },
    {
        let mut i: usize = 0;
        assert(self.attrs@.skip(0) =~= self.attrs@);
        while i < self.attrs.len()
            invariant
                i <= self.attrs@.len(),
                spec_attr_in(self.attrs@, name@) == spec_attr_in(self.attrs@.skip(i as int), name@),
            decreases self.attrs@.len() - i,
        {
            assert(self.attrs@.skip(i as int)[0] == self.attrs@[i as int]);
            assert(self.attrs@.skip(i as int).drop_first() =~= self.attrs@.skip(i + 1));
            if crate::text::str_eq(self.attrs[i].name.as_str(), name) {
                return Some(&self.attrs[i].value);
            }
            i = i + 1;
        }
        assert(self.attrs@.skip(i as int) =~= Seq::empty());
        None
    }

    /// Whether the element carries an attribute with the given local name.
    pub fn has_attr(&self, name: &str) -> (r: bool)
        ensures
            r == (spec_attr(*self, name@) is Some),
    {
        self.attr(name).is_some()
    }

    /// The first direct child element with the given local name.
    pub fn first_child_elem<'a>(&'a self, name: &str) -> (r: Option<&'a XmlElement>)
        ensures
            match r {
                Some(c) => spec_first_child_elem(self.children@, name@) == Some(*c),
                None => spec_first_child_elem(self.children@, name@) is None,
            },
    {
        let mut i: usize = 0;
        assert(self.children@.skip(0) =~= self.children@);
        while i < self.children.len()
            invariant
                i <= self.children@.len(),
                spec_first_child_elem(self.children@, name@) == spec_first_child_elem(
                    self.children@.skip(i as int),
                    name@,
                ),
            decreases self.children@.len() - i,
        {
            assert(self.children@.skip(i as int)[0] == self.children@[i as int]);
            assert(self.children@.skip(i as int).drop_first() =~= self.children@.skip(i + 1));
            match &self.children[i] {
                XmlNode::Element(c) => {
                    if crate::text::str_eq(c.name.as_str(), name) {
                        return Some(c);
                    }
                },
                _ => {},
            }
            i = i + 1;
        }
        assert(self.children@.skip(i as int) =~= Seq::empty());
        None
    }

    /// The first direct child element with the given namespace URI and
    /// local name.
    pub fn first_child_elem_ns<'a>(&'a self, ns: &str, name: &str) -> (r: Option<&'a XmlElement>)
        ensures
            match r {
                Some(c) => spec_first_child_elem_ns(self.children@, ns@, name@) == Some(*c),
                None => spec_first_child_elem_ns(self.children@, ns@, name@) is None,
            },
    {
        let mut i: usize = 0;
        assert(self.children@.skip(0) =~= self.children@);
        while i < self.children.len()
            invariant
                i <= self.children@.len(),
                spec_first_child_elem_ns(self.children@, ns@, name@) == spec_first_child_elem_ns(
                    self.children@.skip(i as int),
                    ns@,
                    name@,
                ),
            decreases self.children@.len() - i,
        {
            assert(self.children@.skip(i as int)[0] == self.children@[i as int]);
            assert(self.children@.skip(i as int).drop_first() =~= self.children@.skip(i + 1));
            match &self.children[i] {
                XmlNode::Element(c) => {
                    let ns_hit = match &c.namespace {
                        Some(u) => crate::text::str_eq(u.as_str(), ns),
                        None => false,
                    };
                    if ns_hit && crate::text::str_eq(c.name.as_str(), name) {
                        return Some(c);
                    }
                },
                _ => {},
            }
            i = i + 1;
        }
        assert(self.children@.skip(i as int) =~= Seq::empty());
        None
    }

    /// The character data of the element's first child, when that child is a
    /// text node.
    pub fn first_text<'a>(&'a self) -> (r: Option<&'a String>)
        ensures
            match r {
                Some(t) => spec_first_text(*self) == Some(t@),
                None => spec_first_text(*self) is None,
            },
    {
        if self.children.len() == 0 {
            return None;
        }
        match &self.children[0] {
            XmlNode::Text(t) => Some(t),
            _ => None,
        }
    }
}

/// The first direct child element (of the given children) with the given
/// local name.
pub open spec fn spec_first_child_elem(ns: Seq<XmlNode>, name: Seq<char>) -> Option<XmlElement>
    decreases ns,
{
    if ns.len() == 0 {
        None
    } else {
        match ns[0] {
            XmlNode::Element(c) => if c.name@ == name {
                Some(c)
            } else {
                spec_first_child_elem(ns.drop_first(), name)
            },
            _ => spec_first_child_elem(ns.drop_first(), name),
        }
    }
}

/// The first direct child element with the given namespace URI and local name.
pub open spec fn spec_first_child_elem_ns(
    ns: Seq<XmlNode>,
    uri: Seq<char>,
    name: Seq<char>,
) -> Option<XmlElement>
    decreases ns,
{
    if ns.len() == 0 {
        None
    } else {
        match ns[0] {
            XmlNode::Element(c) => if c.namespace matches Some(u) && u@ == uri && c.name@
                == name {
                Some(c)
            } else {
                spec_first_child_elem_ns(ns.drop_first(), uri, name)
            },
            _ => spec_first_child_elem_ns(ns.drop_first(), uri, name),
        }
    }
}

/// The text of the first child when that child is a text node, as
/// `roxmltree::Node::text` reports it for an element.
pub open spec fn spec_first_text(e: XmlElement) -> Option<Seq<char>> {
    if e.children@.len() > 0 && e.children@[0] is Text {
        Some(e.children@[0]->Text_0@)
    } else {
        None
    }
}

/// The first element in preorder (the element itself, then its descendants in
/// document order) with the given local name.
pub open spec fn spec_find_desc(e: XmlElement, name: Seq<char>) -> Option<XmlElement>
    decreases e,
{
    if e.name@ == name {
        Some(e)
    } else {
        spec_find_desc_in(e.children@, name)
    }
}

pub open spec fn spec_find_desc_in(ns: Seq<XmlNode>, name: Seq<char>) -> Option<XmlElement>
    decreases ns,
{
    if ns.len() == 0 {
        None
    } else {
        let head = match ns[0] {
            XmlNode::Element(c) => spec_find_desc(c, name),
            _ => None,
        };
        if head is Some {
            head
        } else {
            spec_find_desc_in(ns.drop_first(), name)
        }
    }
}

/// A found first child element is one of the children.
pub proof fn lemma_first_child_elem_mem(ns: Seq<XmlNode>, name: Seq<char>)
    ensures
        spec_first_child_elem(ns, name) matches Some(c) ==> exists|j: int|
            0 <= j < ns.len() && ns[j] == XmlNode::Element(c),
    decreases ns,
{
    if ns.len() == 0 {
    } else {
        lemma_first_child_elem_mem(ns.drop_first(), name);
        match spec_first_child_elem(ns, name) {
            Some(c) => {
                match ns[0] {
                    XmlNode::Element(c0) => {
                        if c0.name@ == name {
                            assert(ns[0] == XmlNode::Element(c));
                        } else {
                            let j = choose|j: int|
                                0 <= j < ns.drop_first().len() && ns.drop_first()[j]
                                    == XmlNode::Element(c);
                            assert(ns[j + 1] == XmlNode::Element(c));
                        }
                    },
                    _ => {
                        let j = choose|j: int|
                            0 <= j < ns.drop_first().len() && ns.drop_first()[j]
                                == XmlNode::Element(c);
                        assert(ns[j + 1] == XmlNode::Element(c));
                    },
                }
            },
            None => {},
        }
    }
}

/// The first element in preorder with the given local name whose attribute
/// `aname` has the exact value `aval`.
pub open spec fn spec_find_desc_attr(
    e: XmlElement,
    name: Seq<char>,
    aname: Seq<char>,
    aval: Seq<char>,
) -> Option<XmlElement>
    decreases e,
{
    if e.name@ == name && spec_attr(e, aname) == Some(aval) {
        Some(e)
    } else {
        spec_find_desc_attr_in(e.children@, name, aname, aval)
    }
}

pub open spec fn spec_find_desc_attr_in(
    ns: Seq<XmlNode>,
    name: Seq<char>,
    aname: Seq<char>,
    aval: Seq<char>,
) -> Option<XmlElement>
    decreases ns,
{
    if ns.len() == 0 {
        None
    } else {
        let head = match ns[0] {
            XmlNode::Element(c) => spec_find_desc_attr(c, name, aname, aval),
            _ => None,
        };
        if head is Some {
            head
        } else {
            spec_find_desc_attr_in(ns.drop_first(), name, aname, aval)
        }
    }
}

/// Preorder search for the given local name and attribute value, as
/// `spec_find_desc_attr`.
pub fn find_desc_attr<'a>(e: &'a XmlElement, name: &str, aname: &str, aval: &str) -> (r: Option<
    &'a XmlElement,
>)
    ensures
        match r {
            Some(f) => spec_find_desc_attr(*e, name@, aname@, aval@) == Some(*f),
            None => spec_find_desc_attr(*e, name@, aname@, aval@) is None,
        },
    decreases *e,
{
    let name_hit = crate::text::str_eq(e.name.as_str(), name);
    let attr_hit = match e.attr(aname) {
        Some(v) => crate::text::str_eq(v.as_str(), aval),
        None => false,
    };
    if name_hit && attr_hit {
        return Some(e);
    }
    let mut i: usize = 0;
    assert(e.children@.skip(0) =~= e.children@);
    while i < e.children.len()
        invariant
            i <= e.children@.len(),
            spec_find_desc_attr(*e, name@, aname@, aval@) == spec_find_desc_attr_in(
                e.children@.skip(i as int),
                name@,
                aname@,
                aval@,
            ),
        decreases e.children@.len() - i,
    {
        assert(e.children@.skip(i as int)[0] == e.children@[i as int]);
        assert(e.children@.skip(i as int).drop_first() =~= e.children@.skip(i + 1));
        match &e.children[i] {
            XmlNode::Element(c) => {
                proof {
                    assert(decreases_to!(*e => e.children));
                    assert(decreases_to!(e.children@[i as int] => *c));
                }
                let f = find_desc_attr(c, name, aname, aval);
                if f.is_some() {
                    return f;
                }
            },
            _ => {},
        }
        i = i + 1;
    }
    assert(e.children@.skip(i as int) =~= Seq::empty());
    None
}

/// All text contained under `e`, concatenated in document order.
pub fn collect_text(e: &XmlElement) -> (r: String)
    ensures
        r@ == spec_nodes_text(e.children@),
    decreases *e,
{
    let mut out = String::new();
    let mut i: usize = 0;
    assert(e.children@.skip(0) =~= e.children@);
    while i < e.children.len()
        invariant
            i <= e.children@.len(),
            spec_nodes_text(e.children@) == out@ + spec_nodes_text(e.children@.skip(i as int)),
        decreases e.children@.len() - i,
    {
        assert(e.children@.skip(i as int)[0] == e.children@[i as int]);
        assert(e.children@.skip(i as int).drop_first() =~= e.children@.skip(i + 1));
        let ghost out0 = out@;
        let ghost head = spec_node_text(e.children@[i as int]);
        let ghost rest = spec_nodes_text(e.children@.skip(i + 1));
        match &e.children[i] {
            XmlNode::Text(t) => {
                out.append(t.as_str());
            },
            XmlNode::Element(c) => {
                proof {
                    assert(decreases_to!(*e => e.children));
                    assert(decreases_to!(e.children@[i as int] => *c));
                }
                let inner = collect_text(c);
                out.append(inner.as_str());
            },
            XmlNode::Other => {
                proof {
                    assert(out@ =~= out0 + head);
                }
            },
        }
        proof {
            assert(out@ =~= out0 + head);
            assert(out0 + (head + rest) =~= out@ + rest);
        }
        i = i + 1;
    }
    assert(e.children@.skip(i as int) =~= Seq::empty());
    assert(out@ =~= out@ + Seq::<char>::empty());
    out
}

/// Preorder search for the given local name, as `spec_find_desc`.
pub fn find_desc<'a>(e: &'a XmlElement, name: &str) -> (r: Option<&'a XmlElement>)
    ensures
        match r {
            Some(f) => spec_find_desc(*e, name@) == Some(*f),
            None => spec_find_desc(*e, name@) is None,
        },
    decreases *e,
{
    if crate::text::str_eq(e.name.as_str(), name) {
        return Some(e);
    }
    let mut i: usize = 0;
    assert(e.children@.skip(0) =~= e.children@);
    while i < e.children.len()
        invariant
            i <= e.children@.len(),
            spec_find_desc(*e, name@) == spec_find_desc_in(e.children@.skip(i as int), name@),
        decreases e.children@.len() - i,
    {
        assert(e.children@.skip(i as int)[0] == e.children@[i as int]);
        assert(e.children@.skip(i as int).drop_first() =~= e.children@.skip(i + 1));
        match &e.children[i] {
            XmlNode::Element(c) => {
                proof {
                    assert(decreases_to!(*e => e.children));
                    assert(decreases_to!(e.children@[i as int] => *c));
                }
                let f = find_desc(c, name);
                if f.is_some() {
                    return f;
                }
            },
            _ => {},
        }
        i = i + 1;
    }
    assert(e.children@.skip(i as int) =~= Seq::empty());
    None
}

} // verus!
