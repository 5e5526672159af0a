//! Table-of-contents parsers: the XHTML navigation document (EPUB 3) and the
//! legacy NCX document (EPUB 2), both yielding the same tree shape.

use vstd::prelude::*;

use crate::error::EpubError;
use crate::package::{joined, ov};
use crate::text;
use crate::xml;
use crate::xml::{XmlElement, XmlNode};

verus! {

/// One entry of the table of contents. `children` is `None` when no nested
/// list exists; a nav-doc entry with an empty nested `ol` keeps `Some` of an
/// empty vector, an NCX entry never does.
#[derive(Debug, PartialEq)]
pub struct TocNode {
    pub title: String,
    pub href: Option<String>,
    pub children: Option<Vec<TocNode>>,
}

/// The table of contents: the top-level entries in document order.
#[derive(Debug, PartialEq)]
pub struct Toc {
    pub contents: Vec<TocNode>,
}

/// The mathematical shape of a `TocNode`.
pub ghost struct GTocNode {
    pub title: Seq<char>,
    pub href: Option<Seq<char>>,
    pub children: Option<Seq<GTocNode>>,
}

/// The model of a node: its strings as character sequences.
pub open spec fn tn_view(n: TocNode) -> GTocNode
    decreases n,
{
    GTocNode {
        title: n.title@,
        href: ov(n.href),
        children: match n.children {
            Some(v) => Some(tns_view(v@)),
            None => None,
        },
    }
}

pub open spec fn tns_view(ns: Seq<TocNode>) -> Seq<GTocNode>
    decreases ns,
{
    if ns.len() == 0 {
        Seq::empty()
    } else {
        tns_view(ns.drop_last()).push(tn_view(ns.last()))
    }
}

pub proof fn lemma_tns_view(ns: Seq<TocNode>)
    ensures
        tns_view(ns).len() == ns.len(),
        forall|i: int| 0 <= i < ns.len() ==> tns_view(ns)[i] == tn_view(ns[i]),
    decreases ns,
{
    if ns.len() == 0 {
    } else {
        lemma_tns_view(ns.drop_last());
    }
}

/// The title and link of a nav-doc list entry: from its first `a` child if
/// any, else from its first `span` child, else empty. Titles are whitespace
/// normalized; the link is the `href` attribute rewritten to an archive path.
pub open spec fn spec_li_title(li: XmlElement, base: Seq<char>) -> Seq<char> {
    match xml::spec_first_child_elem(li.children@, "a"@) {
        Some(ae) => text::norm_spec(xml::spec_nodes_text(ae.children@)),
        None => match xml::spec_first_child_elem(li.children@, "span"@) {
            Some(se) => text::norm_spec(xml::spec_nodes_text(se.children@)),
            None => Seq::empty(),
        },
    }
}

pub open spec fn spec_li_href(li: XmlElement, base: Seq<char>) -> Option<Seq<char>> {
    match xml::spec_first_child_elem(li.children@, "a"@) {
        Some(ae) => match xml::spec_attr(ae, "href"@) {
            Some(h) => Some(joined(base, h)),
            None => None,
        },
        None => None,
    }
}

/// The model of one nav-doc `li` entry: title and link as above; `children`
/// present exactly when a direct `ol` child exists, possibly empty.
pub open spec fn spec_parse_li(li: XmlElement, base: Seq<char>) -> GTocNode
    decreases li,
        via spec_parse_li_dec
{
    GTocNode {
        title: spec_li_title(li, base),
        href: spec_li_href(li, base),
        children: match xml::spec_first_child_elem(li.children@, "ol"@) {
            Some(ol) => Some(spec_parse_lis(ol.children@, base)),
            None => None,
        },
    }
}

#[via_fn]
proof fn spec_parse_li_dec(li: XmlElement, base: Seq<char>) {
    match xml::spec_first_child_elem(li.children@, "ol"@) {
        Some(ol) => {
            xml::lemma_first_child_elem_mem(li.children@, "ol"@);
            let j = choose|j: int|
                0 <= j < li.children@.len() && li.children@[j] == XmlNode::Element(ol);
            assert(decreases_to!(li => li.children@[j]));
            assert(li.children@[j]->Element_0 == ol);
            assert(decreases_to!(li.children@[j] => li.children@[j]->Element_0));
            assert(decreases_to!(ol => ol.children@));
            assert(decreases_to!(li => ol.children@));
        },
        None => {},
    }
}

/// The models of the `li` children of a list, in document order.
pub open spec fn spec_parse_lis(ns: Seq<XmlNode>, base: Seq<char>) -> Seq<GTocNode>
    decreases ns,
{
    if ns.len() == 0 {
        Seq::empty()
    } else {
        (match ns[0] {
            XmlNode::Element(c) => if c.name@ == "li"@ {
                seq![spec_parse_li(c, base)]
            } else {
                Seq::empty()
            },
            _ => Seq::empty(),
        }) + spec_parse_lis(ns.drop_first(), base)
    }
}

/// Parses one nav-doc `li` element.
fn parse_li(li: &XmlElement, base: &str) -> (r: TocNode)
    ensures
        tn_view(r) == spec_parse_li(*li, base@),
    decreases *li,
{
    let mut title: String = String::new();
    let mut href: Option<String> = None;
    match li.first_child_elem("a") {
        Some(ae) => {
            let txt = xml::collect_text(ae);
            title = text::text_norm(txt.as_str());
            href = match ae.attr("href") {
                Some(h) => Some(crate::package::join_path(base, h.as_str())),
                None => None,
            };
        },
        None => {
            match li.first_child_elem("span") {
                Some(se) => {
                    let txt = xml::collect_text(se);
                    title = text::text_norm(txt.as_str());
                },
                None => {},
            }
        },
    }
    let children: Option<Vec<TocNode>> = match li.first_child_elem("ol") {
        Some(ol) => {
            proof {
                xml::lemma_first_child_elem_mem(li.children@, "ol"@);
                let j = choose|j: int|
                    0 <= j < li.children@.len() && li.children@[j] == XmlNode::Element(*ol);
                assert(decreases_to!(*li => li.children@[j]));
                assert(li.children@[j]->Element_0 == *ol);
                assert(decreases_to!(li.children@[j] => li.children@[j]->Element_0));
                assert(decreases_to!(*li => *ol));
            }
            Some(parse_lis(ol, base))
        },
        None => None,
    };
    TocNode { title, href, children }
}

/// Parses the `li` children of a list element, in document order.
fn parse_lis(parent: &XmlElement, base: &str) -> (r: Vec<TocNode>)
    ensures
        tns_view(r@) == spec_parse_lis(parent.children@, base@),
    decreases *parent,
{
    let mut out: Vec<TocNode> = Vec::new();
    let ghost cs = parent.children@;
    proof {
        assert(cs.skip(0) =~= cs);
        assert(tns_view(out@) =~= Seq::<GTocNode>::empty());
        assert(tns_view(out@) + spec_parse_lis(cs, base@) =~= spec_parse_lis(cs, base@));
    }
    let mut i: usize = 0;
    while i < parent.children.len()
        invariant
            i <= parent.children@.len(),
            cs == parent.children@,
            spec_parse_lis(cs, base@) == tns_view(out@) + spec_parse_lis(
                cs.skip(i as int),
                base@,
            ),
        decreases parent.children@.len() - i,
    {
        proof {
            assert(cs.skip(i as int)[0] == cs[i as int]);
            assert(cs.skip(i as int).drop_first() =~= cs.skip(i + 1));
        }
        let ghost acc0 = tns_view(out@);
        let ghost rest1 = spec_parse_lis(cs.skip(i + 1), base@);
        match &parent.children[i] {
            XmlNode::Element(c) => {
                if text::str_eq(c.name.as_str(), "li") {
                    proof {
                        assert(decreases_to!(*parent => parent.children));
                        assert(decreases_to!(cs[i as int] => *c));
                    }
                    let node = parse_li(c, base);
                    let ghost gn = tn_view(node);
                    let ghost v0 = out@;
                    out.push(node);
                    proof {
                        assert(out@.drop_last() =~= v0);
                        assert(out@.last() == node);
                        assert(tns_view(out@) == acc0.push(gn));
                        assert(acc0 + (seq![gn] + rest1) =~= acc0.push(gn) + rest1);
                    }
                }
            },
            _ => {},
        }
        i = i + 1;
    }
    proof {
        assert(cs.skip(i as int) =~= Seq::<XmlNode>::empty());
        assert(tns_view(out@) + spec_parse_lis(Seq::<XmlNode>::empty(), base@) =~= tns_view(out@));
    }
    out
}

/// The title of an NCX `navPoint`: the raw text of `navLabel/text`, with no
/// whitespace normalization; empty when absent at any level.
pub open spec fn spec_np_title(np: XmlElement) -> Seq<char> {
    match xml::spec_first_child_elem(np.children@, "navLabel"@) {
        Some(nl) => match xml::spec_first_child_elem(nl.children@, "text"@) {
            Some(te) => match xml::spec_first_text(te) {
                Some(t) => t,
                None => Seq::empty(),
            },
            None => Seq::empty(),
        },
        None => Seq::empty(),
    }
}

/// The link of an NCX `navPoint`: the `src` attribute of its first direct
/// `content` child, rewritten to an archive path.
pub open spec fn spec_np_href(np: XmlElement, base: Seq<char>) -> Option<Seq<char>> {
    match xml::spec_first_child_elem(np.children@, "content"@) {
        Some(ce) => match xml::spec_attr(ce, "src"@) {
            Some(s) => Some(joined(base, s)),
            None => None,
        },
        None => None,
    }
}

/// The model of one NCX `navPoint`: unlike the nav-doc, an empty recursion
/// yields `children = None`.
pub open spec fn spec_parse_nav_point(np: XmlElement, base: Seq<char>) -> GTocNode
    decreases np,
{
    let kids = spec_parse_nav_points(np.children@, base);
    GTocNode {
        title: spec_np_title(np),
        href: spec_np_href(np, base),
        children: if kids.len() == 0 {
            None
        } else {
            Some(kids)
        },
    }
}

/// The models of the direct `navPoint` children, in document order.
pub open spec fn spec_parse_nav_points(ns: Seq<XmlNode>, base: Seq<char>) -> Seq<GTocNode>
    decreases ns,
{
    if ns.len() == 0 {
        Seq::empty()
    } else {
        (match ns[0] {
            XmlNode::Element(c) => if c.name@ == "navPoint"@ {
                seq![spec_parse_nav_point(c, base)]
            } else {
                Seq::empty()
            },
            _ => Seq::empty(),
        }) + spec_parse_nav_points(ns.drop_first(), base)
    }
}

/// Parses one NCX `navPoint` element.
fn parse_nav_point(np: &XmlElement, base: &str) -> (r: TocNode)
    ensures
        tn_view(r) == spec_parse_nav_point(*np, base@),
    decreases *np,
{
    let title: String = match np.first_child_elem("navLabel") {
        Some(nl) => match nl.first_child_elem("text") {
            Some(te) => match te.first_text() {
                Some(t) => t.clone(),
                None => String::new(),
            },
            None => String::new(),
        },
        None => String::new(),
    };
    let href: Option<String> = match np.first_child_elem("content") {
        Some(ce) => match ce.attr("src") {
            Some(s) => Some(crate::package::join_path(base, s.as_str())),
            None => None,
        },
        None => None,
    };
    let kids = parse_nav_points(np, base);
    proof {
        lemma_tns_view(kids@);
    }
    let children: Option<Vec<TocNode>> = if kids.len() == 0 {
        None
    } else {
        Some(kids)
    };
    TocNode { title, href, children }
}

/// Parses the direct `navPoint` children of an element, in document order.
fn parse_nav_points(parent: &XmlElement, base: &str) -> (r: Vec<TocNode>)
    ensures
        tns_view(r@) == spec_parse_nav_points(parent.children@, base@),
    decreases *parent, 0int,
{
    let mut out: Vec<TocNode> = Vec::new();
    let ghost cs = parent.children@;
    proof {
        assert(cs.skip(0) =~= cs);
        assert(tns_view(out@) =~= Seq::<GTocNode>::empty());
        assert(tns_view(out@) + spec_parse_nav_points(cs, base@) =~= spec_parse_nav_points(
            cs,
            base@,
        ));
    }
    let mut i: usize = 0;
    while i < parent.children.len()
        invariant
            i <= parent.children@.len(),
            cs == parent.children@,
            spec_parse_nav_points(cs, base@) == tns_view(out@) + spec_parse_nav_points(
                cs.skip(i as int),
                base@,
            ),
        decreases parent.children@.len() - i,
    {
        proof {
            assert(cs.skip(i as int)[0] == cs[i as int]);
            assert(cs.skip(i as int).drop_first() =~= cs.skip(i + 1));
        }
        let ghost acc0 = tns_view(out@);
        let ghost rest1 = spec_parse_nav_points(cs.skip(i + 1), base@);
        match &parent.children[i] {
            XmlNode::Element(c) => {
                if text::str_eq(c.name.as_str(), "navPoint") {
                    proof {
                        assert(decreases_to!(*parent => parent.children));
                        assert(decreases_to!(cs[i as int] => *c));
                    }
                    let node = parse_nav_point(c, base);
                    let ghost gn = tn_view(node);
                    let ghost v0 = out@;
                    out.push(node);
                    proof {
                        assert(out@.drop_last() =~= v0);
                        assert(out@.last() == node);
                        assert(tns_view(out@) == acc0.push(gn));
                        assert(acc0 + (seq![gn] + rest1) =~= acc0.push(gn) + rest1);
                    }
                }
            },
            _ => {},
        }
        i = i + 1;
    }
    proof {
        assert(cs.skip(i as int) =~= Seq::<XmlNode>::empty());
        assert(tns_view(out@) + spec_parse_nav_points(Seq::<XmlNode>::empty(), base@) =~= tns_view(
            out@,
        ));
    }
    out
}

/// The top-level nav-doc entries: the `li` children of the first direct
/// `ol` of the first `nav` element carrying `id="toc"`.
pub open spec fn spec_nav_model(root: XmlElement, base: Seq<char>) -> Seq<GTocNode> {
    let nav = xml::spec_find_desc_attr(root, "nav"@, "id"@, "toc"@)->0;
    let ol = xml::spec_first_child_elem(nav.children@, "ol"@)->0;
    spec_parse_lis(ol.children@, base)
}

/// The top-level NCX entries: the `navPoint` children of the first `navMap`.
pub open spec fn spec_ncx_model(root: XmlElement, base: Seq<char>) -> Seq<GTocNode> {
    let nm = xml::spec_find_desc(root, "navMap"@)->0;
    spec_parse_nav_points(nm.children@, base)
}

impl Toc {
    /// Builds the table of contents from an already parsed navigation
    /// document.
    pub fn from_nav_root(root: &XmlElement, base_path: &str) -> (r: Result<Toc, EpubError>)
        ensures
            (r matches Err(e) && e == EpubError::NavNotFound) <==> xml::spec_find_desc_attr(
                *root,
                "nav"@,
                "id"@,
                "toc"@,
            ) is None,
            (r matches Err(e) && e == EpubError::TopLevelOlMissing) <==> (xml::spec_find_desc_attr(
                *root,
                "nav"@,
                "id"@,
                "toc"@,
            ) matches Some(nav) && xml::spec_first_child_elem(nav.children@, "ol"@) is None),
            r matches Err(e) ==> (e == EpubError::NavNotFound || e
                == EpubError::TopLevelOlMissing),
            r matches Ok(t) ==> tns_view(t.contents@) == spec_nav_model(*root, base_path@),
    {
        let nav = match xml::find_desc_attr(root, "nav", "id", "toc") {
            Some(el) => el,
            None => {
                return Err(EpubError::NavNotFound);
            },
        };
        let ol = match nav.first_child_elem("ol") {
            Some(el) => el,
            None => {
                return Err(EpubError::TopLevelOlMissing);
            },
        };
        Ok(Toc { contents: parse_lis(ol, base_path) })
    }

    /// Builds the table of contents from an already parsed NCX document.
    pub fn from_ncx_root(root: &XmlElement, base_path: &str) -> (r: Result<Toc, EpubError>)
        ensures
            r is Err <==> xml::spec_find_desc(*root, "navMap"@) is None,
            r matches Err(e) ==> e == EpubError::NavMapNotFound,
            r matches Ok(t) ==> tns_view(t.contents@) == spec_ncx_model(*root, base_path@),
    {
        let nm = match xml::find_desc(root, "navMap") {
            Some(el) => el,
            None => {
                return Err(EpubError::NavMapNotFound);
            },
        };
        Ok(Toc { contents: parse_nav_points(nm, base_path) })
    }

    /// Parses an XHTML navigation document: the nav model of `tree_of` the
    /// text. On success every entry carries a whitespace-normalized title
    /// and a base-prefixed link.
    pub fn from_nav_doc(doc: &str, base_path: &str) -> (r: Result<Toc, EpubError>)
        ensures
            (r matches Err(e) && e == EpubError::MalformedXml) <==> xml::tree_of(doc@) is None,
            (r matches Err(e) && e == EpubError::NavNotFound) <==> (xml::tree_of(doc@)
                matches Some(root) && xml::spec_find_desc_attr(root, "nav"@, "id"@, "toc"@)
                is None),
            (r matches Err(e) && e == EpubError::TopLevelOlMissing) <==> (xml::tree_of(doc@)
                matches Some(root) && xml::spec_find_desc_attr(root, "nav"@, "id"@, "toc"@)
                matches Some(nav) && xml::spec_first_child_elem(nav.children@, "ol"@) is None),
            r is Ok <==> (xml::tree_of(doc@) matches Some(root) && xml::spec_find_desc_attr(
                root,
                "nav"@,
                "id"@,
                "toc"@,
            ) matches Some(nav) && xml::spec_first_child_elem(nav.children@, "ol"@) is Some),
            r matches Ok(t) ==> tns_view(t.contents@) == spec_nav_model(
                xml::tree_of(doc@)->0,
                base_path@,
            ),
            r matches Ok(t) ==> gtns_wf_nav(tns_view(t.contents@), base_path@),
    {
        let root = xml::parse(doc)?;
        let toc = Toc::from_nav_root(&root, base_path)?;
        proof {
            let nav = xml::spec_find_desc_attr(root, "nav"@, "id"@, "toc"@)->0;
            let ol = xml::spec_first_child_elem(nav.children@, "ol"@)->0;
            lemma_parse_lis_wf(ol.children@, base_path@);
        }
        Ok(toc)
    }

    /// Parses an NCX document: the NCX model of `tree_of` the text. On
    /// success every entry carries a base-prefixed link, and no entry has an
    /// empty child sequence.
    pub fn from_ncx(doc: &str, base_path: &str) -> (r: Result<Toc, EpubError>)
        ensures
            (r matches Err(e) && e == EpubError::MalformedXml) <==> xml::tree_of(doc@) is None,
            (r matches Err(e) && e == EpubError::NavMapNotFound) <==> (xml::tree_of(doc@)
                matches Some(root) && xml::spec_find_desc(root, "navMap"@) is None),
            r is Ok <==> (xml::tree_of(doc@) matches Some(root) && xml::spec_find_desc(
                root,
                "navMap"@,
            ) is Some),
            r matches Ok(t) ==> tns_view(t.contents@) == spec_ncx_model(
                xml::tree_of(doc@)->0,
                base_path@,
            ),
            r matches Ok(t) ==> gtns_wf_ncx(tns_view(t.contents@), base_path@),
    {
        let root = xml::parse(doc)?;
        let toc = Toc::from_ncx_root(&root, base_path)?;
        proof {
            let nm = xml::spec_find_desc(root, "navMap"@)->0;
            lemma_parse_nav_points_wf(nm.children@, base_path@);
        }
        Ok(toc)
    }
}

/// What holds of every node a nav-doc parse yields: the title is whitespace
/// normalized, the link carries the base prefix, and so on recursively.
pub open spec fn gtn_wf_nav(n: GTocNode, base: Seq<char>) -> bool
    decreases n,
{
    &&& text::is_normalized(n.title)
    &&& (n.href matches Some(h) ==> crate::package::prefixed(h, base))
    &&& (n.children matches Some(cs) ==> gtns_wf_nav(cs, base))
}

pub open spec fn gtns_wf_nav(s: Seq<GTocNode>, base: Seq<char>) -> bool
    decreases s,
{
    s.len() == 0 || (gtn_wf_nav(s[0], base) && gtns_wf_nav(s.drop_first(), base))
}

/// What holds of every node an NCX parse yields: the link carries the base
/// prefix, and `children` is never an empty sequence.
pub open spec fn gtn_wf_ncx(n: GTocNode, base: Seq<char>) -> bool
    decreases n,
{
    &&& (n.href matches Some(h) ==> crate::package::prefixed(h, base))
    &&& (n.children matches Some(cs) ==> cs.len() > 0 && gtns_wf_ncx(cs, base))
}

pub open spec fn gtns_wf_ncx(s: Seq<GTocNode>, base: Seq<char>) -> bool
    decreases s,
{
    s.len() == 0 || (gtn_wf_ncx(s[0], base) && gtns_wf_ncx(s.drop_first(), base))
}

/// Law: every nav-doc entry has a normalized title and a base-prefixed link,
/// recursively.
pub proof fn lemma_parse_li_wf(li: XmlElement, base: Seq<char>)
    ensures
        gtn_wf_nav(spec_parse_li(li, base), base),
    decreases li,
{
    match xml::spec_first_child_elem(li.children@, "a"@) {
        Some(ae) => {
            text::lemma_norm_normalized(xml::spec_nodes_text(ae.children@));
            match xml::spec_attr(ae, "href"@) {
                Some(h) => {
                    crate::package::lemma_joined_prefixed(base, h);
                },
                None => {},
            }
        },
        None => {
            match xml::spec_first_child_elem(li.children@, "span"@) {
                Some(se) => {
                    text::lemma_norm_normalized(xml::spec_nodes_text(se.children@));
                },
                None => {},
            }
        },
    }
    match xml::spec_first_child_elem(li.children@, "ol"@) {
        Some(ol) => {
            xml::lemma_first_child_elem_mem(li.children@, "ol"@);
            let j = choose|j: int|
                0 <= j < li.children@.len() && li.children@[j] == XmlNode::Element(ol);
            assert(decreases_to!(li => li.children@[j]));
            assert(li.children@[j]->Element_0 == ol);
            assert(decreases_to!(li.children@[j] => li.children@[j]->Element_0));
            assert(decreases_to!(li => ol.children@));
            lemma_parse_lis_wf(ol.children@, base);
        },
        None => {},
    }
}

pub proof fn lemma_parse_lis_wf(ns: Seq<XmlNode>, base: Seq<char>)
    ensures
        gtns_wf_nav(spec_parse_lis(ns, base), base),
    decreases ns,
{
    if ns.len() == 0 {
    } else {
        lemma_parse_lis_wf(ns.drop_first(), base);
        let rest = spec_parse_lis(ns.drop_first(), base);
        match ns[0] {
            XmlNode::Element(c) => {
                if c.name@ == "li"@ {
                    lemma_parse_li_wf(c, base);
                    let all = seq![spec_parse_li(c, base)] + rest;
                    assert(all[0] == spec_parse_li(c, base));
                    assert(all.drop_first() =~= rest);
                } else {
                    assert(spec_parse_lis(ns, base) =~= rest);
                }
            },
            _ => {
                assert(spec_parse_lis(ns, base) =~= rest);
            },
        }
    }
}

/// Law: every NCX entry has a base-prefixed link and children that are
/// either absent or non-empty, recursively.
pub proof fn lemma_parse_nav_point_wf(np: XmlElement, base: Seq<char>)
    ensures
        gtn_wf_ncx(spec_parse_nav_point(np, base), base),
    decreases np,
{
    match xml::spec_first_child_elem(np.children@, "content"@) {
        Some(ce) => {
            match xml::spec_attr(ce, "src"@) {
                Some(s) => {
                    crate::package::lemma_joined_prefixed(base, s);
                },
                None => {},
            }
        },
        None => {},
    }
    assert(decreases_to!(np => np.children@));
    lemma_parse_nav_points_wf(np.children@, base);
}

pub proof fn lemma_parse_nav_points_wf(ns: Seq<XmlNode>, base: Seq<char>)
    ensures
        gtns_wf_ncx(spec_parse_nav_points(ns, base), base),
    decreases ns,
{
    if ns.len() == 0 {
    } else {
        lemma_parse_nav_points_wf(ns.drop_first(), base);
        let rest = spec_parse_nav_points(ns.drop_first(), base);
        match ns[0] {
            XmlNode::Element(c) => {
                if c.name@ == "navPoint"@ {
                    lemma_parse_nav_point_wf(c, base);
                    let all = seq![spec_parse_nav_point(c, base)] + rest;
                    assert(all[0] == spec_parse_nav_point(c, base));
                    assert(all.drop_first() =~= rest);
                } else {
                    assert(spec_parse_nav_points(ns, base) =~= rest);
                }
            },
            _ => {
                assert(spec_parse_nav_points(ns, base) =~= rest);
            },
        }
    }
}

} // verus!
