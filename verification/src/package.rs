//! Parser for the OPF package document: title, language, manifest, spine and
//! the pointers to the two kinds of table-of-contents documents.

use vstd::prelude::*;

use crate::error::{EpubError, Section};
use crate::strmap::StrMap;
use crate::text;
use crate::xml;
use crate::xml::{XmlElement, XmlNode};

verus! {

/// The parsed package document.
#[derive(Debug, PartialEq)]
pub struct PackageDocument {
    pub title: String,
    pub language: String,
    pub cover_image_path: Option<String>,
    pub spine: Vec<String>,
    pub manifest: StrMap<Option<String>>,
    pub toc_ncx_path: Option<String>,
    pub toc_nav_doc_path: Option<String>,
}

/// The view of an optional string.
pub open spec fn ov(o: Option<String>) -> Option<Seq<char>> {
    match o {
        Some(s) => Some(s@),
        None => None,
    }
}

/// An archive-absolute path: the base directory, a single `/`, the reference.
pub open spec fn joined(base: Seq<char>, href: Seq<char>) -> Seq<char> {
    base + seq!['/'] + href
}

/// Joins a base directory and a relative reference with a single `/`.
pub fn join_path(base: &str, href: &str) -> (r: String)
    ensures
        r@ == joined(base@, href@),
{
    let mut s = String::from_str(base);
    s.append("/");
    s.append(href);
    proof {
        reveal_strlit("/");
        assert(("/")@ =~= seq!['/']);
        assert(s@ =~= joined(base@, href@));
    }
    s
}

/// What one pass over the `manifest` section accumulates.
pub ghost struct GManifest {
    pub cover: Option<Seq<char>>,
    pub nav: Option<Seq<char>>,
    pub by_id: Map<Seq<char>, Seq<char>>,
    pub by_path: Map<Seq<char>, Option<Seq<char>>>,
}

pub open spec fn manifest_init() -> GManifest {
    GManifest {
        cover: None,
        nav: None,
        by_id: Map::empty(),
        by_path: Map::empty(),
    }
}

/// The effect of one manifest child on the accumulated state. An `item` with
/// `properties="cover-image"` or `"nav"` and an `href` sets the respective
/// path; one with both `id` and `href` is registered in both indices; later
/// items override earlier ones.
pub open spec fn manifest_step(m: GManifest, n: XmlNode, base: Seq<char>) -> GManifest {
    match n {
        XmlNode::Element(it) => {
            if it.name@ == "item"@ {
                let href = xml::spec_attr(it, "href"@);
                let props = xml::spec_attr(it, "properties"@);
                let id = xml::spec_attr(it, "id"@);
                let mt = xml::spec_attr(it, "media-type"@);
                let cover = if props matches Some(p) && p == "cover-image"@ && href is Some {
                    Some(joined(base, href->0))
                } else {
                    m.cover
                };
                let nav = if props matches Some(p) && p == "nav"@ && href is Some {
                    Some(joined(base, href->0))
                } else {
                    m.nav
                };
                if id is Some && href is Some {
                    GManifest {
                        cover,
                        nav,
                        by_id: m.by_id.insert(id->0, joined(base, href->0)),
                        by_path: m.by_path.insert(joined(base, href->0), mt),
                    }
                } else {
                    GManifest { cover, nav, by_id: m.by_id, by_path: m.by_path }
                }
            } else {
                m
            }
        },
        _ => m,
    }
}

/// The state after all manifest children, processed in document order.
pub open spec fn manifest_fold(ns: Seq<XmlNode>, base: Seq<char>) -> GManifest
    decreases ns.len(),
{
    if ns.len() == 0 {
        manifest_init()
    } else {
        manifest_step(manifest_fold(ns.drop_last(), base), ns.last(), base)
    }
}

/// The trimmed direct text of the first Dublin Core child with the given
/// local name; empty when the element or its text is absent. Trimming uses
/// the full Unicode `White_Space` set — the same set the whitespace
/// normalizer collapses — not the ASCII subset.
pub open spec fn spec_dc_text(ns: Seq<XmlNode>, name: Seq<char>) -> Seq<char> {
    match xml::spec_first_child_elem_ns(ns, "http://purl.org/dc/elements/1.1/"@, name) {
        Some(el) => match xml::spec_first_text(el) {
            Some(t) => text::trim_spec(t),
            None => Seq::empty(),
        },
        None => Seq::empty(),
    }
}

/// Reads the trimmed text of a Dublin Core metadata element.
fn dc_text(md: &XmlElement, name: &str) -> (r: String)
    ensures
        r@ == spec_dc_text(md.children@, name@),
{
    match md.first_child_elem_ns("http://purl.org/dc/elements/1.1/", name) {
        Some(el) => match el.first_text() {
            Some(t) => text::trim(t.as_str()),
            None => {
                proof {
                    assert(text::trim_spec(Seq::<char>::empty()) =~= Seq::<char>::empty());
                }
                String::new()
            },
        },
        None => String::new(),
    }
}

/// Walks the children of the `manifest` element, accumulating the cover
/// image path, the navigation document path, and the two indices.
fn parse_manifest(mf: &XmlElement, base: &str) -> (r: (
    Option<String>,
    Option<String>,
    StrMap<String>,
    StrMap<Option<String>>,
))
    ensures
        ov(r.0) == manifest_fold(mf.children@, base@).cover,
        ov(r.1) == manifest_fold(mf.children@, base@).nav,
        r.2@.map_values(|v: String| v@) == manifest_fold(mf.children@, base@).by_id,
        r.3@.map_values(|v: Option<String>| ov(v)) == manifest_fold(mf.children@, base@).by_path,
        r.2.spec_len() <= mf.children@.len(),
        r.3.spec_len() <= mf.children@.len(),
{
    let mut cover: Option<String> = None;
    let mut nav: Option<String> = None;
    let mut by_id: StrMap<String> = StrMap::new();
    let mut by_path: StrMap<Option<String>> = StrMap::new();
    let ghost cs = mf.children@;
    proof {
        assert(cs.take(0) =~= Seq::<XmlNode>::empty());
        assert(by_id@.map_values(|v: String| v@) =~= Map::<Seq<char>, Seq<char>>::empty());
        assert(by_path@.map_values(|v: Option<String>| ov(v)) =~= Map::<
            Seq<char>,
            Option<Seq<char>>,
        >::empty());
    }
    let mut i: usize = 0;
    while i < mf.children.len()
        invariant
            i <= mf.children@.len(),
            cs == mf.children@,
            ov(cover) == manifest_fold(cs.take(i as int), base@).cover,
            ov(nav) == manifest_fold(cs.take(i as int), base@).nav,
            by_id@.map_values(|v: String| v@) == manifest_fold(cs.take(i as int), base@).by_id,
            by_path@.map_values(|v: Option<String>| ov(v)) == manifest_fold(
                cs.take(i as int),
                base@,
            ).by_path,
            by_id.spec_len() <= i,
            by_path.spec_len() <= i,
        decreases mf.children@.len() - i,
    {
        let ghost m0 = manifest_fold(cs.take(i as int), base@);
        proof {
            assert(cs.take(i + 1).drop_last() =~= cs.take(i as int));
            assert(cs.take(i + 1).last() == cs[i as int]);
            assert(manifest_fold(cs.take(i + 1), base@) == manifest_step(
                m0,
                cs[i as int],
                base@,
            ));
        }
        match &mf.children[i] {
            XmlNode::Element(it) => {
                if text::str_eq(it.name.as_str(), "item") {
                    let href = it.attr("href");
                    let props_cover = match it.attr("properties") {
                        Some(p) => text::str_eq(p.as_str(), "cover-image"),
                        None => false,
                    };
                    let props_nav = match it.attr("properties") {
                        Some(p) => text::str_eq(p.as_str(), "nav"),
                        None => false,
                    };
                    match href {
                        Some(h) => {
                            let path = join_path(base, h.as_str());
                            if props_cover {
                                cover = Some(path.clone());
                            }
                            if props_nav {
                                nav = Some(path.clone());
                            }
                            match it.attr("id") {
                                Some(idv) => {
                                    let mt: Option<String> = match it.attr("media-type") {
                                        Some(m) => Some(m.clone()),
                                        None => None,
                                    };
                                    let ghost bid0 = by_id@;
                                    let ghost bpath0 = by_path@;
                                    by_id.insert(idv.clone(), path.clone());
                                    by_path.insert(path, mt);
                                    proof {
                                        assert(by_id@.map_values(|v: String| v@) =~= bid0
                                            .map_values(|v: String| v@).insert(
                                            idv@,
                                            joined(base@, h@),
                                        ));
                                        assert(by_path@.map_values(|v: Option<String>| ov(v))
                                            =~= bpath0.map_values(|v: Option<String>| ov(v)).insert(
                                            joined(base@, h@),
                                            manifest_step(m0, cs[i as int], base@).by_path[joined(
                                                base@,
                                                h@,
                                            )],
                                        ));
                                    }
                                },
                                None => {},
                            }
                        },
                        None => {},
                    }
                }
            },
            _ => {},
        }
        i = i + 1;
    }
    proof {
        assert(cs.take(i as int) =~= cs);
    }
    (cover, nav, by_id, by_path)
}

/// The effect of one spine child: an `itemref` whose `idref` resolves in the
/// id index appends the mapped archive path; anything else is dropped.
pub open spec fn spine_step(
    acc: Seq<Seq<char>>,
    n: XmlNode,
    by_id: Map<Seq<char>, Seq<char>>,
) -> Seq<Seq<char>> {
    match n {
        XmlNode::Element(it) => if it.name@ == "itemref"@ {
            match xml::spec_attr(it, "idref"@) {
                Some(idr) => if by_id.dom().contains(idr) {
                    acc + seq![by_id[idr]]
                } else {
                    acc
                },
                None => acc,
            }
        } else {
            acc
        },
        _ => acc,
    }
}

/// The reading order after all spine children, in document order.
pub open spec fn spine_fold(ns: Seq<XmlNode>, by_id: Map<Seq<char>, Seq<char>>) -> Seq<Seq<char>>
    decreases ns.len(),
{
    if ns.len() == 0 {
        Seq::empty()
    } else {
        spine_step(spine_fold(ns.drop_last(), by_id), ns.last(), by_id)
    }
}

/// Whether the `spine` element names the NCX by the conventional literal
/// `toc="ncx"`.
pub open spec fn spec_ncx_flag(sp: XmlElement) -> bool {
    xml::spec_attr(sp, "toc"@) matches Some(t) && t == "ncx"@
}

/// Walks the children of the `spine` element, resolving `idref`s in the id
/// index; returns the NCX flag and the reading order.
fn parse_spine(sp: &XmlElement, by_id: &StrMap<String>) -> (r: (bool, Vec<String>))
    ensures
        r.0 == spec_ncx_flag(*sp),
        r.1.deep_view() == spine_fold(sp.children@, by_id@.map_values(|v: String| v@)),
{
    let ncx = match sp.attr("toc") {
        Some(t) => text::str_eq(t.as_str(), "ncx"),
        None => false,
    };
    let ghost gid = by_id@.map_values(|v: String| v@);
    let mut spine: Vec<String> = Vec::new();
    let ghost cs = sp.children@;
    proof {
        assert(cs.take(0) =~= Seq::<XmlNode>::empty());
        assert(spine.deep_view() =~= Seq::<Seq<char>>::empty());
    }
    let mut i: usize = 0;
    while i < sp.children.len()
        invariant
            i <= sp.children@.len(),
            cs == sp.children@,
            gid == by_id@.map_values(|v: String| v@),
            spine.deep_view() == spine_fold(cs.take(i as int), gid),
        decreases sp.children@.len() - i,
    {
        let ghost acc0 = spine.deep_view();
        proof {
            assert(cs.take(i + 1).drop_last() =~= cs.take(i as int));
            assert(cs.take(i + 1).last() == cs[i as int]);
            assert(spine_fold(cs.take(i + 1), gid) == spine_step(acc0, cs[i as int], gid));
        }
        match &sp.children[i] {
            XmlNode::Element(it) => {
                if text::str_eq(it.name.as_str(), "itemref") {
                    match it.attr("idref") {
                        Some(idr) => {
                            match by_id.get(idr.as_str()) {
                                Some(path) => {
                                    spine.push(path.clone());
                                    proof {
                                        assert(gid.dom().contains(idr@));
                                        assert(gid[idr@] == path@);
                                        assert(spine.deep_view() =~= acc0 + seq![gid[idr@]]);
                                    }
                                },
                                None => {},
                            }
                        },
                        None => {},
                    }
                }
            },
            _ => {},
        }
        i = i + 1;
    }
    proof {
        assert(cs.take(i as int) =~= cs);
    }
    (ncx, spine)
}

/// `s` begins with the base directory followed by a `/`.
pub open spec fn prefixed(s: Seq<char>, base: Seq<char>) -> bool {
    s.len() > base.len() && s.take(base.len() as int + 1) == base + seq!['/']
}

pub proof fn lemma_joined_prefixed(base: Seq<char>, href: Seq<char>)
    ensures
        prefixed(joined(base, href), base),
{
    assert(joined(base, href).take(base.len() as int + 1) =~= base + seq!['/']);
}

/// Law: every path the manifest pass produces — the cover image, the
/// navigation document, every id-index value and every path-index key — is
/// prefixed by the base directory, and every id-index value is a key of the
/// path index.
pub proof fn lemma_manifest_fold_wf(ns: Seq<XmlNode>, base: Seq<char>)
    ensures
        manifest_fold(ns, base).cover matches Some(p) ==> prefixed(p, base),
        manifest_fold(ns, base).nav matches Some(p) ==> prefixed(p, base),
        forall|id: Seq<char>| #[trigger]
            manifest_fold(ns, base).by_id.dom().contains(id) ==> prefixed(
                manifest_fold(ns, base).by_id[id],
                base,
            ) && manifest_fold(ns, base).by_path.dom().contains(manifest_fold(ns, base).by_id[id]),
        forall|q: Seq<char>| #[trigger]
            manifest_fold(ns, base).by_path.dom().contains(q) ==> prefixed(q, base),
    decreases ns.len(),
{
    if ns.len() == 0 {
    } else {
        lemma_manifest_fold_wf(ns.drop_last(), base);
        let m0 = manifest_fold(ns.drop_last(), base);
        let m1 = manifest_fold(ns, base);
        assert(m1 == manifest_step(m0, ns.last(), base));
        match ns.last() {
            XmlNode::Element(it) => {
                if it.name@ == "item"@ {
                    match xml::spec_attr(it, "href"@) {
                        Some(h) => {
                            lemma_joined_prefixed(base, h);
                        },
                        None => {},
                    }
                }
            },
            _ => {},
        }
    }
}

/// Law: every spine entry is a value of the id index (and hence a key of the
/// path index, by `lemma_manifest_fold_wf`).
pub proof fn lemma_spine_fold_resolved(ns: Seq<XmlNode>, by_id: Map<Seq<char>, Seq<char>>)
    ensures
        forall|k: int|
            0 <= k < spine_fold(ns, by_id).len() ==> exists|id: Seq<char>|
                by_id.dom().contains(id) && #[trigger] spine_fold(ns, by_id)[k] == by_id[id],
    decreases ns.len(),
{
    if ns.len() == 0 {
    } else {
        lemma_spine_fold_resolved(ns.drop_last(), by_id);
        let acc = spine_fold(ns.drop_last(), by_id);
        let all = spine_fold(ns, by_id);
        assert forall|k: int| 0 <= k < all.len() implies exists|id: Seq<char>|
            by_id.dom().contains(id) && #[trigger] all[k] == by_id[id] by {
            if k < acc.len() {
                assert(all[k] == acc[k]);
            }
        }
    }
}

/// The number of manifest children that are `item` elements carrying both an
/// `id` and an `href` attribute.
pub open spec fn count_id_href(ns: Seq<XmlNode>) -> nat
    decreases ns.len(),
{
    if ns.len() == 0 {
        0
    } else {
        count_id_href(ns.drop_last()) + (match ns.last() {
            XmlNode::Element(it) => if it.name@ == "item"@ && xml::spec_attr(it, "id"@) is Some
                && xml::spec_attr(it, "href"@) is Some {
                1nat
            } else {
                0nat
            },
            _ => 0nat,
        })
    }
}

/// Law: the id index holds at most one entry per manifest item that carries
/// both an id and an href, and the path index likewise.
pub proof fn lemma_manifest_sizes(ns: Seq<XmlNode>, base: Seq<char>)
    ensures
        manifest_fold(ns, base).by_id.dom().finite(),
        manifest_fold(ns, base).by_id.dom().len() <= count_id_href(ns),
        manifest_fold(ns, base).by_path.dom().finite(),
        manifest_fold(ns, base).by_path.dom().len() <= count_id_href(ns),
    decreases ns.len(),
{
    if ns.len() == 0 {
        assert(manifest_fold(ns, base).by_id.dom() =~= Set::<Seq<char>>::empty());
        assert(manifest_fold(ns, base).by_path.dom() =~= Set::<Seq<char>>::empty());
    } else {
        lemma_manifest_sizes(ns.drop_last(), base);
        let m0 = manifest_fold(ns.drop_last(), base);
        let m1 = manifest_fold(ns, base);
        match ns.last() {
            XmlNode::Element(it) => {
                if it.name@ == "item"@ && xml::spec_attr(it, "id"@) is Some && xml::spec_attr(
                    it,
                    "href"@,
                ) is Some {
                    let id0 = xml::spec_attr(it, "id"@)->0;
                    let p0 = joined(base, xml::spec_attr(it, "href"@)->0);
                    assert(m1.by_id.dom() =~= m0.by_id.dom().insert(id0));
                    assert(m1.by_path.dom() =~= m0.by_path.dom().insert(p0));
                    vstd::set::axiom_set_insert_finite(m0.by_id.dom(), id0);
                    vstd::set::axiom_set_insert_len(m0.by_id.dom(), id0);
                    vstd::set::axiom_set_insert_finite(m0.by_path.dom(), p0);
                    vstd::set::axiom_set_insert_len(m0.by_path.dom(), p0);
                } else {
                    assert(m1.by_id == m0.by_id);
                    assert(m1.by_path == m0.by_path);
                }
            },
            _ => {},
        }
    }
}

/// Everything the package parser yields, over the mathematical model.
pub ghost struct GPackage {
    pub title: Seq<char>,
    pub language: Seq<char>,
    pub cover: Option<Seq<char>>,
    pub nav: Option<Seq<char>>,
    pub by_id: Map<Seq<char>, Seq<char>>,
    pub by_path: Map<Seq<char>, Option<Seq<char>>>,
    pub spine: Seq<Seq<char>>,
    pub ncx: Option<Seq<char>>,
}

/// The package parse result for a root whose three sections are present.
pub open spec fn spec_package(root: XmlElement, base: Seq<char>) -> GPackage {
    let md = xml::spec_first_child_elem(root.children@, "metadata"@)->0;
    let mf = xml::spec_first_child_elem(root.children@, "manifest"@)->0;
    let sp = xml::spec_first_child_elem(root.children@, "spine"@)->0;
    let g = manifest_fold(mf.children@, base);
    GPackage {
        title: spec_dc_text(md.children@, "title"@),
        language: spec_dc_text(md.children@, "language"@),
        cover: g.cover,
        nav: g.nav,
        by_id: g.by_id,
        by_path: g.by_path,
        spine: spine_fold(sp.children@, g.by_id),
        ncx: if spec_ncx_flag(sp) && g.by_id.dom().contains("ncx"@) {
            Some(g.by_id["ncx"@])
        } else {
            None
        },
    }
}

/// The document record carries exactly the model values.
pub open spec fn pd_matches(pd: PackageDocument, g: GPackage) -> bool {
    &&& pd.title@ == g.title
    &&& pd.language@ == g.language
    &&& ov(pd.cover_image_path) == g.cover
    &&& ov(pd.toc_nav_doc_path) == g.nav
    &&& ov(pd.toc_ncx_path) == g.ncx
    &&& pd.manifest@.map_values(|v: Option<String>| ov(v)) == g.by_path
    &&& pd.spine.deep_view() == g.spine
}

impl PackageDocument {
    /// Builds the package record from an already parsed OPF root element.
    /// Each of the three required sections is the first child with that
    /// local name; a missing one is the corresponding error.
    pub fn from_root(root: &XmlElement, base_path: &str) -> (r: Result<PackageDocument, EpubError>)
        ensures
            r is Ok <==> (xml::spec_first_child_elem(root.children@, "metadata"@) is Some
                && xml::spec_first_child_elem(root.children@, "manifest"@) is Some
                && xml::spec_first_child_elem(root.children@, "spine"@) is Some),
            (r matches Err(e) && e == EpubError::MissingPackageSection(Section::Metadata))
                <==> xml::spec_first_child_elem(root.children@, "metadata"@) is None,
            (r matches Err(e) && e == EpubError::MissingPackageSection(Section::Manifest)) <==> (
            xml::spec_first_child_elem(root.children@, "metadata"@) is Some
                && xml::spec_first_child_elem(root.children@, "manifest"@) is None),
            (r matches Err(e) && e == EpubError::MissingPackageSection(Section::Spine)) <==> (
            xml::spec_first_child_elem(root.children@, "metadata"@) is Some
                && xml::spec_first_child_elem(root.children@, "manifest"@) is Some
                && xml::spec_first_child_elem(root.children@, "spine"@) is None),
            r matches Ok(pd) ==> pd_matches(pd, spec_package(*root, base_path@)),
    {
        let md = match root.first_child_elem("metadata") {
            Some(el) => el,
            None => {
                return Err(EpubError::MissingPackageSection(Section::Metadata));
            },
        };
        let mf = match root.first_child_elem("manifest") {
            Some(el) => el,
            None => {
                return Err(EpubError::MissingPackageSection(Section::Manifest));
            },
        };
        let sp = match root.first_child_elem("spine") {
            Some(el) => el,
            None => {
                return Err(EpubError::MissingPackageSection(Section::Spine));
            },
        };
        let title = dc_text(md, "title");
        let language = dc_text(md, "language");
        let (cover_image_path, toc_nav_doc_path, by_id, by_path) = parse_manifest(mf, base_path);
        let (ncx_flag, spine) = parse_spine(sp, &by_id);
        let toc_ncx_path: Option<String> = if ncx_flag {
            match by_id.get("ncx") {
                Some(p) => Some(p.clone()),
                None => None,
            }
        } else {
            None
        };
        Ok(PackageDocument {
            title,
            language,
            cover_image_path,
            spine,
            manifest: by_path,
            toc_ncx_path,
            toc_nav_doc_path,
        })
    }

    /// Parses an OPF document: the package model of `tree_of` the text. On
    /// success every spine entry is a key of the manifest, and every path
    /// carried by the record is prefixed by the base directory.
    pub fn from(doc: &str, base_path: &str) -> (r: Result<PackageDocument, EpubError>)
        ensures
            (r matches Err(e) && e == EpubError::MalformedXml) <==> xml::tree_of(doc@) is None,
            (r matches Err(e) && e == EpubError::MissingPackageSection(Section::Metadata)) <==> (
            xml::tree_of(doc@) matches Some(root) && !has_section(root, "metadata"@)),
            (r matches Err(e) && e == EpubError::MissingPackageSection(Section::Manifest)) <==> (
            xml::tree_of(doc@) matches Some(root) && has_section(root, "metadata"@)
                && !has_section(root, "manifest"@)),
            (r matches Err(e) && e == EpubError::MissingPackageSection(Section::Spine)) <==> (
            xml::tree_of(doc@) matches Some(root) && has_section(root, "metadata"@)
                && has_section(root, "manifest"@) && !has_section(root, "spine"@)),
            r is Ok <==> (xml::tree_of(doc@) matches Some(root) && has_section(root, "metadata"@)
                && has_section(root, "manifest"@) && has_section(root, "spine"@)),
            r matches Ok(pd) ==> pd_matches(pd, spec_package(xml::tree_of(doc@)->0, base_path@)),
            r matches Ok(pd) ==> pd_wf(pd, base_path@),
    {
        let root = xml::parse(doc)?;
        let pd = Self::from_root(&root, base_path)?;
        proof {
            lemma_package_wf(root, base_path@, pd);
        }
        Ok(pd)
    }
}

/// The OPF root element has a direct child with the given local name.
pub open spec fn has_section(root: XmlElement, name: Seq<char>) -> bool {
    xml::spec_first_child_elem(root.children@, name) is Some
}

/// The structural facts that hold of every successfully parsed package
/// document: spine entries are manifest keys, and all paths carry the base
/// directory prefix.
pub open spec fn pd_wf(pd: PackageDocument, base: Seq<char>) -> bool {
    &&& forall|k: int|
        0 <= k < pd.spine.deep_view().len() ==> prefixed(#[trigger] pd.spine.deep_view()[k], base)
            && pd.manifest@.dom().contains(pd.spine.deep_view()[k])
    &&& pd.cover_image_path matches Some(p) ==> prefixed(p@, base)
    &&& pd.toc_nav_doc_path matches Some(p) ==> prefixed(p@, base)
    &&& pd.toc_ncx_path matches Some(p) ==> prefixed(p@, base)
    &&& forall|q: Seq<char>| #[trigger] pd.manifest@.dom().contains(q) ==> prefixed(q, base)
}

/// Law: a record matching the package model is structurally well formed.
pub proof fn lemma_package_wf(root: XmlElement, base: Seq<char>, pd: PackageDocument)
    requires
        pd_matches(pd, spec_package(root, base)),
    ensures
        pd_wf(pd, base),
{
    let mf = xml::spec_first_child_elem(root.children@, "manifest"@)->0;
    let sp = xml::spec_first_child_elem(root.children@, "spine"@)->0;
    let g = manifest_fold(mf.children@, base);
    lemma_manifest_fold_wf(mf.children@, base);
    lemma_spine_fold_resolved(sp.children@, g.by_id);
    assert(pd.manifest@.dom() =~= g.by_path.dom());
    assert forall|k: int| 0 <= k < pd.spine.deep_view().len() implies prefixed(
        #[trigger] pd.spine.deep_view()[k],
        base,
    ) && pd.manifest@.dom().contains(pd.spine.deep_view()[k]) by {
        let entry = pd.spine.deep_view()[k];
        assert(entry == spine_fold(sp.children@, g.by_id)[k]);
        let id = choose|id: Seq<char>|
            g.by_id.dom().contains(id) && spine_fold(sp.children@, g.by_id)[k] == g.by_id[id];
        assert(g.by_id.dom().contains(id));
    }
}

} // verus!
