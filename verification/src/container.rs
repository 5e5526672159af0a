//! Parser for `META-INF/container.xml`: the ordered list of root files, each
//! pairing the full path of an OPF package document with its base directory.

use vstd::prelude::*;

use crate::error::EpubError;
use crate::xml;
use crate::xml::{XmlElement, XmlNode};

verus! {

/// One `rootfile` record of the container document.
#[derive(Debug, PartialEq)]
pub struct RootFile {
    /// `full_path` with the final segment removed; empty when the OPF sits at
    /// the archive root.
    pub base_path: String,
    /// The archive path of the OPF package document.
    pub full_path: String,
}

/// The parsed container document.
#[derive(Debug, PartialEq)]
pub struct Container {
    pub root_files: Vec<RootFile>,
}

/// The text before the last `/`, the separator excluded; empty when the path
/// has no `/`. This is plain text division: a trailing separator yields
/// everything before it, and duplicate separators are not collapsed.
pub open spec fn base_of(p: Seq<char>) -> Seq<char>
    decreases p.len(),
{
    if p.len() == 0 {
        p
    } else if p.last() == '/' {
        p.drop_last()
    } else {
        base_of(p.drop_last())
    }
}

/// A `RootFile` recording `full` as its path, with the base derived from it.
pub open spec fn rf_match(rf: RootFile, full: Seq<char>) -> bool {
    rf.full_path@ == full && rf.base_path@ == base_of(full)
}

/// The `full-path` values of all `rootfile` elements that carry that
/// attribute, in document (preorder) order.
pub open spec fn spec_rootfiles(e: XmlElement) -> Seq<Seq<char>>
    decreases e,
{
    let own = if e.name@ == "rootfile"@ && xml::spec_attr(e, "full-path"@) is Some {
        seq![xml::spec_attr(e, "full-path"@)->0]
    } else {
        Seq::empty()
    };
    own + spec_rootfiles_in(e.children@)
}

pub open spec fn spec_rootfiles_in(ns: Seq<XmlNode>) -> Seq<Seq<char>>
    decreases ns,
{
    if ns.len() == 0 {
        Seq::empty()
    } else {
        (match ns[0] {
            XmlNode::Element(c) => spec_rootfiles(c),
            _ => Seq::empty(),
        }) + spec_rootfiles_in(ns.drop_first())
    }
}

/// The base directory of an archive path: everything before the last `/`.
fn base_dir(s: &str) -> (r: String)
    ensures
        r@ == base_of(s@),
{
    let n = s.unicode_len();
    let mut j: usize = n;
    assert(s@.take(n as int) =~= s@);
    while j > 0
        invariant
            j <= n,
            n == s@.len(),
            base_of(s@) == base_of(s@.take(j as int)),
        ensures
            j <= n,
            n == s@.len(),
            base_of(s@) == base_of(s@.take(j as int)),
            j == 0 || s@[j - 1] == '/',
        decreases j,
    {
        let c = s.get_char(j - 1);
        proof {
            assert(s@.take(j as int).last() == s@[j - 1]);
            assert(s@.take(j as int).drop_last() =~= s@.take(j - 1));
        }
        if c == '/' {
            break ;
        }
        j = j - 1;
    }
    if j == 0 {
        proof {
            assert(s@.take(0) =~= Seq::<char>::empty());
        }
        String::new()
    } else {
        proof {
            assert(s@.take(j as int).last() == s@[j - 1]);
            assert(s@.take(j as int).drop_last() =~= s@.take(j - 1));
        }
        let piece = s.substring_char(0, j - 1);
        assert(piece@ =~= s@.take(j - 1));
        String::from_str(piece)
    }
}

/// Concatenation distributes over root-file collection.
pub proof fn lemma_rootfiles_concat(a: Seq<XmlNode>, b: Seq<XmlNode>)
    ensures
        spec_rootfiles_in(a + b) == spec_rootfiles_in(a) + spec_rootfiles_in(b),
    decreases a,
{
    if a.len() == 0 {
        assert(a + b =~= b);
        assert(spec_rootfiles_in(a) + spec_rootfiles_in(b) =~= spec_rootfiles_in(b));
    } else {
        assert((a + b)[0] == a[0]);
        assert((a + b).len() > 0);
        assert((a + b).drop_first() =~= a.drop_first() + b);
        lemma_rootfiles_concat(a.drop_first(), b);
        let h = match a[0] {
            XmlNode::Element(c) => spec_rootfiles(c),
            _ => Seq::empty(),
        };
        assert(h + (spec_rootfiles_in(a.drop_first()) + spec_rootfiles_in(b)) =~= (h
            + spec_rootfiles_in(a.drop_first())) + spec_rootfiles_in(b));
    }
}

/// The contribution of a single node to the root-file list.
pub open spec fn spec_rootfiles_node(n: XmlNode) -> Seq<Seq<char>> {
    match n {
        XmlNode::Element(c) => spec_rootfiles(c),
        _ => Seq::empty(),
    }
}

pub proof fn lemma_rootfiles_singleton(n: XmlNode)
    ensures
        spec_rootfiles_in(seq![n]) == spec_rootfiles_node(n),
{
    assert(seq![n].len() == 1);
    assert(seq![n][0] == n);
    assert(seq![n].drop_first() =~= Seq::<XmlNode>::empty());
    assert(spec_rootfiles_in(Seq::<XmlNode>::empty()) == Seq::<Seq<char>>::empty());
    assert(spec_rootfiles_node(n) + Seq::<Seq<char>>::empty() =~= spec_rootfiles_node(n));
}

/// Appends a `RootFile` for every `rootfile` element under `e` (preorder,
/// `e` itself included) that carries a `full-path` attribute.
fn collect_rootfiles(e: &XmlElement, out: &mut Vec<RootFile>)
    ensures
        final(out)@.len() == old(out)@.len() + spec_rootfiles(*e).len(),
        forall|k: int| 0 <= k < old(out)@.len() ==> final(out)@[k] == old(out)@[k],
        forall|k: int|
            0 <= k < spec_rootfiles(*e).len() ==> rf_match(
                #[trigger] final(out)@[old(out)@.len() + k],
                spec_rootfiles(*e)[k],
            ),
    decreases *e,
{
    let ghost base0 = out@;
    let ghost cs = e.children@;
    let ghost own_seq: Seq<Seq<char>> = if e.name@ == "rootfile"@ && xml::spec_attr(
        *e,
        "full-path"@,
    ) is Some {
        seq![xml::spec_attr(*e, "full-path"@)->0]
    } else {
        Seq::empty()
    };
    proof {
        assert(spec_rootfiles(*e) == own_seq + spec_rootfiles_in(cs));
    }
    if crate::text::str_eq(e.name.as_str(), "rootfile") {
        match e.attr("full-path") {
            Some(full) => {
                let base = base_dir(full.as_str());
                let rf = RootFile { base_path: base, full_path: full.clone() };
                proof {
                    assert(rf_match(rf, full@));
                    assert(own_seq == seq![full@]);
                }
                out.push(rf);
            },
            None => {
                proof {
                    assert(own_seq =~= Seq::<Seq<char>>::empty());
                }
            },
        }
    }
    let ghost mid = out@;
    proof {
        assert(mid.len() == base0.len() + own_seq.len());
        assert(forall|k: int| 0 <= k < base0.len() ==> mid[k] == base0[k]);
        assert(own_seq.len() == 1 ==> rf_match(mid[base0.len() as int], own_seq[0]));
        assert(cs.take(0) =~= Seq::<XmlNode>::empty());
        assert(spec_rootfiles_in(Seq::<XmlNode>::empty()) =~= Seq::<Seq<char>>::empty());
    }
    let mut i: usize = 0;
    while i < e.children.len()
        invariant
            i <= e.children@.len(),
            cs == e.children@,
            mid.len() <= out@.len(),
            out@.len() == mid.len() + spec_rootfiles_in(cs.take(i as int)).len(),
            forall|k: int| 0 <= k < mid.len() ==> out@[k] == mid[k],
            forall|k: int|
                0 <= k < spec_rootfiles_in(cs.take(i as int)).len() ==> rf_match(
                    #[trigger] out@[mid.len() + k],
                    spec_rootfiles_in(cs.take(i as int))[k],
                ),
        decreases e.children@.len() - i,
    {
        let ghost prev = out@;
        let ghost done = spec_rootfiles_in(cs.take(i as int));
        match &e.children[i] {
            XmlNode::Element(c) => {
                proof {
                    assert(decreases_to!(*e => e.children));
                    assert(decreases_to!(e.children@[i as int] => *c));
                }
                collect_rootfiles(c, out);
                proof {
                    assert(cs[i as int] == XmlNode::Element(*c));
                    assert(spec_rootfiles_node(cs[i as int]) == spec_rootfiles(*c));
                }
            },
            _ => {
                proof {
                    assert(spec_rootfiles_node(cs[i as int]) =~= Seq::<Seq<char>>::empty());
                }
            },
        }
        proof {
            let add = spec_rootfiles_node(cs[i as int]);
            assert(out@.len() == prev.len() + add.len());
            assert(cs.take(i + 1) =~= cs.take(i as int) + seq![cs[i as int]]);
            lemma_rootfiles_concat(cs.take(i as int), seq![cs[i as int]]);
            lemma_rootfiles_singleton(cs[i as int]);
            assert(spec_rootfiles_in(cs.take(i + 1)) == done + add);
            assert forall|k: int| 0 <= k < (done + add).len() implies rf_match(
                #[trigger] out@[mid.len() + k],
                (done + add)[k],
            ) by {
                if k < done.len() {
                    assert(out@[mid.len() + k] == prev[mid.len() + k]);
                    assert((done + add)[k] == done[k]);
                } else {
                    assert((done + add)[k] == add[k - done.len()]);
                    assert(mid.len() + k == prev.len() + (k - done.len()));
                }
            }
        }
        i = i + 1;
    }
    proof {
        assert(cs.take(i as int) =~= cs);
        assert forall|k: int| 0 <= k < spec_rootfiles(*e).len() implies rf_match(
            #[trigger] out@[base0.len() + k],
            spec_rootfiles(*e)[k],
        ) by {
            if k < own_seq.len() {
                assert(spec_rootfiles(*e)[k] == own_seq[k]);
                assert(out@[base0.len() + k] == mid[base0.len() + k]);
            } else {
                assert(spec_rootfiles(*e)[k] == spec_rootfiles_in(cs)[k - own_seq.len()]);
                assert(base0.len() + k == mid.len() + (k - own_seq.len()));
            }
        }
    }
}

/// The container holds exactly the root-file records of the document tree.
pub open spec fn container_matches(c: Container, root: XmlElement) -> bool {
    &&& c.root_files@.len() == spec_rootfiles(root).len()
    &&& forall|k: int|
        0 <= k < c.root_files@.len() ==> rf_match(
            #[trigger] c.root_files@[k],
            spec_rootfiles(root)[k],
        )
}

impl Container {
    /// Collects the root-file records advertised by an already parsed
    /// container document.
    pub fn from_root(root: &XmlElement) -> (r: Container)
        ensures
            r.root_files@.len() == spec_rootfiles(*root).len(),
            forall|k: int|
                0 <= k < r.root_files@.len() ==> rf_match(
                    #[trigger] r.root_files@[k],
                    spec_rootfiles(*root)[k],
                ),
    {
        let mut out: Vec<RootFile> = Vec::new();
        collect_rootfiles(root, &mut out);
        proof {
            assert forall|k: int| 0 <= k < out@.len() implies rf_match(
                #[trigger] out@[k],
                spec_rootfiles(*root)[k],
            ) by {
                assert(out@[0 + k] == out@[k]);
            }
        }
        Container { root_files: out }
    }

    /// Parses a container document. Every root file pairs the `full-path`
    /// value of a `rootfile` element with its base directory; document order
    /// is preserved, elements without the attribute are dropped. A list with
    /// no root file is not an error here.
    pub fn from(doc: &str) -> (r: Result<Container, EpubError>)
        ensures
            r is Ok <==> xml::tree_of(doc@) is Some,
            r matches Err(e) ==> e == EpubError::MalformedXml,
            r matches Ok(c) ==> container_matches(c, xml::tree_of(doc@)->0),
            r matches Ok(c) ==> forall|k: int|
                0 <= k < c.root_files@.len() ==> (#[trigger] c.root_files@[k]).base_path@
                    == base_of(c.root_files@[k].full_path@),
    {
        let root = xml::parse(doc)?;
        Ok(Container::from_root(&root))
    }
}

} // verus!
