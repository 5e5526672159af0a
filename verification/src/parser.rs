//! The façade: a handle over an EPUB archive offering `meta` and `resource`.
//!
//! The ZIP container is the only outside state the library touches. It is
//! held behind the `zip` crate's reader over an in-memory buffer; its
//! contents are named by `archive_entries`, and every read is specified
//! against that name.

use vstd::prelude::*;

use crate::container::Container;
use crate::error::EpubError;
use crate::error::Section;
use crate::package::PackageDocument;
use crate::strmap::StrMap;
use crate::toc::{gtns_wf_nav, gtns_wf_ncx, tns_view, Toc};
use crate::xml;

verus! {

/// Declares `zip::ZipArchive`, the ZIP central-directory reader; its values
/// are opaque here and described only by `archive_entries`.
#[verifier::external_type_specification]
#[verifier::external_body]
#[verifier::reject_recursive_types(R)]
pub struct ExZipArchive<R>(zip::ZipArchive<R>);

/// Declares `std::io::Cursor`, the in-memory reader the archive wraps.
#[verifier::external_type_specification]
#[verifier::external_body]
#[verifier::reject_recursive_types(T)]
pub struct ExCursor<T>(std::io::Cursor<T>);

/// What the archive holds: the entry bodies of `zip::ZipArchive`, keyed by
/// the entry paths of its central directory.
pub uninterp spec fn archive_entries(a: zip::ZipArchive<std::io::Cursor<Vec<u8>>>) -> Map<
    Seq<char>,
    Seq<u8>,
>;

/// Whether the named entry's body can be read back out of the archive value
/// (its compressed data is intact); a function of the archive value and the
/// name alone, since the archive wraps an in-memory buffer.
pub uninterp spec fn entry_readable(
    a: zip::ZipArchive<std::io::Cursor<Vec<u8>>>,
    name: Seq<char>,
) -> bool;

/// The central directory that `zip::ZipArchive::new` reads out of the given
/// bytes, or `None` when they are not a valid archive; a function of the
/// bytes alone.
pub uninterp spec fn dir_of(data: Seq<u8>) -> Option<Map<Seq<char>, Seq<u8>>>;

/// Relies on `zip::ZipArchive::new`: it reads the central directory of the
/// buffer, depending on the bytes alone, and fails on a malformed archive.
#[verifier::external_body]
fn open_archive(data: Vec<u8>) -> (r: Result<
    zip::ZipArchive<std::io::Cursor<Vec<u8>>>,
    EpubError,
>)
    ensures
        r is Ok <==> dir_of(data@) is Some,
        r matches Ok(a) ==> archive_entries(a) == dir_of(data@)->0,
        r matches Err(e) ==> e == EpubError::ArchiveCorrupt,
{
    match zip::ZipArchive::new(std::io::Cursor::new(data)) {
        Ok(a) => Ok(a),
        Err(_) => Err(EpubError::ArchiveCorrupt),
    }
}

/// Relies on `zip::ZipArchive::by_name` and `std::io::read_to_string`: the
/// entry with exactly the given path, decoded as UTF-8. `by_name` reports
/// `FileNotFound` exactly when no entry has that name; with intact entry
/// data, `read_to_string` fails (as `InvalidData`) exactly when the body is
/// not valid UTF-8. Reading changes no entry and no entry's readability.
#[verifier::external_body]
pub fn read_text_file(
    archive: &mut zip::ZipArchive<std::io::Cursor<Vec<u8>>>,
    path: &str,
) -> (r: Result<String, EpubError>)
    ensures
        archive_entries(*final(archive)) == archive_entries(*old(archive)),
        forall|n: Seq<char>| #[trigger]
            entry_readable(*final(archive), n) == entry_readable(*old(archive), n),
        r matches Ok(t) ==> archive_entries(*old(archive)).dom().contains(path@)
            && vstd::utf8::encode_utf8(t@) == archive_entries(*old(archive))[path@],
        (r matches Err(e) && e == EpubError::EntryNotFound) <==> !archive_entries(
            *old(archive),
        ).dom().contains(path@),
        (archive_entries(*old(archive)).dom().contains(path@) && entry_readable(
            *old(archive),
            path@,
        ) && vstd::utf8::valid_utf8(archive_entries(*old(archive))[path@])) ==> r is Ok,
        (archive_entries(*old(archive)).dom().contains(path@) && entry_readable(
            *old(archive),
            path@,
        ) && !vstd::utf8::valid_utf8(archive_entries(*old(archive))[path@])) ==> (r matches Err(e)
            && e == EpubError::EntryDecodingFailed),
        r matches Err(e) ==> (e == EpubError::EntryNotFound || e == EpubError::EntryDecodingFailed
            || e == EpubError::ArchiveCorrupt),
{
    let file = match archive.by_name(path) {
        Ok(f) => f,
        Err(zip::result::ZipError::FileNotFound) => return Err(EpubError::EntryNotFound),
        Err(_) => return Err(EpubError::ArchiveCorrupt),
    };
    match std::io::read_to_string(file) {
        Ok(s) => Ok(s),
        Err(e) if e.kind() == std::io::ErrorKind::InvalidData => Err(
            EpubError::EntryDecodingFailed,
        ),
        Err(_) => Err(EpubError::ArchiveCorrupt),
    }
}

/// Relies on `zip::ZipArchive::by_name` and `std::io::Read::read_to_end`:
/// the verbatim body of the entry with exactly the given path. `by_name`
/// reports `FileNotFound` exactly when no entry has that name; with intact
/// entry data the read succeeds. Reading changes no entry and no entry's
/// readability.
#[verifier::external_body]
pub fn read_binary_file(
    archive: &mut zip::ZipArchive<std::io::Cursor<Vec<u8>>>,
    path: &str,
) -> (r: Result<Vec<u8>, EpubError>)
    ensures
        archive_entries(*final(archive)) == archive_entries(*old(archive)),
        forall|n: Seq<char>| #[trigger]
            entry_readable(*final(archive), n) == entry_readable(*old(archive), n),
        r matches Ok(b) ==> archive_entries(*old(archive)).dom().contains(path@) && b@
            == archive_entries(*old(archive))[path@],
        (r matches Err(e) && e == EpubError::EntryNotFound) <==> !archive_entries(
            *old(archive),
        ).dom().contains(path@),
        (archive_entries(*old(archive)).dom().contains(path@) && entry_readable(
            *old(archive),
            path@,
        )) ==> r is Ok,
        r matches Err(e) ==> (e == EpubError::EntryNotFound || e == EpubError::ArchiveCorrupt),
{
    let mut file = match archive.by_name(path) {
        Ok(f) => f,
        Err(zip::result::ZipError::FileNotFound) => return Err(EpubError::EntryNotFound),
        Err(_) => return Err(EpubError::ArchiveCorrupt),
    };
    let mut buffer = Vec::new();
    match std::io::Read::read_to_end(&mut file, &mut buffer) {
        Ok(_) => Ok(buffer),
        Err(_) => Err(EpubError::ArchiveCorrupt),
    }
}

/// A handle over an opened EPUB archive.
#[derive(Debug)]
pub struct Parser {
    archive: zip::ZipArchive<std::io::Cursor<Vec<u8>>>,
}

/// The composed metadata of a publication.
#[derive(Debug, PartialEq)]
pub struct BookMeta {
    /// The first Dublin Core title of the OPF, whitespace-trimmed.
    pub title: String,
    /// Archive path of each manifest resource, mapped to its media type.
    pub manifest: StrMap<Option<String>>,
    /// The reading order: archive paths of the spine documents.
    pub spine: Vec<String>,
    /// The table of contents.
    pub toc: Toc,
}

/// Some base directory witnesses the structural facts of the record.
pub open spec fn book_ok(m: BookMeta) -> bool {
    exists|base: Seq<char>| book_wf(m, base)
}

/// Every spine entry appears as a key of the manifest.
pub open spec fn spine_covered(m: BookMeta) -> bool {
    forall|k: int|
        0 <= k < m.spine.deep_view().len() ==> m.manifest@.dom().contains(
            #[trigger] m.spine.deep_view()[k],
        )
}

/// The structural facts of every composed record: each spine entry is a key
/// of the manifest, and with the base directory of the chosen OPF all paths
/// are prefixed and the table of contents has the shape of whichever parser
/// produced it.
pub open spec fn book_wf(m: BookMeta, base: Seq<char>) -> bool {
    &&& forall|k: int|
        0 <= k < m.spine.deep_view().len() ==> crate::package::prefixed(
            #[trigger] m.spine.deep_view()[k],
            base,
        ) && m.manifest@.dom().contains(m.spine.deep_view()[k])
    &&& forall|q: Seq<char>| #[trigger]
        m.manifest@.dom().contains(q) ==> crate::package::prefixed(q, base)
    &&& (gtns_wf_nav(tns_view(m.toc.contents@), base) || gtns_wf_ncx(
        tns_view(m.toc.contents@),
        base,
    ))
}

/// The fixed location of the container document.
pub open spec fn container_path() -> Seq<char> {
    "META-INF/container.xml"@
}

/// The record carries exactly the package model's title, manifest and spine.
pub open spec fn book_fields(m: BookMeta, g: crate::package::GPackage) -> bool {
    &&& m.title@ == g.title
    &&& m.manifest@.map_values(|v: Option<String>| crate::package::ov(v)) == g.by_path
    &&& m.spine.deep_view() == g.spine
}

/// What `meta` returns, as a function of the archive contents: the chain of
/// reads and parses it performs, with each error tied to its failing step.
/// Steps below a present entry whose data is broken are left open, as the
/// underlying reader does not say which error it reports there.
pub open spec fn meta_spec(p: Parser, r: Result<BookMeta, EpubError>) -> bool {
    &&& (!p.entries().dom().contains(container_path()) ==> r == Err::<BookMeta, EpubError>(
        EpubError::EntryNotFound,
    ))
    &&& ((p.entries().dom().contains(container_path()) && p.readable(container_path())
        && !vstd::utf8::valid_utf8(p.entries()[container_path()])) ==> r == Err::<
        BookMeta,
        EpubError,
    >(EpubError::EntryDecodingFailed))
    &&& (p.text_ok(container_path()) ==> meta_spec_container(p, r))
}

/// The chain after the container document was read and decoded.
pub open spec fn meta_spec_container(p: Parser, r: Result<BookMeta, EpubError>) -> bool {
    match xml::tree_of(p.text_at(container_path())) {
        None => r == Err::<BookMeta, EpubError>(EpubError::MalformedXml),
        Some(root) => {
            let rfs = crate::container::spec_rootfiles(root);
            if rfs.len() == 0 {
                r == Err::<BookMeta, EpubError>(EpubError::NoRootFile)
            } else {
                meta_spec_package(p, rfs[0], crate::container::base_of(rfs[0]), r)
            }
        },
    }
}

/// The chain after the first root file was chosen: the OPF is read at its
/// full path and every later path uses its base directory.
pub open spec fn meta_spec_package(
    p: Parser,
    full: Seq<char>,
    base: Seq<char>,
    r: Result<BookMeta, EpubError>,
) -> bool {
    &&& (!p.entries().dom().contains(full) ==> r == Err::<BookMeta, EpubError>(
        EpubError::EntryNotFound,
    ))
    &&& ((p.entries().dom().contains(full) && p.readable(full) && !vstd::utf8::valid_utf8(
        p.entries()[full],
    )) ==> r == Err::<BookMeta, EpubError>(EpubError::EntryDecodingFailed))
    &&& (p.text_ok(full) ==> match xml::tree_of(p.text_at(full)) {
        None => r == Err::<BookMeta, EpubError>(EpubError::MalformedXml),
        Some(root) => {
            if !crate::package::has_section(root, "metadata"@) {
                r == Err::<BookMeta, EpubError>(
                    EpubError::MissingPackageSection(Section::Metadata),
                )
            } else if !crate::package::has_section(root, "manifest"@) {
                r == Err::<BookMeta, EpubError>(
                    EpubError::MissingPackageSection(Section::Manifest),
                )
            } else if !crate::package::has_section(root, "spine"@) {
                r == Err::<BookMeta, EpubError>(EpubError::MissingPackageSection(Section::Spine))
            } else {
                meta_spec_toc(p, base, crate::package::spec_package(root, base), r)
            }
        },
    })
}

/// The chain after the package document parsed: the navigation document is
/// preferred unconditionally, the NCX is the fallback, neither is `NoToc`.
pub open spec fn meta_spec_toc(
    p: Parser,
    base: Seq<char>,
    g: crate::package::GPackage,
    r: Result<BookMeta, EpubError>,
) -> bool {
    match g.nav {
        Some(navp) => {
            &&& (!p.entries().dom().contains(navp) ==> r == Err::<BookMeta, EpubError>(
                EpubError::EntryNotFound,
            ))
            &&& ((p.entries().dom().contains(navp) && p.readable(navp) && !vstd::utf8::valid_utf8(
                p.entries()[navp],
            )) ==> r == Err::<BookMeta, EpubError>(EpubError::EntryDecodingFailed))
            &&& (p.text_ok(navp) ==> match xml::tree_of(p.text_at(navp)) {
                None => r == Err::<BookMeta, EpubError>(EpubError::MalformedXml),
                Some(nroot) => meta_spec_nav(base, g, nroot, r),
            })
        },
        None => match g.ncx {
            Some(ncxp) => {
                &&& (!p.entries().dom().contains(ncxp) ==> r == Err::<BookMeta, EpubError>(
                    EpubError::EntryNotFound,
                ))
                &&& ((p.entries().dom().contains(ncxp) && p.readable(ncxp)
                    && !vstd::utf8::valid_utf8(p.entries()[ncxp])) ==> r == Err::<
                    BookMeta,
                    EpubError,
                >(EpubError::EntryDecodingFailed))
                &&& (p.text_ok(ncxp) ==> match xml::tree_of(p.text_at(ncxp)) {
                    None => r == Err::<BookMeta, EpubError>(EpubError::MalformedXml),
                    Some(nroot) => meta_spec_ncx(base, g, nroot, r),
                })
            },
            None => r == Err::<BookMeta, EpubError>(EpubError::NoToc),
        },
    }
}

/// The end of the chain through the navigation document.
pub open spec fn meta_spec_nav(
    base: Seq<char>,
    g: crate::package::GPackage,
    nroot: xml::XmlElement,
    r: Result<BookMeta, EpubError>,
) -> bool {
    match xml::spec_find_desc_attr(nroot, "nav"@, "id"@, "toc"@) {
        None => r == Err::<BookMeta, EpubError>(EpubError::NavNotFound),
        Some(nav) => match xml::spec_first_child_elem(nav.children@, "ol"@) {
            None => r == Err::<BookMeta, EpubError>(EpubError::TopLevelOlMissing),
            Some(ol) => r matches Ok(m) && book_fields(m, g) && tns_view(m.toc.contents@)
                == crate::toc::spec_nav_model(nroot, base),
        },
    }
}

/// The end of the chain through the NCX document.
pub open spec fn meta_spec_ncx(
    base: Seq<char>,
    g: crate::package::GPackage,
    nroot: xml::XmlElement,
    r: Result<BookMeta, EpubError>,
) -> bool {
    match xml::spec_find_desc(nroot, "navMap"@) {
        None => r == Err::<BookMeta, EpubError>(EpubError::NavMapNotFound),
        Some(nm) => r matches Ok(m) && book_fields(m, g) && tns_view(m.toc.contents@)
            == crate::toc::spec_ncx_model(nroot, base),
    }
}

impl Parser {
    /// The entries of the underlying archive.
    pub closed spec fn entries(self) -> Map<Seq<char>, Seq<u8>> {
        archive_entries(self.archive)
    }

    /// Whether the named entry's body can be read back out of the archive.
    pub closed spec fn readable(self, name: Seq<char>) -> bool {
        entry_readable(self.archive, name)
    }

    /// The named entry is present, its data intact, and its body valid UTF-8.
    pub open spec fn text_ok(self, name: Seq<char>) -> bool {
        &&& self.entries().dom().contains(name)
        &&& self.readable(name)
        &&& vstd::utf8::valid_utf8(self.entries()[name])
    }

    /// The decoded text of the named entry.
    pub open spec fn text_at(self, name: Seq<char>) -> Seq<char> {
        vstd::utf8::decode_utf8(self.entries()[name])
    }

    /// Opens an EPUB held in memory: succeeds exactly when the bytes hold a
    /// readable ZIP central directory, whose entries the handle then serves.
    pub fn from_bytes(data: Vec<u8>) -> (r: Result<Parser, EpubError>)
        ensures
            r is Ok <==> dir_of(data@) is Some,
            r matches Ok(p) ==> p.entries() == dir_of(data@)->0,
            r matches Err(e) ==> e == EpubError::ArchiveCorrupt,
    {
        let archive = open_archive(data)?;
        Ok(Parser { archive })
    }

    /// Reads and composes the publication's metadata: the first root file of
    /// `META-INF/container.xml` names the OPF; the navigation document is
    /// preferred over the NCX unconditionally.
    #[verifier::rlimit(100)]
    pub fn meta(&mut self) -> (r: Result<BookMeta, EpubError>)
        ensures
            final(self).entries() =~= old(self).entries(),
            forall|n: Seq<char>| #[trigger] final(self).readable(n) == old(self).readable(n),
            r matches Err(e) ==> e != EpubError::FileOpen,
            r matches Ok(m) ==> book_ok(m) && spine_covered(m),
            meta_spec(*old(self), r),
    {
        let ghost p0 = *self;
        let container_text = match read_text_file(&mut self.archive, "META-INF/container.xml") {
            Ok(t) => t,
            Err(e) => {
                return Err(e);
            },
        };
        proof {
            vstd::utf8::encode_utf8_decode_utf8(container_text@);
            vstd::utf8::encode_utf8_valid_utf8(container_text@);
            assert(p0.text_at(container_path()) == container_text@);
            assert(vstd::utf8::valid_utf8(p0.entries()[container_path()]));
        }
        let container = match Container::from(container_text.as_str()) {
            Ok(c) => c,
            Err(e) => {
                return Err(e);
            },
        };
        if container.root_files.len() == 0 {
            return Err(EpubError::NoRootFile);
        }
        let ghost croot = xml::tree_of(container_text@)->0;
        let ghost rfs = crate::container::spec_rootfiles(croot);
        let root_file = &container.root_files[0];
        let ghost full = rfs[0];
        let ghost base = crate::container::base_of(full);
        proof {
            assert(root_file.full_path@ == full);
            assert(root_file.base_path@ == base);
        }
        let pkg_text = match read_text_file(&mut self.archive, root_file.full_path.as_str()) {
            Ok(t) => t,
            Err(e) => {
                return Err(e);
            },
        };
        proof {
            vstd::utf8::encode_utf8_decode_utf8(pkg_text@);
            vstd::utf8::encode_utf8_valid_utf8(pkg_text@);
            assert(p0.text_at(full) == pkg_text@);
        }
        let pkg = match PackageDocument::from(pkg_text.as_str(), root_file.base_path.as_str()) {
            Ok(pd) => pd,
            Err(e) => {
                return Err(e);
            },
        };
        let ghost proot = xml::tree_of(pkg_text@)->0;
        let ghost g = crate::package::spec_package(proot, base);
        match pkg {
            PackageDocument { title, spine, manifest, toc_ncx_path, toc_nav_doc_path, .. } => {
                let toc = match toc_nav_doc_path {
                    Some(p) => {
                        proof {
                            assert(g.nav == Some(p@));
                        }
                        let t = match read_text_file(&mut self.archive, p.as_str()) {
                            Ok(t) => t,
                            Err(e) => {
                                return Err(e);
                            },
                        };
                        proof {
                            vstd::utf8::encode_utf8_decode_utf8(t@);
                            vstd::utf8::encode_utf8_valid_utf8(t@);
                            assert(p0.text_at(p@) == t@);
                        }
                        match Toc::from_nav_doc(t.as_str(), root_file.base_path.as_str()) {
                            Ok(toc) => toc,
                            Err(e) => {
                                return Err(e);
                            },
                        }
                    },
                    None => match toc_ncx_path {
                        Some(p) => {
                            proof {
                                assert(g.nav is None);
                                assert(g.ncx == Some(p@));
                            }
                            let t = match read_text_file(&mut self.archive, p.as_str()) {
                                Ok(t) => t,
                                Err(e) => {
                                    return Err(e);
                                },
                            };
                            proof {
                                vstd::utf8::encode_utf8_decode_utf8(t@);
                                vstd::utf8::encode_utf8_valid_utf8(t@);
                                assert(p0.text_at(p@) == t@);
                            }
                            match Toc::from_ncx(t.as_str(), root_file.base_path.as_str()) {
                                Ok(toc) => toc,
                                Err(e) => {
                                    return Err(e);
                                },
                            }
                        },
                        None => {
                            return Err(EpubError::NoToc);
                        },
                    },
                };
                let m = BookMeta { title, manifest, spine, toc };
                proof {
                    assert(book_wf(m, base));
                    assert(book_ok(m));
                    assert(spine_covered(m));
                    assert(book_fields(m, g));
                }
                Ok(m)
            },
        }
    }

    /// Returns the verbatim bytes of the resource at the given archive path:
    /// owed whenever the entry is present and its data intact.
    pub fn resource(&mut self, path: &str) -> (r: Result<Vec<u8>, EpubError>)
        ensures
            final(self).entries() == old(self).entries(),
            forall|n: Seq<char>| #[trigger] final(self).readable(n) == old(self).readable(n),
            r matches Ok(b) ==> old(self).entries().dom().contains(path@) && b@ == old(
                self,
            ).entries()[path@],
            (r matches Err(e) && e == EpubError::EntryNotFound) <==> !old(
                self,
            ).entries().dom().contains(path@),
            (old(self).entries().dom().contains(path@) && old(self).readable(path@)) ==> r is Ok,
            r matches Err(e) ==> (e == EpubError::EntryNotFound || e == EpubError::ArchiveCorrupt),
    {
        read_binary_file(&mut self.archive, path)
    }
}

} // verus!
