//! Error taxonomy of the library.

use vstd::prelude::*;

verus! {

/// The three required top-level sections of an OPF package document.
#[derive(Debug, Clone, Copy, PartialEq, Eq, Structural)]
pub enum Section {
    Metadata,
    Manifest,
    Spine,
}

/// Every failure a public operation of this library can report.
#[derive(Debug, Clone, Copy, PartialEq, Eq, Structural)]
pub enum EpubError {
    /// The publication file could not be opened.
    FileOpen,
    /// The ZIP central directory could not be read.
    ArchiveCorrupt,
    /// No entry with the requested path exists in the archive.
    EntryNotFound,
    /// The entry exists but its body is not valid UTF-8.
    EntryDecodingFailed,
    /// An XML document failed to parse.
    MalformedXml,
    /// `META-INF/container.xml` advertises no root file.
    NoRootFile,
    /// The OPF lacks one of its required top-level sections.
    MissingPackageSection(Section),
    /// The OPF advertises neither a navigation document nor an NCX.
    NoToc,
    /// The navigation document has no `nav` element with `id="toc"`.
    NavNotFound,
    /// The `nav` element has no direct `ol` child.
    TopLevelOlMissing,
    /// The NCX document has no `navMap` element.
    NavMapNotFound,
}

} // verus!
