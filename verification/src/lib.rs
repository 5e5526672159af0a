//! Read-only extraction of structured metadata from EPUB publications.
//!
//! The library parses the chain of XML artifacts inside an EPUB container
//! (`META-INF/container.xml`, the OPF package document, and the XHTML or NCX
//! table of contents) into plain data, and offers random-access retrieval of
//! resource bytes by archive-internal path.

pub mod container;
pub mod error;
pub mod package;
pub mod parser;
pub mod strmap;
pub mod text;
pub mod toc;
pub mod xml;

pub use container::{Container, RootFile};
pub use error::{EpubError, Section};
pub use parser::{read_binary_file, read_text_file, BookMeta, Parser};
pub use toc::{Toc, TocNode};
