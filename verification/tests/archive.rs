use std::io::Cursor;
use std::io::Write;

use epub_meta::error::EpubError;
use epub_meta::parser::{read_text_file, Parser};

const CONTAINER: &str = r#"<?xml version="1.0" encoding="utf-8"?>
<container xmlns="urn:oasis:names:tc:opendocument:xmlns:container" version="1.0">
    <rootfiles>
        <rootfile full-path="epub/content.opf" media-type="application/oebps-package+xml"/>
    </rootfiles>
</container>"#;

const NAV_DOC: &str = r#"<html xmlns="http://www.w3.org/1999/xhtml">
<body><nav id="toc"><ol>
<li><a href="text/one.xhtml">One  Two</a></li>
</ol></nav></body></html>"#;

const NCX_DOC: &str = r#"<ncx xmlns="http://www.daisy.org/z3986/2005/ncx/">
<navMap><navPoint><navLabel><text>First</text></navLabel><content src="text/one.xhtml"/></navPoint></navMap></ncx>"#;

fn opf(with_nav: bool, with_ncx: bool) -> String {
    let nav_item = if with_nav {
        "<item href=\"toc.xhtml\" id=\"toc.xhtml\" media-type=\"application/xhtml+xml\" properties=\"nav\"/>"
    } else {
        ""
    };
    let ncx_item = if with_ncx {
        "<item href=\"toc.ncx\" id=\"ncx\" media-type=\"application/x-dtbncx+xml\"/>"
    } else {
        ""
    };
    let spine_attr = if with_ncx { " toc=\"ncx\"" } else { "" };
    format!(
        r#"<package xmlns="http://www.idpf.org/2007/opf" version="3.0">
<metadata xmlns:dc="http://purl.org/dc/elements/1.1/"><dc:title> The Book </dc:title></metadata>
<manifest>
<item href="text/one.xhtml" id="one" media-type="application/xhtml+xml"/>
{}{}
</manifest>
<spine{}><itemref idref="one"/></spine>
</package>"#,
        nav_item, ncx_item, spine_attr
    )
}

fn build_epub(entries: &[(&str, &[u8])]) -> Vec<u8> {
    let mut writer = zip::ZipWriter::new(Cursor::new(Vec::new()));
    let options = zip::write::SimpleFileOptions::default();
    for (name, body) in entries {
        writer.start_file(*name, options).unwrap();
        writer.write_all(body).unwrap();
    }
    writer.finish().unwrap().into_inner()
}

#[test]
fn meta_prefers_nav_doc() {
    let pkg = opf(true, true);
    let data = build_epub(&[
        ("META-INF/container.xml", CONTAINER.as_bytes()),
        ("epub/content.opf", pkg.as_bytes()),
        ("epub/toc.xhtml", NAV_DOC.as_bytes()),
        ("epub/toc.ncx", NCX_DOC.as_bytes()),
        ("epub/text/one.xhtml", b"<html/>"),
    ]);
    let mut parser = Parser::from_bytes(data).unwrap();
    let meta = parser.meta().unwrap();
    assert_eq!(meta.title, String::from("The Book"));
    assert_eq!(meta.spine, vec![String::from("epub/text/one.xhtml")]);
    assert_eq!(meta.toc.contents.len(), 1);
    assert_eq!(meta.toc.contents[0].title, String::from("One Two"));
    assert_eq!(
        meta.toc.contents[0].href,
        Some(String::from("epub/text/one.xhtml"))
    );
    assert_eq!(
        meta.manifest.get("epub/text/one.xhtml"),
        Some(&Some(String::from("application/xhtml+xml")))
    );
}

#[test]
fn meta_falls_back_to_ncx() {
    let pkg = opf(false, true);
    let data = build_epub(&[
        ("META-INF/container.xml", CONTAINER.as_bytes()),
        ("epub/content.opf", pkg.as_bytes()),
        ("epub/toc.ncx", NCX_DOC.as_bytes()),
        ("epub/text/one.xhtml", b"<html/>"),
    ]);
    let mut parser = Parser::from_bytes(data).unwrap();
    let meta = parser.meta().unwrap();
    assert_eq!(meta.toc.contents.len(), 1);
    assert_eq!(meta.toc.contents[0].title, String::from("First"));
    assert_eq!(
        meta.toc.contents[0].href,
        Some(String::from("epub/text/one.xhtml"))
    );
}

#[test]
fn meta_reports_missing_rootfile() {
    let empty_container = r#"<container><rootfiles/></container>"#;
    let data = build_epub(&[("META-INF/container.xml", empty_container.as_bytes())]);
    let mut parser = Parser::from_bytes(data).unwrap();
    assert_eq!(parser.meta().unwrap_err(), EpubError::NoRootFile);
}

#[test]
fn meta_reports_missing_toc() {
    let pkg = opf(false, false);
    let data = build_epub(&[
        ("META-INF/container.xml", CONTAINER.as_bytes()),
        ("epub/content.opf", pkg.as_bytes()),
    ]);
    let mut parser = Parser::from_bytes(data).unwrap();
    assert_eq!(parser.meta().unwrap_err(), EpubError::NoToc);
}

#[test]
fn meta_reports_missing_entry() {
    let data = build_epub(&[("mimetype", b"application/epub+zip")]);
    let mut parser = Parser::from_bytes(data).unwrap();
    assert_eq!(parser.meta().unwrap_err(), EpubError::EntryNotFound);
}

#[test]
fn resource_roundtrip() {
    let body: &[u8] = &[0u8, 159, 146, 150, 13, 10];
    let data = build_epub(&[("images/raw.bin", body)]);
    let mut parser = Parser::from_bytes(data).unwrap();
    assert_eq!(parser.resource("images/raw.bin").unwrap(), body.to_vec());
    assert_eq!(
        parser.resource("images/other.bin").unwrap_err(),
        EpubError::EntryNotFound
    );
}

#[test]
fn corrupt_archive_rejected() {
    assert_eq!(
        Parser::from_bytes(vec![1, 2, 3, 4]).unwrap_err(),
        EpubError::ArchiveCorrupt
    );
}

#[test]
fn meta_reports_decoding_failure() {
    let body: &[u8] = &[0xff, 0xfe, 0x00];
    let data = build_epub(&[("META-INF/container.xml", body)]);
    let mut parser = Parser::from_bytes(data).unwrap();
    assert_eq!(parser.meta().unwrap_err(), EpubError::EntryDecodingFailed);
}

#[test]
fn non_utf8_entry_fails_decoding() {
    let body: &[u8] = &[0xff, 0xfe, 0x00];
    let data = build_epub(&[("bad.bin", body)]);
    let mut archive = zip::ZipArchive::new(Cursor::new(data)).unwrap();
    assert_eq!(
        read_text_file(&mut archive, "bad.bin").unwrap_err(),
        EpubError::EntryDecodingFailed
    );
    assert_eq!(
        read_text_file(&mut archive, "absent.txt").unwrap_err(),
        EpubError::EntryNotFound
    );
}
