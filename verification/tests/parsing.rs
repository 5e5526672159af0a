use epub_meta::container::{Container, RootFile};
use epub_meta::error::{EpubError, Section};
use epub_meta::package::PackageDocument;
use epub_meta::strmap::StrMap;
use epub_meta::text::text_norm;
use epub_meta::toc::{Toc, TocNode};
use epub_meta::xml;

#[test]
fn parse_container() {
    let doc = r###"
<?xml version="1.0" encoding="utf-8"?>
<container xmlns="urn:oasis:names:tc:opendocument:xmlns:container" version="1.0">
    <rootfiles>
        <rootfile full-path="epub/content.opf" media-type="application/oebps-package+xml"/>
        <rootfile full-path="EPUB/content.opf" media-type="application/oebps-package+xml"/>
        <rootfile />
    </rootfiles>
</container>
        "###
    .trim();

    let parsed = Container::from(doc).unwrap();
    let expected = Container {
        root_files: vec![
            RootFile {
                base_path: "epub".to_string(),
                full_path: "epub/content.opf".to_string(),
            },
            RootFile {
                base_path: "EPUB".to_string(),
                full_path: "EPUB/content.opf".to_string(),
            },
        ],
    };

    assert_eq!(parsed, expected)
}

fn jane_eyre_opf() -> &'static str {
    r###"
<?xml version="1.0" encoding="utf-8"?>
<package xmlns="http://www.idpf.org/2007/opf" dir="ltr" prefix="se: https://standardebooks.org/vocab/1.0"
         unique-identifier="uid" version="3.0" xml:lang="en-US">
    <metadata xmlns:dc="http://purl.org/dc/elements/1.1/">
        <dc:identifier id="uid">url:https://standardebooks.org/ebooks/charlotte-bronte/jane-eyre</dc:identifier>
        <dc:title id="title"> Jane Eyre </dc:title>
        <dc:title id="subtitle">An Autobiography</dc:title>
        <dc:title id="fulltitle">Jane Eyre: An Autobiography</dc:title>
        <dc:language> en-GB </dc:language>
    </metadata>
    <manifest>
        <item href="css/core.css" id="core.css" media-type="text/css"/>
        <item href="images/cover.svg" id="cover.svg" media-type="image/svg+xml" properties="cover-image"/>
        <item href="text/chapter-1.xhtml" id="chapter-1.xhtml" media-type="application/xhtml+xml"/>
        <item href="text/endnotes.xhtml" id="endnotes.xhtml" media-type="application/xhtml+xml"/>
        <item href="text/preface.xhtml" id="preface.xhtml" media-type="application/xhtml+xml"/>
        <item href="toc.xhtml" id="toc.xhtml" media-type="application/xhtml+xml" properties="nav"/>
        <item href="toc.ncx" id="ncx" media-type="application/x-dtbncx+xml"/>
    </manifest>
    <spine toc="ncx">
        <itemref idref="preface.xhtml"/>
        <itemref idref="chapter-1.xhtml"/>
        <itemref idref="endnotes.xhtml"/>
    </spine>
</package>
        "###
    .trim()
}

#[test]
fn parse_package_document() {
    let base_path = "epub";

    let mut manifest: StrMap<Option<String>> = StrMap::new();
    manifest.insert(
        format!("{}/{}", base_path, "css/core.css"),
        Some(String::from("text/css")),
    );
    manifest.insert(
        format!("{}/{}", base_path, "images/cover.svg"),
        Some(String::from("image/svg+xml")),
    );
    manifest.insert(
        format!("{}/{}", base_path, "text/chapter-1.xhtml"),
        Some(String::from("application/xhtml+xml")),
    );
    manifest.insert(
        format!("{}/{}", base_path, "text/endnotes.xhtml"),
        Some(String::from("application/xhtml+xml")),
    );
    manifest.insert(
        format!("{}/{}", base_path, "text/preface.xhtml"),
        Some(String::from("application/xhtml+xml")),
    );
    manifest.insert(
        format!("{}/{}", base_path, "toc.xhtml"),
        Some(String::from("application/xhtml+xml")),
    );
    manifest.insert(
        format!("{}/{}", base_path, "toc.ncx"),
        Some(String::from("application/x-dtbncx+xml")),
    );

    let expected = PackageDocument {
        title: "Jane Eyre".to_string(),
        language: "en-GB".to_string(),
        cover_image_path: Some(format!("{}/{}", base_path, "images/cover.svg")),
        spine: vec![
            format!("{}/{}", base_path, "text/preface.xhtml"),
            format!("{}/{}", base_path, "text/chapter-1.xhtml"),
            format!("{}/{}", base_path, "text/endnotes.xhtml"),
        ],
        manifest,
        toc_ncx_path: Some(format!("{}/{}", base_path, "toc.ncx")),
        toc_nav_doc_path: Some(format!("{}/{}", base_path, "toc.xhtml")),
    };

    let parsed = PackageDocument::from(jane_eyre_opf(), base_path).unwrap();

    assert_eq!(expected, parsed)
}

#[test]
fn normalize_html_text() {
    let text = "<div><span> <span>a </span>:  b</span>c</div>";
    let tree = xml::parse(text).unwrap();
    let collected = xml::collect_text(&tree);
    assert_eq!(String::from("a : bc"), text_norm(collected.as_str()))
}

#[test]
fn parse_nav_doc() {
    let doc = r#"
<?xml version="1.0" encoding="utf-8"?>
<html xmlns="http://www.w3.org/1999/xhtml" xmlns:epub="http://www.idpf.org/2007/ops" xml:lang="en-US">
<head>
    <title>Table of Contents</title>
</head>
<body>
<nav id="toc">
    <h2>Table of Contents</h2>
    <ol>
        <li><a href="preface.xhtml">Preface</a></li>
        <li>
            <a href="title-page.xhtml">Jane Eyre</a>
            <ol>
                <li><a href="chapter-1.xhtml">Chapter 1</a></li>
                <li><a href="chapter-2.xhtml"> Chapter 2 </a></li>
                <li><a href="chapter-3.xhtml"><span>Chapter 3 </span></a></li>
                <li><a href="chapter-4.xhtml"> <span> Chapter</span> 4</a></li>
                <li><span><span>Chapter</span> 5</span></li>
            </ol>
        </li>
    </ol>
</nav>
</body>
</html>"#
        .trim();

    let base_path = "epub";

    let expected = vec![
        TocNode {
            title: String::from("Preface"),
            href: Some(format!("{}/{}", base_path, "preface.xhtml")),
            children: None,
        },
        TocNode {
            title: String::from("Jane Eyre"),
            href: Some(format!("{}/{}", base_path, "title-page.xhtml")),
            children: Some(vec![
                TocNode {
                    title: String::from("Chapter 1"),
                    href: Some(format!("{}/{}", base_path, "chapter-1.xhtml")),
                    children: None,
                },
                TocNode {
                    title: String::from("Chapter 2"),
                    href: Some(format!("{}/{}", base_path, "chapter-2.xhtml")),
                    children: None,
                },
                TocNode {
                    title: String::from("Chapter 3"),
                    href: Some(format!("{}/{}", base_path, "chapter-3.xhtml")),
                    children: None,
                },
                TocNode {
                    title: String::from("Chapter 4"),
                    href: Some(format!("{}/{}", base_path, "chapter-4.xhtml")),
                    children: None,
                },
                TocNode {
                    title: String::from("Chapter 5"),
                    href: None,
                    children: None,
                },
            ]),
        },
    ];

    let parsed = Toc::from_nav_doc(doc, base_path).unwrap();

    assert_eq!(expected, parsed.contents);
}

#[test]
fn parse_ncx() {
    let doc = r#"
<ncx xmlns="http://www.daisy.org/z3986/2005/ncx/" version="2005-1" xml:lang="en-US">
    <navMap>
        <navPoint class="h1" id="ch1">
            <navLabel>
                <text>Chapter 1</text>
            </navLabel>
            <content src="content.html#ch_1"/>
            <navPoint class="h2" id="ch_1_1">
                <navLabel>
                    <text>Chapter 1.1</text>
                </navLabel>
                <content src="content.html#ch_1_1"/>
            </navPoint>
        </navPoint>
        <navPoint class="h1" id="ncx-2">
            <navLabel>
                <text>Chapter 2</text>
            </navLabel>
            <content src="content.html#ch_2"/>
        </navPoint>
    </navMap>
</ncx>"#
        .trim();

    let base_path = "epub";

    let expected = vec![
        TocNode {
            title: String::from("Chapter 1"),
            href: Some(format!("{}/{}", base_path, "content.html#ch_1")),
            children: Some(vec![TocNode {
                title: String::from("Chapter 1.1"),
                href: Some(format!("{}/{}", base_path, "content.html#ch_1_1")),
                children: None,
            }]),
        },
        TocNode {
            title: String::from("Chapter 2"),
            href: Some(format!("{}/{}", base_path, "content.html#ch_2")),
            children: None,
        },
    ];

    let parsed = Toc::from_ncx(doc, base_path).unwrap();

    assert_eq!(expected, parsed.contents)
}

#[test]
fn spine_drops_unresolved_idref() {
    let doc = r#"
<package xmlns="http://www.idpf.org/2007/opf" version="3.0">
    <metadata xmlns:dc="http://purl.org/dc/elements/1.1/">
        <dc:title>T</dc:title>
    </metadata>
    <manifest>
        <item href="a.xhtml" id="a" media-type="application/xhtml+xml"/>
    </manifest>
    <spine>
        <itemref idref="a"/>
        <itemref idref="missing"/>
        <itemref/>
    </spine>
</package>"#
        .trim();

    let parsed = PackageDocument::from(doc, "epub").unwrap();
    assert_eq!(parsed.spine, vec![String::from("epub/a.xhtml")]);
}

#[test]
fn text_norm_applied_twice() {
    let x = "  a \t\u{a0}b\n\nc  ";
    let once = text_norm(x);
    let twice = text_norm(once.as_str());
    assert_eq!(once, String::from("a b c"));
    assert_eq!(twice, once);
}

#[test]
fn missing_sections_reported() {
    let no_metadata = "<package><manifest/><spine/></package>";
    let no_manifest = "<package><metadata/><spine/></package>";
    let no_spine = "<package><metadata/><manifest/></package>";
    assert_eq!(
        PackageDocument::from(no_metadata, "b").unwrap_err(),
        EpubError::MissingPackageSection(Section::Metadata)
    );
    assert_eq!(
        PackageDocument::from(no_manifest, "b").unwrap_err(),
        EpubError::MissingPackageSection(Section::Manifest)
    );
    assert_eq!(
        PackageDocument::from(no_spine, "b").unwrap_err(),
        EpubError::MissingPackageSection(Section::Spine)
    );
}

#[test]
fn container_rejects_malformed_xml() {
    assert_eq!(
        Container::from("<container><rootfiles>").unwrap_err(),
        EpubError::MalformedXml
    );
}

#[test]
fn nav_doc_without_toc_nav() {
    let doc = "<html><body><nav id=\"other\"><ol/></nav></body></html>";
    assert_eq!(
        Toc::from_nav_doc(doc, "b").unwrap_err(),
        EpubError::NavNotFound
    );
}

#[test]
fn nav_without_top_level_ol() {
    let doc = "<html><body><nav id=\"toc\"><p>empty</p></nav></body></html>";
    assert_eq!(
        Toc::from_nav_doc(doc, "b").unwrap_err(),
        EpubError::TopLevelOlMissing
    );
}

#[test]
fn ncx_without_nav_map() {
    let doc = "<ncx><head/></ncx>";
    assert_eq!(
        Toc::from_ncx(doc, "b").unwrap_err(),
        EpubError::NavMapNotFound
    );
}

#[test]
fn cover_image_last_writer_wins() {
    let doc = r#"
<package>
    <metadata/>
    <manifest>
        <item href="one.svg" id="one" properties="cover-image"/>
        <item href="two.svg" id="two" properties="cover-image"/>
    </manifest>
    <spine/>
</package>"#
        .trim();
    let parsed = PackageDocument::from(doc, "epub").unwrap();
    assert_eq!(parsed.cover_image_path, Some(String::from("epub/two.svg")));
}

#[test]
fn spine_toc_attribute_must_be_literal_ncx() {
    let doc = r#"
<package>
    <metadata/>
    <manifest>
        <item href="nav.ncx" id="mytoc"/>
    </manifest>
    <spine toc="mytoc"/>
</package>"#
        .trim();
    let parsed = PackageDocument::from(doc, "epub").unwrap();
    assert_eq!(parsed.toc_ncx_path, None);
}

#[test]
fn nav_property_without_id_sets_path() {
    let doc = r#"
<package>
    <metadata/>
    <manifest>
        <item href="nav.xhtml" properties="nav"/>
    </manifest>
    <spine/>
</package>"#
        .trim();
    let parsed = PackageDocument::from(doc, "epub").unwrap();
    assert_eq!(parsed.toc_nav_doc_path, Some(String::from("epub/nav.xhtml")));
    assert_eq!(parsed.manifest.len(), 0);
}

#[test]
fn rootfile_at_archive_root_has_empty_base() {
    let doc = r#"<container><rootfiles><rootfile full-path="content.opf"/></rootfiles></container>"#;
    let parsed = Container::from(doc).unwrap();
    assert_eq!(parsed.root_files.len(), 1);
    assert_eq!(parsed.root_files[0].base_path, String::new());
    assert_eq!(parsed.root_files[0].full_path, String::from("content.opf"));
}

#[test]
fn empty_ol_yields_empty_children() {
    let doc = r#"<html><body><nav id="toc"><ol><li><a href="a.x">A</a><ol></ol></li></ol></nav></body></html>"#;
    let parsed = Toc::from_nav_doc(doc, "b").unwrap();
    assert_eq!(parsed.contents.len(), 1);
    assert_eq!(parsed.contents[0].children, Some(vec![]));
}

#[test]
fn duplicate_id_latest_wins() {
    let doc = r#"
<package>
    <metadata/>
    <manifest>
        <item href="old.xhtml" id="a" media-type="application/xhtml+xml"/>
        <item href="new.xhtml" id="a" media-type="application/xhtml+xml"/>
    </manifest>
    <spine>
        <itemref idref="a"/>
    </spine>
</package>"#
        .trim();
    let parsed = PackageDocument::from(doc, "epub").unwrap();
    assert_eq!(parsed.spine, vec![String::from("epub/new.xhtml")]);
    assert_eq!(
        parsed.manifest.get("epub/old.xhtml"),
        Some(&Some(String::from("application/xhtml+xml")))
    );
    assert_eq!(
        parsed.manifest.get("epub/new.xhtml"),
        Some(&Some(String::from("application/xhtml+xml")))
    );
}

#[test]
fn missing_title_yields_empty_string() {
    let doc = "<package><metadata/><manifest/><spine/></package>";
    let parsed = PackageDocument::from(doc, "b").unwrap();
    assert_eq!(parsed.title, String::new());
    assert_eq!(parsed.language, String::new());
}
