use std::io::{Cursor, Write};

use rookreader::epub_container::{dir_of, file_name_of, resolve_ref, EpubContainer};
use rookreader::error::ErrorCode;

// A valid 1x1 transparent PNG.
const DUMMY_PNG_DATA: &[u8] = &[
    0x89, 0x50, 0x4E, 0x47, 0x0D, 0x0A, 0x1A, 0x0A, 0x00, 0x00, 0x00, 0x0D, 0x49, 0x48, 0x44,
    0x52, 0x00, 0x00, 0x00, 0x01, 0x00, 0x00, 0x00, 0x01, 0x08, 0x06, 0x00, 0x00, 0x00, 0x1F,
    0x15, 0xC4, 0x89, 0x00, 0x00, 0x00, 0x0A, 0x49, 0x44, 0x41, 0x54, 0x78, 0x9C, 0x63, 0x00,
    0x01, 0x00, 0x00, 0x05, 0x00, 0x01, 0x0D, 0x0A, 0x2D, 0xB4, 0x00, 0x00, 0x00, 0x00, 0x49,
    0x45, 0x4E, 0x44, 0xAE, 0x42, 0x60, 0x82,
];

const CONTAINER_XML: &str = r#"<?xml version="1.0"?>
<container version="1.0" xmlns="urn:oasis:names:tc:opendocument:xmlns:container">
<rootfiles>
    <rootfile full-path="OEBPS/content.opf" media-type="application/oebps-package+xml"/>
</rootfiles>
</container>"#;

fn content_opf(with_images: bool, layout: Option<&str>) -> String {
    let manifest_items = if with_images {
        r#"<item id="image1" href="images/image1.png" media-type="image/png"/>
        <item id="cover" href="images/cover.png" media-type="image/png"/>
        <item id="non-image" href="data.txt" media-type="text/plain"/>"#
    } else {
        r#"<item id="non-image" href="data.txt" media-type="text/plain"/>"#
    };
    let layout_meta = match layout {
        Some(value) => format!(
            r#"<meta property="rendition:layout">{}</meta>"#,
            value
        ),
        None => String::new(),
    };

    format!(
        r#"<?xml version="1.0" encoding="UTF-8"?>
<package xmlns="http://www.idpf.org/2007/opf" version="3.0" unique-identifier="bookid">
<metadata xmlns:dc="http://purl.org/dc/elements/1.1/">
    <dc:title>Test Book</dc:title>
    <dc:identifier id="bookid">urn:uuid:12345</dc:identifier>
    <dc:language>en</dc:language>
    {}
</metadata>
<manifest>
    <item id="chapter1" href="text/chapter1.xhtml" media-type="application/xhtml+xml"/>
    {}
</manifest>
<spine>
    <itemref idref="chapter1"/>
</spine>
</package>"#,
        layout_meta, manifest_items
    )
}

fn chapter1_xhtml(with_images: bool) -> String {
    let images = if with_images {
        r#"<img src="../images/image1.png" />"#
    } else {
        ""
    };

    format!(
        r#"<?xml version="1.0" encoding="UTF-8"?>
<html xmlns="http://www.w3.org/1999/xhtml">
<body>
    {}
</body>
</html>"#,
        images
    )
}

// Writes a dummy EPUB (a ZIP with the given files) and returns its path.
fn create_dummy_epub(
    dir: &std::path::Path,
    filename: &str,
    files: &[(&str, &[u8])],
) -> String {
    let mut zip = zip::ZipWriter::new(Cursor::new(Vec::new()));
    let options =
        zip::write::SimpleFileOptions::default().compression_method(zip::CompressionMethod::Stored);
    for (entry_name, content) in files {
        zip.start_file(*entry_name, options).expect("failed to start zip entry");
        zip.write_all(content).expect("failed to write zip entry content");
    }
    let bytes = zip.finish().expect("failed to finish zip file").into_inner();
    let path = dir.join(filename);
    fs_err::write(&path, bytes).expect("failed to write epub file");
    path.to_string_lossy().to_string()
}

fn standard_epub_files<'a>(
    content_opf_str: &'a str,
    chapter1_xhtml_str: &'a str,
) -> Vec<(&'a str, &'a [u8])> {
    vec![
        ("mimetype", b"application/epub+zip"),
        ("META-INF/container.xml", CONTAINER_XML.as_bytes()),
        ("OEBPS/content.opf", content_opf_str.as_bytes()),
        ("OEBPS/text/chapter1.xhtml", chapter1_xhtml_str.as_bytes()),
        ("OEBPS/images/image1.png", DUMMY_PNG_DATA),
        ("OEBPS/images/cover.png", DUMMY_PNG_DATA),
        ("OEBPS/data.txt", b"some text data"),
    ]
}

#[test]
fn test_new_valid_epub() {
    let dir = tempfile::tempdir().expect("failed to create tempdir");
    let content_opf_str = content_opf(true, None);
    let chapter1_xhtml_str = chapter1_xhtml(true);

    let epub_path = create_dummy_epub(
        dir.path(),
        "test.epub",
        &standard_epub_files(&content_opf_str, &chapter1_xhtml_str),
    );

    let container = EpubContainer::new(&epub_path).expect("failed to create EpubContainer");

    // The spine references image1, so it comes first in reading order; the
    // unreferenced cover follows.
    assert_eq!(container.get_entries().len(), 2);
    assert_eq!(container.get_entries()[0], "image1");
    assert_eq!(container.get_entries()[1], "cover");
}

#[test]
fn test_new_epub_no_images_in_spine() {
    let dir = tempfile::tempdir().expect("failed to create tempdir");
    let content_opf_str = content_opf(true, None);
    let chapter1_xhtml_str = chapter1_xhtml(false);

    let epub_path = create_dummy_epub(
        dir.path(),
        "test.epub",
        &standard_epub_files(&content_opf_str, &chapter1_xhtml_str),
    );

    let container = EpubContainer::new(&epub_path).expect("failed to create EpubContainer");

    assert_eq!(container.get_entries().len(), 2);
    assert!(container.get_entries().contains(&"image1".to_string()));
    assert!(container.get_entries().contains(&"cover".to_string()));
}

#[test]
fn test_new_empty_epub() {
    let dir = tempfile::tempdir().expect("failed to create tempdir");
    let content_opf_str = content_opf(false, None);
    let chapter1_xhtml_str = chapter1_xhtml(false);

    let epub_path = create_dummy_epub(
        dir.path(),
        "empty.epub",
        &[
            ("mimetype", b"application/epub+zip"),
            ("META-INF/container.xml", CONTAINER_XML.as_bytes()),
            ("OEBPS/content.opf", content_opf_str.as_bytes()),
            ("OEBPS/text/chapter1.xhtml", chapter1_xhtml_str.as_bytes()),
            ("OEBPS/data.txt", b"some text data"),
        ],
    );

    let container = EpubContainer::new(&epub_path).expect("failed to create EpubContainer");
    assert!(container.get_entries().is_empty());
}

#[test]
fn test_new_non_existent_epub() {
    let non_existent_path = String::from("/non/existent/file.epub");
    let container = EpubContainer::new(&non_existent_path);
    assert!(container.is_err());
}

#[test]
fn epub_container_test_get_entries() {
    let dir = tempfile::tempdir().expect("failed to create tempdir");
    let content_opf_str = content_opf(true, None);
    let chapter1_xhtml_str = chapter1_xhtml(true);

    let epub_path = create_dummy_epub(
        dir.path(),
        "test.epub",
        &standard_epub_files(&content_opf_str, &chapter1_xhtml_str),
    );

    let container = EpubContainer::new(&epub_path).unwrap();
    let entries = container.get_entries();

    assert_eq!(entries.len(), 2);
    assert_eq!(entries[0], "image1");
    assert_eq!(entries[1], "cover");
}

#[test]
fn epub_container_test_get_image_existing() {
    let dir = tempfile::tempdir().expect("failed to create tempdir");
    let content_opf_str = content_opf(true, None);
    let chapter1_xhtml_str = chapter1_xhtml(true);

    let epub_path = create_dummy_epub(
        dir.path(),
        "test.epub",
        &standard_epub_files(&content_opf_str, &chapter1_xhtml_str),
    );
    let container = EpubContainer::new(&epub_path).expect("failed to create EpubContainer");

    let image = container
        .get_image(&String::from("image1"))
        .expect("get_image should succeed for existing image");
    assert_eq!(image.width, 1);
    assert_eq!(image.height, 1);
    assert_eq!(image.data, DUMMY_PNG_DATA);
}

#[test]
fn epub_container_test_get_image_non_existing() {
    let dir = tempfile::tempdir().expect("failed to create tempdir");
    let content_opf_str = content_opf(true, None);
    let chapter1_xhtml_str = chapter1_xhtml(true);

    let epub_path = create_dummy_epub(
        dir.path(),
        "test.epub",
        &standard_epub_files(&content_opf_str, &chapter1_xhtml_str),
    );
    let container = EpubContainer::new(&epub_path).unwrap();
    let result = container.get_image(&String::from("non_existent_image"));
    assert!(result.is_err());
    assert_eq!(result.unwrap_err().code(), ErrorCode::EntryNotFound);
}

#[test]
fn test_is_novel_without_layout_metadata() {
    let dir = tempfile::tempdir().expect("failed to create tempdir");
    let content_opf_str = content_opf(true, None);
    let chapter1_xhtml_str = chapter1_xhtml(true);
    let epub_path = create_dummy_epub(
        dir.path(),
        "test.epub",
        &standard_epub_files(&content_opf_str, &chapter1_xhtml_str),
    );
    let container = EpubContainer::new(&epub_path).unwrap();
    assert!(container.is_novel());
}

#[test]
fn test_is_novel_pre_paginated_is_comic() {
    let dir = tempfile::tempdir().expect("failed to create tempdir");
    let content_opf_str = content_opf(true, Some("pre-paginated"));
    let chapter1_xhtml_str = chapter1_xhtml(true);
    let epub_path = create_dummy_epub(
        dir.path(),
        "comic.epub",
        &standard_epub_files(&content_opf_str, &chapter1_xhtml_str),
    );
    let container = EpubContainer::new(&epub_path).unwrap();
    assert!(!container.is_novel());
}

#[test]
fn test_location_helpers_split_on_last_slash() {
    assert_eq!(file_name_of(&"a/b/c.png".to_string()), "c.png");
    assert_eq!(file_name_of(&"c.png".to_string()), "c.png");
    assert_eq!(dir_of(&"a/b/c.png".to_string()), "a/b");
    assert_eq!(dir_of(&"c.png".to_string()), "");
    assert_eq!(
        resolve_ref(&"text".to_string(), &"../images/x.png".to_string()),
        "text/../images/x.png"
    );
    assert_eq!(resolve_ref(&"".to_string(), &"x.png".to_string()), "x.png");
}

#[test]
fn test_entries_from_book_orders_referenced_images_first() {
    let images = vec![
        ("image1".to_string(), "/OEBPS/images/image1.png".to_string()),
        ("cover".to_string(), "/OEBPS/images/cover.png".to_string()),
    ];
    let docs = vec![(
        "/OEBPS/text/chapter1.xhtml".to_string(),
        r#"<html><body><img src="../images/image1.png" /></body></html>"#.to_string(),
    )];
    let entries = EpubContainer::entries_from_book(&images, &docs);
    assert_eq!(entries, vec!["image1".to_string(), "cover".to_string()]);
}

#[test]
fn test_entries_from_book_falls_back_to_natural_order() {
    let images = vec![
        ("b10".to_string(), "/OEBPS/images/b10.png".to_string()),
        ("b2".to_string(), "/OEBPS/images/b2.png".to_string()),
    ];
    let docs = vec![(
        "/OEBPS/text/chapter1.xhtml".to_string(),
        "<html><body><p>no images here</p></body></html>".to_string(),
    )];
    let entries = EpubContainer::entries_from_book(&images, &docs);
    assert_eq!(entries, vec!["b2".to_string(), "b10".to_string()]);
}

#[test]
fn test_layout_reads_as_novel() {
    let layout = |value: &str| {
        vec![
            ("dc:title".to_string(), "Test Book".to_string()),
            ("rendition:layout".to_string(), value.to_string()),
        ]
    };
    assert!(!EpubContainer::layout_reads_as_novel(&layout("pre-paginated")));
    assert!(EpubContainer::layout_reads_as_novel(&layout("reflowable")));
    assert!(EpubContainer::layout_reads_as_novel(&vec![(
        "dc:title".to_string(),
        "Test Book".to_string()
    )]));
}
