use std::io::{Cursor, Write};

use rookreader::error::ErrorCode;
use rookreader::zip_container::ZipContainer;

const DUMMY_PNG_DATA: &[u8] = &[
    0x89, 0x50, 0x4E, 0x47, 0x0D, 0x0A, 0x1A, 0x0A, 0x00, 0x00, 0x00, 0x0D, 0x49, 0x48, 0x44,
    0x52, 0x00, 0x00, 0x00, 0x01, 0x00, 0x00, 0x00, 0x01, 0x08, 0x06, 0x00, 0x00, 0x00, 0x1F,
    0x15, 0xC4, 0x89, 0x00, 0x00, 0x00, 0x0C, 0x49, 0x44, 0x41, 0x54, 0x08, 0xD7, 0x63, 0xF8,
    0xFF, 0xFF, 0xFF, 0x3F, 0x00, 0x05, 0xFE, 0x02, 0xFE, 0xDC, 0xCC, 0x53, 0x24, 0x00, 0x00,
    0x00, 0x00, 0x49, 0x45, 0x4E, 0x44, 0xAE, 0x42, 0x60, 0x82,
];

// Builds a ZIP archive in memory with the given entries.
pub fn make_zip(entries: &[(&str, &[u8])]) -> Vec<u8> {
    let mut zip = zip::ZipWriter::new(Cursor::new(Vec::new()));
    let options = zip::write::SimpleFileOptions::default()
        .compression_method(zip::CompressionMethod::Deflated);
    for (entry_name, content) in entries {
        zip.start_file(*entry_name, options)
            .expect("failed to start zip entry");
        zip.write_all(content).expect("failed to write zip entry content");
    }
    zip.finish().expect("failed to finish zip file").into_inner()
}

#[test]
fn test_new_valid_zip() {
    let bytes = make_zip(&[
        ("image1.png", DUMMY_PNG_DATA),
        ("image2.png", DUMMY_PNG_DATA),
        ("text.txt", b"hello"),
    ]);

    let container = ZipContainer::from_bytes(bytes).expect("failed to create ZipContainer");

    assert_eq!(container.get_entries().len(), 2);
    assert_eq!(container.get_entries()[0], "image1.png");
    assert_eq!(container.get_entries()[1], "image2.png");
}

#[test]
fn test_new_empty_zip() {
    let bytes = make_zip(&[]);

    let container = ZipContainer::from_bytes(bytes).expect("failed to create ZipContainer");
    assert!(container.get_entries().is_empty());
}

#[test]
fn test_new_invalid_zip_bytes() {
    let result = ZipContainer::from_bytes(vec![0x00, 0x01, 0x02]);
    assert!(result.is_err());
    assert_eq!(result.unwrap_err().code(), ErrorCode::Decode);
}

#[test]
fn zip_container_test_get_entries() {
    let bytes = make_zip(&[
        ("image_c.png", DUMMY_PNG_DATA),
        ("image_a.png", DUMMY_PNG_DATA),
        ("image_b.png", DUMMY_PNG_DATA),
    ]);

    let container = ZipContainer::from_bytes(bytes).unwrap();
    let entries = container.get_entries();

    assert_eq!(entries.len(), 3);
    assert_eq!(entries[0], "image_a.png");
    assert_eq!(entries[1], "image_b.png");
    assert_eq!(entries[2], "image_c.png");
}

#[test]
fn zip_container_test_get_image_existing() {
    let bytes = make_zip(&[("image1.png", DUMMY_PNG_DATA)]);
    let container = ZipContainer::from_bytes(bytes).expect("failed to create ZipContainer");

    let image = container
        .get_image(&String::from("image1.png"))
        .expect("get_image should succeed for existing image");
    assert_eq!(image.width, 1);
    assert_eq!(image.height, 1);
    assert_eq!(image.data, DUMMY_PNG_DATA);
}

#[test]
fn zip_container_test_get_image_non_existing() {
    let bytes = make_zip(&[("image1.png", DUMMY_PNG_DATA)]);
    let container = ZipContainer::from_bytes(bytes).unwrap();
    let result = container.get_image(&String::from("non_existent_image.png"));
    assert!(result.is_err());
    assert_eq!(result.unwrap_err().code(), ErrorCode::EntryNotFound);
}

#[test]
fn test_get_thumbnail_is_bounded() {
    let img = image::DynamicImage::ImageRgba8(image::RgbaImage::from_pixel(
        40,
        80,
        image::Rgba([1, 2, 3, 255]),
    ));
    let mut buffer = Cursor::new(Vec::new());
    img.write_to(&mut buffer, image::ImageFormat::Png).expect("png encode");
    let bytes = make_zip(&[("image1.png", &buffer.into_inner())]);
    let container = ZipContainer::from_bytes(bytes).unwrap();
    let thumb = container
        .get_thumbnail(&String::from("image1.png"))
        .expect("get_thumbnail should succeed");
    assert_eq!(thumb.height, 300);
    assert_eq!(thumb.width, 150);
}
