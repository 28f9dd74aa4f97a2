use std::io::{Cursor, Write};

use rookreader::container::Container;
use rookreader::error::ErrorCode;
use rookreader::loader::ImageLoader;
use rookreader::resize::{ResizeFilter, ResizePolicy};
use rookreader::zip_container::ZipContainer;

const DUMMY_PNG_DATA: &[u8] = &[
    0x89, 0x50, 0x4E, 0x47, 0x0D, 0x0A, 0x1A, 0x0A, 0x00, 0x00, 0x00, 0x0D, 0x49, 0x48, 0x44,
    0x52, 0x00, 0x00, 0x00, 0x01, 0x00, 0x00, 0x00, 0x01, 0x08, 0x06, 0x00, 0x00, 0x00, 0x1F,
    0x15, 0xC4, 0x89, 0x00, 0x00, 0x00, 0x0C, 0x49, 0x44, 0x41, 0x54, 0x08, 0xD7, 0x63, 0xF8,
    0xFF, 0xFF, 0xFF, 0x3F, 0x00, 0x05, 0xFE, 0x02, 0xFE, 0xDC, 0xCC, 0x53, 0x24, 0x00, 0x00,
    0x00, 0x00, 0x49, 0x45, 0x4E, 0x44, 0xAE, 0x42, 0x60, 0x82,
];

fn make_zip(entries: &[(&str, &[u8])]) -> Vec<u8> {
    let mut zip = zip::ZipWriter::new(Cursor::new(Vec::new()));
    let options = zip::write::SimpleFileOptions::default()
        .compression_method(zip::CompressionMethod::Deflated);
    for (entry_name, content) in entries {
        zip.start_file(*entry_name, options).expect("failed to start zip entry");
        zip.write_all(content).expect("failed to write zip entry content");
    }
    zip.finish().expect("failed to finish zip file").into_inner()
}

fn no_resize() -> ResizePolicy {
    ResizePolicy { max_height: 0, filter: ResizeFilter::Triangle }
}

fn zip_loader(entries: &[(&str, &[u8])], policy: ResizePolicy) -> ImageLoader {
    let container = ZipContainer::from_bytes(make_zip(entries)).expect("zip should open");
    ImageLoader::new(Container::Zip(container), policy)
}

// A PNG with the given dimensions, for resize tests.
fn tall_png(width: u32, height: u32) -> Vec<u8> {
    let img = image::DynamicImage::ImageRgba8(image::RgbaImage::from_pixel(
        width,
        height,
        image::Rgba([10, 20, 30, 255]),
    ));
    let mut buffer = Cursor::new(Vec::new());
    img.write_to(&mut buffer, image::ImageFormat::Png).expect("png encode");
    buffer.into_inner()
}

#[test]
fn test_get_image_is_idempotent() {
    let mut loader = zip_loader(&[("a.png", DUMMY_PNG_DATA)], no_resize());
    let first = loader.get_image(&String::from("a.png")).expect("first load");
    let second = loader.get_image(&String::from("a.png")).expect("second load");
    assert_eq!(first.data, second.data);
    assert_eq!(first.width, second.width);
    assert_eq!(first.height, second.height);
}

#[test]
fn test_request_preload() {
    let mut loader = zip_loader(
        &[("1.png", DUMMY_PNG_DATA), ("2.png", DUMMY_PNG_DATA), ("3.png", DUMMY_PNG_DATA)],
        no_resize(),
    );
    loader.request_preload(0, 2);

    let one = loader.get_image_from_cache(&String::from("1.png"));
    let two = loader.get_image_from_cache(&String::from("2.png"));
    let three = loader.get_image_from_cache(&String::from("3.png"));
    assert!(one.is_some());
    assert!(two.is_some());
    assert!(three.is_none());

    let direct = loader.get_image(&String::from("1.png")).expect("direct load");
    assert_eq!(one.unwrap().data, direct.data);
}

#[test]
fn test_request_preload_out_of_bounds() {
    let mut loader = zip_loader(&[("1.png", DUMMY_PNG_DATA)], no_resize());
    loader.request_preload(0, 5);
    assert!(loader.get_image_from_cache(&String::from("1.png")).is_some());
    loader.request_preload(1, 1);
    assert!(loader.get_image_from_cache(&String::from("1.png")).is_some());
}

#[test]
fn test_empty_preload_after_preload_adds_nothing() {
    let mut loader = zip_loader(
        &[("1.png", DUMMY_PNG_DATA), ("2.png", DUMMY_PNG_DATA), ("3.png", DUMMY_PNG_DATA)],
        no_resize(),
    );
    loader.request_preload(0, 1);
    loader.request_preload(0, 0);
    assert!(loader.get_image_from_cache(&String::from("2.png")).is_none());
    assert!(loader.get_image_from_cache(&String::from("3.png")).is_none());
}

#[test]
fn test_cancel_preload_keeps_cache() {
    let mut loader = zip_loader(&[("1.png", DUMMY_PNG_DATA)], no_resize());
    loader.request_preload(0, 1);
    loader.cancel_preload();
    assert!(loader.get_image_from_cache(&String::from("1.png")).is_some());
}

#[test]
fn test_missing_entry_gives_entry_not_found() {
    let mut loader = zip_loader(&[("a.png", DUMMY_PNG_DATA)], no_resize());
    let err = loader.get_image(&String::from("does-not-exist")).unwrap_err();
    assert_eq!(err.code(), ErrorCode::EntryNotFound);
    let err = loader.get_preview_image(&String::from("does-not-exist")).unwrap_err();
    assert_eq!(err.code(), ErrorCode::EntryNotFound);
}

#[test]
fn test_resize_bound_is_respected() {
    let png = tall_png(50, 200);
    let policy = ResizePolicy { max_height: 100, filter: ResizeFilter::Triangle };
    let mut loader = zip_loader(&[("tall.png", &png)], policy);
    let img = loader.get_image(&String::from("tall.png")).expect("load tall image");
    assert_eq!(img.height, 100);
    assert_eq!(img.width, 25);
}

#[test]
fn test_within_bound_keeps_original_bytes() {
    let policy = ResizePolicy { max_height: 100, filter: ResizeFilter::Triangle };
    let mut loader = zip_loader(&[("a.png", DUMMY_PNG_DATA)], policy);
    let img = loader.get_image(&String::from("a.png")).expect("load");
    assert_eq!(img.data, DUMMY_PNG_DATA);
    assert_eq!((img.width, img.height), (1, 1));
}

#[test]
fn test_preview_of_cached_entry_is_empty() {
    let mut loader = zip_loader(&[("a.png", DUMMY_PNG_DATA)], no_resize());
    loader.get_image(&String::from("a.png")).expect("load");
    let preview = loader.get_preview_image(&String::from("a.png")).expect("preview");
    assert!(preview.is_none());
}

#[test]
fn test_preview_of_uncached_entry_is_thumbnail() {
    let png = tall_png(400, 600);
    let loader = zip_loader(&[("a.png", &png)], no_resize());
    let preview = loader
        .get_preview_image(&String::from("a.png"))
        .expect("preview")
        .expect("uncached entry should give a thumbnail");
    assert_eq!(preview.height, 300);
    assert_eq!(preview.width, 200);
}

#[test]
fn test_preload_plan_lists_uncached_entries() {
    let mut loader = zip_loader(
        &[("1.png", DUMMY_PNG_DATA), ("2.png", DUMMY_PNG_DATA), ("3.png", DUMMY_PNG_DATA)],
        no_resize(),
    );
    loader.get_image(&String::from("2.png")).expect("load");
    let plan = loader.preload_plan(0, 3);
    assert_eq!(plan, vec!["1.png".to_string(), "3.png".to_string()]);
}

#[test]
fn test_end_to_end_zip_scenario() {
    let mut loader = zip_loader(
        &[("b.png", DUMMY_PNG_DATA), ("a.png", DUMMY_PNG_DATA)],
        no_resize(),
    );
    assert_eq!(
        loader.container().get_entries(),
        &vec!["a.png".to_string(), "b.png".to_string()]
    );
    assert!(!loader.container().is_directory());
    let first = loader.get_image(&String::from("a.png")).expect("load a.png");
    assert_eq!(first.data, DUMMY_PNG_DATA);
    assert_eq!((first.width, first.height), (1, 1));
    let second = loader.get_image(&String::from("a.png")).expect("load a.png again");
    assert_eq!(second.data, first.data);
}
