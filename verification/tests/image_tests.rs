use rookreader::error::{Error, ErrorCode};
use rookreader::image::Image;

// A minimal valid 1x1 PNG.
pub const DUMMY_PNG_DATA: &[u8] = &[
    0x89, 0x50, 0x4E, 0x47, 0x0D, 0x0A, 0x1A, 0x0A, 0x00, 0x00, 0x00, 0x0D, 0x49, 0x48, 0x44,
    0x52, 0x00, 0x00, 0x00, 0x01, 0x00, 0x00, 0x00, 0x01, 0x08, 0x02, 0x00, 0x00, 0x00, 0x90,
    0x77, 0x53, 0xDE, 0x00, 0x00, 0x00, 0x0C, 0x49, 0x44, 0x41, 0x54, 0x08, 0x99, 0x63, 0xF8,
    0xFF, 0xFF, 0xFF, 0x7F, 0x00, 0x09, 0xFB, 0x03, 0xFD, 0xDE, 0x54, 0x4D, 0xEE, 0x00, 0x00,
    0x00, 0x00, 0x49, 0x45, 0x4E, 0x44, 0xAE, 0x42, 0x60, 0x82,
];

#[test]
fn test_image_new_with_valid_png() {
    let png_data = DUMMY_PNG_DATA.to_vec();

    let result = Image::new(png_data.clone());
    assert!(result.is_ok());

    let image = result.unwrap();
    assert_eq!(image.width, 1);
    assert_eq!(image.height, 1);
    assert_eq!(image.data, png_data);
}

#[test]
fn test_image_new_with_invalid_data() {
    let invalid_data = vec![0xFF, 0xD8, 0xFF, 0xE0];

    let result = Image::new(invalid_data);
    assert!(result.is_err());
    let err = result.unwrap_err();
    assert_eq!(err.code(), ErrorCode::Decode);
}

#[test]
fn test_image_new_with_empty_data() {
    let empty_data = vec![];

    let result = Image::new(empty_data);
    assert!(result.is_err());
    let err = result.unwrap_err();
    assert_eq!(err.code(), ErrorCode::Decode);
}

#[test]
fn test_image_wire_bytes_layout() {
    let image = Image { data: vec![0xAA, 0xBB, 0xCC], width: 0x01020304, height: 0x0A0B0C0D };
    let wire = image.to_wire_bytes();
    assert_eq!(
        wire,
        vec![0x01, 0x02, 0x03, 0x04, 0x0A, 0x0B, 0x0C, 0x0D, 0xAA, 0xBB, 0xCC]
    );
}

#[test]
fn test_error_codes_are_stable() {
    assert_eq!(ErrorCode::UnsupportedContainer.code(), 10001);
    assert_eq!(ErrorCode::EntryNotFound.code(), 10002);
    assert_eq!(ErrorCode::NativeBinding.code(), 10101);
    assert_eq!(ErrorCode::Decode.code(), 10201);
    assert_eq!(ErrorCode::Io.code(), 20001);
    assert_eq!(ErrorCode::Lock.code(), 60001);
    let err = Error::EntryNotFound(String::from("missing"));
    assert_eq!(err.code(), ErrorCode::EntryNotFound);
    assert_eq!(err.message(), "missing");
}
