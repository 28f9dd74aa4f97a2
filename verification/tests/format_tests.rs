use rookreader::container::Container;
use rookreader::image::Image;

#[test]
fn test_container_is_supported_format() {
    let cases: Vec<(&str, bool)> = vec![
        ("document.pdf", true),
        ("document.PDF", true),
        ("archive.rar", true),
        ("archive.RAR", true),
        ("compressed.zip", true),
        ("compressed.ZIP", true),
        ("book.epub", true),
        ("book.EPUB", true),
        ("test.pdf.rar", true),
        (".pdf", true),
        (".rar", true),
        (".zip", true),
        ("file.txt", false),
        ("file.jpg", false),
        ("file.png", false),
        ("file.pdf_test", false),
        ("file.rar.test", false),
        ("document", false),
        ("", false),
    ];
    for (filename, expected) in cases {
        assert_eq!(
            expected,
            Container::is_supported_format(filename),
            "failed for filename: {}",
            filename
        );
    }
}

#[test]
fn test_image_is_supported_format() {
    let cases: Vec<(&str, bool)> = vec![
        ("test.apng", true),
        ("test.APNG", true),
        ("test.avif", false),
        ("test.AVIF", false),
        ("test.gif", true),
        ("test.GIF", true),
        ("test.jpg", true),
        ("test.JPG", true),
        ("test.jpeg", true),
        ("test.JPEG", true),
        ("test.jpe", true),
        ("test.JPE", true),
        ("test.jif", true),
        ("test.JIF", true),
        ("test.jfif", true),
        ("test.JFIF", true),
        ("test.png", true),
        ("test.PNG", true),
        ("test.svg", true),
        ("test.SVG", true),
        ("test.webp", true),
        ("test.WEBP", true),
        ("test.test.png", true),
        (".png", true),
        ("test.png_test", false),
        ("test.png.test", false),
        ("test.pdf", false),
        ("test.rar", false),
        ("test.zip", false),
        ("test", false),
        ("", false),
    ];
    for (filename, expected) in cases {
        assert_eq!(
            expected,
            Image::is_supported_format(filename),
            "failed for filename: {}",
            filename
        );
    }
}
