use rookreader::container::{classify_path, worker_count, ContainerKind};
use rookreader::listing::{filter_listing, DirEntry};
use rookreader::pdf_container::{pad4, pad_page};
use rookreader::error::ErrorCode;
use rookreader::rar_container::RarContainer;
use rookreader::resize::ResizeFilter;
use rookreader::settings::{
    AppTheme, ContainerSettings, Direction, ExperimentalFeaturesSettings, HistorySettings,
    LogLevel, LogSettings, RenderingSettings, SortOrder,
};

#[test]
fn test_new_non_existent_rar() {
    let non_existent_path = String::from("/non/existent/file.rar");
    let container = RarContainer::new(&non_existent_path);
    assert!(container.is_err());
    assert_eq!(container.unwrap_err().code(), ErrorCode::Io);
}

#[test]
fn test_classify_path() {
    assert_eq!(classify_path("x", true).unwrap(), ContainerKind::Directory);
    assert_eq!(classify_path("a.zip", false).unwrap(), ContainerKind::Zip);
    assert_eq!(classify_path("a.ZIP", false).unwrap(), ContainerKind::Zip);
    assert_eq!(classify_path("a.pdf", false).unwrap(), ContainerKind::Pdf);
    assert_eq!(classify_path("a.rar", false).unwrap(), ContainerKind::Rar);
    assert_eq!(classify_path("a.epub", false).unwrap(), ContainerKind::Epub);
    let err = classify_path("a.txt", false).unwrap_err();
    assert_eq!(err.code(), ErrorCode::UnsupportedContainer);
    assert!(classify_path("noextension", false).is_err());
}

#[test]
fn test_worker_count_is_half_at_least_one() {
    assert_eq!(worker_count(0), 1);
    assert_eq!(worker_count(1), 1);
    assert_eq!(worker_count(2), 1);
    assert_eq!(worker_count(3), 1);
    assert_eq!(worker_count(4), 2);
    assert_eq!(worker_count(8), 4);
}

#[test]
fn test_resize_filter_from_name() {
    assert_eq!(ResizeFilter::from_name("nearest"), ResizeFilter::Nearest);
    assert_eq!(ResizeFilter::from_name("triangle"), ResizeFilter::Triangle);
    assert_eq!(ResizeFilter::from_name("catmullrom"), ResizeFilter::CatmullRom);
    assert_eq!(ResizeFilter::from_name("gaussian"), ResizeFilter::Gaussian);
    assert_eq!(ResizeFilter::from_name("lanczos3"), ResizeFilter::Lanczos3);
    assert_eq!(ResizeFilter::from_name("unknown"), ResizeFilter::Triangle);
}

#[test]
fn test_theme_and_direction_and_sort_order() {
    assert_eq!(AppTheme::default(), AppTheme::System);
    assert_eq!(AppTheme::from_name("dark"), AppTheme::Dark);
    assert_eq!(AppTheme::from_name("junk"), AppTheme::System);
    assert_eq!(AppTheme::Light.name(), "Light");

    assert_eq!(Direction::default(), Direction::RTL);
    assert_eq!(Direction::from_name("ltr"), Direction::LTR);
    assert_eq!(Direction::LTR.name(), "LTR");

    assert_eq!(SortOrder::from_name("date_desc"), SortOrder::DateDesc);
    assert_eq!(SortOrder::from_name("junk"), SortOrder::NameAsc);
    assert_eq!(SortOrder::DateAsc.name(), "DateAsc");
}

#[test]
fn test_settings_constructors() {
    let experimental = ExperimentalFeaturesSettings::new(true);
    assert!(experimental.enable_epub_novel_reader);
    assert!(!ExperimentalFeaturesSettings::default().enable_epub_novel_reader);

    let history = HistorySettings::new(false, true);
    assert!(!history.enable);
    assert!(history.restore_last_container_on_startup);
    assert!(HistorySettings::default().enable);

    let log = LogSettings::new(LogLevel::Debug);
    assert_eq!(log.level, LogLevel::Debug);
    assert_eq!(LogSettings::default().level, LogLevel::Info);

    let rendering = RenderingSettings::new(false, 1080, "lanczos3".to_string(), 1500);
    assert!(!rendering.enable_preview);
    assert_eq!(rendering.max_image_height, 1080);
    assert_eq!(rendering.image_resize_method, "lanczos3");
    assert_eq!(rendering.pdf_rendering_height, 1500);

    let defaults = RenderingSettings::default();
    assert!(defaults.enable_preview);
    assert_eq!(defaults.max_image_height, 0);
    assert_eq!(defaults.image_resize_method, "triangle");
    assert_eq!(defaults.pdf_rendering_height, 2000);
}

#[test]
fn test_default_container_settings() {
    let settings = ContainerSettings::default();
    assert!(settings.enable_preview);
    assert_eq!(settings.max_image_height, 0);
    assert_eq!(settings.image_resize_method, ResizeFilter::Triangle);
    assert_eq!(settings.pdf_rendering_height, 2000);
    assert!(settings.pdfium_library_path.is_none());
}

#[test]
fn test_set_pdf_rendering_height_valid_height() {
    for height in [1200, 100000] {
        let mut settings = ContainerSettings::default();
        assert!(settings.set_pdf_rendering_height(height).is_ok());
        assert_eq!(settings.pdf_rendering_height, height);
    }
}

#[test]
fn test_set_pdf_rendering_height_negative() {
    for height in [0, -1, -1200] {
        let mut settings = ContainerSettings::default();
        assert!(settings.set_pdf_rendering_height(height).is_err());
        assert_eq!(settings.pdf_rendering_height, 2000);
    }
}

#[test]
fn test_filter_listing_keeps_dirs_and_containers() {
    let entry = |is_directory: bool, name: &str| DirEntry {
        is_directory,
        name: name.to_string(),
        last_modified: "2024-01-01T00:00:00+00:00".to_string(),
    };
    let listing = vec![
        entry(true, "subdir"),
        entry(false, "archive.zip"),
        entry(false, "document.txt"),
        entry(false, "book.EPUB"),
    ];
    let kept = filter_listing(listing);
    let names: Vec<&str> = kept.iter().map(|e| e.name.as_str()).collect();
    assert_eq!(names, vec!["subdir", "archive.zip", "book.EPUB"]);
}

#[test]
fn test_pdf_page_entry_names_are_zero_padded() {
    assert_eq!(pad4(0), "0000");
    assert_eq!(pad4(3), "0003");
    assert_eq!(pad4(42), "0042");
    assert_eq!(pad4(9999), "9999");
    assert_eq!(pad_page(42), "0042");
    assert_eq!(pad_page(10000), "10000");
    assert_eq!(pad_page(65535), "65535");
}

#[test]
fn test_rar_path_with_nul_is_rejected() {
    let bad_path = String::from("bad\u{0}name.rar");
    let container = RarContainer::new(&bad_path);
    assert!(container.is_err());
    assert_eq!(container.unwrap_err().code(), ErrorCode::Io);
}
