use rookreader::container::Container;
use rookreader::directory_container::DirectoryContainer;
use rookreader::error::ErrorCode;
use rookreader::loader::ImageLoader;
use rookreader::resize::{ResizeFilter, ResizePolicy};

const DUMMY_PNG_DATA: &[u8] = &[
    0x89, 0x50, 0x4E, 0x47, 0x0D, 0x0A, 0x1A, 0x0A, 0x00, 0x00, 0x00, 0x0D, 0x49, 0x48, 0x44,
    0x52, 0x00, 0x00, 0x00, 0x01, 0x00, 0x00, 0x00, 0x01, 0x08, 0x06, 0x00, 0x00, 0x00, 0x1F,
    0x15, 0xC4, 0x89, 0x00, 0x00, 0x00, 0x0C, 0x49, 0x44, 0x41, 0x54, 0x08, 0xD7, 0x63, 0xF8,
    0xFF, 0xFF, 0xFF, 0x3F, 0x00, 0x05, 0xFE, 0x02, 0xFE, 0xDC, 0xCC, 0x53, 0x24, 0x00, 0x00,
    0x00, 0x00, 0x49, 0x45, 0x4E, 0x44, 0xAE, 0x42, 0x60, 0x82,
];

fn create_dummy_image(dir: &std::path::Path, filename: &str) {
    fs_err::write(dir.join(filename), DUMMY_PNG_DATA).expect("failed to write dummy image");
}

fn dir_path(dir: &tempfile::TempDir) -> String {
    dir.path().to_string_lossy().to_string()
}

#[test]
fn test_new_valid_directory() {
    let dir = tempfile::tempdir().expect("failed to create tempdir");
    create_dummy_image(dir.path(), "test1.png");
    create_dummy_image(dir.path(), "test2.jpg");
    fs_err::write(dir.path().join("test.txt"), b"x").expect("failed to create test.txt");

    let container =
        DirectoryContainer::new(&dir_path(&dir)).expect("failed to create DirectoryContainer");

    assert_eq!(container.get_entries().len(), 2);
    assert_eq!(container.get_entries()[0], "test1.png");
    assert_eq!(container.get_entries()[1], "test2.jpg");
}

#[test]
fn test_new_empty_directory() {
    let dir = tempfile::tempdir().expect("failed to create tempdir");
    let container =
        DirectoryContainer::new(&dir_path(&dir)).expect("failed to create DirectoryContainer");
    assert!(container.get_entries().is_empty());
}

#[test]
fn test_new_non_existent_directory() {
    let non_existent_path = String::from("/non/existent/path");
    let container = DirectoryContainer::new(&non_existent_path);
    assert!(container.is_err());
    assert_eq!(container.unwrap_err().code(), ErrorCode::Io);
}

#[test]
fn directory_container_test_get_entries() {
    let dir = tempfile::tempdir().expect("failed to create tempdir");
    create_dummy_image(dir.path(), "a.png");
    create_dummy_image(dir.path(), "b.jpg");

    let container =
        DirectoryContainer::new(&dir_path(&dir)).expect("failed to create DirectoryContainer");
    let entries = container.get_entries();

    assert_eq!(entries.len(), 2);
    assert_eq!(entries[0], "a.png");
    assert_eq!(entries[1], "b.jpg");
}

#[test]
fn test_get_entries_sorted() {
    let cases: Vec<(Vec<&str>, Vec<&str>)> = vec![
        (vec!["b.png", "a.jpg"], vec!["a.jpg", "b.png"]),
        (vec!["10.png", "2.png", "1.png"], vec!["1.png", "2.png", "10.png"]),
    ];
    for (unsorted_files, expected_sorted_files) in cases {
        let dir = tempfile::tempdir().expect("failed to create tempdir");
        for file in unsorted_files {
            create_dummy_image(dir.path(), file);
        }

        let container =
            DirectoryContainer::new(&dir_path(&dir)).expect("failed to create DirectoryContainer");
        let entries = container.get_entries();

        let expected: Vec<String> =
            expected_sorted_files.into_iter().map(String::from).collect();
        assert_eq!(entries, &expected);
    }
}

#[test]
fn directory_container_test_get_image_existing() {
    let dir = tempfile::tempdir().expect("failed to create tempdir");
    create_dummy_image(dir.path(), "test.png");
    let container =
        DirectoryContainer::new(&dir_path(&dir)).expect("failed to create DirectoryContainer");

    let image = container
        .get_image(&String::from("test.png"))
        .expect("get_image should succeed for existing image");
    assert_eq!(image.width, 1);
    assert_eq!(image.height, 1);
    assert_eq!(image.data, DUMMY_PNG_DATA);
}

#[test]
fn directory_container_test_get_image_non_existing() {
    let dir = tempfile::tempdir().expect("failed to create tempdir");
    let container =
        DirectoryContainer::new(&dir_path(&dir)).expect("failed to create DirectoryContainer");
    let result = container.get_image(&String::from("non_existent.png"));
    assert!(result.is_err());
    assert_eq!(result.unwrap_err().code(), ErrorCode::EntryNotFound);
}

#[test]
fn test_preload() {
    let dir = tempfile::tempdir().expect("failed to create tempdir");
    create_dummy_image(dir.path(), "1.png");
    create_dummy_image(dir.path(), "2.png");
    create_dummy_image(dir.path(), "3.png");

    let container =
        DirectoryContainer::new(&dir_path(&dir)).expect("failed to create DirectoryContainer");
    let mut loader = ImageLoader::new(
        Container::Directory(container),
        ResizePolicy { max_height: 0, filter: ResizeFilter::Triangle },
    );

    loader.request_preload(0, 2);

    assert!(loader.get_image_from_cache(&String::from("1.png")).is_some());
    assert!(loader.get_image_from_cache(&String::from("2.png")).is_some());
    assert!(loader.get_image_from_cache(&String::from("3.png")).is_none());

    let image_1 = loader.get_image(&String::from("1.png")).unwrap();
    assert_eq!(image_1.width, 1);

    loader.request_preload(2, 1);

    assert!(loader.get_image_from_cache(&String::from("3.png")).is_some());
}

#[test]
fn test_preload_out_of_bounds() {
    let dir = tempfile::tempdir().expect("failed to create tempdir");
    create_dummy_image(dir.path(), "1.png");
    let container =
        DirectoryContainer::new(&dir_path(&dir)).expect("failed to create DirectoryContainer");
    let mut loader = ImageLoader::new(
        Container::Directory(container),
        ResizePolicy { max_height: 0, filter: ResizeFilter::Triangle },
    );

    loader.request_preload(0, 5);

    assert!(loader.get_image_from_cache(&String::from("1.png")).is_some());
    assert_eq!(loader.preload_plan(0, 5).len(), 0);

    loader.request_preload(1, 1);

    assert!(loader.get_image_from_cache(&String::from("1.png")).is_some());
    assert_eq!(loader.preload_plan(0, 5).len(), 0);
}

#[test]
fn test_directory_container_is_directory() {
    let dir = tempfile::tempdir().expect("failed to create tempdir");
    let container =
        DirectoryContainer::new(&dir_path(&dir)).expect("failed to create DirectoryContainer");
    assert!(Container::Directory(container).is_directory());
}
