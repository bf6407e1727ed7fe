use mirrost::file::{
    get_file_name, get_file_size, get_file_type, get_relative_file_path, EntryMeta, FileType,
};

const CONTENT: &str = "This is a test content.";

fn file_meta(len: u64) -> Option<EntryMeta> {
    Some(EntryMeta { is_dir: false, is_file: true, len })
}

fn dir_meta() -> Option<EntryMeta> {
    Some(EntryMeta { is_dir: true, is_file: false, len: 4096 })
}

#[test]
fn test_get_file_name() {
    let result = get_file_name("/tmp/mirrost_tmp");
    assert_eq!(result, "mirrost_tmp");
}

#[test]
fn test_get_relative_file_path() {
    let result = get_relative_file_path("/tmp/mirrost_tmp", "/tmp");
    assert_eq!(result, "mirrost_tmp");
}

#[test]
fn test_get_relative_file_path_invalid_path() {
    let result = get_relative_file_path("/path/that/does/not/exist", "/tmp");
    assert_eq!(result, "");
}

#[test]
fn test_get_file_size() {
    let result = get_file_size(&file_meta(CONTENT.len() as u64));
    assert_eq!(result, CONTENT.len() as u64);
}

#[test]
fn test_get_file_size_nonexistent_file() {
    // a path that does not exist has no metadata
    let result = get_file_size(&None);
    assert_eq!(result, 0);
}

#[test]
fn test_get_file_type_dir() {
    let result = get_file_type(&dir_meta());
    assert_eq!(result, FileType::Dir);
}

#[test]
fn test_get_file_type_file() {
    let result = get_file_type(&file_meta(CONTENT.len() as u64));
    assert_eq!(result, FileType::File);
}

#[test]
fn test_get_file_type_nonexistent_path() {
    let result = get_file_type(&None);
    assert_eq!(result, FileType::Other);
}

#[test]
fn file_name_of_root_is_empty() {
    assert_eq!(get_file_name("/"), "");
    assert_eq!(get_file_name(""), "");
    assert_eq!(get_file_name("/tmp/a/.."), "");
}

#[test]
fn file_name_ignores_trailing_separator() {
    assert_eq!(get_file_name("/tmp/dir/"), "dir");
    assert_eq!(get_file_name("name.txt"), "name.txt");
}

#[test]
fn relative_path_is_taken_by_components() {
    assert_eq!(get_relative_file_path("/tmp/a/b/c.txt", "/tmp"), "a/b/c.txt");
    assert_eq!(get_relative_file_path("/tmp/a/b/c.txt", "/tmp/a/"), "b/c.txt");
    assert_eq!(get_relative_file_path("/tmpx/a", "/tmp"), "");
}

#[test]
fn relative_path_of_root_against_itself_is_empty() {
    assert_eq!(get_relative_file_path("/tmp/root", "/tmp/root"), "");
}

#[test]
fn directory_size_is_zero_whatever_its_metadata_says() {
    assert_eq!(get_file_size(&dir_meta()), 0);
}

#[test]
fn other_entries_have_zero_size() {
    let link = Some(EntryMeta { is_dir: false, is_file: false, len: 17 });
    assert_eq!(get_file_type(&link), FileType::Other);
    assert_eq!(get_file_size(&link), 0);
}

#[test]
fn largest_file_size_is_kept() {
    assert_eq!(get_file_size(&file_meta(u64::MAX)), u64::MAX);
}
