use mirrost::digest::Fingerprint;
use mirrost::file::{EntryMeta, FileType};
use mirrost::file_summary::get_file_summary;
use mirrost::node_summary::{get_node_summary, NodeSummary, ReadError};

fn fingerprint_of(content: &str) -> Fingerprint {
    let mut f = Fingerprint::new();
    f.consume(content.as_bytes());
    f
}

fn file_meta(len: u64) -> Option<EntryMeta> {
    Some(EntryMeta { is_dir: false, is_file: true, len })
}

fn dir_meta() -> Option<EntryMeta> {
    Some(EntryMeta { is_dir: true, is_file: false, len: 4096 })
}

fn read_ok(content: &str) -> Result<Fingerprint, ReadError> {
    Ok(fingerprint_of(content))
}

fn not_read() -> Result<Fingerprint, ReadError> {
    Ok(Fingerprint::new())
}

#[test]
fn test_get_file_summary() {
    let temp_file_path = "/tmp/mirrost_tmp";
    let test_content = "This is a test content.";
    let parent_dir = "/tmp";
    let expected_file_summary = NodeSummary {
        full_file_path: temp_file_path.to_string(),
        relative_file_path: "mirrost_tmp".to_string(),
        file_name: "mirrost_tmp".to_string(),
        md5: "25a464d7bde51f9a4325085a5c0d2a71".to_string(),
        file_size: 23,
        file_type: FileType::File,
    };
    let meta = file_meta(test_content.len() as u64);
    match get_node_summary(temp_file_path, parent_dir, &meta, &read_ok(test_content)) {
        Ok(actual_file_summary) => assert_eq!(expected_file_summary, actual_file_summary),
        Err(e) => panic!("Error: {:?}", e),
    }
}

#[test]
fn test_get_file_summary_dir() {
    let temp_dir_path = "/tmp/mirrost_tmp_dir";
    let parent_dir = "/tmp";
    let expected_file_summary = NodeSummary {
        full_file_path: temp_dir_path.to_string(),
        relative_file_path: "mirrost_tmp_dir".to_string(),
        file_name: "mirrost_tmp_dir".to_string(),
        md5: "".to_string(),
        file_size: 0,
        file_type: FileType::Dir,
    };
    match get_node_summary(temp_dir_path, parent_dir, &dir_meta(), &not_read()) {
        Ok(actual_file_summary) => assert_eq!(expected_file_summary, actual_file_summary),
        Err(e) => panic!("Error: {:?}", e),
    }
}

#[test]
fn test_get_file_md5() {
    let content = "aaaaaaassssssssddddddddddfffff\n";
    let meta = file_meta(content.len() as u64);
    let summary = get_node_summary("/tmp/mirrost_tmp", "/tmp", &meta, &read_ok(content)).unwrap();
    assert_eq!(summary.md5, "7a0cf342efdef012054e2c6dc6967bf6".to_string());
}

#[test]
fn test_get_dir_md5() {
    let summary =
        get_node_summary("/tmp/mirrost_tmp_dir", "/tmp", &dir_meta(), &not_read()).unwrap();
    assert_eq!(summary.md5, "".to_string());
}

#[test]
fn empty_file_has_digest_of_no_bytes() {
    let summary = get_node_summary("/tmp/empty", "/tmp", &file_meta(0), &read_ok("")).unwrap();
    assert_eq!(summary.md5, "d41d8cd98f00b204e9800998ecf8427e");
    assert_eq!(summary.file_size, 0);
}

#[test]
fn nonexistent_path_is_other_with_no_content() {
    let summary =
        get_node_summary("/path/that/does/not/exist", "/tmp", &None, &not_read()).unwrap();
    assert_eq!(summary.file_type, FileType::Other);
    assert_eq!(summary.file_size, 0);
    assert_eq!(summary.md5, "");
    assert_eq!(summary.relative_file_path, "");
    assert_eq!(summary.file_name, "exist");
}

#[test]
fn unreadable_file_fails_with_its_error() {
    let failed: Result<Fingerprint, ReadError> =
        Err(ReadError { message: "permission denied".to_string() });
    let r = get_node_summary("/tmp/locked", "/tmp", &file_meta(5), &failed);
    assert_eq!(r, Err(ReadError { message: "permission denied".to_string() }));
}

#[test]
fn unreadable_content_of_a_directory_is_ignored() {
    let failed: Result<Fingerprint, ReadError> = Err(ReadError { message: "is a directory".to_string() });
    let r = get_node_summary("/tmp/d", "/tmp", &dir_meta(), &failed).unwrap();
    assert_eq!(r.file_type, FileType::Dir);
    assert_eq!(r.md5, "");
}

#[test]
fn file_summary_matches_node_summary() {
    let meta = file_meta(23);
    let content = read_ok("This is a test content.");
    let f = get_file_summary("/tmp/mirrost_tmp", "/tmp", &meta, &content).unwrap();
    assert_eq!(f.full_file_path, "/tmp/mirrost_tmp");
    assert_eq!(f.relative_file_path, "mirrost_tmp");
    assert_eq!(f.file_name, "mirrost_tmp");
    assert_eq!(f.md5, "25a464d7bde51f9a4325085a5c0d2a71");
    assert_eq!(f.file_size, 23);
    assert_eq!(f.file_type, FileType::File);
}

#[test]
fn file_summary_fails_on_unreadable_file() {
    let failed: Result<Fingerprint, ReadError> = Err(ReadError { message: "gone".to_string() });
    let r = get_file_summary("/tmp/gone", "/tmp", &file_meta(3), &failed);
    assert!(r.is_err());
}

#[test]
fn digest_is_the_same_for_every_split_into_chunks() {
    let content = "aaaaaaassssssssddddddddddfffff\n".as_bytes();
    let mut f = Fingerprint::new();
    f.consume(&content[..7]);
    f.consume(&content[7..7]);
    f.consume(&content[7..]);
    assert_eq!(f.hex(), "7a0cf342efdef012054e2c6dc6967bf6");
}

#[test]
fn digest_of_more_than_one_kilobyte_in_chunks() {
    let content = vec![b'x'; 3000];
    let mut whole = Fingerprint::new();
    whole.consume(&content);
    let mut chunked = Fingerprint::new();
    for chunk in content.chunks(1024) {
        chunked.consume(chunk);
    }
    let hex = chunked.hex();
    assert_eq!(hex, whole.hex());
    assert_eq!(hex.len(), 32);
    assert!(hex.chars().all(|c| c.is_ascii_digit() || ('a'..='f').contains(&c)));
}
