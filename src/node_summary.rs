use vstd::prelude::*;

use crate::digest::{is_md5_hex, md5_hex_of, Fingerprint};
use crate::file::{
    get_file_name, get_file_size, get_file_type, get_relative_file_path, name_of, rel_path_of,
    size_of, type_of, EntryMeta, FileType,
};

verus! {

/// A failure to read the content of an entry that was classified as a regular file.
#[derive(Debug, PartialEq, Eq)]
pub struct ReadError {
    pub message: String,
}

/// The description of one filesystem entry.
#[derive(Debug, PartialEq, Eq)]
pub struct NodeSummary {
    pub full_file_path: String,
    pub relative_file_path: String,
    pub file_name: String,
    /// MD5 of the content as lowercase hex; empty for anything but a regular file.
    pub md5: String,
    /// Length of the content; zero for anything but a regular file.
    pub file_size: u64,
    pub file_type: FileType,
}

/// The fingerprint of an entry: the digest of its content for a regular
/// file, empty for anything else.
pub open spec fn fingerprint_of(meta: Option<EntryMeta>, content: Seq<u8>) -> Seq<char> {
    if type_of(meta) == FileType::File {
        md5_hex_of(content)
    } else {
        Seq::empty()
    }
}

/// Whether the entry at `path`, with metadata `meta` and content `content`,
/// is read against `parent` exactly as `s` says.
pub open spec fn describes(
    s: NodeSummary,
    path: Seq<char>,
    parent: Seq<char>,
    meta: Option<EntryMeta>,
    content: Seq<u8>,
) -> bool {
    &&& s.full_file_path@ == path
    &&& s.relative_file_path@ == rel_path_of(path, parent)
    &&& s.file_name@ == name_of(path)
    &&& s.md5@ == fingerprint_of(meta, content)
    &&& s.file_size == size_of(meta)
    &&& s.file_type == type_of(meta)
}

/// Whether building a descriptor for an entry with this metadata and this
/// outcome of reading its content fails: only a regular file whose content
/// could not be read does.
pub open spec fn read_fails(meta: Option<EntryMeta>, content: Result<Fingerprint, ReadError>) -> bool {
    type_of(meta) == FileType::File && content is Err
}

/// The content that was streamed into the fingerprint, or nothing where the
/// read failed.
pub open spec fn content_of(content: Result<Fingerprint, ReadError>) -> Seq<u8> {
    match content {
        Ok(f) => f.consumed(),
        Err(_) => Seq::empty(),
    }
}

pub(crate) fn copy_error(e: &ReadError) -> (r: ReadError)
    ensures
        r.message@ == e.message@,
{
    ReadError { message: e.message.clone() }
}

/// Describes the entry at `full_file_path` relative to `parent_dir`, from
/// what a metadata lookup gave and from the outcome of streaming its content
/// into a fingerprint.
/// The content is looked at only for a regular file; a failed read of one is
/// the only error.
pub fn get_node_summary(
    full_file_path: &str,
    parent_dir: &str,
    meta: &Option<EntryMeta>,
    content: &Result<Fingerprint, ReadError>,
) -> (r: Result<NodeSummary, ReadError>)
    ensures
        r is Err <==> read_fails(*meta, *content),
        r is Err ==> r->Err_0.message@ == content->Err_0.message@,
        r is Ok ==> describes(
            r->Ok_0,
            full_file_path@,
            parent_dir@,
            *meta,
            content_of(*content),
        ),
        r is Ok && full_file_path@ == parent_dir@ ==> r->Ok_0.relative_file_path@.len() == 0,
        type_of(*meta) != FileType::File ==> r is Ok && r->Ok_0.md5@.len() == 0
            && r->Ok_0.file_size == 0,
        r is Ok && type_of(*meta) == FileType::File ==> is_md5_hex(r->Ok_0.md5@),
{
    let file_name = get_file_name(full_file_path);
    let relative_file_path = get_relative_file_path(full_file_path, parent_dir);
    let file_type = get_file_type(meta);
    let md5 = if file_type == FileType::File {
        match content {
            Ok(fingerprint) => fingerprint.hex(),
            Err(e) => {
                return Err(copy_error(e));
            },
        }
    } else {
        String::new()
    };
    let file_size = get_file_size(meta);
    Ok(
        NodeSummary {
            full_file_path: full_file_path.to_owned(),
            relative_file_path,
            file_name,
            md5,
            file_size,
            file_type,
        },
    )
}

} // verus!
