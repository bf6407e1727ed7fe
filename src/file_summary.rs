use vstd::prelude::*;

use crate::digest::{is_md5_hex, Fingerprint};
use crate::file::{name_of, rel_path_of, size_of, type_of, EntryMeta, FileType};
use crate::node_summary::{
    content_of, fingerprint_of, get_node_summary, read_fails, ReadError,
};

verus! {

/// The description of one filesystem entry, as a record of its own.
pub struct FileSummary {
    pub full_file_path: String,
    pub relative_file_path: String,
    pub file_name: String,
    pub md5: String,
    pub file_size: u64,
    pub file_type: FileType,
}

/// Describes the entry at `full_file_path` relative to `parent_dir`, with
/// the same fields and the same one error as `get_node_summary`.
pub fn get_file_summary(
    full_file_path: &str,
    parent_dir: &str,
    meta: &Option<EntryMeta>,
    content: &Result<Fingerprint, ReadError>,
) -> (r: Result<FileSummary, ReadError>)
    ensures
        r is Err <==> read_fails(*meta, *content),
        r is Err ==> r->Err_0.message@ == content->Err_0.message@,
        r is Ok ==> {
            let s = r->Ok_0;
            &&& s.full_file_path@ == full_file_path@
            &&& s.relative_file_path@ == rel_path_of(full_file_path@, parent_dir@)
            &&& s.file_name@ == name_of(full_file_path@)
            &&& s.md5@ == fingerprint_of(*meta, content_of(*content))
            &&& s.file_size == size_of(*meta)
            &&& s.file_type == type_of(*meta)
            &&& type_of(*meta) == FileType::File ==> is_md5_hex(s.md5@)
        },
{
    match get_node_summary(full_file_path, parent_dir, meta, content) {
        Ok(s) => Ok(
            FileSummary {
                full_file_path: s.full_file_path,
                relative_file_path: s.relative_file_path,
                file_name: s.file_name,
                md5: s.md5,
                file_size: s.file_size,
                file_type: s.file_type,
            },
        ),
        Err(e) => Err(e),
    }
}

} // verus!
