use vstd::prelude::*;

verus! {

/// What a filesystem entry is.
#[derive(Debug, Clone, Copy, PartialEq, Eq, Structural)]
pub enum FileType {
    Dir,
    File,
    /// A symlink, a device, a socket, or a path whose metadata could not be read.
    Other,
}

/// What one metadata lookup reported for a path.
#[derive(Debug, Clone, Copy, PartialEq, Eq, Structural)]
pub struct EntryMeta {
    pub is_dir: bool,
    pub is_file: bool,
    /// The length that the metadata reports, whatever the kind of entry.
    pub len: u64,
}

/// The classification of an entry from its metadata; `None` stands for a
/// lookup that failed.
pub open spec fn type_of(meta: Option<EntryMeta>) -> FileType {
    match meta {
        Some(m) => if m.is_dir {
            FileType::Dir
        } else if m.is_file {
            FileType::File
        } else {
            FileType::Other
        },
        None => FileType::Other,
    }
}

/// The size recorded for an entry: its length for a regular file, zero otherwise.
pub open spec fn size_of(meta: Option<EntryMeta>) -> u64 {
    match meta {
        Some(m) => if type_of(meta) == FileType::File {
            m.len
        } else {
            0
        },
        None => 0,
    }
}

/// What `Path::file_name` gives for a path.
pub uninterp spec fn file_name_of(path: Seq<char>) -> Option<Seq<char>>;

/// What `Path::strip_prefix` gives for a path and a base.
pub uninterp spec fn stripped_of(path: Seq<char>, base: Seq<char>) -> Option<Seq<char>>;

/// The name of an entry: the last component of its path, or empty if there is none.
pub open spec fn name_of(path: Seq<char>) -> Seq<char> {
    match file_name_of(path) {
        Some(n) => n,
        None => Seq::empty(),
    }
}

/// The path of an entry relative to a base, or empty if the path is not under it.
pub open spec fn rel_path_of(path: Seq<char>, base: Seq<char>) -> Seq<char> {
    match stripped_of(path, base) {
        Some(r) => r,
        None => Seq::empty(),
    }
}

/// Relies on `std::path::Path::file_name`: the final component of the path,
/// `None` where the path has none (it is empty, a root, or ends in `..`).
#[verifier::external_body]
fn path_file_name(path: &str) -> (r: Option<String>)
    ensures
        r.is_some() == file_name_of(path@).is_some(),
        r.is_some() ==> file_name_of(path@) == Some(r->Some_0@),
{
    std::path::Path::new(path).file_name().map(|n| n.to_string_lossy().into_owned())
}

/// Relies on `std::path::Path::strip_prefix`: the path with the components of
/// `base` taken off its front, `None` where `base` is not a prefix of it. A
/// path stripped of itself leaves the empty path.
#[verifier::external_body]
fn path_strip_prefix(path: &str, base: &str) -> (r: Option<String>)
    ensures
        r.is_some() == stripped_of(path@, base@).is_some(),
        r.is_some() ==> stripped_of(path@, base@) == Some(r->Some_0@),
        path@ == base@ ==> r.is_some() && r->Some_0@ == Seq::<char>::empty(),
{
    std::path::Path::new(path).strip_prefix(base).ok().map(|p| p.to_string_lossy().into_owned())
}

/// The last component of a path, or the empty string if it has none.
pub fn get_file_name(full_file_path: &str) -> (r: String)
    ensures
        r@ == name_of(full_file_path@),
{
    match path_file_name(full_file_path) {
        Some(name) => name,
        None => String::new(),
    }
}

/// The path relative to `parent_dir`, or the empty string where the path does
/// not lie under it.
pub fn get_relative_file_path(full_file_path: &str, parent_dir: &str) -> (r: String)
    ensures
        r@ == rel_path_of(full_file_path@, parent_dir@),
        stripped_of(full_file_path@, parent_dir@) is None ==> r@.len() == 0,
        full_file_path@ == parent_dir@ ==> r@ == Seq::<char>::empty(),
{
    match path_strip_prefix(full_file_path, parent_dir) {
        Some(rel) => rel,
        None => String::new(),
    }
}

/// Classifies an entry from its metadata: a directory first, then a regular
/// file, anything else (or a failed lookup) as `Other`.
pub fn get_file_type(meta: &Option<EntryMeta>) -> (r: FileType)
    ensures
        r == type_of(*meta),
{
    match meta {
        Some(m) => {
            if m.is_dir {
                FileType::Dir
            } else if m.is_file {
                FileType::File
            } else {
                FileType::Other
            }
        },
        None => FileType::Other,
    }
}

/// The size of an entry: the reported length of a regular file, zero for
/// anything else, whatever length its metadata reports.
pub fn get_file_size(meta: &Option<EntryMeta>) -> (r: u64)
    ensures
        r == size_of(*meta),
        type_of(*meta) != FileType::File ==> r == 0,
{
    if get_file_type(meta) != FileType::File {
        return 0;
    }
    match meta {
        Some(m) => m.len,
        None => 0,
    }
}

} // verus!
