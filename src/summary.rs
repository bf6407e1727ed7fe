use vstd::prelude::*;

use crate::digest::Fingerprint;
use crate::file::{type_of, EntryMeta, FileType};
use crate::node_summary::{
    content_of, describes, get_node_summary, NodeSummary, ReadError,
};

verus! {

broadcast use {
    vstd::std_specs::vec::axiom_vec_decreases_to_view,
    vstd::std_specs::vec::axiom_vec_index_decreases,
    vstd::seq::axiom_seq_index_decreases,
    vstd::seq::axiom_seq_subrange_decreases,
};

/// One entry as it was found on disk: the metadata lookup, the outcome of
/// streaming its content into a fingerprint (looked at only for a regular
/// file), and, for a directory, its immediate children.
pub struct Entry {
    pub full_path: String,
    pub meta: Option<EntryMeta>,
    pub content: Result<Fingerprint, ReadError>,
    pub children: Vec<Entry>,
}

/// Whether a tree can be built over `e`: every regular file reached through
/// directories was read.
pub open spec fn entry_ok(e: Entry) -> bool
    decreases e,
{
    match type_of(e.meta) {
        FileType::File => e.content is Ok,
        FileType::Dir => forall|i: int|
            0 <= i < e.children.len() ==> entry_ok(#[trigger] e.children[i]),
        FileType::Other => true,
    }
}

/// Whether a regular file reached from `e` through directories, `e` itself
/// included, failed to be read with the message `msg`.
pub open spec fn failed_with(e: Entry, msg: Seq<char>) -> bool
    decreases e,
{
    match type_of(e.meta) {
        FileType::File => e.content is Err && e.content->Err_0.message@ == msg,
        FileType::Dir => exists|i: int|
            0 <= i < e.children.len() && failed_with(#[trigger] e.children[i], msg),
        FileType::Other => false,
    }
}

/// Whether `n` is the tree built over `e`, with relative paths taken against
/// `root`: each node describes its entry, a directory has one child per child
/// entry in the same order, anything else has none, and no cache is filled.
pub open spec fn mirrors(n: Node, e: Entry, root: Seq<char>) -> bool
    decreases e,
{
    &&& describes(n.node_summary, e.full_path@, root, e.meta, content_of(e.content))
    &&& n.file_count is None
    &&& n.dir_count is None
    &&& n.total_size is None
    &&& n.children.len() == if type_of(e.meta) == FileType::Dir {
        e.children.len()
    } else {
        0
    }
    &&& type_of(e.meta) == FileType::Dir ==> forall|i: int|
        0 <= i < e.children.len() ==> mirrors(n.children[i], #[trigger] e.children[i], root)
}

/// One node of the summarized tree: the descriptor of its entry, its
/// children, and the cached totals of its subtree (`None` until asked for).
pub struct Node {
    pub node_summary: NodeSummary,
    pub children: Vec<Node>,
    pub file_count: Option<i64>,
    pub dir_count: Option<i64>,
    pub total_size: Option<i64>,
}

/// A summarized directory tree and the path of its root.
pub struct Summary {
    pub full_dir_path: String,
    pub root_node: Node,
}

/// The three totals that a node folds over its subtree.
#[derive(Debug, Clone, Copy, PartialEq, Eq, Structural)]
pub enum Measure {
    /// Regular files.
    Files,
    /// Directories below the node, the node itself not counted.
    Dirs,
    /// Bytes of regular files.
    Bytes,
}

/// The total of a regular file, which has no subtree.
pub open spec fn own_total(n: Node, m: Measure) -> nat {
    match m {
        Measure::Files => 1,
        Measure::Dirs => 0,
        Measure::Bytes => n.node_summary.file_size as nat,
    }
}

/// What a child adds to its parent's total on top of its own total: one
/// for each directory, when directories are counted.
pub open spec fn own_share(n: Node, m: Measure) -> nat {
    if m == Measure::Dirs && n.node_summary.file_type == FileType::Dir {
        1
    } else {
        0
    }
}

/// The total of measure `m` over the subtree of `n`.
pub open spec fn total(n: Node, m: Measure) -> nat
    decreases n,
{
    if n.node_summary.file_type == FileType::File {
        own_total(n, m)
    } else {
        total_seq(n.children@, m)
    }
}

/// The sum of what each node of `s` adds to its parent's total.
pub open spec fn total_seq(s: Seq<Node>, m: Measure) -> nat
    decreases s,
{
    if s.len() == 0 {
        0
    } else {
        let k = s.len() - 1;
        total_seq(s.subrange(0, k), m) + total(s[k], m) + own_share(s[k], m)
    }
}

/// A total as an `i64`, held at `i64::MAX` where it does not fit.
pub open spec fn capped(x: nat) -> i64 {
    if x <= i64::MAX as nat {
        x as i64
    } else {
        i64::MAX
    }
}

/// The cache that a node keeps for measure `m`.
pub open spec fn cache_of(n: Node, m: Measure) -> Option<i64> {
    match m {
        Measure::Files => n.file_count,
        Measure::Dirs => n.dir_count,
        Measure::Bytes => n.total_size,
    }
}

/// A cache is either empty or holds the capped total of its measure.
pub open spec fn cache_ok(n: Node, m: Measure) -> bool {
    cache_of(n, m) is Some ==> cache_of(n, m)->Some_0 == capped(total(n, m))
}

/// Every cache in the subtree of `n` is empty or right.
pub open spec fn wf(n: Node) -> bool
    decreases n,
{
    &&& cache_ok(n, Measure::Files)
    &&& cache_ok(n, Measure::Dirs)
    &&& cache_ok(n, Measure::Bytes)
    &&& forall|i: int| 0 <= i < n.children.len() ==> wf(#[trigger] n.children[i])
}

/// `a` and `b` hold the same descriptors in the same tree shape; only
/// their caches may differ.
pub open spec fn same_shape(a: Node, b: Node) -> bool
    decreases a,
{
    &&& a.node_summary == b.node_summary
    &&& a.children.len() == b.children.len()
    &&& forall|i: int|
        #![trigger a.children[i]]
        0 <= i < a.children.len() ==> same_shape(a.children[i], b.children[i])
}

/// From `a` to `b`, at every node of the subtree, the caches of the
/// measures other than `m` stay as they were, and a filled cache of `m`
/// keeps its value.
pub open spec fn caches_kept(a: Node, b: Node, m: Measure) -> bool
    decreases a,
{
    &&& m != Measure::Files ==> b.file_count == a.file_count
    &&& m != Measure::Dirs ==> b.dir_count == a.dir_count
    &&& m != Measure::Bytes ==> b.total_size == a.total_size
    &&& cache_of(a, m) is Some ==> cache_of(b, m) == cache_of(a, m)
    &&& a.children.len() == b.children.len()
    &&& forall|i: int|
        #![trigger a.children[i]]
        0 <= i < a.children.len() ==> caches_kept(a.children[i], b.children[i], m)
}

proof fn lemma_caches_kept_refl(a: Node, m: Measure)
    ensures
        caches_kept(a, a, m),
    decreases a,
{
    assert forall|i: int| 0 <= i < a.children.len() implies caches_kept(
        #[trigger] a.children[i],
        a.children[i],
        m,
    ) by {
        lemma_caches_kept_refl(a.children[i], m);
    }
}

proof fn lemma_same_shape_total(a: Node, b: Node, m: Measure)
    requires
        same_shape(a, b),
    ensures
        total(a, m) == total(b, m),
    decreases a,
{
    if a.node_summary.file_type != FileType::File {
        assert forall|i: int| 0 <= i < a.children@.len() implies same_shape(
            a.children@[i],
            b.children@[i],
        ) by {
            assert(same_shape(a.children[i], b.children[i]));
        }
        lemma_same_shape_total_seq(a.children@, b.children@, m);
    }
}

proof fn lemma_same_shape_total_seq(s: Seq<Node>, t: Seq<Node>, m: Measure)
    requires
        s.len() == t.len(),
        forall|i: int| 0 <= i < s.len() ==> #[trigger] same_shape(s[i], t[i]),
    ensures
        total_seq(s, m) == total_seq(t, m),
    decreases s,
{
    if s.len() > 0 {
        let k = s.len() - 1;
        assert(same_shape(s[k], t[k]));
        lemma_same_shape_total_seq(s.subrange(0, k), t.subrange(0, k), m);
        lemma_same_shape_total(s[k], t[k], m);
    }
}

proof fn lemma_same_shape_refl(a: Node)
    ensures
        same_shape(a, a),
    decreases a,
{
    assert forall|i: int| 0 <= i < a.children.len() implies same_shape(
        #[trigger] a.children[i],
        a.children[i],
    ) by {
        lemma_same_shape_refl(a.children[i]);
    }
}

/// The number of regular files in the tree over `e`: those reached from it
/// through directories, itself included.
pub open spec fn entry_files(e: Entry) -> nat
    decreases e,
{
    match type_of(e.meta) {
        FileType::File => 1,
        FileType::Dir => entry_files_seq(e.children@),
        FileType::Other => 0,
    }
}

/// The number of regular files in the trees over the entries of `s`.
pub open spec fn entry_files_seq(s: Seq<Entry>) -> nat
    decreases s,
{
    if s.len() == 0 {
        0
    } else {
        let k = s.len() - 1;
        entry_files_seq(s.subrange(0, k)) + entry_files(s[k])
    }
}

/// The number of directories in the tree over `e`, `e` itself not counted.
pub open spec fn entry_dirs(e: Entry) -> nat
    decreases e,
{
    match type_of(e.meta) {
        FileType::Dir => entry_dirs_seq(e.children@),
        _ => 0,
    }
}

/// The number of directories in the trees over the entries of `s`, each of
/// those entries counted too.
pub open spec fn entry_dirs_seq(s: Seq<Entry>) -> nat
    decreases s,
{
    if s.len() == 0 {
        0
    } else {
        let k = s.len() - 1;
        entry_dirs_seq(s.subrange(0, k)) + entry_dirs(s[k]) + if type_of(s[k].meta)
            == FileType::Dir {
            1nat
        } else {
            0nat
        }
    }
}

/// Queries leave every total as it was: a node whose caches were filled or
/// emptied, with the same descriptors and shape, gives the same totals, none
/// of them negative, so asking again returns the same values.
pub proof fn lemma_queries_repeat(before: Node, after: Node)
    requires
        same_shape(before, after),
    ensures
        forall|m: Measure| #[trigger] total(before, m) == total(after, m),
        forall|m: Measure| #[trigger] capped(total(after, m)) >= 0,
{
    assert forall|m: Measure| #[trigger] total(before, m) == total(after, m) by {
        lemma_same_shape_total(before, after, m);
    }
}

/// A directory whose only child is a regular file holds one file, no
/// directory below it, and the bytes of that file.
pub proof fn lemma_single_file_dir(n: Node)
    requires
        n.node_summary.file_type == FileType::Dir,
        n.children.len() == 1,
        n.children[0].node_summary.file_type == FileType::File,
    ensures
        total(n, Measure::Files) == 1,
        total(n, Measure::Dirs) == 0,
        total(n, Measure::Bytes) == n.children[0].node_summary.file_size,
{
    let s = n.children@;
    assert(s.subrange(0, 0).len() == 0);
    assert(total_seq(s.subrange(0, 0), Measure::Files) == 0);
    assert(total_seq(s.subrange(0, 0), Measure::Dirs) == 0);
    assert(total_seq(s.subrange(0, 0), Measure::Bytes) == 0);
    assert(total(s[0], Measure::Files) == 1);
    assert(total(s[0], Measure::Dirs) == 0);
    assert(total(s[0], Measure::Bytes) == s[0].node_summary.file_size);
    assert(total_seq(s, Measure::Bytes) == s[0].node_summary.file_size);
}

/// The tree built over an entry counts exactly the regular files and the
/// directories of the entry's tree, at every depth.
pub proof fn lemma_build_counts(n: Node, e: Entry, root: Seq<char>)
    requires
        mirrors(n, e, root),
    ensures
        total(n, Measure::Files) == entry_files(e),
        total(n, Measure::Dirs) == entry_dirs(e),
    decreases e,
{
    if type_of(e.meta) == FileType::Dir {
        assert forall|i: int| 0 <= i < e.children@.len() implies mirrors(
            n.children@[i],
            #[trigger] e.children@[i],
            root,
        ) by {
            assert(mirrors(n.children[i], e.children[i], root));
        }
        lemma_build_counts_seq(n.children@, e.children@, root);
    }
}

proof fn lemma_build_counts_seq(ns: Seq<Node>, es: Seq<Entry>, root: Seq<char>)
    requires
        ns.len() == es.len(),
        forall|i: int| 0 <= i < es.len() ==> mirrors(ns[i], #[trigger] es[i], root),
    ensures
        total_seq(ns, Measure::Files) == entry_files_seq(es),
        total_seq(ns, Measure::Dirs) == entry_dirs_seq(es),
    decreases es,
{
    if es.len() > 0 {
        let k = es.len() - 1;
        assert(mirrors(ns[k], es[k], root));
        lemma_build_counts_seq(ns.subrange(0, k), es.subrange(0, k), root);
        lemma_build_counts(ns[k], es[k], root);
    }
}

fn cap_add(a: i64, b: i64) -> (r: i64)
    requires
        a >= 0,
        b >= 0,
    ensures
        r == if a + b <= i64::MAX { a + b } else { i64::MAX as int },
{
    if a > i64::MAX - b {
        i64::MAX
    } else {
        a + b
    }
}

impl Node {
    /// Builds the tree over `entry`, relative paths taken against
    /// `parent_dir`. Children are built for a directory only. Fails where a
    /// regular file in it was not read.
    pub fn new(entry: &Entry, parent_dir: &str) -> (r: Result<Node, ReadError>)
        ensures
            r is Ok <==> entry_ok(*entry),
            r is Ok ==> mirrors(r->Ok_0, *entry, parent_dir@) && wf(r->Ok_0),
            r is Err ==> failed_with(*entry, r->Err_0.message@),
            r is Ok && entry.full_path@ == parent_dir@
                ==> r->Ok_0.node_summary.relative_file_path@.len() == 0,
        decreases entry,
    {
        let node_summary = match get_node_summary(
            entry.full_path.as_str(),
            parent_dir,
            &entry.meta,
            &entry.content,
        ) {
            Ok(s) => s,
            Err(e) => return Err(e),
        };
        let mut children: Vec<Node> = Vec::new();
        if node_summary.file_type == FileType::Dir {
            let n = entry.children.len();
            let mut i: usize = 0;
            while i < n
                invariant
                    n == entry.children.len(),
                    type_of(entry.meta) == FileType::Dir,
                    0 <= i <= n,
                    children.len() == i,
                    forall|j: int|
                        0 <= j < i ==> entry_ok(#[trigger] entry.children[j]) && mirrors(
                            children[j],
                            entry.children[j],
                            parent_dir@,
                        ) && wf(children[j]),
                decreases n - i,
            {
                match Node::new(&entry.children[i], parent_dir) {
                    Ok(c) => children.push(c),
                    Err(e) => {
                        assert(!entry_ok(entry.children[i as int]));
                        assert(failed_with(entry.children[i as int], e.message@));
                        return Err(e);
                    },
                }
                i = i + 1;
            }
        }
        let node = Node {
            node_summary,
            children,
            file_count: None,
            dir_count: None,
            total_size: None,
        };
        proof {
            assert forall|j: int| 0 <= j < node.children.len() implies wf(
                #[trigger] node.children[j],
            ) by {
                assert(entry_ok(entry.children[j]));
            }
        }
        Ok(node)
    }

    /// Empties the three caches of this node; its subtree keeps its own.
    pub fn init_node(&mut self)
        requires
            wf(*old(self)),
        ensures
            wf(*final(self)),
            same_shape(*old(self), *final(self)),
            final(self).node_summary == old(self).node_summary,
            final(self).children == old(self).children,
            final(self).file_count is None,
            final(self).dir_count is None,
            final(self).total_size is None,
    {
        self.file_count = None;
        self.dir_count = None;
        self.total_size = None;
        proof {
            lemma_same_shape_refl(*self);
        }
    }

    /// The number of regular files in this subtree; 1 for a regular file.
    pub fn get_file_count(&mut self) -> (r: i64)
        requires
            wf(*old(self)),
        ensures
            wf(*final(self)),
            same_shape(*old(self), *final(self)),
            forall|k: Measure| #[trigger] total(*final(self), k) == total(*old(self), k),
            r == capped(total(*old(self), Measure::Files)),
            final(self).node_summary.file_type != FileType::File ==> final(self).file_count == Some(r),
            old(self).file_count is Some ==> *final(self) == *old(self),
            caches_kept(*old(self), *final(self), Measure::Files),
    {
        self.fold(Measure::Files)
    }

    /// The number of directories below this node, itself not counted; 0 for
    /// a regular file.
    pub fn get_dir_count(&mut self) -> (r: i64)
        requires
            wf(*old(self)),
        ensures
            wf(*final(self)),
            same_shape(*old(self), *final(self)),
            forall|k: Measure| #[trigger] total(*final(self), k) == total(*old(self), k),
            r == capped(total(*old(self), Measure::Dirs)),
            final(self).node_summary.file_type != FileType::File ==> final(self).dir_count == Some(r),
            old(self).dir_count is Some ==> *final(self) == *old(self),
            caches_kept(*old(self), *final(self), Measure::Dirs),
    {
        self.fold(Measure::Dirs)
    }

    /// The bytes of the regular files in this subtree; its own size for a
    /// regular file.
    pub fn get_total_size(&mut self) -> (r: i64)
        requires
            wf(*old(self)),
        ensures
            wf(*final(self)),
            same_shape(*old(self), *final(self)),
            forall|k: Measure| #[trigger] total(*final(self), k) == total(*old(self), k),
            r == capped(total(*old(self), Measure::Bytes)),
            final(self).node_summary.file_type != FileType::File ==> final(self).total_size == Some(r),
            old(self).total_size is Some ==> *final(self) == *old(self),
            caches_kept(*old(self), *final(self), Measure::Bytes),
    {
        self.fold(Measure::Bytes)
    }

    /// The total of measure `m` over this subtree, taken from the cache
    /// where it is filled and otherwise folded over the children, whose
    /// caches fill on the way, and then cached.
    fn fold(&mut self, m: Measure) -> (r: i64)
        requires
            wf(*old(self)),
        ensures
            wf(*final(self)),
            same_shape(*old(self), *final(self)),
            forall|k: Measure| #[trigger] total(*final(self), k) == total(*old(self), k),
            r == capped(total(*old(self), m)),
            final(self).node_summary.file_type != FileType::File ==> cache_of(*final(self), m)
                == Some(r),
            cache_of(*old(self), m) is Some ==> *final(self) == *old(self),
            caches_kept(*old(self), *final(self), m),
        decreases *old(self),
    {
        if self.node_summary.file_type == FileType::File {
            proof {
                lemma_same_shape_refl(*self);
                lemma_caches_kept_refl(*self, m);
                lemma_queries_repeat(*self, *self);
            }
            return match m {
                Measure::Files => 1,
                Measure::Dirs => 0,
                Measure::Bytes => if self.node_summary.file_size > i64::MAX as u64 {
                    i64::MAX
                } else {
                    self.node_summary.file_size as i64
                },
            };
        }
        let cached = match m {
            Measure::Files => self.file_count,
            Measure::Dirs => self.dir_count,
            Measure::Bytes => self.total_size,
        };
        if let Some(v) = cached {
            proof {
                lemma_same_shape_refl(*self);
                lemma_caches_kept_refl(*self, m);
                lemma_queries_repeat(*self, *self);
            }
            return v;
        }
        let ghost before = *self;
        let mut acc: i64 = 0;
        let n = self.children.len();
        let mut i: usize = 0;
        while i < n
            invariant
                wf(before),
                before == *old(self),
                n == before.children.len(),
                0 <= i <= n,
                self.node_summary == before.node_summary,
                self.children.len() == n,
                self.file_count == before.file_count,
                self.dir_count == before.dir_count,
                self.total_size == before.total_size,
                forall|j: int|
                    0 <= j < i ==> same_shape(before.children[j], #[trigger] self.children[j])
                        && wf(self.children[j]) && caches_kept(
                        before.children[j],
                        self.children[j],
                        m,
                    ),
                forall|j: int| i <= j < n ==> #[trigger] self.children[j] == before.children[j],
                acc == capped(total_seq(before.children@.subrange(0, i as int), m)),
            decreases n - i,
        {
            let ghost child = before.children[i as int];
            assert(decreases_to!(*old(self) => self.children[i as int]));
            let c = self.children[i].fold(m);
            let d = if m == Measure::Dirs && self.children[i].node_summary.file_type
                == FileType::Dir {
                cap_add(c, 1)
            } else {
                c
            };
            acc = cap_add(acc, d);
            proof {
                let s = before.children@.subrange(0, i + 1);
                assert(s.subrange(0, i as int) =~= before.children@.subrange(0, i as int));
                assert(s[i as int] == child);
            }
            i = i + 1;
        }
        proof {
            assert(before.children@.subrange(0, n as int) =~= before.children@);
        }
        match m {
            Measure::Files => self.file_count = Some(acc),
            Measure::Dirs => self.dir_count = Some(acc),
            Measure::Bytes => self.total_size = Some(acc),
        }
        proof {
            assert forall|j: int| 0 <= j < self.children.len() implies same_shape(
                #[trigger] before.children[j],
                self.children[j],
            ) && wf(self.children[j]) && caches_kept(before.children[j], self.children[j], m) by {
                assert(same_shape(before.children[j], self.children[j]));
            }
            assert(same_shape(before, *self));
            assert(caches_kept(before, *self, m));
            lemma_same_shape_total(before, *self, Measure::Files);
            lemma_same_shape_total(before, *self, Measure::Dirs);
            lemma_same_shape_total(before, *self, Measure::Bytes);
            lemma_queries_repeat(before, *self);
        }
        acc
    }
}

impl Summary {
    /// Builds the tree over `root`, every relative path taken against the
    /// root's own path, so that the root's is empty. Fails where a regular
    /// file in it was not read: no partial tree is returned.
    pub fn new(root: &Entry) -> (r: Result<Summary, ReadError>)
        ensures
            r is Ok <==> entry_ok(*root),
            r is Err ==> failed_with(*root, r->Err_0.message@),
            r is Ok ==> {
                &&& r->Ok_0.full_dir_path@ == root.full_path@
                &&& mirrors(r->Ok_0.root_node, *root, root.full_path@)
                &&& wf(r->Ok_0.root_node)
                &&& r->Ok_0.root_node.node_summary.relative_file_path@.len() == 0
            },
    {
        match Node::new(root, root.full_path.as_str()) {
            Ok(root_node) => Ok(Summary { full_dir_path: root.full_path.clone(), root_node }),
            Err(e) => Err(e),
        }
    }

    /// The number of regular files in the tree.
    pub fn get_file_count(&mut self) -> (r: i64)
        requires
            wf(old(self).root_node),
        ensures
            wf(final(self).root_node),
            same_shape(old(self).root_node, final(self).root_node),
            forall|k: Measure|
                #[trigger] total(final(self).root_node, k) == total(old(self).root_node, k),
            final(self).full_dir_path == old(self).full_dir_path,
            r == capped(total(old(self).root_node, Measure::Files)),
            final(self).root_node.node_summary.file_type != FileType::File
                ==> final(self).root_node.file_count == Some(r),
            old(self).root_node.file_count is Some ==> *final(self) == *old(self),
            caches_kept(old(self).root_node, final(self).root_node, Measure::Files),
    {
        self.root_node.get_file_count()
    }

    /// The number of directories in the tree, the root not counted.
    pub fn get_dir_count(&mut self) -> (r: i64)
        requires
            wf(old(self).root_node),
        ensures
            wf(final(self).root_node),
            same_shape(old(self).root_node, final(self).root_node),
            forall|k: Measure|
                #[trigger] total(final(self).root_node, k) == total(old(self).root_node, k),
            final(self).full_dir_path == old(self).full_dir_path,
            r == capped(total(old(self).root_node, Measure::Dirs)),
            final(self).root_node.node_summary.file_type != FileType::File
                ==> final(self).root_node.dir_count == Some(r),
            old(self).root_node.dir_count is Some ==> *final(self) == *old(self),
            caches_kept(old(self).root_node, final(self).root_node, Measure::Dirs),
    {
        self.root_node.get_dir_count()
    }

    /// The bytes of all regular files in the tree.
    pub fn get_total_size(&mut self) -> (r: i64)
        requires
            wf(old(self).root_node),
        ensures
            wf(final(self).root_node),
            same_shape(old(self).root_node, final(self).root_node),
            forall|k: Measure|
                #[trigger] total(final(self).root_node, k) == total(old(self).root_node, k),
            final(self).full_dir_path == old(self).full_dir_path,
            r == capped(total(old(self).root_node, Measure::Bytes)),
            final(self).root_node.node_summary.file_type != FileType::File
                ==> final(self).root_node.total_size == Some(r),
            old(self).root_node.total_size is Some ==> *final(self) == *old(self),
            caches_kept(old(self).root_node, final(self).root_node, Measure::Bytes),
    {
        self.root_node.get_total_size()
    }
}

} // verus!
