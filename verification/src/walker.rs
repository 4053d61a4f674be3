//! The walker: depth-first discovery of artifact directories.
//!
//! The filesystem is modelled as a tree of named nodes, so the traversal
//! itself is plain verified code: a directory holding both a `Cargo.toml`
//! file and a `target` subdirectory is a project root — one record is
//! emitted for its `target` child (provided the sidecar names a package) and
//! nothing below it is visited; any other directory is descended into, child
//! by child, in directory order. A whole lifecycle ends with exactly one
//! `Done` after all `Found` messages.
//!
//! The embedding binary walks the real filesystem in the same shape, feeding
//! directory listings, sidecar text, modification times and sizes through
//! [`is_project_root`], [`make_record`] and [`dir_size`].

use crate::format::bytes_len_to_string_prefix;
use crate::format::spec_format_bytes;
use crate::record::TargetDir;
use crate::record::TargetDirModel;
use crate::sidecar::package_name;
use crate::sidecar::spec_sidecar_name;
use vstd::prelude::*;
use vstd::string::StringExecFns;

verus! {

broadcast use vstd::std_specs::vec::axiom_vec_index_decreases;

/// The UTC `DD/MM/YYYY` rendering of a Unix timestamp (seconds), by the
/// proleptic Gregorian calendar. A function of the timestamp alone.
pub uninterp spec fn date_display(secs: u64) -> Seq<char>;

/// Relies on `chrono::DateTime::<Utc>::from_timestamp` and
/// `format("%d/%m/%Y")`: rendering a timestamp as a UTC calendar date
/// depends on the timestamp alone.
#[verifier::external_body]
fn format_utc_date(secs: u64) -> (r: String)
    ensures
        r@ == date_display(secs),
{
    match chrono::DateTime::<chrono::Utc>::from_timestamp(secs as i64, 0) {
        Some(d) => d.format("%d/%m/%Y").to_string(),
        None => String::new(),
    }
}

/// A named entry of a modelled directory.
pub struct FsEntry {
    pub name: String,
    pub node: FsNode,
}

/// A modelled filesystem node: a file with its byte size and text content,
/// or a directory with its modification time (seconds since the Unix epoch)
/// and children in directory order.
pub enum FsNode {
    File { size: u64, content: String },
    Dir { mtime: u64, entries: Vec<FsEntry> },
}

/// Recursive byte count of a node: file sizes summed over the whole subtree.
pub open spec fn spec_size_of(node: FsNode) -> int
    decreases node,
{
    match node {
        FsNode::File { size, .. } => size as int,
        FsNode::Dir { entries, .. } => spec_size_of_entries(entries@),
    }
}

/// Sum of [`spec_size_of`] over a run of entries.
pub open spec fn spec_size_of_entries(es: Seq<FsEntry>) -> int
    decreases es,
{
    if es.len() == 0 {
        0
    } else {
        spec_size_of(es.first().node) + spec_size_of_entries(es.drop_first())
    }
}

/// A well-formed modelled tree: entry names are nonempty, free of `'/'` and
/// unique within their directory (as on a real filesystem), and every
/// directory's recursive size fits in a `u64`.
pub open spec fn wf_node(node: FsNode) -> bool
    decreases node,
{
    match node {
        FsNode::File { .. } => true,
        FsNode::Dir { entries, .. } => {
            &&& spec_size_of_entries(entries@) <= u64::MAX
            &&& wf_entries(entries@)
            &&& (forall|i: int, j: int|
                0 <= i < j < entries@.len() ==> entries@[i].name@ != entries@[j].name@)
        },
    }
}

/// Every entry of the run is well-formed.
pub open spec fn wf_entries(es: Seq<FsEntry>) -> bool
    decreases es,
{
    es.len() == 0 || (wf_entry(es.first()) && wf_entries(es.drop_first()))
}

/// A usable entry name: nonempty and free of the path separator.
pub open spec fn plain_name(name: Seq<char>) -> bool {
    name.len() > 0 && (forall|i: int| 0 <= i < name.len() ==> name[i] != '/')
}

/// A well-formed entry: see [`wf_node`].
pub open spec fn wf_entry(e: FsEntry) -> bool
    decreases e,
{
    plain_name(e.name@) && wf_node(e.node)
}

/// Each entry of a well-formed run is itself well-formed.
pub proof fn lemma_wf_entries_index(es: Seq<FsEntry>, i: int)
    requires
        wf_entries(es),
        0 <= i < es.len(),
    ensures
        wf_entry(es[i]),
    decreases es,
{
    if i > 0 {
        lemma_wf_entries_index(es.drop_first(), i - 1);
        assert(es.drop_first()[i - 1] == es[i]);
    }
}

/// Sizes are sums of `u64` file sizes, so never negative.
pub proof fn lemma_size_nonneg(node: FsNode)
    ensures
        spec_size_of(node) >= 0,
    decreases node,
{
    match node {
        FsNode::File { .. } => {},
        FsNode::Dir { entries, .. } => {
            lemma_size_nonneg_entries(entries@);
        },
    }
}

/// Sizes of entry runs are never negative.
pub proof fn lemma_size_nonneg_entries(es: Seq<FsEntry>)
    ensures
        spec_size_of_entries(es) >= 0,
    decreases es,
{
    if es.len() > 0 {
        lemma_size_nonneg(es.first().node);
        lemma_size_nonneg_entries(es.drop_first());
    }
}

/// Index of the first file entry with the given name.
pub open spec fn find_file(es: Seq<FsEntry>, name: Seq<char>) -> Option<int>
    decreases es,
{
    if es.len() == 0 {
        None
    } else if es.first().name@ == name && es.first().node is File {
        Some(0)
    } else {
        match find_file(es.drop_first(), name) {
            Some(j) => Some(j + 1),
            None => None,
        }
    }
}

/// Index of the first directory entry with the given name.
pub open spec fn find_dir(es: Seq<FsEntry>, name: Seq<char>) -> Option<int>
    decreases es,
{
    if es.len() == 0 {
        None
    } else if es.first().name@ == name && es.first().node is Dir {
        Some(0)
    } else {
        match find_dir(es.drop_first(), name) {
            Some(j) => Some(j + 1),
            None => None,
        }
    }
}

/// A directory listing marks a project root when it holds both a regular
/// file named exactly `Cargo.toml` and a subdirectory named exactly
/// `target`.
pub open spec fn spec_is_project_root(es: Seq<FsEntry>) -> bool {
    find_file(es, "Cargo.toml"@) is Some && find_dir(es, "target"@) is Some
}

/// `base`, a path separator, then `name`.
pub open spec fn spec_join(base: Seq<char>, name: Seq<char>) -> Seq<char> {
    base + seq!['/'] + name
}

/// The record emitted for a `target` directory at `target_path`, found with
/// package name `name`, modification time `mtime` and recursive size
/// `size_bytes`.
pub open spec fn spec_record(
    target_path: Seq<char>,
    name: Seq<char>,
    mtime: u64,
    size_bytes: u64,
) -> TargetDirModel {
    TargetDirModel {
        path: target_path,
        project_name: name,
        last_modified: date_display(mtime),
        is_deleted: false,
        size: spec_format_bytes(size_bytes),
        size_bytes: size_bytes,
    }
}

/// What a project root with sidecar text `sidecar` contributes: a record,
/// unless the sidecar names no package.
pub open spec fn spec_make(
    sidecar: Seq<char>,
    target_path: Seq<char>,
    mtime: u64,
    size_bytes: u64,
) -> Option<TargetDirModel> {
    match spec_sidecar_name(sidecar) {
        Some(nm) => Some(spec_record(target_path, nm, mtime, size_bytes)),
        None => None,
    }
}

/// One message of the walker's output channel.
pub enum TraverseMsg {
    /// A discovered artifact directory and its recursive byte count.
    Found(TargetDir, u64),
    /// The traversal is complete.
    Done,
}

/// The mathematical content of a [`TraverseMsg`].
pub ghost enum TraverseMsgModel {
    Found(TargetDirModel, u64),
    Done,
}

impl View for TraverseMsg {
    type V = TraverseMsgModel;

    open spec fn view(&self) -> TraverseMsgModel {
        match self {
            TraverseMsg::Found(t, s) => TraverseMsgModel::Found(t@, *s),
            TraverseMsg::Done => TraverseMsgModel::Done,
        }
    }
}

/// The models of a run of messages.
pub open spec fn msgs_model(s: Seq<TraverseMsg>) -> Seq<TraverseMsgModel> {
    s.map_values(|m: TraverseMsg| m@)
}

/// The `Found` messages of a scan rooted at the directory `node`, reached at
/// `path`, in traversal order.
pub open spec fn spec_scan(path: Seq<char>, node: FsNode) -> Seq<TraverseMsgModel>
    decreases node,
{
    match node {
        FsNode::File { .. } => Seq::empty(),
        FsNode::Dir { entries, .. } => {
            let ci = find_file(entries@, "Cargo.toml"@);
            let ti = find_dir(entries@, "target"@);
            if ci is Some && ti is Some {
                let tnode = entries@[ti->0].node;
                let sz = spec_size_of(tnode) as u64;
                match spec_make(
                    (entries@[ci->0].node)->content@,
                    spec_join(path, "target"@),
                    tnode->mtime,
                    sz,
                ) {
                    Some(rec) => seq![TraverseMsgModel::Found(rec, sz)],
                    None => Seq::empty(),
                }
            } else {
                spec_scan_entries(path, entries@)
            }
        },
    }
}

/// The `Found` messages contributed by a run of children of the directory at
/// `path`: directories are descended into in order, files are skipped.
pub open spec fn spec_scan_entries(path: Seq<char>, es: Seq<FsEntry>) -> Seq<TraverseMsgModel>
    decreases es,
{
    if es.len() == 0 {
        Seq::empty()
    } else {
        (if es.first().node is Dir {
            spec_scan(spec_join(path, es.first().name@), es.first().node)
        } else {
            Seq::empty()
        }) + spec_scan_entries(path, es.drop_first())
    }
}

/// A whole walker lifecycle: every discovery, then exactly one `Done`.
pub open spec fn spec_walker(path: Seq<char>, node: FsNode) -> Seq<TraverseMsgModel> {
    spec_scan(path, node) + seq![TraverseMsgModel::Done]
}

/// `base`, a path separator, then `name`.
pub fn join_path(base: &String, name: &str) -> (r: String)
    ensures
        r@ == spec_join(base@, name@),
{
    let mut p = base.clone();
    p.append("/");
    p.append(name);
    proof {
        reveal_strlit("/");
        assert(p@ =~= spec_join(base@, name@));
    }
    p
}

/// Index of the first file entry named `name`, if any.
fn find_file_entry(es: &Vec<FsEntry>, name: &String) -> (r: Option<usize>)
    ensures
        r matches Some(i) ==> {
            &&& find_file(es@, name@) == Some(i as int)
            &&& i < es@.len()
            &&& es@[i as int].name@ == name@
            &&& es@[i as int].node is File
        },
        r is None ==> find_file(es@, name@) is None,
{
    let mut i: usize = 0;
    proof {
        assert(es@.skip(0) =~= es@);
    }
    while i < es.len()
        invariant
            i <= es@.len(),
            find_file(es@, name@) == match find_file(es@.skip(i as int), name@) {
                Some(j) => Some(j + i),
                None => None::<int>,
            },
            forall|j: int| 0 <= j < i ==> !(es@[j].name@ == name@ && es@[j].node is File),
        decreases es@.len() - i,
    {
        let e = &es[i];
        let is_file = match &e.node {
            FsNode::File { .. } => true,
            FsNode::Dir { .. } => false,
        };
        proof {
            let s = es@.skip(i as int);
            assert(s.first() == es@[i as int]);
            assert(s.drop_first() =~= es@.skip(i as int + 1));
        }
        if is_file && e.name == *name {
            return Some(i);
        }
        i = i + 1;
    }
    proof {
        assert(es@.skip(i as int) =~= Seq::<FsEntry>::empty());
    }
    None
}

/// Index of the first directory entry named `name`, if any.
fn find_dir_entry(es: &Vec<FsEntry>, name: &String) -> (r: Option<usize>)
    ensures
        r matches Some(i) ==> {
            &&& find_dir(es@, name@) == Some(i as int)
            &&& i < es@.len()
            &&& es@[i as int].name@ == name@
            &&& es@[i as int].node is Dir
        },
        r is None ==> find_dir(es@, name@) is None,
{
    let mut i: usize = 0;
    proof {
        assert(es@.skip(0) =~= es@);
    }
    while i < es.len()
        invariant
            i <= es@.len(),
            find_dir(es@, name@) == match find_dir(es@.skip(i as int), name@) {
                Some(j) => Some(j + i),
                None => None::<int>,
            },
            forall|j: int| 0 <= j < i ==> !(es@[j].name@ == name@ && es@[j].node is Dir),
        decreases es@.len() - i,
    {
        let e = &es[i];
        let is_dir = match &e.node {
            FsNode::File { .. } => false,
            FsNode::Dir { .. } => true,
        };
        proof {
            let s = es@.skip(i as int);
            assert(s.first() == es@[i as int]);
            assert(s.drop_first() =~= es@.skip(i as int + 1));
        }
        if is_dir && e.name == *name {
            return Some(i);
        }
        i = i + 1;
    }
    proof {
        assert(es@.skip(i as int) =~= Seq::<FsEntry>::empty());
    }
    None
}

/// Whether a directory listing marks a project root.
pub fn is_project_root(es: &Vec<FsEntry>) -> (r: bool)
    ensures
        r == spec_is_project_root(es@),
{
    let cargo = String::from_str("Cargo.toml");
    let target = String::from_str("target");
    let ci = find_file_entry(es, &cargo);
    let ti = find_dir_entry(es, &target);
    ci.is_some() && ti.is_some()
}

/// Recursive byte count of a run of entries.
pub fn dir_size(es: &Vec<FsEntry>) -> (s: u64)
    requires
        spec_size_of_entries(es@) <= u64::MAX,
    ensures
        s == spec_size_of_entries(es@),
    decreases es@,
{
    let mut total: u64 = 0;
    let mut i: usize = 0;
    proof {
        assert(es@.skip(0) =~= es@);
    }
    while i < es.len()
        invariant
            i <= es@.len(),
            spec_size_of_entries(es@) <= u64::MAX,
            total + spec_size_of_entries(es@.skip(i as int)) == spec_size_of_entries(es@),
        decreases es@.len() - i,
    {
        proof {
            let s = es@.skip(i as int);
            assert(s.first() == es@[i as int]);
            assert(s.drop_first() =~= es@.skip(i as int + 1));
            lemma_size_nonneg(es@[i as int].node);
            lemma_size_nonneg_entries(es@.skip(i as int + 1));
        }
        let e = &es[i];
        let child = match &e.node {
            FsNode::File { size, .. } => *size,
            FsNode::Dir { entries, .. } => dir_size(entries),
        };
        total = total + child;
        i = i + 1;
    }
    proof {
        assert(es@.skip(i as int) =~= Seq::<FsEntry>::empty());
    }
    total
}

/// Build the record for a discovered `target` directory from its absolute
/// path, the package name its sidecar gave, its modification time and its
/// recursive size.
pub fn build_record(target_path: String, project_name: String, mtime: u64, size_bytes: u64) -> (t:
    TargetDir)
    ensures
        t@ == spec_record(target_path@, project_name@, mtime, size_bytes),
{
    let size = bytes_len_to_string_prefix(size_bytes);
    TargetDir {
        path: target_path,
        project_name,
        last_modified: format_utc_date(mtime),
        is_deleted: false,
        size,
        size_bytes,
    }
}

/// What a project root contributes, from its sidecar text and its `target`
/// directory's absolute path, modification time and recursive size: a
/// record, unless the sidecar names no package.
pub fn make_record(sidecar: &str, target_path: String, mtime: u64, size_bytes: u64) -> (r: Option<
    TargetDir,
>)
    ensures
        r matches Some(t) ==> t@ == spec_make(sidecar@, target_path@, mtime, size_bytes)->0,
        (r is Some) == (spec_make(sidecar@, target_path@, mtime, size_bytes) is Some),
{
    match package_name(sidecar) {
        Some(nm) => Some(build_record(target_path, nm, mtime, size_bytes)),
        None => None,
    }
}

/// Depth-first scan of `node`, reached at `path`, appending one `Found` per
/// discovered artifact directory, in traversal order.
pub fn scan_node(path: &String, node: &FsNode, out: &mut Vec<TraverseMsg>)
    requires
        wf_node(*node),
    ensures
        msgs_model(final(out)@) == msgs_model(old(out)@) + spec_scan(path@, *node),
    decreases *node,
{
    match node {
        FsNode::File { .. } => {
            proof {
                assert(msgs_model(out@) =~= msgs_model(out@) + spec_scan(path@, *node));
            }
        },
        FsNode::Dir { entries, .. } => {
            let cargo = String::from_str("Cargo.toml");
            let target = String::from_str("target");
            let ci = find_file_entry(entries, &cargo);
            let ti = find_dir_entry(entries, &target);
            match (ci, ti) {
                (Some(c), Some(t)) => {
                    proof {
                        assert((*node)->entries == *entries);
                        lemma_wf_entries_index(entries@, t as int);
                    }
                    let centry = &entries[c];
                    let tentry = &entries[t];
                    let sidecar: &String = match &centry.node {
                        FsNode::File { content, .. } => content,
                        FsNode::Dir { .. } => unreached(),
                    };
                    let (mtime, size_bytes) = match &tentry.node {
                        FsNode::Dir { mtime, entries: tes } => {
                            (*mtime, dir_size(tes))
                        },
                        FsNode::File { .. } => unreached(),
                    };
                    let target_path = join_path(path, "target");
                    match make_record(sidecar.as_str(), target_path, mtime, size_bytes) {
                        Some(rec) => {
                            let ghost pre = out@;
                            out.push(TraverseMsg::Found(rec, size_bytes));
                            proof {
                                assert(msgs_model(out@) =~= msgs_model(pre) + spec_scan(
                                    path@,
                                    *node,
                                ));
                            }
                        },
                        None => {
                            proof {
                                assert(msgs_model(out@) =~= msgs_model(out@) + spec_scan(
                                    path@,
                                    *node,
                                ));
                            }
                        },
                    }
                },
                _ => {
                    let mut i: usize = 0;
                    proof {
                        assert((*node)->entries == *entries);
                        assert(entries@.skip(0) =~= entries@);
                    }
                    while i < entries.len()
                        invariant
                            i <= entries@.len(),
                            wf_node(*node),
                            *node is Dir && (*node)->entries == *entries,
                            !spec_is_project_root(entries@),
                            msgs_model(out@) + spec_scan_entries(path@, entries@.skip(i as int))
                                == msgs_model(old(out)@) + spec_scan_entries(path@, entries@),
                        decreases entries@.len() - i,
                    {
                        proof {
                            let s = entries@.skip(i as int);
                            assert(s.first() == entries@[i as int]);
                            assert(s.drop_first() =~= entries@.skip(i as int + 1));
                            lemma_wf_entries_index(entries@, i as int);
                        }
                        let e = &entries[i];
                        let is_dir = match &e.node {
                            FsNode::File { .. } => false,
                            FsNode::Dir { .. } => true,
                        };
                        if is_dir {
                            let child_path = join_path(path, e.name.as_str());
                            scan_node(&child_path, &e.node, out);
                        }
                        i = i + 1;
                    }
                    proof {
                        assert(entries@.skip(i as int) =~= Seq::<FsEntry>::empty());
                        assert(msgs_model(out@) =~= msgs_model(old(out)@) + spec_scan(
                            path@,
                            *node,
                        ));
                    }
                },
            }
        },
    }
}

/// Run a whole walker lifecycle over a modelled tree rooted at the directory
/// `root`, reached at `root_path`: every discovery in traversal order, then
/// exactly one `Done`.
pub fn walker_messages(root_path: &String, root: &FsNode) -> (msgs: Vec<TraverseMsg>)
    requires
        wf_node(*root),
    ensures
        msgs_model(msgs@) == spec_walker(root_path@, *root),
{
    let mut out: Vec<TraverseMsg> = Vec::new();
    scan_node(root_path, root, &mut out);
    out.push(TraverseMsg::Done);
    proof {
        assert(msgs_model(out@) =~= spec_walker(root_path@, *root));
    }
    out
}

/// Every message of a scan is a `Found`: `Done` is only ever appended by the
/// lifecycle itself.
pub proof fn lemma_scan_all_found(path: Seq<char>, node: FsNode)
    ensures
        forall|i: int|
            0 <= i < spec_scan(path, node).len() ==> spec_scan(path, node)[i] is Found,
    decreases node,
{
    match node {
        FsNode::File { .. } => {},
        FsNode::Dir { entries, .. } => {
            lemma_scan_entries_all_found(path, entries@);
        },
    }
}

/// Every message contributed by a run of children is a `Found`.
pub proof fn lemma_scan_entries_all_found(path: Seq<char>, es: Seq<FsEntry>)
    ensures
        forall|i: int|
            0 <= i < spec_scan_entries(path, es).len() ==> spec_scan_entries(path, es)[i]
                is Found,
    decreases es,
{
    if es.len() > 0 {
        lemma_scan_all_found(spec_join(path, es.first().name@), es.first().node);
        lemma_scan_entries_all_found(path, es.drop_first());
    }
}

/// Exactly one `Done` per walker lifecycle, and it comes after every
/// `Found`.
pub proof fn lemma_walker_done_last(path: Seq<char>, node: FsNode)
    ensures
        spec_walker(path, node).len() > 0,
        spec_walker(path, node).last() == TraverseMsgModel::Done,
        forall|i: int|
            0 <= i < spec_walker(path, node).len() - 1 ==> spec_walker(path, node)[i] is Found,
{
    lemma_scan_all_found(path, node);
}

/// `q` lies strictly inside the directory at `base`: it begins with `base`
/// followed by a path separator.
pub open spec fn under(base: Seq<char>, q: Seq<char>) -> bool {
    q.len() > base.len() && q.subrange(0, base.len() as int) == base && q[base.len() as int]
        == '/'
}

/// The record paths of a run of messages, in order.
pub open spec fn scan_paths(msgs: Seq<TraverseMsgModel>) -> Seq<Seq<char>>
    decreases msgs.len(),
{
    if msgs.len() == 0 {
        Seq::empty()
    } else {
        (match msgs.first() {
            TraverseMsgModel::Found(rec, _) => seq![rec.path],
            TraverseMsgModel::Done => Seq::empty(),
        }) + scan_paths(msgs.drop_first())
    }
}

/// Every path of `ps` lies inside a directory child of the listing `es`,
/// reached from `path`.
pub open spec fn paths_within(path: Seq<char>, es: Seq<FsEntry>, ps: Seq<Seq<char>>) -> bool
    decreases ps.len(),
{
    ps.len() == 0 || ((exists|k: int|
        0 <= k < es.len() && es[k].node is Dir && #[trigger] under(
            spec_join(path, es[k].name@),
            ps.first(),
        )) && paths_within(path, es, ps.drop_first()))
}

/// Each path of a run satisfying [`paths_within`] lies inside some
/// directory child.
proof fn lemma_paths_within_index(path: Seq<char>, es: Seq<FsEntry>, ps: Seq<Seq<char>>, x: int)
    requires
        paths_within(path, es, ps),
        0 <= x < ps.len(),
    ensures
        exists|k: int|
            0 <= k < es.len() && es[k].node is Dir && #[trigger] under(
                spec_join(path, es[k].name@),
                ps[x],
            ),
    decreases ps.len(),
{
    if x > 0 {
        lemma_paths_within_index(path, es, ps.drop_first(), x - 1);
        assert(ps.drop_first()[x - 1] == ps[x]);
    } else {
        assert(ps.first() == ps[0]);
    }
}

/// A run of paths all inside the one directory child `k` satisfies
/// [`paths_within`].
proof fn lemma_paths_within_of_under(
    path: Seq<char>,
    es: Seq<FsEntry>,
    k: int,
    ps: Seq<Seq<char>>,
)
    requires
        0 <= k < es.len(),
        es[k].node is Dir,
        forall|x: int| 0 <= x < ps.len() ==> under(spec_join(path, es[k].name@), #[trigger] ps[x]),
    ensures
        paths_within(path, es, ps),
    decreases ps.len(),
{
    if ps.len() > 0 {
        assert(ps.first() == ps[0]);
        assert(under(spec_join(path, es[k].name@), ps.first()));
        assert(forall|x: int|
            0 <= x < ps.drop_first().len() ==> under(
                spec_join(path, es[k].name@),
                #[trigger] ps.drop_first()[x],
            )) by {
            assert(forall|x: int|
                0 <= x < ps.drop_first().len() ==> #[trigger] ps.drop_first()[x] == ps[x + 1]);
        }
        lemma_paths_within_of_under(path, es, k, ps.drop_first());
    }
}

/// [`paths_within`] over the tail of a listing carries over to the whole
/// listing.
proof fn lemma_paths_within_shift(path: Seq<char>, es: Seq<FsEntry>, ps: Seq<Seq<char>>)
    requires
        es.len() > 0,
        paths_within(path, es.drop_first(), ps),
    ensures
        paths_within(path, es, ps),
    decreases ps.len(),
{
    if ps.len() > 0 {
        let k = choose|k: int|
            0 <= k < es.drop_first().len() && es.drop_first()[k].node is Dir && #[trigger] under(
                spec_join(path, es.drop_first()[k].name@),
                ps.first(),
            );
        assert(es.drop_first()[k] == es[k + 1]);
        assert(under(spec_join(path, es[k + 1].name@), ps.first()));
        lemma_paths_within_shift(path, es, ps.drop_first());
    }
}

/// [`paths_within`] of two runs gives it for their concatenation.
proof fn lemma_paths_within_concat(
    path: Seq<char>,
    es: Seq<FsEntry>,
    a: Seq<Seq<char>>,
    b: Seq<Seq<char>>,
)
    requires
        paths_within(path, es, a),
        paths_within(path, es, b),
    ensures
        paths_within(path, es, a + b),
    decreases a.len(),
{
    if a.len() == 0 {
        assert(a + b =~= b);
    } else {
        assert((a + b).first() == a.first());
        assert((a + b).drop_first() =~= a.drop_first() + b);
        lemma_paths_within_concat(path, es, a.drop_first(), b);
    }
}

/// No two of the paths are equal, and none lies inside another.
pub open spec fn pairwise_separated(ps: Seq<Seq<char>>) -> bool {
    forall|i: int, j: int|
        0 <= i < ps.len() && 0 <= j < ps.len() && i != j ==> #[trigger] ps[i] != #[trigger] ps[j]
            && !under(ps[i], ps[j])
}

/// Shape of a joined path: the base, one separator, then the name.
proof fn lemma_join_index(p: Seq<char>, name: Seq<char>)
    ensures
        spec_join(p, name).len() == p.len() + 1 + name.len(),
        forall|i: int| 0 <= i < p.len() ==> spec_join(p, name)[i] == p[i],
        spec_join(p, name)[p.len() as int] == '/',
        forall|t: int| 0 <= t < name.len() ==> spec_join(p, name)[p.len() + 1 + t] == name[t],
{
}

/// The paths of concatenated runs are the concatenated paths.
proof fn lemma_scan_paths_concat(m1: Seq<TraverseMsgModel>, m2: Seq<TraverseMsgModel>)
    ensures
        scan_paths(m1 + m2) == scan_paths(m1) + scan_paths(m2),
    decreases m1.len(),
{
    if m1.len() == 0 {
        assert(m1 + m2 =~= m2);
        assert(scan_paths(m1) + scan_paths(m2) =~= scan_paths(m2));
    } else {
        assert((m1 + m2).first() == m1.first());
        assert((m1 + m2).drop_first() =~= m1.drop_first() + m2);
        lemma_scan_paths_concat(m1.drop_first(), m2);
        assert(scan_paths(m1 + m2) =~= scan_paths(m1) + scan_paths(m2));
    }
}

/// A path inside a subdirectory is inside the directory too.
proof fn lemma_under_join(p: Seq<char>, name: Seq<char>, q: Seq<char>)
    requires
        under(spec_join(p, name), q),
    ensures
        under(p, q),
{
    lemma_join_index(p, name);
    let ja = spec_join(p, name);
    assert forall|i: int| 0 <= i < ja.len() implies q[i] == ja[i] by {
        assert(q.subrange(0, ja.len() as int)[i] == q[i]);
    }
    assert(q.subrange(0, p.len() as int) =~= p);
}

/// Paths inside two differently named siblings are distinct and neither
/// lies inside the other.
proof fn lemma_sibling_separation(
    p: Seq<char>,
    a: Seq<char>,
    b: Seq<char>,
    q1: Seq<char>,
    q2: Seq<char>,
)
    requires
        plain_name(a),
        plain_name(b),
        a != b,
        under(spec_join(p, a), q1),
        under(spec_join(p, b), q2),
    ensures
        q1 != q2,
        !under(q1, q2),
{
    lemma_join_index(p, a);
    lemma_join_index(p, b);
    let ja = spec_join(p, a);
    let jb = spec_join(p, b);
    let pl = p.len() as int;
    let la = a.len() as int;
    let lb = b.len() as int;
    assert forall|i: int| 0 <= i < ja.len() implies q1[i] == ja[i] by {
        assert(q1.subrange(0, ja.len() as int)[i] == q1[i]);
    }
    assert forall|i: int| 0 <= i < jb.len() implies q2[i] == jb[i] by {
        assert(q2.subrange(0, jb.len() as int)[i] == q2[i]);
    }
    assert(!under(q1, q2) && q1 != q2) by {
        if under(q1, q2) || q1 == q2 {
            // either way q2 begins with q1, so they agree up to q1's length
            assert forall|i: int| 0 <= i < q1.len() implies q2[i] == q1[i] by {
                if under(q1, q2) {
                    assert(q2.subrange(0, q1.len() as int)[i] == q2[i]);
                }
            }
            if la == lb {
                assert(exists|t: int| 0 <= t < la && a[t] != b[t]) by {
                    if forall|t: int| 0 <= t < la ==> a[t] == b[t] {
                        assert(a =~= b);
                    }
                }
                let t = choose|t: int| 0 <= t < la && a[t] != b[t];
                assert(q1[pl + 1 + t] == a[t]);
                assert(q2[pl + 1 + t] == b[t]);
                assert(false);
            } else if la < lb {
                assert(q1[pl + 1 + la] == '/');
                assert(q2[pl + 1 + la] == b[la]);
                assert(b[la] != '/');
                assert(false);
            } else {
                assert(q2[pl + 1 + lb] == '/');
                assert(q1[pl + 1 + lb] == a[lb]);
                assert(a[lb] != '/');
                assert(false);
            }
        }
    }
}

/// Every record of a scan of the directory `node` lies inside it, and the
/// records are pairwise separated: distinct paths, none beneath another.
pub proof fn lemma_scan_separated(path: Seq<char>, node: FsNode)
    requires
        wf_node(node),
    ensures
        forall|x: int|
            0 <= x < scan_paths(spec_scan(path, node)).len() ==> under(
                path,
                #[trigger] scan_paths(spec_scan(path, node))[x],
            ),
        pairwise_separated(scan_paths(spec_scan(path, node))),
    decreases node,
{
    let ps = scan_paths(spec_scan(path, node));
    match node {
        FsNode::File { .. } => {
            assert(ps.len() == 0);
        },
        FsNode::Dir { entries, .. } => {
            let ci = find_file(entries@, "Cargo.toml"@);
            let ti = find_dir(entries@, "target"@);
            if ci is Some && ti is Some {
                let tnode = entries@[ti->0].node;
                let sz = spec_size_of(tnode) as u64;
                match spec_make(
                    (entries@[ci->0].node)->content@,
                    spec_join(path, "target"@),
                    tnode->mtime,
                    sz,
                ) {
                    Some(rec) => {
                        assert(ps =~= seq![spec_join(path, "target"@)]) by {
                            assert(spec_scan(path, node).drop_first()
                                =~= Seq::<TraverseMsgModel>::empty());
                            assert(scan_paths(spec_scan(path, node).drop_first())
                                =~= Seq::<Seq<char>>::empty());
                            assert(seq![spec_join(path, "target"@)]
                                + Seq::<Seq<char>>::empty() =~= seq![
                                spec_join(path, "target"@),
                            ]);
                        }
                        lemma_join_index(path, "target"@);
                        assert(under(path, ps[0])) by {
                            assert(ps[0].subrange(0, path.len() as int) =~= path);
                        }
                    },
                    None => {
                        assert(ps.len() == 0);
                    },
                }
            } else {
                lemma_scan_entries_separated(path, entries@);
                assert(spec_scan(path, node) == spec_scan_entries(path, entries@));
                assert forall|x: int| 0 <= x < ps.len() implies under(path, ps[x]) by {
                    lemma_paths_within_index(path, entries@, ps, x);
                    let k = choose|k: int|
                        0 <= k < entries@.len() && entries@[k].node is Dir && #[trigger] under(
                            spec_join(path, entries@[k].name@),
                            ps[x],
                        );
                    lemma_under_join(path, entries@[k].name@, ps[x]);
                }
            }
        },
    }
}

/// Every record of a run of children lies inside one of the directory
/// children, and the records are pairwise separated.
pub proof fn lemma_scan_entries_separated(path: Seq<char>, es: Seq<FsEntry>)
    requires
        wf_entries(es),
        forall|i: int, j: int| 0 <= i < j < es.len() ==> es[i].name@ != es[j].name@,
    ensures
        paths_within(path, es, scan_paths(spec_scan_entries(path, es))),
        pairwise_separated(scan_paths(spec_scan_entries(path, es))),
    decreases es,
{
    let ps = scan_paths(spec_scan_entries(path, es));
    if es.len() == 0 {
        assert(ps.len() == 0);
    } else {
        lemma_wf_entries_index(es, 0);
        let e0 = es.first();
        let head = if e0.node is Dir {
            spec_scan(spec_join(path, e0.name@), e0.node)
        } else {
            Seq::<TraverseMsgModel>::empty()
        };
        let tail = spec_scan_entries(path, es.drop_first());
        lemma_scan_paths_concat(head, tail);
        let psh = scan_paths(head);
        let pst = scan_paths(tail);
        assert(ps == psh + pst);
        if e0.node is Dir {
            lemma_scan_separated(spec_join(path, e0.name@), e0.node);
            lemma_paths_within_of_under(path, es, 0, psh);
        } else {
            assert(psh.len() == 0);
            assert(paths_within(path, es, psh));
        }
        lemma_scan_entries_separated(path, es.drop_first());
        lemma_paths_within_shift(path, es, pst);
        lemma_paths_within_concat(path, es, psh, pst);
        // pairwise separation
        assert forall|i: int, j: int|
            0 <= i < ps.len() && 0 <= j < ps.len() && i != j implies #[trigger] ps[i]
            != #[trigger] ps[j] && !under(ps[i], ps[j]) by {
            if i < psh.len() && j < psh.len() {
                assert(ps[i] == psh[i] && ps[j] == psh[j]);
            } else if i >= psh.len() && j >= psh.len() {
                assert(ps[i] == pst[i - psh.len()] && ps[j] == pst[j - psh.len()]);
            } else {
                // one from the first child, one from a later child
                let (hx, ty) = if i < psh.len() {
                    (i, j - psh.len())
                } else {
                    (j, i - psh.len())
                };
                assert(psh[hx] == ps[if i < psh.len() { i } else { j }]);
                assert(pst[ty] == ps[if i < psh.len() { j } else { i }]);
                lemma_paths_within_index(path, es.drop_first(), pst, ty);
                let k = choose|k: int|
                    0 <= k < es.drop_first().len() && es.drop_first()[k].node is Dir
                        && #[trigger] under(
                        spec_join(path, es.drop_first()[k].name@),
                        pst[ty],
                    );
                assert(es.drop_first()[k] == es[k + 1]);
                lemma_wf_entries_index(es, 0);
                lemma_wf_entries_index(es, k + 1);
                assert(es[0].name@ != es[k + 1].name@);
                lemma_sibling_separation(
                    path,
                    es[0].name@,
                    es[k + 1].name@,
                    psh[hx],
                    pst[ty],
                );
                lemma_sibling_separation(
                    path,
                    es[k + 1].name@,
                    es[0].name@,
                    pst[ty],
                    psh[hx],
                );
            }
        }
        assert(pairwise_separated(ps));
    }
}

/// Law: over a well-formed tree the walker emits at most one record per
/// project root — no two `Found` messages share a path — and never descends
/// into an emitted `target`: no emitted path lies beneath another.
pub proof fn lemma_walker_no_duplicates(path: Seq<char>, node: FsNode)
    requires
        wf_node(node),
    ensures
        pairwise_separated(scan_paths(spec_scan(path, node))),
{
    lemma_scan_separated(path, node);
}

} // verus!
