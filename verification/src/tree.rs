//! The tree walker: enumerate every descendant of a root directory into a
//! flat list of typed entries, skipping every node whose root-relative path
//! holds a hidden (leading-dot) component, and so never surfacing anything
//! under a hidden directory.

use vstd::prelude::*;
use vstd::string::StringExecFns;

use crate::paths::after_last_slash;
use crate::paths::any_hidden_component;
use crate::paths::ends_with_cur_dir;
use crate::paths::file_name;
use crate::paths::file_name_of;
use crate::paths::has_hidden_component;
use crate::paths::is_parent_dir;
use crate::paths::lemma_after_last_slash_position;
use crate::paths::rel_path_of;
use crate::paths::relative_to;
use crate::paths::trim_trailing;

verus! {

/// One filesystem object surfaced by enumeration: its own name, its path
/// relative to the enumeration root, and `directory` or `file`.
#[derive(Debug, Clone)]
pub struct FileEntry {
    pub name: String,
    pub path: String,
    pub entry_type: String,
}

/// The mathematical value of a `FileEntry`.
pub struct EntryView {
    pub name: Seq<char>,
    pub path: Seq<char>,
    pub entry_type: Seq<char>,
}

impl View for FileEntry {
    type V = EntryView;

    open spec fn view(&self) -> EntryView {
        EntryView { name: self.name@, path: self.path@, entry_type: self.entry_type@ }
    }
}

/// One raw node as the underlying walker yields it: its full path, and
/// whether a filesystem stat called it a directory.
#[derive(Debug, Clone)]
pub struct RawNode {
    pub path: String,
    pub is_dir: bool,
}

/// The mathematical value of a `RawNode`.
pub struct NodeView {
    pub path: Seq<char>,
    pub is_dir: bool,
}

impl View for RawNode {
    type V = NodeView;

    open spec fn view(&self) -> NodeView {
        NodeView { path: self.path@, is_dir: self.is_dir }
    }
}

/// The sequence of node values of a walker's yield.
pub open spec fn node_views(s: Seq<RawNode>) -> Seq<NodeView> {
    s.map_values(|n: RawNode| n@)
}

/// The sequence of entry values of an enumeration's result.
pub open spec fn entry_views(s: Seq<FileEntry>) -> Seq<EntryView> {
    s.map_values(|e: FileEntry| e@)
}

/// A walked node is listed when no component of its root-relative path
/// starts with the hidden marker: a hidden name excludes the node and
/// everything below it.
pub open spec fn listed(root: Seq<char>, n: NodeView) -> bool {
    !any_hidden_component(rel_path_of(root, n.path))
}

/// The entry owed for one walked node.
pub open spec fn entry_view_of(root: Seq<char>, n: NodeView) -> EntryView {
    EntryView {
        name: file_name_of(n.path),
        path: rel_path_of(root, n.path),
        entry_type: if n.is_dir { "directory"@ } else { "file"@ },
    }
}

/// The entries owed for a whole walk: one per listed node, in walk order.
pub open spec fn entries_of(root: Seq<char>, nodes: Seq<NodeView>) -> Seq<EntryView>
    decreases nodes.len(),
{
    if nodes.len() == 0 {
        Seq::<EntryView>::empty()
    } else {
        let rest = entries_of(root, nodes.drop_last());
        if listed(root, nodes.last()) {
            rest.push(entry_view_of(root, nodes.last()))
        } else {
            rest
        }
    }
}

/// What the walker guarantees of every path it yields: it strictly extends
/// the root, what remains after the root is a well-delimited subpath, and
/// the path's file name lies wholly inside that subpath.
pub open spec fn below_root(root: Seq<char>, p: Seq<char>) -> bool {
    let rel = rel_path_of(root, p);
    &&& p.len() > root.len()
    &&& p.subrange(0, root.len() as int) == root
    &&& rel.len() > 0
    &&& rel[0] != '/'
    &&& rel.last() != '/'
    &&& file_name_of(p) == file_name_of(rel)
}

/// A well-formed enumeration entry: a real kind, a non-hidden name that is
/// the trailing component of its relative path, and a relative path that
/// does not start with the separator.
pub open spec fn entry_wf(e: EntryView) -> bool {
    &&& e.entry_type == "directory"@ || e.entry_type == "file"@
    &&& e.name.len() > 0
    &&& e.name[0] != '.'
    &&& e.name == file_name_of(e.path)
    &&& e.path.len() > 0
    &&& e.path[0] != '/'
}

/// The error text reported for a root that does not exist.
pub open spec fn missing_message(root: Seq<char>) -> Seq<char> {
    "Path does not exist: "@ + root
}

/// The entry made for a listed node of a well-behaved walk is well-formed.
proof fn lemma_listed_entry_wf(root: Seq<char>, n: NodeView)
    requires
        below_root(root, n.path),
        listed(root, n),
    ensures
        entry_wf(entry_view_of(root, n)),
{
    let rel = rel_path_of(root, n.path);
    if ends_with_cur_dir(rel) {
        assert(any_hidden_component(rel)) by {
            assert((rel.len() - 1 == 0 || rel[rel.len() - 2] == '/') && rel[rel.len() - 1]
                == '.');
        }
    }
    assert(trim_trailing(rel) == rel);
    let name = after_last_slash(rel);
    assert(name.len() > 0);
    lemma_after_last_slash_position(rel);
    let k = rel.len() - name.len();
    assert(name[0] == rel.subrange(k as int, rel.len() as int)[0]);
    if name[0] == '.' {
        assert(any_hidden_component(rel)) by {
            assert((k == 0 || rel[k - 1] == '/') && rel[k as int] == '.');
        }
    }
    assert(!is_parent_dir(name));
    assert(file_name_of(rel) == name);
}

/// Turns a walker's yield into the owed entries: every node whose relative
/// path has no hidden component becomes one entry, in order; and when every
/// yielded path sits below the root as `below_root` states, every entry is
/// well-formed.
pub fn entries_from_nodes(root: &str, nodes: &Vec<RawNode>) -> (r: Vec<FileEntry>)
    ensures
        entry_views(r@) == entries_of(root@, node_views(nodes@)),
        (forall|k: int|
            0 <= k < nodes@.len() ==> below_root(root@, (#[trigger] nodes@[k])@.path))
            ==> (forall|i: int| 0 <= i < r@.len() ==> entry_wf((#[trigger] r@[i])@)),
{
    let mut out: Vec<FileEntry> = Vec::new();
    let mut i: usize = 0;
    while i < nodes.len()
        invariant
            i <= nodes@.len(),
            entry_views(out@) == entries_of(root@, node_views(nodes@.subrange(0, i as int))),
            (forall|k: int|
                0 <= k < nodes@.len() ==> below_root(root@, (#[trigger] nodes@[k])@.path))
                ==> (forall|j: int| 0 <= j < out@.len() ==> entry_wf((#[trigger] out@[j])@)),
        decreases nodes@.len() - i,
    {
        let n = &nodes[i];
        let ghost pre = nodes@.subrange(0, i as int);
        let ghost nv = nodes@[i as int]@;
        let rel = relative_to(root, n.path.as_str());
        if !has_hidden_component(rel.as_str()) {
            let nm = file_name(n.path.as_str());
            let et = if n.is_dir {
                String::from_str("directory")
            } else {
                String::from_str("file")
            };
            let ghost old_out = out@;
            let e = FileEntry { name: nm, path: rel, entry_type: et };
            out.push(e);
            proof {
                assert(e@ == entry_view_of(root@, nv));
                assert(entry_views(out@) =~= entry_views(old_out).push(e@));
                if forall|k: int|
                    0 <= k < nodes@.len() ==> below_root(root@, (#[trigger] nodes@[k])@.path) {
                    assert(below_root(root@, nv.path));
                    lemma_listed_entry_wf(root@, nv);
                }
            }
        }
        proof {
            let post = nodes@.subrange(0, i + 1);
            assert(post.drop_last() =~= pre);
            assert(post.last() == nodes@[i as int]);
            assert(node_views(post).drop_last() =~= node_views(pre));
            assert(node_views(post).last() == nv);
            assert(node_views(post).len() > 0);
        }
        i += 1;
    }
    proof {
        assert(nodes@.subrange(0, nodes@.len() as int) =~= nodes@);
    }
    out
}

/// Relies on `walkdir::WalkDir` with a minimum depth of one: a recursive,
/// best-effort walk strictly below `root`. Every yielded entry's path is the
/// root joined with the entry's chain of parent names, so it extends the
/// root and ends with the entry's own name. Nothing is promised of the
/// paths beyond that: the walk hands names through a lossy UTF-8 decoding,
/// which can collapse two byte-distinct names into one string. Nodes that
/// cannot be read are skipped rather than failing the walk. Whether each
/// node is a directory comes from a fresh stat of its path, of which
/// nothing is promised.
#[verifier::external_body]
fn walk_below(root: &str) -> (nodes: Vec<RawNode>)
    ensures
        forall|i: int|
            0 <= i < nodes@.len() ==> below_root(root@, (#[trigger] nodes@[i])@.path),
{
    let mut v = Vec::new();
    for entry in walkdir::WalkDir::new(root).min_depth(1) {
        if let Ok(e) = entry {
            let is_dir = e.path().is_dir();
            let path = e.path().to_string_lossy().into_owned();
            v.push(RawNode { path, is_dir });
        }
    }
    v
}

/// Relies on std's `Path::exists`: a filesystem probe; nothing is promised
/// of its answer.
#[verifier::external_body]
fn path_exists(p: &str) -> (r: bool) {
    std::path::Path::new(p).exists()
}

/// Enumerates the directory tree below `root`. A root that the probe calls
/// missing is rejected with the descriptive message; otherwise the walker's
/// yield is turned into entries by `entries_from_nodes`, so every returned
/// entry is well-formed: typed `directory` or `file`, named by the trailing
/// component of its root-relative path, with no hidden component surfaced.
pub fn list_tree(root: &str) -> (r: Result<Vec<FileEntry>, String>)
    ensures
        r matches Err(m) ==> m@ == missing_message(root@),
        r matches Ok(es) ==> forall|i: int| 0 <= i < es@.len() ==> entry_wf((#[trigger] es@[i])@),
        r matches Ok(es) ==> exists|nodes: Seq<NodeView>|
            #[trigger] entries_of(root@, nodes) == entry_views(es@) && (forall|k: int|
                0 <= k < nodes.len() ==> below_root(root@, (#[trigger] nodes[k]).path)),
{
    if !path_exists(root) {
        let mut m = String::from_str("Path does not exist: ");
        m.append(root);
        return Err(m);
    }
    let nodes = walk_below(root);
    let entries = entries_from_nodes(root, &nodes);
    proof {
        let walked = node_views(nodes@);
        assert(entries_of(root@, walked) == entry_views(entries@) && (forall|k: int|
            0 <= k < walked.len() ==> below_root(root@, (#[trigger] walked[k]).path)));
    }
    Ok(entries)
}

} // verus!
