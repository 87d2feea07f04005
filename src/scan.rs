use vstd::prelude::*;

verus! {

/// What the filesystem reports of a node itself, without following a link.
#[derive(Clone, Copy, Debug, PartialEq, Eq, Structural)]
pub enum NodeKind {
    Regular,
    Symlink,
    Directory,
}

/// One node that a walk of the scan root reported.
#[derive(Debug)]
pub struct Node {
    pub path: String,
    pub kind: NodeKind,
}

/// The class of a node under a scan root.
#[derive(Clone, Copy, Debug, PartialEq, Eq, Structural)]
pub enum EntryClass {
    /// A regular file: it is to be offloaded.
    PlainFile,
    /// A symbolic link, whatever it points to: its copy is to be restored.
    LinkedFile,
    Directory,
    /// The scan root itself.
    Root,
}

pub open spec fn class_of(root: Seq<char>, path: Seq<char>, kind: NodeKind) -> EntryClass {
    if path == root {
        EntryClass::Root
    } else {
        match kind {
            NodeKind::Regular => EntryClass::PlainFile,
            NodeKind::Symlink => EntryClass::LinkedFile,
            NodeKind::Directory => EntryClass::Directory,
        }
    }
}

/// The paths of the nodes of class `c`, in the order the walk gave them.
pub open spec fn paths_of_class(root: Seq<char>, nodes: Seq<Node>, c: EntryClass) -> Seq<
    Seq<char>,
>
    decreases nodes.len(),
{
    if nodes.len() == 0 {
        seq![]
    } else {
        let rest = paths_of_class(root, nodes.drop_last(), c);
        let n = nodes.last();
        if class_of(root, n.path@, n.kind) == c {
            rest.push(n.path@)
        } else {
            rest
        }
    }
}

/// What a scan of `root` yields for class `c`: nothing when `root` is not a
/// directory.
pub open spec fn scanned(root: Seq<char>, root_is_dir: bool, nodes: Seq<Node>, c: EntryClass) -> Seq<
    Seq<char>,
> {
    if root_is_dir {
        paths_of_class(root, nodes, c)
    } else {
        seq![]
    }
}

pub open spec fn paths_view(v: Seq<String>) -> Seq<Seq<char>> {
    v.map_values(|s: String| s@)
}

/// The class of `node` under the scan root `root`.
pub fn classify(root: &String, node: &Node) -> (c: EntryClass)
    ensures
        c == class_of(root@, node.path@, node.kind),
{
    if node.path == *root {
        EntryClass::Root
    } else {
        match node.kind {
            NodeKind::Regular => EntryClass::PlainFile,
            NodeKind::Symlink => EntryClass::LinkedFile,
            NodeKind::Directory => EntryClass::Directory,
        }
    }
}

fn collect_class(root: &String, root_is_dir: bool, nodes: &Vec<Node>, c: EntryClass) -> (r: Vec<
    String,
>)
    ensures
        paths_view(r@) == scanned(root@, root_is_dir, nodes@, c),
{
    let mut out: Vec<String> = Vec::new();
    if !root_is_dir {
        assert(paths_view(out@) =~= seq![]);
        return out;
    }
    let mut i: usize = 0;
    while i < nodes.len()
        invariant
            i <= nodes.len(),
            paths_view(out@) == paths_of_class(root@, nodes@.take(i as int), c),
        decreases nodes.len() - i,
    {
        let node = &nodes[i];
        assert(nodes@.take(i as int + 1).drop_last() =~= nodes@.take(i as int));
        if classify(root, node) == c {
            out.push(node.path.clone());
            assert(paths_view(out@) =~= paths_view(out@).drop_last().push(node.path@));
        }
        i = i + 1;
    }
    assert(nodes@.take(nodes.len() as int) =~= nodes@);
    out
}

/// The regular files under `root`, found among the `nodes` that a walk of
/// `root` reported; empty when `root` is not a directory.
pub fn get_files_at_path(root: &String, root_is_dir: bool, nodes: &Vec<Node>) -> (r: Vec<String>)
    ensures
        paths_view(r@) == scanned(root@, root_is_dir, nodes@, EntryClass::PlainFile),
{
    collect_class(root, root_is_dir, nodes, EntryClass::PlainFile)
}

/// The symbolic links under `root`, found among the `nodes` that a walk of
/// `root` reported; empty when `root` is not a directory.
pub fn get_links_at_path(root: &String, root_is_dir: bool, nodes: &Vec<Node>) -> (r: Vec<String>)
    ensures
        paths_view(r@) == scanned(root@, root_is_dir, nodes@, EntryClass::LinkedFile),
{
    collect_class(root, root_is_dir, nodes, EntryClass::LinkedFile)
}

/// The nodes that a walk reported which fall in class `c`.
pub open spec fn nodes_of_class(root: Seq<char>, nodes: Seq<Node>, c: EntryClass) -> Seq<Node> {
    nodes.filter(|n: Node| class_of(root, n.path@, n.kind) == c)
}

/// The paths of class `c` are exactly the paths of the nodes of that class,
/// one for each such node.
pub proof fn lemma_paths_of_class(root: Seq<char>, nodes: Seq<Node>, c: EntryClass)
    ensures
        paths_of_class(root, nodes, c).len() == nodes_of_class(root, nodes, c).len(),
        forall|p: Seq<char>|
            paths_of_class(root, nodes, c).contains(p) <==> exists|i: int|
                0 <= i < nodes.len() && (#[trigger] nodes[i]).path@ == p && class_of(
                    root,
                    p,
                    nodes[i].kind,
                ) == c,
    decreases nodes.len(),
{
    let pred = |n: Node| class_of(root, n.path@, n.kind) == c;
    if nodes.len() == 0 {
        reveal(Seq::filter);
    } else {
        let init = nodes.drop_last();
        lemma_paths_of_class(root, init, c);
        assert(init.push(nodes.last()) =~= nodes);
        init.lemma_filter_push(nodes.last(), pred);
        let ps = paths_of_class(root, nodes, c);
        assert forall|p: Seq<char>|
            ps.contains(p) <==> exists|i: int|
                0 <= i < nodes.len() && (#[trigger] nodes[i]).path@ == p && class_of(
                    root,
                    p,
                    nodes[i].kind,
                ) == c by {
            let rest = paths_of_class(root, init, c);
            if ps.contains(p) {
                if rest.contains(p) {
                    let i = choose|i: int|
                        0 <= i < init.len() && (#[trigger] init[i]).path@ == p && class_of(
                            root,
                            p,
                            init[i].kind,
                        ) == c;
                    assert(nodes[i] == init[i]);
                    assert(0 <= i < nodes.len() && nodes[i].path@ == p && class_of(
                        root,
                        p,
                        nodes[i].kind,
                    ) == c);
                } else {
                    let j = choose|j: int| 0 <= j < ps.len() && ps[j] == p;
                    if j < rest.len() {
                        assert(rest[j] == p);
                    }
                    let k = nodes.len() - 1;
                    assert(nodes[k] == nodes.last());
                    assert(0 <= k < nodes.len() && nodes[k].path@ == p && class_of(
                        root,
                        p,
                        nodes[k].kind,
                    ) == c);
                }
            }
            if exists|i: int|
                0 <= i < nodes.len() && (#[trigger] nodes[i]).path@ == p && class_of(
                    root,
                    p,
                    nodes[i].kind,
                ) == c {
                let i = choose|i: int|
                    0 <= i < nodes.len() && (#[trigger] nodes[i]).path@ == p && class_of(
                        root,
                        p,
                        nodes[i].kind,
                    ) == c;
                if i < nodes.len() - 1 {
                    assert(init[i] == nodes[i]);
                    assert(0 <= i < init.len() && init[i].path@ == p && class_of(
                        root,
                        p,
                        init[i].kind,
                    ) == c);
                    assert(rest.contains(p));
                    let j = choose|j: int| 0 <= j < rest.len() && rest[j] == p;
                    assert(ps[j] == p);
                } else {
                    assert(ps[ps.len() - 1] == p);
                }
            }
        }
    }
}

/// No path is reported twice by the walk.
pub open spec fn distinct_paths(nodes: Seq<Node>) -> bool {
    forall|i: int, j: int|
        0 <= i < nodes.len() && 0 <= j < nodes.len() && i != j ==> (#[trigger] nodes[i]).path@
            != (#[trigger] nodes[j]).path@
}

/// A walk that reports each path once gives lists without a repeated path.
pub proof fn lemma_paths_of_class_unique(root: Seq<char>, nodes: Seq<Node>, c: EntryClass)
    requires
        distinct_paths(nodes),
    ensures
        paths_of_class(root, nodes, c).no_duplicates(),
    decreases nodes.len(),
{
    if nodes.len() > 0 {
        let init = nodes.drop_last();
        assert(distinct_paths(init)) by {
            assert forall|i: int, j: int|
                0 <= i < init.len() && 0 <= j < init.len() && i != j implies (#[trigger] init[i]).path@
                    != (#[trigger] init[j]).path@ by {
                assert(init[i] == nodes[i] && init[j] == nodes[j]);
            }
        }
        lemma_paths_of_class_unique(root, init, c);
        lemma_paths_of_class(root, init, c);
        let last = nodes[nodes.len() - 1];
        assert(last == nodes.last());
        if paths_of_class(root, init, c).contains(last.path@) {
            let i = choose|i: int|
                0 <= i < init.len() && (#[trigger] init[i]).path@ == last.path@ && class_of(
                    root,
                    last.path@,
                    init[i].kind,
                ) == c;
            assert(nodes[i] == init[i]);
        }
    }
}

proof fn lemma_classes_partition(root: Seq<char>, nodes: Seq<Node>)
    ensures
        paths_of_class(root, nodes, EntryClass::PlainFile).len() + paths_of_class(
            root,
            nodes,
            EntryClass::LinkedFile,
        ).len() + paths_of_class(root, nodes, EntryClass::Directory).len() + paths_of_class(
            root,
            nodes,
            EntryClass::Root,
        ).len() == nodes.len(),
    decreases nodes.len(),
{
    if nodes.len() > 0 {
        lemma_classes_partition(root, nodes.drop_last());
    }
}

/// Classification is exact at any depth: a scan of a directory yields one
/// plain path for each regular file and one link path for each symbolic link
/// that the walk reported, every node but the root lands in exactly one class,
/// and the root itself is in neither list.
pub proof fn lemma_scan_classification(root: Seq<char>, nodes: Seq<Node>)
    ensures
        scanned(root, true, nodes, EntryClass::PlainFile).len() == nodes.filter(
            |n: Node| n.kind == NodeKind::Regular && n.path@ != root,
        ).len(),
        scanned(root, true, nodes, EntryClass::LinkedFile).len() == nodes.filter(
            |n: Node| n.kind == NodeKind::Symlink && n.path@ != root,
        ).len(),
        forall|p: Seq<char>|
            scanned(root, true, nodes, EntryClass::PlainFile).contains(p) <==> p != root
                && exists|i: int|
                0 <= i < nodes.len() && (#[trigger] nodes[i]).path@ == p && nodes[i].kind
                    == NodeKind::Regular,
        forall|p: Seq<char>|
            scanned(root, true, nodes, EntryClass::LinkedFile).contains(p) <==> p != root
                && exists|i: int|
                0 <= i < nodes.len() && (#[trigger] nodes[i]).path@ == p && nodes[i].kind
                    == NodeKind::Symlink,
        scanned(root, true, nodes, EntryClass::PlainFile).len() + scanned(
            root,
            true,
            nodes,
            EntryClass::LinkedFile,
        ).len() + paths_of_class(root, nodes, EntryClass::Directory).len() + paths_of_class(
            root,
            nodes,
            EntryClass::Root,
        ).len() == nodes.len(),
{
    lemma_paths_of_class(root, nodes, EntryClass::PlainFile);
    lemma_paths_of_class(root, nodes, EntryClass::LinkedFile);
    lemma_classes_partition(root, nodes);
    assert((|n: Node| n.kind == NodeKind::Regular && n.path@ != root) =~= (|n: Node|
        class_of(root, n.path@, n.kind) == EntryClass::PlainFile));
    assert((|n: Node| n.kind == NodeKind::Symlink && n.path@ != root) =~= (|n: Node|
        class_of(root, n.path@, n.kind) == EntryClass::LinkedFile));
}

/// A scan of anything but a directory yields two empty lists.
pub proof fn lemma_scan_non_directory(root: Seq<char>, nodes: Seq<Node>)
    ensures
        scanned(root, false, nodes, EntryClass::PlainFile) == Seq::<Seq<char>>::empty(),
        scanned(root, false, nodes, EntryClass::LinkedFile) == Seq::<Seq<char>>::empty(),
{
}

} // verus!
