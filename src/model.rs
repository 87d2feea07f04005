use vstd::prelude::*;
use crate::action::{ActionView, EventView, Outcome};
use crate::escrow::{escaped, lemma_escaped_without_newline, NEWLINE};
use crate::key::{file_key_spec, is_key_text, join_spec};
use crate::offload::{offload_start, offload_step, OffloadView};
use crate::scan::{
    distinct_paths, lemma_paths_of_class, lemma_paths_of_class_unique, scanned, EntryClass, Node,
    NodeKind,
};
use crate::sweep::{sweep_plan, JobKind};
use crate::restore::{restore_start, restore_step, RestoreView};

verus! {

/// A node of the modelled filesystem.
pub enum FsEntry {
    File(Seq<u8>),
    Link(Seq<char>),
    Dir,
}

/// The filesystem by path, and the escrow store by key.
pub struct World {
    pub fs: Map<Seq<char>, FsEntry>,
    pub store: Map<Seq<char>, Seq<u8>>,
}

pub open spec fn is_dir_at(w: World, p: Seq<char>) -> bool {
    w.fs.contains_key(p) && w.fs[p] is Dir
}

/// The kind of a node, as seen without following a link.
pub open spec fn kind_of(e: FsEntry) -> NodeKind {
    match e {
        FsEntry::File(_) => NodeKind::Regular,
        FsEntry::Link(_) => NodeKind::Symlink,
        FsEntry::Dir => NodeKind::Directory,
    }
}

/// Most links that opening a path follows before it gives up.
pub open spec fn max_link_hops() -> nat {
    40
}

/// The content reached by opening `p`, following links for at most `hops`
/// of them.
pub open spec fn resolve(fs: Map<Seq<char>, FsEntry>, p: Seq<char>, hops: nat) -> Option<Seq<u8>>
    decreases hops,
{
    if !fs.contains_key(p) {
        None
    } else {
        match fs[p] {
            FsEntry::File(c) => Some(c),
            FsEntry::Link(t) => if hops == 0 {
                None
            } else {
                resolve(fs, t, (hops - 1) as nat)
            },
            FsEntry::Dir => None,
        }
    }
}

/// Performs `a` on `w` as the filesystem and the store behave: an
/// inspection sees the node itself, a read follows links to a file, a rename
/// moves any node (a link too) onto anything but a directory, a link or a
/// write needs its path free of a node or of a directory, and a fetch finds
/// what was escrowed.
pub open spec fn perform(w: World, a: ActionView) -> (World, EventView) {
    match a {
        ActionView::Inspect(p) => if w.fs.contains_key(p) {
            (w, EventView::Kind(kind_of(w.fs[p])))
        } else {
            (w, EventView::Failed)
        },
        ActionView::ReadFile(p) => match resolve(w.fs, p, max_link_hops()) {
            Some(c) => (w, EventView::Data(c)),
            None => (w, EventView::Failed),
        },
        ActionView::Escrow(k, c) => (World { store: w.store.insert(k, c), ..w }, EventView::Done),
        ActionView::CreateDirAll(p) => if !w.fs.contains_key(p) {
            (World { fs: w.fs.insert(p, FsEntry::Dir), ..w }, EventView::Done)
        } else if w.fs[p] is Dir {
            (w, EventView::Done)
        } else {
            (w, EventView::Failed)
        },
        ActionView::Rename(from, to) => if w.fs.contains_key(from) && !is_dir_at(w, to) {
            (World { fs: w.fs.remove(from).insert(to, w.fs[from]), ..w }, EventView::Done)
        } else {
            (w, EventView::Failed)
        },
        ActionView::Symlink(t, l) => if !w.fs.contains_key(l) {
            (World { fs: w.fs.insert(l, FsEntry::Link(t)), ..w }, EventView::Done)
        } else {
            (w, EventView::Failed)
        },
        ActionView::Fetch(k) => if w.store.contains_key(k) {
            (w, EventView::Data(w.store[k]))
        } else {
            (w, EventView::Failed)
        },
        ActionView::WriteFile(p, c) => if !is_dir_at(w, p) {
            (World { fs: w.fs.insert(p, FsEntry::File(c)), ..w }, EventView::Done)
        } else {
            (w, EventView::Failed)
        },
        ActionView::Finish(_) => (w, EventView::Done),
    }
}

/// Runs an offload from state `m` with pending action `a` for at most
/// `fuel` actions; the outcome is that of its `Finish`, if it got there.
pub open spec fn run_offload(w: World, m: OffloadView, a: ActionView, fuel: nat) -> (
    World,
    Option<Outcome>,
)
    decreases fuel,
{
    match a {
        ActionView::Finish(o) => (w, Some(o)),
        _ => if fuel == 0 {
            (w, None)
        } else {
            let (w2, e) = perform(w, a);
            let (m2, a2) = offload_step(m, e);
            run_offload(w2, m2, a2, (fuel - 1) as nat)
        },
    }
}

/// Runs a restore as `run_offload` runs an offload.
pub open spec fn run_restore(w: World, m: RestoreView, a: ActionView, fuel: nat) -> (
    World,
    Option<Outcome>,
)
    decreases fuel,
{
    match a {
        ActionView::Finish(o) => (w, Some(o)),
        _ => if fuel == 0 {
            (w, None)
        } else {
            let (w2, e) = perform(w, a);
            let (m2, a2) = restore_step(m, e);
            run_restore(w2, m2, a2, (fuel - 1) as nat)
        },
    }
}

/// More actions than either machine ever asks for.
pub open spec fn enough_steps() -> nat {
    8
}

/// The world after the whole offload of `source` into `destination`.
pub open spec fn offloaded(w: World, source: Seq<char>, destination: Seq<char>) -> (
    World,
    Option<Outcome>,
) {
    run_offload(
        w,
        offload_start(source, destination),
        ActionView::Inspect(source),
        enough_steps(),
    )
}

/// The world after the whole restore for the link at `link` into `destination`.
pub open spec fn restored(w: World, link: Seq<char>, destination: Seq<char>) -> (
    World,
    Option<Outcome>,
) {
    run_restore(
        w,
        restore_start(link, destination),
        ActionView::Fetch(file_key_spec(link)),
        enough_steps(),
    )
}

proof fn lemma_join_longer(dir: Seq<char>, name: Seq<char>)
    requires
        name.len() > 0,
    ensures
        join_spec(dir, name) != dir,
{
    assert(join_spec(dir, name).len() > dir.len());
}

/// Offload round trip: once the plain file at `source`, holding `content`,
/// is offloaded into `destination` (absent or a directory), `source` is a
/// link to the relocated path named by its key, the relocated path holds
/// `content`, and escrow holds `content` (escaped) under that same key.
pub proof fn lemma_offload_round_trip(
    w: World,
    source: Seq<char>,
    destination: Seq<char>,
    content: Seq<u8>,
)
    requires
        w.fs.contains_key(source),
        w.fs[source] == FsEntry::File(content),
        !w.fs.contains_key(destination) || w.fs[destination] is Dir,
        !is_dir_at(w, join_spec(destination, file_key_spec(source))),
        is_key_text(file_key_spec(source)),
        source != join_spec(destination, file_key_spec(source)),
    ensures
        ({
            let key = file_key_spec(source);
            let target = join_spec(destination, key);
            let (w2, outcome) = offloaded(w, source, destination);
            &&& outcome == Some(Outcome::Offloaded)
            &&& w2.fs.contains_key(source) && w2.fs[source] == FsEntry::Link(target)
            &&& w2.fs.contains_key(target) && w2.fs[target] == FsEntry::File(content)
            &&& w2.store.contains_key(key) && w2.store[key] == escaped(content)
            &&& !content.contains(NEWLINE) ==> w2.store[key] == content
            &&& is_dir_at(w2, destination)
        }),
{
    let key = file_key_spec(source);
    let target = join_spec(destination, key);
    lemma_join_longer(destination, key);
    if !content.contains(NEWLINE) {
        lemma_escaped_without_newline(content);
    }
    let mi = offload_start(source, destination);
    let ai = ActionView::Inspect(source);
    let (wi, ei) = perform(w, ai);
    assert(ei == EventView::Kind(NodeKind::Regular));
    let (m0, a0) = offload_step(mi, ei);
    assert(a0 == ActionView::ReadFile(source));
    let (w1, e1) = perform(wi, a0);
    assert(e1 == EventView::Data(content));
    let (m1, a1) = offload_step(m0, e1);
    let (w2, e2) = perform(w1, a1);
    let (m2, a2) = offload_step(m1, e2);
    assert(a2 == ActionView::CreateDirAll(destination));
    let (w3, e3) = perform(w2, a2);
    assert(e3 == EventView::Done);
    let (m3, a3) = offload_step(m2, e3);
    assert(a3 == ActionView::Rename(source, target));
    assert(w3.fs.contains_key(source));
    let (w4, e4) = perform(w3, a3);
    assert(e4 == EventView::Done);
    let (m4, a4) = offload_step(m3, e4);
    assert(a4 == ActionView::Symlink(target, source));
    let (w5, e5) = perform(w4, a4);
    assert(e5 == EventView::Done);
    let (m5, a5) = offload_step(m4, e5);
    assert(a5 == ActionView::Finish(Outcome::Offloaded));
    reveal_with_fuel(run_offload, 8);
    assert(offloaded(w, source, destination) == (w5, Some(Outcome::Offloaded)));
}

/// `w2` differs from `w` at most at the paths of `paths` and the keys of `keys`.
pub open spec fn unchanged_except(
    w: World,
    w2: World,
    paths: Set<Seq<char>>,
    keys: Set<Seq<char>>,
) -> bool {
    &&& forall|p: Seq<char>|
        #![trigger w2.fs.contains_key(p)]
        #![trigger w2.fs[p]]
        !paths.contains(p) ==> w2.fs.contains_key(p) == w.fs.contains_key(p) && w2.fs[p]
            == w.fs[p]
    &&& forall|k: Seq<char>|
        #![trigger w2.store.contains_key(k)]
        #![trigger w2.store[k]]
        !keys.contains(k) ==> w2.store.contains_key(k) == w.store.contains_key(k)
            && w2.store[k] == w.store[k]
}

/// An action that an offload in state `m` may ask for.
pub open spec fn offload_action_within(a: ActionView, m: OffloadView) -> bool {
    match a {
        ActionView::Inspect(_) => true,
        ActionView::ReadFile(_) => true,
        ActionView::Escrow(k, _) => k == m.key,
        ActionView::CreateDirAll(p) => p == m.destination,
        ActionView::Rename(from, to) => from == m.source && to == m.target,
        ActionView::Symlink(_, l) => l == m.source,
        ActionView::Fetch(_) => true,
        ActionView::WriteFile(_, _) => false,
        ActionView::Finish(_) => true,
    }
}

proof fn lemma_run_offload_frame(w: World, m: OffloadView, a: ActionView, fuel: nat)
    requires
        offload_action_within(a, m),
    ensures
        unchanged_except(
            w,
            run_offload(w, m, a, fuel).0,
            set![m.source, m.destination, m.target],
            set![m.key],
        ),
    decreases fuel,
{
    if !(a is Finish) && fuel > 0 {
        let (w2, e) = perform(w, a);
        let (m2, a2) = offload_step(m, e);
        lemma_run_offload_frame(w2, m2, a2, (fuel - 1) as nat);
        assert(set![m2.source, m2.destination, m2.target] == set![m.source, m.destination, m.target]);
        assert(unchanged_except(w, w2, set![m.source, m.destination, m.target], set![m.key]));
    }
}

/// An offload touches nothing but its source, its destination directory, its
/// relocated path and the escrow entry under its key, whatever each
/// operation does.
pub proof fn lemma_offload_frame(w: World, source: Seq<char>, destination: Seq<char>)
    ensures
        unchanged_except(
            w,
            offloaded(w, source, destination).0,
            set![source, destination, join_spec(destination, file_key_spec(source))],
            set![file_key_spec(source)],
        ),
{
    lemma_run_offload_frame(
        w,
        offload_start(source, destination),
        ActionView::Inspect(source),
        enough_steps(),
    );
}

proof fn lemma_join_injective(dir: Seq<char>, a: Seq<char>, b: Seq<char>)
    requires
        join_spec(dir, a) == join_spec(dir, b),
    ensures
        a == b,
{
    let j = join_spec(dir, a);
    let n = (j.len() - a.len()) as int;
    assert(a =~= j.subrange(n, j.len() as int));
    assert(b =~= join_spec(dir, b).subrange(n, j.len() as int));
}

/// Offloads of two paths with distinct keys keep apart: after `first` and
/// then `second` are offloaded into one destination, each is a link to its
/// own relocated file, which holds its own content, and escrow holds each
/// content under its own key; the second offload overwrites nothing of the
/// first.
pub proof fn lemma_offloads_keep_apart(
    w: World,
    first: Seq<char>,
    second: Seq<char>,
    destination: Seq<char>,
    c1: Seq<u8>,
    c2: Seq<u8>,
)
    requires
        w.fs.contains_key(first) && w.fs[first] == FsEntry::File(c1),
        w.fs.contains_key(second) && w.fs[second] == FsEntry::File(c2),
        first != second,
        file_key_spec(first) != file_key_spec(second),
        is_key_text(file_key_spec(first)),
        is_key_text(file_key_spec(second)),
        !w.fs.contains_key(destination) || w.fs[destination] is Dir,
        !is_dir_at(w, join_spec(destination, file_key_spec(first))),
        !is_dir_at(w, join_spec(destination, file_key_spec(second))),
        first != join_spec(destination, file_key_spec(first)),
        first != join_spec(destination, file_key_spec(second)),
        second != join_spec(destination, file_key_spec(first)),
        second != join_spec(destination, file_key_spec(second)),
    ensures
        ({
            let (k1, k2) = (file_key_spec(first), file_key_spec(second));
            let (t1, t2) = (join_spec(destination, k1), join_spec(destination, k2));
            let w1 = offloaded(w, first, destination).0;
            let w2 = offloaded(w1, second, destination).0;
            &&& w2.fs[first] == FsEntry::Link(t1) && w2.fs[second] == FsEntry::Link(t2)
            &&& w2.fs[t1] == FsEntry::File(c1) && w2.fs[t2] == FsEntry::File(c2)
            &&& w2.store[k1] == escaped(c1) && w2.store[k2] == escaped(c2)
        }),
{
    let (k1, k2) = (file_key_spec(first), file_key_spec(second));
    let (t1, t2) = (join_spec(destination, k1), join_spec(destination, k2));
    lemma_join_longer(destination, k1);
    lemma_join_longer(destination, k2);
    if t1 == t2 {
        lemma_join_injective(destination, k1, k2);
    }
    lemma_offload_round_trip(w, first, destination, c1);
    lemma_offload_frame(w, first, destination);
    let w1 = offloaded(w, first, destination).0;
    assert(!set![first, destination, t1].contains(second));
    assert(!set![first, destination, t1].contains(t2));
    lemma_offload_round_trip(w1, second, destination, c2);
    lemma_offload_frame(w1, second, destination);
    assert(!set![second, destination, t2].contains(first));
    assert(!set![second, destination, t2].contains(t1));
    assert(!set![k2].contains(k1));
}

/// An offload is not repeated: on a path that is already a symbolic link
/// (as an earlier offload left it) it ends as skipped and changes nothing,
/// neither the link nor the relocated file nor the escrow.
pub proof fn lemma_offload_skips_link(
    w: World,
    source: Seq<char>,
    destination: Seq<char>,
)
    requires
        w.fs.contains_key(source),
        w.fs[source] is Link,
    ensures
        offloaded(w, source, destination) == (w, Some(Outcome::SkippedAlreadyLinked)),
{
    let mi = offload_start(source, destination);
    let (wi, ei) = perform(w, ActionView::Inspect(source));
    assert(ei == EventView::Kind(NodeKind::Symlink));
    let (m0, a0) = offload_step(mi, ei);
    assert(a0 == ActionView::Finish(Outcome::SkippedAlreadyLinked));
    reveal_with_fuel(run_offload, 3);
}

/// Restore materialises the escrow: when escrow holds `blob` under the key of
/// `link`, the restore for `link` writes exactly `blob` to the relocated path
/// named by that key (if no directory stands there), whatever `link` points
/// to, and changes nothing else.
pub proof fn lemma_restore_materializes(
    w: World,
    link: Seq<char>,
    destination: Seq<char>,
    blob: Seq<u8>,
)
    requires
        w.store.contains_key(file_key_spec(link)),
        w.store[file_key_spec(link)] == blob,
        !is_dir_at(w, join_spec(destination, file_key_spec(link))),
    ensures
        ({
            let target = join_spec(destination, file_key_spec(link));
            let (w2, outcome) = restored(w, link, destination);
            &&& outcome == Some(Outcome::Restored)
            &&& w2.fs == w.fs.insert(target, FsEntry::File(blob))
            &&& w2.store == w.store
        }),
{
    let target = join_spec(destination, file_key_spec(link));
    let m0 = restore_start(link, destination);
    let a0 = ActionView::Fetch(file_key_spec(link));
    let (w1, e1) = perform(w, a0);
    assert(e1 == EventView::Data(blob));
    let (m1, a1) = restore_step(m0, e1);
    assert(a1 == ActionView::WriteFile(target, blob));
    let (w2, e2) = perform(w1, a1);
    assert(e2 == EventView::Done);
    let (m2, a2) = restore_step(m1, e2);
    assert(a2 == ActionView::Finish(Outcome::Restored));
    reveal_with_fuel(run_restore, 4);
    assert(restored(w, link, destination) == (w2, Some(Outcome::Restored)));
}

/// A file once offloaded can be restored: the restore for the link left at
/// `source` writes what was escrowed for it, `content` itself when it holds no
/// newline, back to the relocated path that the offload used.
pub proof fn lemma_offload_then_restore(
    w: World,
    source: Seq<char>,
    destination: Seq<char>,
    content: Seq<u8>,
)
    requires
        w.fs.contains_key(source),
        w.fs[source] == FsEntry::File(content),
        !w.fs.contains_key(destination) || w.fs[destination] is Dir,
        !is_dir_at(w, join_spec(destination, file_key_spec(source))),
        is_key_text(file_key_spec(source)),
        source != join_spec(destination, file_key_spec(source)),
    ensures
        ({
            let target = join_spec(destination, file_key_spec(source));
            let (w2, _) = offloaded(w, source, destination);
            let (w3, outcome) = restored(w2, source, destination);
            &&& outcome == Some(Outcome::Restored)
            &&& w3.fs[target] == FsEntry::File(escaped(content))
            &&& w3.fs[source] == FsEntry::Link(target)
            &&& !content.contains(NEWLINE) ==> w3.fs[target] == FsEntry::File(content)
        }),
{
    lemma_offload_round_trip(w, source, destination, content);
    let (w2, _) = offloaded(w, source, destination);
    lemma_restore_materializes(w2, source, destination, escaped(content));
}

/// The world after one job of a sweep into `destination`.
pub open spec fn run_job(w: World, job: (JobKind, Seq<char>), destination: Seq<char>) -> World {
    match job.0 {
        JobKind::Offload => offloaded(w, job.1, destination).0,
        JobKind::Restore => restored(w, job.1, destination).0,
    }
}

/// The world after the jobs of `jobs`, one after the other.
pub open spec fn run_plan(w: World, jobs: Seq<(JobKind, Seq<char>)>, destination: Seq<char>) -> World
    decreases jobs.len(),
{
    if jobs.len() == 0 {
        w
    } else {
        run_job(run_plan(w, jobs.drop_last(), destination), jobs.last(), destination)
    }
}

/// The world after one sweep of the directory `source`, whose walk reported
/// `nodes`, into `destination`.
pub open spec fn swept(w: World, source: Seq<char>, nodes: Seq<Node>, destination: Seq<char>) -> World {
    run_plan(w, sweep_plan(source, true, nodes), destination)
}

/// One sweep of a tree with two plain files `a` and `b` and one link `l`,
/// whose key alone escrow holds: both files become links to their relocated
/// copies, which hold their content, both contents are escrowed under their
/// own keys, the link's relocated copy is written with exactly its escrowed
/// blob whatever the link points to, the link itself stays as it was, and
/// escrow then holds the three keys and no other.
pub proof fn lemma_sweep_composition(
    w: World,
    source: Seq<char>,
    nodes: Seq<Node>,
    destination: Seq<char>,
    a: Seq<char>,
    b: Seq<char>,
    l: Seq<char>,
    ca: Seq<u8>,
    cb: Seq<u8>,
    blob: Seq<u8>,
)
    requires
        scanned(source, true, nodes, EntryClass::PlainFile) == seq![a, b],
        scanned(source, true, nodes, EntryClass::LinkedFile) == seq![l],
        a != b,
        w.fs.contains_key(a) && w.fs[a] == FsEntry::File(ca),
        w.fs.contains_key(b) && w.fs[b] == FsEntry::File(cb),
        w.fs.contains_key(l) && w.fs[l] is Link,
        w.store.dom() == set![file_key_spec(l)],
        w.store[file_key_spec(l)] == blob,
        file_key_spec(a) != file_key_spec(b),
        file_key_spec(a) != file_key_spec(l),
        file_key_spec(b) != file_key_spec(l),
        is_key_text(file_key_spec(a)),
        is_key_text(file_key_spec(b)),
        is_key_text(file_key_spec(l)),
        !w.fs.contains_key(destination) || w.fs[destination] is Dir,
        forall|p: Seq<char>|
            #![trigger set![a, b, l].contains(p)]
            set![a, b, l].contains(p) ==> {
                &&& p != join_spec(destination, file_key_spec(a))
                &&& p != join_spec(destination, file_key_spec(b))
                &&& p != join_spec(destination, file_key_spec(l))
                &&& !is_dir_at(w, join_spec(destination, file_key_spec(p)))
            },
    ensures
        ({
            let (ka, kb, kl) = (file_key_spec(a), file_key_spec(b), file_key_spec(l));
            let (ta, tb, tl) = (
                join_spec(destination, ka),
                join_spec(destination, kb),
                join_spec(destination, kl),
            );
            let w2 = swept(w, source, nodes, destination);
            &&& w2.fs[a] == FsEntry::Link(ta) && w2.fs[b] == FsEntry::Link(tb)
            &&& w2.fs[ta] == FsEntry::File(ca) && w2.fs[tb] == FsEntry::File(cb)
            &&& w2.fs[tl] == FsEntry::File(blob)
            &&& w2.fs[l] == w.fs[l]
            &&& w2.store[ka] == escaped(ca) && w2.store[kb] == escaped(cb)
            &&& w2.store[kl] == blob
            &&& w2.store.dom() == set![ka, kb, kl]
            &&& !ca.contains(NEWLINE) ==> w2.store[ka] == ca
            &&& !cb.contains(NEWLINE) ==> w2.store[kb] == cb
        }),
{
    let (ka, kb, kl) = (file_key_spec(a), file_key_spec(b), file_key_spec(l));
    let (ta, tb, tl) = (join_spec(destination, ka), join_spec(destination, kb), join_spec(destination, kl));
    assert(set![a, b, l].contains(a));
    assert(set![a, b, l].contains(b));
    assert(set![a, b, l].contains(l));
    lemma_join_longer(destination, ka);
    lemma_join_longer(destination, kb);
    lemma_join_longer(destination, kl);
    if ta == tb {
        lemma_join_injective(destination, ka, kb);
    }
    if ta == tl {
        lemma_join_injective(destination, ka, kl);
    }
    if tb == tl {
        lemma_join_injective(destination, kb, kl);
    }
    let plan = seq![(JobKind::Offload, a), (JobKind::Offload, b), (JobKind::Restore, l)];
    assert(sweep_plan(source, true, nodes) =~= plan);
    assert(plan.drop_last() =~= seq![(JobKind::Offload, a), (JobKind::Offload, b)]);
    assert(plan.drop_last().drop_last() =~= seq![(JobKind::Offload, a)]);
    assert(plan.drop_last().drop_last().drop_last() =~= Seq::<(JobKind, Seq<char>)>::empty());
    reveal_with_fuel(run_plan, 4);

    lemma_offload_round_trip(w, a, destination, ca);
    lemma_offload_frame(w, a, destination);
    let w1 = offloaded(w, a, destination).0;
    assert(!set![a, destination, ta].contains(b));
    assert(!set![a, destination, ta].contains(tb));
    assert(!set![a, destination, ta].contains(tl));
    assert(!set![a, destination, ta].contains(l));

    lemma_offload_round_trip(w1, b, destination, cb);
    lemma_offload_frame(w1, b, destination);
    let w2 = offloaded(w1, b, destination).0;
    assert(!set![b, destination, tb].contains(a));
    assert(!set![b, destination, tb].contains(ta));
    assert(!set![b, destination, tb].contains(tl));
    assert(!set![b, destination, tb].contains(l));
    assert(!set![ka].contains(kl));
    assert(!set![kb].contains(kl));
    assert(!set![kb].contains(ka));
    assert(w.store.contains_key(kl));

    lemma_restore_materializes(w2, l, destination, blob);
    let w3 = restored(w2, l, destination).0;
    assert(w3 == swept(w, source, nodes, destination));
    assert forall|k: Seq<char>| w3.store.dom().contains(k) <==> set![ka, kb, kl].contains(k) by {
        if k != ka && k != kb {
            assert(!set![ka].contains(k));
            assert(!set![kb].contains(k));
            assert(w2.store.contains_key(k) == w1.store.contains_key(k));
            assert(w1.store.contains_key(k) == w.store.contains_key(k));
        }
    }
    assert(w3.store.dom() =~= set![ka, kb, kl]);
}

/// `p` lies strictly below `root`.
pub open spec fn is_below(root: Seq<char>, p: Seq<char>) -> bool {
    root.is_prefix_of(p) && p.len() > root.len()
}

/// `nodes` is what a walk of the directory `root` reports on `fs`: each node
/// as it is, without following links, the root and nodes below it only,
/// every node below it, and each path once.
pub open spec fn walk_of(fs: Map<Seq<char>, FsEntry>, root: Seq<char>, nodes: Seq<Node>) -> bool {
    &&& forall|i: int|
        0 <= i < nodes.len() ==> {
            &&& fs.contains_key((#[trigger] nodes[i]).path@)
            &&& kind_of(fs[nodes[i].path@]) == nodes[i].kind
            &&& nodes[i].path@ == root || is_below(root, nodes[i].path@)
        }
    &&& forall|p: Seq<char>|
        fs.contains_key(p) && is_below(root, p) ==> exists|i: int|
            0 <= i < nodes.len() && (#[trigger] nodes[i]).path@ == p
    &&& distinct_paths(nodes)
}

/// The files (for `kind` `Regular`) or links (for `Symlink`) below `root`.
pub open spec fn below_of_kind(fs: Map<Seq<char>, FsEntry>, root: Seq<char>, kind: NodeKind) -> Set<
    Seq<char>,
> {
    Set::new(|p: Seq<char>| fs.contains_key(p) && is_below(root, p) && kind_of(fs[p]) == kind)
}

proof fn lemma_scan_of_walk_class(
    fs: Map<Seq<char>, FsEntry>,
    root: Seq<char>,
    nodes: Seq<Node>,
    kind: NodeKind,
    c: EntryClass,
)
    requires
        walk_of(fs, root, nodes),
        kind == NodeKind::Regular && c == EntryClass::PlainFile || kind == NodeKind::Symlink && c
            == EntryClass::LinkedFile,
    ensures
        scanned(root, true, nodes, c).to_set() == below_of_kind(fs, root, kind),
        scanned(root, true, nodes, c).no_duplicates(),
        scanned(root, true, nodes, c).len() == below_of_kind(fs, root, kind).len(),
{
    let ps = scanned(root, true, nodes, c);
    lemma_paths_of_class(root, nodes, c);
    lemma_paths_of_class_unique(root, nodes, c);
    assert forall|p: Seq<char>| ps.to_set().contains(p) <==> below_of_kind(fs, root, kind).contains(p) by {
        if ps.contains(p) {
            let i = choose|i: int|
                0 <= i < nodes.len() && (#[trigger] nodes[i]).path@ == p && crate::scan::class_of(
                    root,
                    p,
                    nodes[i].kind,
                ) == c;
            assert(fs.contains_key(nodes[i].path@));
        }
        if below_of_kind(fs, root, kind).contains(p) {
            let i = choose|i: int| 0 <= i < nodes.len() && (#[trigger] nodes[i]).path@ == p;
            assert(fs.contains_key(nodes[i].path@));
            assert(p != root);
            assert(crate::scan::class_of(root, p, nodes[i].kind) == c);
        }
    }
    assert(ps.to_set() =~= below_of_kind(fs, root, kind));
    ps.unique_seq_to_set();
}

/// Classification of a faithful walk: a scan of the directory `root` lists
/// every regular file below it and every link below it, whatever the link
/// points to and at whatever depth, each exactly once, and nothing else:
/// neither a directory nor the root itself.
pub proof fn lemma_scan_of_walk(fs: Map<Seq<char>, FsEntry>, root: Seq<char>, nodes: Seq<Node>)
    requires
        walk_of(fs, root, nodes),
    ensures
        scanned(root, true, nodes, EntryClass::PlainFile).to_set() == below_of_kind(
            fs,
            root,
            NodeKind::Regular,
        ),
        scanned(root, true, nodes, EntryClass::PlainFile).no_duplicates(),
        scanned(root, true, nodes, EntryClass::PlainFile).len() == below_of_kind(
            fs,
            root,
            NodeKind::Regular,
        ).len(),
        scanned(root, true, nodes, EntryClass::LinkedFile).to_set() == below_of_kind(
            fs,
            root,
            NodeKind::Symlink,
        ),
        scanned(root, true, nodes, EntryClass::LinkedFile).no_duplicates(),
        scanned(root, true, nodes, EntryClass::LinkedFile).len() == below_of_kind(
            fs,
            root,
            NodeKind::Symlink,
        ).len(),
{
    lemma_scan_of_walk_class(fs, root, nodes, NodeKind::Regular, EntryClass::PlainFile);
    lemma_scan_of_walk_class(fs, root, nodes, NodeKind::Symlink, EntryClass::LinkedFile);
}

} // verus!
