use std::collections::HashMap;

use unlock_ceph::{
    eat_files, escape_newlines, get_files_at_path, get_links_at_path, summarize, file_key, join_path, Action, Event, JobKind, Node, NodeKind, Offload,
    OffloadStage, Outcome, Restore, RestoreStage, SweepReport,
};

#[derive(Clone, Debug, PartialEq)]
enum Entry {
    File(Vec<u8>),
    Link(String),
    Dir,
}

/// A filesystem and an escrow store in memory, with switches that make one
/// kind of operation fail.
#[derive(Default)]
struct World {
    fs: HashMap<String, Entry>,
    store: HashMap<String, Vec<u8>>,
    fail_read: bool,
    fail_escrow: bool,
    fail_link: bool,
}

impl World {
    fn file(&mut self, path: &str, content: &str) {
        self.fs.insert(path.to_string(), Entry::File(content.as_bytes().to_vec()));
    }

    fn perform(&mut self, action: &Action) -> Event {
        match action {
            Action::Inspect { path } => match self.fs.get(path) {
                Some(Entry::File(_)) => Event::Kind(NodeKind::Regular),
                Some(Entry::Link(_)) => Event::Kind(NodeKind::Symlink),
                Some(Entry::Dir) => Event::Kind(NodeKind::Directory),
                None => Event::Failed,
            },
            Action::ReadFile { path } => {
                if self.fail_read {
                    return Event::Failed;
                }
                let mut at = path.clone();
                loop {
                    match self.fs.get(&at) {
                        Some(Entry::File(c)) => return Event::Data(c.clone()),
                        Some(Entry::Link(t)) => at = t.clone(),
                        _ => return Event::Failed,
                    }
                }
            }
            Action::Escrow { key, content } => {
                if self.fail_escrow {
                    return Event::Failed;
                }
                self.store.insert(key.clone(), content.clone());
                Event::Done
            }
            Action::CreateDirAll { path } => match self.fs.get(path) {
                None => {
                    self.fs.insert(path.clone(), Entry::Dir);
                    Event::Done
                }
                Some(Entry::Dir) => Event::Done,
                Some(_) => Event::Failed,
            },
            Action::Rename { from, to } => {
                if matches!(self.fs.get(to), Some(Entry::Dir)) {
                    return Event::Failed;
                }
                match self.fs.remove(from) {
                    Some(e) => {
                        self.fs.insert(to.clone(), e);
                        Event::Done
                    }
                    None => Event::Failed,
                }
            }
            Action::Symlink { target, link } => {
                if self.fail_link || self.fs.contains_key(link) {
                    return Event::Failed;
                }
                self.fs.insert(link.clone(), Entry::Link(target.clone()));
                Event::Done
            }
            Action::Fetch { key } => match self.store.get(key) {
                Some(c) => Event::Data(c.clone()),
                None => Event::Failed,
            },
            Action::WriteFile { path, content } => {
                if matches!(self.fs.get(path), Some(Entry::Dir)) {
                    return Event::Failed;
                }
                self.fs.insert(path.clone(), Entry::File(content.clone()));
                Event::Done
            }
            Action::Finish { .. } => Event::Done,
        }
    }

    fn offload(&mut self, source: &str, destination: &str) -> Outcome {
        let (mut machine, mut action) = Offload::begin(source, destination);
        loop {
            if let Action::Finish { outcome } = action {
                return outcome;
            }
            let event = self.perform(&action);
            action = machine.advance(event);
        }
    }

    fn restore(&mut self, link: &str, destination: &str) -> Outcome {
        let (mut machine, mut action) = Restore::begin(link, destination);
        loop {
            if let Action::Finish { outcome } = action {
                return outcome;
            }
            let event = self.perform(&action);
            action = machine.advance(event);
        }
    }

    /// What a walk of `root` reports: the root and every node below it.
    fn walk(&self, root: &str) -> (bool, Vec<Node>) {
        if !matches!(self.fs.get(root), Some(Entry::Dir)) {
            return (false, Vec::new());
        }
        let mut nodes = vec![Node { path: root.to_string(), kind: NodeKind::Directory }];
        let mut paths: Vec<&String> = self.fs.keys().filter(|p| p.starts_with(&format!("{}/", root))).collect();
        paths.sort();
        for p in paths {
            let kind = match self.fs[p] {
                Entry::File(_) => NodeKind::Regular,
                Entry::Link(_) => NodeKind::Symlink,
                Entry::Dir => NodeKind::Directory,
            };
            nodes.push(Node { path: p.clone(), kind });
        }
        (true, nodes)
    }

    fn files_at(&self, root: &str) -> Vec<String> {
        let (is_dir, nodes) = self.walk(root);
        get_files_at_path(&root.to_string(), is_dir, &nodes)
    }

    fn links_at(&self, root: &str) -> Vec<String> {
        let (is_dir, nodes) = self.walk(root);
        get_links_at_path(&root.to_string(), is_dir, &nodes)
    }

    fn sweep(&mut self, source: &str, destination: &str) -> Vec<Outcome> {
        let (is_dir, nodes) = self.walk(source);
        let jobs = eat_files(&source.to_string(), is_dir, &nodes);
        jobs.iter()
            .map(|job| match job.kind {
                JobKind::Offload => self.offload(&job.path, destination),
                JobKind::Restore => self.restore(&job.path, destination),
            })
            .collect()
    }

    fn is_link(&self, path: &str) -> bool {
        matches!(self.fs.get(path), Some(Entry::Link(_)))
    }

    fn is_file(&self, path: &str) -> bool {
        matches!(self.fs.get(path), Some(Entry::File(_)))
    }

    fn files_under(&self, dir: &str) -> usize {
        self.fs.iter().filter(|(p, e)| p.starts_with(&format!("{}/", dir)) && matches!(e, Entry::File(_))).count()
    }
}

fn relocated(destination: &str, source: &str) -> String {
    format!("{}/{}", destination, file_key(source))
}

#[test]
fn key_is_lowercase_hex_sha1_of_path() {
    assert_eq!(file_key("abc"), "a9993e364706816aba3e25717850c26c9cd0d89d");
    assert_eq!(file_key(""), "da39a3ee5e6b4b0d3255bfef95601890afd80709");
    let k = file_key("/tmp/src/a.txt");
    assert_eq!(k.len(), 40);
    assert!(k.chars().all(|c| c.is_ascii_digit() || ('a'..='f').contains(&c)));
}

#[test]
fn key_is_deterministic() {
    let p = "/tmp/src/a.txt";
    assert_eq!(file_key(p), file_key(p));
    assert_eq!(file_key(p), file_key(&p.to_string()));
    assert_ne!(file_key(p), file_key("/tmp/src/b.txt"));
}

#[test]
fn join_path_puts_one_separator() {
    assert_eq!(join_path("/dst", "k"), "/dst/k");
    assert_eq!(join_path("/dst/", "k"), "/dst/k");
    assert_eq!(join_path("", "k"), "k");
    assert_eq!(join_path("/", "k"), "/k");
}

#[test]
fn newlines_are_escaped_for_escrow() {
    assert_eq!(escape_newlines(&b"a\nb\n".to_vec()), b"a\\nb\\n".to_vec());
    assert_eq!(escape_newlines(&b"hello".to_vec()), b"hello".to_vec());
    assert_eq!(escape_newlines(&Vec::new()), Vec::<u8>::new());
}

#[test]
fn offload_actions_in_order() {
    let (mut m, a) = Offload::begin("/s/a.txt", "/d");
    let key = file_key("/s/a.txt");
    let target = format!("/d/{}", key);
    assert!(matches!(a, Action::Inspect { ref path } if path == "/s/a.txt"));
    let a = m.advance(Event::Kind(NodeKind::Regular));
    assert!(matches!(a, Action::ReadFile { ref path } if path == "/s/a.txt"));
    let a = m.advance(Event::Data(b"x\ny".to_vec()));
    assert!(matches!(a, Action::Escrow { key: ref k, ref content } if *k == key && content == b"x\\ny"));
    let a = m.advance(Event::Done);
    assert!(matches!(a, Action::CreateDirAll { ref path } if path == "/d"));
    let a = m.advance(Event::Done);
    assert!(matches!(a, Action::Rename { ref from, ref to } if from == "/s/a.txt" && *to == target));
    let a = m.advance(Event::Done);
    assert!(matches!(a, Action::Symlink { target: ref t, ref link } if *t == target && link == "/s/a.txt"));
    let a = m.advance(Event::Done);
    assert!(matches!(a, Action::Finish { outcome: Outcome::Offloaded }));
    assert_eq!(m.stage, OffloadStage::Finished(Outcome::Offloaded));
    let a = m.advance(Event::Failed);
    assert!(matches!(a, Action::Finish { outcome: Outcome::Offloaded }));
}

#[test]
fn offload_round_trip() {
    let mut w = World::default();
    w.file("/w/src/a.txt", "hello");
    assert_eq!(w.offload("/w/src/a.txt", "/w/dst"), Outcome::Offloaded);
    let target = relocated("/w/dst", "/w/src/a.txt");
    assert_eq!(w.fs["/w/src/a.txt"], Entry::Link(target.clone()));
    assert_eq!(w.fs[&target], Entry::File(b"hello".to_vec()));
    assert_eq!(w.store[&file_key("/w/src/a.txt")], b"hello".to_vec());
}

#[test]
fn restore_materializes_escrow() {
    let mut w = World::default();
    let key = file_key("/w/src/p");
    w.store.insert(key.clone(), b"world".to_vec());
    w.fs.insert("/w/src/p".to_string(), Entry::Link("/elsewhere".to_string()));
    assert_eq!(w.restore("/w/src/p", "/w/dst"), Outcome::Restored);
    assert_eq!(w.fs[&format!("/w/dst/{}", key)], Entry::File(b"world".to_vec()));
    assert_eq!(w.fs["/w/src/p"], Entry::Link("/elsewhere".to_string()));
}

#[test]
fn restore_actions_in_order() {
    let (mut m, a) = Restore::begin("/s/l", "/d/");
    let key = file_key("/s/l");
    assert!(matches!(a, Action::Fetch { key: ref k } if *k == key));
    let a = m.advance(Event::Data(b"z".to_vec()));
    assert!(matches!(a, Action::WriteFile { ref path, ref content } if *path == format!("/d/{}", key) && content == b"z"));
    let a = m.advance(Event::Done);
    assert!(matches!(a, Action::Finish { outcome: Outcome::Restored }));
    assert_eq!(m.stage, RestoreStage::Finished(Outcome::Restored));
}

#[test]
fn sweep_composition() {
    let mut w = World::default();
    w.fs.insert("/w/src".to_string(), Entry::Dir);
    w.file("/w/src/one", "1");
    w.file("/w/src/two", "2");
    w.file("/w/src/three", "3");
    assert_eq!(w.offload("/w/src/three", "/w/dst"), Outcome::Offloaded);
    w.fs.remove(&relocated("/w/dst", "/w/src/three"));
    assert_eq!(w.store.len(), 1);

    let outcomes = w.sweep("/w/src", "/w/dst");
    assert_eq!(outcomes, vec![Outcome::Offloaded, Outcome::Offloaded, Outcome::Restored]);
    assert!(w.is_link("/w/src/one"));
    assert!(w.is_link("/w/src/two"));
    assert!(w.is_link("/w/src/three"));
    assert_eq!(w.store.len(), 3);
    assert_eq!(w.store[&file_key("/w/src/one")], b"1".to_vec());
    assert_eq!(w.store[&file_key("/w/src/two")], b"2".to_vec());
    assert_eq!(w.fs[&relocated("/w/dst", "/w/src/three")], Entry::File(b"3".to_vec()));
    assert_eq!(w.files_under("/w/dst"), 3);
}

#[test]
fn it_can_eat_a_directory() {
    let mut w = World::default();
    let source = "/tmp/unlock_ceph/0.5/source";
    let dest = "/tmp/unlock_ceph/0.5/dest";
    w.fs.insert(source.to_string(), Entry::Dir);
    w.fs.insert(dest.to_string(), Entry::Dir);
    let dst1 = format!("{}/test_1.txt", source);
    let dst2 = format!("{}/test_2.txt", source);
    w.file(&dst1, "test1");
    w.file(&dst2, "test2");
    w.fs.insert(format!("{}/test", source), Entry::Dir);
    let subfolder1 = format!("{}/test/test_4.txt", source);
    w.file(&subfolder1, "test4");
    let linked_src = format!("{}/test_3.txt", source);
    w.file(&linked_src, "test3");
    assert_eq!(w.offload(&linked_src, dest), Outcome::Offloaded);

    let new_links = vec![dst1, dst2, subfolder1];
    for item in &new_links {
        assert!(w.is_file(item));
        assert!(!w.is_link(item));
    }
    w.sweep(source, dest);
    for item in &new_links {
        assert!(!w.is_file(item));
        assert!(w.is_link(item));
    }
    assert!(w.is_link(&linked_src));
}

#[test]
fn it_replaces_old_file_with_link_to_new_file() {
    let mut w = World::default();
    let dir = "/tmp/unlock_ceph/0.5/vault_test_link_src";
    let dst_dir = "/tmp/unlock_ceph/0.5/vault_test_link_dst";
    w.fs.insert(dir.to_string(), Entry::Dir);
    let dst1 = format!("{}/file_manipulation_test_1.txt", dir);
    w.file(&dst1, "");

    assert_eq!(w.links_at(dir).len(), 0);
    assert_eq!(w.files_at(dir).len(), 1);
    assert_eq!(w.links_at(dst_dir).len(), 0);
    assert_eq!(w.files_at(dst_dir).len(), 0);

    assert_eq!(w.offload(&dst1, dst_dir), Outcome::Offloaded);

    assert_eq!(w.links_at(dir).len(), 1);
    assert_eq!(w.files_at(dir).len(), 0);
    assert_eq!(w.links_at(dst_dir).len(), 0);
    assert_eq!(w.files_at(dst_dir).len(), 1);
}

#[test]
fn escrow_failure_does_not_stop_offload() {
    let mut w = World::default();
    w.fail_escrow = true;
    w.file("/w/src/a", "a");
    assert_eq!(w.offload("/w/src/a", "/w/dst"), Outcome::OffloadedWithoutEscrow);
    assert!(w.is_link("/w/src/a"));
    assert!(w.store.is_empty());
}

#[test]
fn unreadable_source_is_still_moved_but_not_escrowed() {
    let mut w = World::default();
    w.fail_read = true;
    w.file("/w/src/a", "a");
    assert_eq!(w.offload("/w/src/a", "/w/dst"), Outcome::OffloadedWithoutEscrow);
    assert!(w.is_link("/w/src/a"));
    assert!(w.store.is_empty());
}

#[test]
fn missing_or_directory_source_is_not_offloaded() {
    let mut w = World::default();
    assert_eq!(w.offload("/w/src/none", "/w/dst"), Outcome::RelocateFailed);
    w.fs.insert("/w/src/d".to_string(), Entry::Dir);
    assert_eq!(w.offload("/w/src/d", "/w/dst"), Outcome::RelocateFailed);
    assert!(w.store.is_empty());
    assert!(!w.fs.contains_key("/w/dst"));
}

#[test]
fn destination_that_is_a_file_stops_offload() {
    let mut w = World::default();
    w.file("/w/src/a", "a");
    w.file("/w/dst", "not a directory");
    assert_eq!(w.offload("/w/src/a", "/w/dst"), Outcome::DestinationUnavailable);
    assert!(w.is_file("/w/src/a"));
}

#[test]
fn second_offload_is_skipped_and_changes_nothing() {
    let mut w = World::default();
    w.file("/w/src/a", "a");
    assert_eq!(w.offload("/w/src/a", "/w/dst"), Outcome::Offloaded);
    let target = relocated("/w/dst", "/w/src/a");
    assert_eq!(w.offload("/w/src/a", "/w/dst"), Outcome::SkippedAlreadyLinked);
    assert_eq!(w.fs["/w/src/a"], Entry::Link(target.clone()));
    assert_eq!(w.fs[&target], Entry::File(b"a".to_vec()));
    assert_eq!(w.store[&file_key("/w/src/a")], b"a".to_vec());
}

#[test]
fn link_failure_leaves_file_relocated() {
    let mut w = World::default();
    w.fail_link = true;
    w.file("/w/src/a", "a");
    assert_eq!(w.offload("/w/src/a", "/w/dst"), Outcome::LinkFailed);
    assert!(!w.fs.contains_key("/w/src/a"));
    assert!(w.is_file(&relocated("/w/dst", "/w/src/a")));
}

#[test]
fn restore_without_escrow_fails() {
    let mut w = World::default();
    assert_eq!(w.restore("/w/src/l", "/w/dst"), Outcome::FetchFailed);
    assert!(w.fs.is_empty());
}

#[test]
fn restore_onto_directory_fails() {
    let mut w = World::default();
    w.store.insert(file_key("/w/src/l"), b"x".to_vec());
    w.fs.insert(relocated("/w/dst", "/w/src/l"), Entry::Dir);
    assert_eq!(w.restore("/w/src/l", "/w/dst"), Outcome::WriteFailed);
}

#[test]
fn summary_counts_complete_and_incomplete() {
    let outcomes = vec![
        Outcome::Offloaded,
        Outcome::OffloadedWithoutEscrow,
        Outcome::Restored,
        Outcome::LinkFailed,
        Outcome::FetchFailed,
    ];
    assert_eq!(summarize(&outcomes), SweepReport { complete: 2, incomplete: 3 });
    assert_eq!(summarize(&Vec::new()), SweepReport { complete: 0, incomplete: 0 });
}

#[test]
fn sweep_with_failures_is_summarized() {
    let mut w = World::default();
    w.fs.insert("/w/src".to_string(), Entry::Dir);
    w.file("/w/src/a", "a");
    w.fs.insert("/w/src/l".to_string(), Entry::Link("/nowhere".to_string()));
    w.fail_escrow = true;
    let outcomes = w.sweep("/w/src", "/w/dst");
    assert_eq!(outcomes, vec![Outcome::OffloadedWithoutEscrow, Outcome::FetchFailed]);
    assert_eq!(summarize(&outcomes), SweepReport { complete: 0, incomplete: 2 });
}
