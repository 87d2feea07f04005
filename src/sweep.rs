use vstd::prelude::*;
use crate::action::Outcome;
use crate::scan::{get_files_at_path, get_links_at_path, paths_view, scanned, EntryClass, Node};

verus! {

#[derive(Clone, Copy, Debug, PartialEq, Eq, Structural)]
pub enum JobKind {
    /// Offload the plain file at the job's path.
    Offload,
    /// Restore the relocated copy for the link at the job's path.
    Restore,
}

/// One file of a sweep and what is to be done with it.
#[derive(Debug)]
pub struct Job {
    pub kind: JobKind,
    pub path: String,
}

pub open spec fn jobs_view(jobs: Seq<Job>) -> Seq<(JobKind, Seq<char>)> {
    jobs.map_values(|j: Job| (j.kind, j.path@))
}

pub open spec fn jobs_for(kind: JobKind, paths: Seq<Seq<char>>) -> Seq<(JobKind, Seq<char>)> {
    paths.map_values(|p: Seq<char>| (kind, p))
}

/// The jobs of one sweep of `source`: an offload for every plain file, then a
/// restore for every link, both lists taken from one scan made before any
/// file is touched.
pub open spec fn sweep_plan(source: Seq<char>, source_is_dir: bool, nodes: Seq<Node>) -> Seq<
    (JobKind, Seq<char>),
> {
    jobs_for(JobKind::Offload, scanned(source, source_is_dir, nodes, EntryClass::PlainFile))
        + jobs_for(JobKind::Restore, scanned(source, source_is_dir, nodes, EntryClass::LinkedFile))
}

fn push_jobs(jobs: &mut Vec<Job>, kind: JobKind, paths: Vec<String>)
    ensures
        jobs_view(final(jobs)@) == jobs_view(old(jobs)@) + jobs_for(kind, paths_view(paths@)),
{
    let ghost start = jobs_view(jobs@);
    let mut i: usize = 0;
    while i < paths.len()
        invariant
            i <= paths.len(),
            jobs_view(jobs@) == start + jobs_for(kind, paths_view(paths@.take(i as int))),
        decreases paths.len() - i,
    {
        let path = paths[i].clone();
        let ghost before = jobs@;
        jobs.push(Job { kind, path });
        assert(jobs_view(jobs@) =~= jobs_view(before).push((kind, paths@[i as int]@)));
        assert(paths_view(paths@.take(i as int + 1)) =~= paths_view(paths@.take(i as int)).push(
            paths@[i as int]@,
        ));
        assert(jobs_for(kind, paths_view(paths@.take(i as int + 1))) =~= jobs_for(
            kind,
            paths_view(paths@.take(i as int)),
        ).push((kind, paths@[i as int]@)));
        i = i + 1;
    }
    assert(paths@.take(paths.len() as int) =~= paths@);
}

/// Plans one sweep of the tree at `source`, whose walk reported `nodes`: the
/// plain files to offload and then the links whose copies to restore.
pub fn eat_files(source: &String, source_is_dir: bool, nodes: &Vec<Node>) -> (jobs: Vec<Job>)
    ensures
        jobs_view(jobs@) == sweep_plan(source@, source_is_dir, nodes@),
{
    let files_to_link = get_links_at_path(source, source_is_dir, nodes);
    let files_to_lock = get_files_at_path(source, source_is_dir, nodes);
    let mut jobs: Vec<Job> = Vec::new();
    assert(jobs_view(jobs@) =~= seq![]);
    push_jobs(&mut jobs, JobKind::Offload, files_to_lock);
    push_jobs(&mut jobs, JobKind::Restore, files_to_link);
    proof {
        let offloads = jobs_for(
            JobKind::Offload,
            scanned(source@, source_is_dir, nodes@, EntryClass::PlainFile),
        );
        assert(Seq::<(JobKind, Seq<char>)>::empty() + offloads =~= offloads);
    }
    jobs
}

/// Whether a file's handling ended with everything done that was asked.
pub open spec fn is_complete(o: Outcome) -> bool {
    o == Outcome::Offloaded || o == Outcome::Restored
}

pub open spec fn count_complete(outcomes: Seq<Outcome>) -> nat
    decreases outcomes.len(),
{
    if outcomes.len() == 0 {
        0
    } else {
        count_complete(outcomes.drop_last()) + if is_complete(outcomes.last()) {
            1nat
        } else {
            0nat
        }
    }
}

/// How the files of one sweep fared.
#[derive(Clone, Copy, Debug, PartialEq, Eq, Structural)]
pub struct SweepReport {
    /// Files offloaded with their content in escrow, or restored.
    pub complete: usize,
    /// Files whose handling failed, or left them without escrow or link.
    pub incomplete: usize,
}

proof fn lemma_count_complete_bound(outcomes: Seq<Outcome>)
    ensures
        count_complete(outcomes) <= outcomes.len(),
    decreases outcomes.len(),
{
    if outcomes.len() > 0 {
        lemma_count_complete_bound(outcomes.drop_last());
    }
}

/// Sums up the outcomes of a sweep's jobs.
pub fn summarize(outcomes: &Vec<Outcome>) -> (r: SweepReport)
    ensures
        r.complete == count_complete(outcomes@),
        r.complete + r.incomplete == outcomes.len(),
{
    let mut complete: usize = 0;
    let mut i: usize = 0;
    while i < outcomes.len()
        invariant
            i <= outcomes.len(),
            complete == count_complete(outcomes@.take(i as int)),
        decreases outcomes.len() - i,
    {
        assert(outcomes@.take(i as int + 1).drop_last() =~= outcomes@.take(i as int));
        proof {
            lemma_count_complete_bound(outcomes@.take(i as int));
        }
        let o = outcomes[i];
        if o == Outcome::Offloaded || o == Outcome::Restored {
            complete = complete + 1;
        }
        i = i + 1;
    }
    assert(outcomes@.take(outcomes.len() as int) =~= outcomes@);
    proof {
        lemma_count_complete_bound(outcomes@);
    }
    SweepReport { complete, incomplete: outcomes.len() - complete }
}

} // verus!
