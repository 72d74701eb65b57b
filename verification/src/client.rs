//! What the client computes from command output: the jobs of a node, node
//! descriptions, CPU and GPU figures of `sinfo`, and table cells.
use vstd::prelude::*;
use crate::commands::{node_jobs_commands, partition_info_commands};
use crate::error::SlurmError;
use crate::gpu::opt_parse;
use crate::pattern::{capture_group, captures_view, group_of, regex_captures, regex_captures_of};
use crate::proto::ExecRunData;
use crate::text::{string_views, chars_of, copy_range, lines, lines_of, lower, lower_chars, parse_u32, split_char, split_on, string_of, trim, trim_chars, upper, upper_chars, views};

verus! {

/// A job of a node, as listed by `squeue`.
#[derive(Debug, PartialEq, Eq)]
pub struct NodeJobEntry {
    pub job_id: String,
    pub name: String,
    pub user: String,
    pub status: String,
    pub time: String,
    pub mem: String,
}

/// The running jobs of a node and the pending jobs of its partitions.
#[derive(Debug, PartialEq, Eq)]
pub struct NodeJobsData {
    pub node: String,
    pub running_jobs: Vec<NodeJobEntry>,
    pub pending_jobs: Vec<NodeJobEntry>,
}

/// The `scontrol show node` description of a node.
#[derive(Debug, PartialEq, Eq)]
pub struct NodeInfoData {
    pub node: String,
    pub raw_output: String,
}

/// An `salloc` command line, and whether it was run.
#[derive(Debug, PartialEq, Eq)]
pub struct AllocPlanOutput {
    pub command: String,
    pub execute: bool,
}

pub struct EntryView {
    pub job_id: Seq<char>,
    pub name: Seq<char>,
    pub user: Seq<char>,
    pub status: Seq<char>,
    pub time: Seq<char>,
    pub mem: Seq<char>,
}

impl View for NodeJobEntry {
    type V = EntryView;

    open spec fn view(&self) -> EntryView {
        EntryView {
            job_id: self.job_id@,
            name: self.name@,
            user: self.user@,
            status: self.status@,
            time: self.time@,
            mem: self.mem@,
        }
    }
}

pub open spec fn entry_views(s: Seq<NodeJobEntry>) -> Seq<EntryView> {
    s.map_values(|e: NodeJobEntry| e@)
}

pub open spec fn blank(l: Seq<char>) -> bool {
    trim(l).len() == 0
}

/// The running jobs listed by `squeue -o '%i|%j|%u|%T|%M|%m'`, one per
/// non-blank line of at least six `|`-separated fields; the first shorter
/// line is the error.
pub open spec fn running_rows(ls: Seq<Seq<char>>) -> Result<Seq<EntryView>, Seq<char>>
    decreases ls.len(),
{
    if ls.len() == 0 {
        Ok(Seq::empty())
    } else {
        match running_rows(ls.drop_last()) {
            Err(l) => Err(l),
            Ok(js) => {
                let l = ls.last();
                let p = split_char(l, '|');
                if blank(l) {
                    Ok(js)
                } else if p.len() < 6 {
                    Err(l)
                } else {
                    Ok(
                        js.push(
                            EntryView {
                                job_id: p[0],
                                name: p[1],
                                user: p[2],
                                status: p[3],
                                time: p[4],
                                mem: p[5],
                            },
                        ),
                    )
                }
            },
        }
    }
}

/// What one more line of `squeue -o '%i|%j|%u|%T|%M|%m'` output does to a
/// node's running jobs: a blank line adds nothing; a line of six or more
/// fields adds the entry whose id, name, user, state, time and memory are its
/// first six fields in that order; a shorter line is the error.
pub proof fn law_running_row_fields(ls: Seq<Seq<char>>, l: Seq<char>)
    requires
        running_rows(ls) is Ok,
    ensures
        blank(l) ==> running_rows(ls.push(l)) == running_rows(ls),
        !blank(l) && split_char(l, '|').len() < 6 ==> running_rows(ls.push(l)) == Err::<Seq<EntryView>, Seq<char>>(l),
        !blank(l) && split_char(l, '|').len() >= 6 ==> running_rows(ls.push(l)) is Ok
            && (running_rows(ls.push(l))->Ok_0).drop_last() == running_rows(ls)->Ok_0
            && (running_rows(ls.push(l))->Ok_0).len() == (running_rows(ls)->Ok_0).len() + 1
            && (running_rows(ls.push(l))->Ok_0).last().job_id == split_char(l, '|')[0]
            && (running_rows(ls.push(l))->Ok_0).last().name == split_char(l, '|')[1]
            && (running_rows(ls.push(l))->Ok_0).last().user == split_char(l, '|')[2]
            && (running_rows(ls.push(l))->Ok_0).last().status == split_char(l, '|')[3]
            && (running_rows(ls.push(l))->Ok_0).last().time == split_char(l, '|')[4]
            && (running_rows(ls.push(l))->Ok_0).last().mem == split_char(l, '|')[5],
{
    let t = ls.push(l);
    assert(t.drop_last() =~= ls);
    assert(t.last() == l);
    if !blank(l) && split_char(l, '|').len() >= 6 {
        let js = running_rows(ls)->Ok_0;
        let p = split_char(l, '|');
        let e = EntryView { job_id: p[0], name: p[1], user: p[2], status: p[3], time: p[4], mem: p[5] };
        assert(running_rows(t) == Ok::<Seq<EntryView>, Seq<char>>(js.push(e)));
        assert(js.push(e).drop_last() =~= js);
    }
}

/// What one more line of `squeue -o '%i|%j|%u|%T|%M|%P|%m'` output does to a
/// node's pending jobs: a blank line adds nothing; a line of seven or more
/// fields whose sixth (the partition) is one of `names` adds the entry whose
/// id, name, user, state and time are its first five fields and whose memory
/// is its seventh; such a line of another partition adds nothing; a shorter
/// line is the error.
pub proof fn law_pending_row_fields(ls: Seq<Seq<char>>, names: Seq<Seq<char>>, l: Seq<char>)
    requires
        pending_rows(ls, names) is Ok,
    ensures
        blank(l) ==> pending_rows(ls.push(l), names) == pending_rows(ls, names),
        !blank(l) && split_char(l, '|').len() < 7 ==> pending_rows(ls.push(l), names) == Err::<
            Seq<EntryView>,
            Seq<char>,
        >(l),
        !blank(l) && split_char(l, '|').len() >= 7 && !names.contains(split_char(l, '|')[5])
            ==> pending_rows(ls.push(l), names) == pending_rows(ls, names),
        !blank(l) && split_char(l, '|').len() >= 7 && names.contains(split_char(l, '|')[5])
            ==> pending_rows(ls.push(l), names) is Ok
            && (pending_rows(ls.push(l), names)->Ok_0).drop_last() == pending_rows(ls, names)->Ok_0
            && (pending_rows(ls.push(l), names)->Ok_0).len() == (pending_rows(ls, names)->Ok_0).len() + 1
            && (pending_rows(ls.push(l), names)->Ok_0).last().job_id == split_char(l, '|')[0]
            && (pending_rows(ls.push(l), names)->Ok_0).last().name == split_char(l, '|')[1]
            && (pending_rows(ls.push(l), names)->Ok_0).last().user == split_char(l, '|')[2]
            && (pending_rows(ls.push(l), names)->Ok_0).last().status == split_char(l, '|')[3]
            && (pending_rows(ls.push(l), names)->Ok_0).last().time == split_char(l, '|')[4]
            && (pending_rows(ls.push(l), names)->Ok_0).last().mem == split_char(l, '|')[6],
{
    let t = ls.push(l);
    assert(t.drop_last() =~= ls);
    assert(t.last() == l);
    if !blank(l) && split_char(l, '|').len() >= 7 && names.contains(split_char(l, '|')[5]) {
        let js = pending_rows(ls, names)->Ok_0;
        let p = split_char(l, '|');
        let e = EntryView { job_id: p[0], name: p[1], user: p[2], status: p[3], time: p[4], mem: p[6] };
        assert(pending_rows(t, names) == Ok::<Seq<EntryView>, Seq<char>>(js.push(e)));
        assert(js.push(e).drop_last() =~= js);
    }
}

fn owned(v: &Vec<char>) -> (r: String)
    ensures
        r@ == v@,
{
    string_of(v.as_slice())
}

fn is_blank(l: &[char]) -> (r: bool)
    ensures
        r == blank(l@),
{
    let t = trim_chars(l);
    t.len() == 0
}

pub proof fn lemma_rows_err_sticks(ls: Seq<Seq<char>>, k: int, l: Seq<char>)
    requires
        0 <= k <= ls.len(),
        running_rows(ls.take(k)) == Err::<Seq<EntryView>, Seq<char>>(l),
    ensures
        running_rows(ls) == Err::<Seq<EntryView>, Seq<char>>(l),
    decreases ls.len() - k,
{
    if k < ls.len() {
        assert(ls.take(k + 1).drop_last() =~= ls.take(k));
        lemma_rows_err_sticks(ls, k + 1, l);
    } else {
        assert(ls.take(k) == ls);
    }
}

/// The running jobs listed by `squeue -o '%i|%j|%u|%T|%M|%m'`.
pub fn parse_node_running_jobs(stdout: &str) -> (r: Result<Vec<NodeJobEntry>, SlurmError>)
    ensures
        match r {
            Ok(v) => running_rows(lines(stdout@)) == Ok::<Seq<EntryView>, Seq<char>>(entry_views(v@)),
            Err(e) => exists|l: Seq<char>|
                running_rows(lines(stdout@)) == Err::<Seq<EntryView>, Seq<char>>(l) && (
                e matches SlurmError::RunningRow(x) && x@ == l),
        },
{
    let text = chars_of(stdout);
    let ls = lines_of(text.as_slice());
    let ghost all = views(ls@);
    let mut jobs: Vec<NodeJobEntry> = Vec::new();
    let mut i: usize = 0;
    assert(all.take(0) =~= Seq::<Seq<char>>::empty());
    assert(entry_views(jobs@) =~= Seq::<EntryView>::empty());
    while i < ls.len()
        invariant
            all == views(ls@),
            all == lines(stdout@),
            i <= ls@.len(),
            running_rows(all.take(i as int)) == Ok::<Seq<EntryView>, Seq<char>>(entry_views(jobs@)),
        decreases ls@.len() - i,
    {
        let ghost prefix = all.take(i + 1);
        assert(prefix.drop_last() =~= all.take(i as int));
        assert(prefix.last() == ls@[i as int]@);
        let line = &ls[i];
        if !is_blank(line.as_slice()) {
            let parts = split_on(line.as_slice(), '|');
            let ghost pv = views(parts@);
            if parts.len() < 6 {
                assert(running_rows(prefix) == Err::<Seq<EntryView>, Seq<char>>(line@));
                proof {
                    lemma_rows_err_sticks(all, i as int + 1, line@);
                }
                return Err(SlurmError::RunningRow(owned(line)));
            }
            let e = NodeJobEntry {
                job_id: owned(&parts[0]),
                name: owned(&parts[1]),
                user: owned(&parts[2]),
                status: owned(&parts[3]),
                time: owned(&parts[4]),
                mem: owned(&parts[5]),
            };
            let ghost before = entry_views(jobs@);
            jobs.push(e);
            assert(entry_views(jobs@) =~= before.push(e@));
        }
        i += 1;
    }
    assert(all.take(ls@.len() as int) == all);
    Ok(jobs)
}

/// The non-blank lines of `s`, trimmed.
pub open spec fn trimmed_names(ls: Seq<Seq<char>>) -> Seq<Seq<char>>
    decreases ls.len(),
{
    if ls.len() == 0 {
        Seq::empty()
    } else {
        let p = trimmed_names(ls.drop_last());
        if blank(ls.last()) {
            p
        } else {
            p.push(trim(ls.last()))
        }
    }
}

/// The pending jobs listed by `squeue -o '%i|%j|%u|%T|%M|%P|%m'` whose
/// partition (field six) is one of `names`; a non-blank line of fewer than
/// seven fields is the error.
pub open spec fn pending_rows(ls: Seq<Seq<char>>, names: Seq<Seq<char>>) -> Result<
    Seq<EntryView>,
    Seq<char>,
>
    decreases ls.len(),
{
    if ls.len() == 0 {
        Ok(Seq::empty())
    } else {
        match pending_rows(ls.drop_last(), names) {
            Err(l) => Err(l),
            Ok(js) => {
                let l = ls.last();
                let p = split_char(l, '|');
                if blank(l) {
                    Ok(js)
                } else if p.len() < 7 {
                    Err(l)
                } else if names.contains(p[5]) {
                    Ok(
                        js.push(
                            EntryView {
                                job_id: p[0],
                                name: p[1],
                                user: p[2],
                                status: p[3],
                                time: p[4],
                                mem: p[6],
                            },
                        ),
                    )
                } else {
                    Ok(js)
                }
            },
        }
    }
}

pub proof fn lemma_pending_err_sticks(ls: Seq<Seq<char>>, names: Seq<Seq<char>>, k: int, l: Seq<char>)
    requires
        0 <= k <= ls.len(),
        pending_rows(ls.take(k), names) == Err::<Seq<EntryView>, Seq<char>>(l),
    ensures
        pending_rows(ls, names) == Err::<Seq<EntryView>, Seq<char>>(l),
    decreases ls.len() - k,
{
    if k < ls.len() {
        assert(ls.take(k + 1).drop_last() =~= ls.take(k));
        lemma_pending_err_sticks(ls, names, k + 1, l);
    } else {
        assert(ls.take(k) == ls);
    }
}

fn contains_name(names: &Vec<Vec<char>>, x: &[char]) -> (r: bool)
    ensures
        r == views(names@).contains(x@),
{
    let mut i: usize = 0;
    while i < names.len()
        invariant
            i <= names@.len(),
            forall|j: int| 0 <= j < i ==> views(names@)[j] != x@,
        decreases names@.len() - i,
    {
        if crate::text::same_chars(names[i].as_slice(), x) {
            assert(views(names@)[i as int] == x@);
            return true;
        }
        assert(views(names@)[i as int] == names@[i as int]@);
        i += 1;
    }
    false
}

/// The pending jobs listed by `squeue -o '%i|%j|%u|%T|%M|%P|%m'` that wait
/// for one of the partitions listed (one per line) by `sinfo -o '%P'`.
pub fn parse_node_pending_jobs(stdout: &str, partitions_stdout: &str) -> (r: Result<
    Vec<NodeJobEntry>,
    SlurmError,
>)
    ensures
        match r {
            Ok(v) => pending_rows(lines(stdout@), trimmed_names(lines(partitions_stdout@))) == Ok::<
                Seq<EntryView>,
                Seq<char>,
            >(entry_views(v@)),
            Err(e) => exists|l: Seq<char>|
                pending_rows(lines(stdout@), trimmed_names(lines(partitions_stdout@))) == Err::<
                    Seq<EntryView>,
                    Seq<char>,
                >(l) && (e matches SlurmError::PendingRow(x) && x@ == l),
        },
{
    let ptext = chars_of(partitions_stdout);
    let pls = lines_of(ptext.as_slice());
    let ghost pall = views(pls@);
    let mut names: Vec<Vec<char>> = Vec::new();
    let mut k: usize = 0;
    assert(pall.take(0) =~= Seq::<Seq<char>>::empty());
    assert(views(names@) =~= Seq::<Seq<char>>::empty());
    while k < pls.len()
        invariant
            pall == views(pls@),
            k <= pls@.len(),
            views(names@) == trimmed_names(pall.take(k as int)),
        decreases pls@.len() - k,
    {
        assert(pall.take(k + 1).drop_last() =~= pall.take(k as int));
        assert(pall.take(k + 1).last() == pls@[k as int]@);
        let t = trim_chars(pls[k].as_slice());
        if t.len() > 0 {
            let ghost before = views(names@);
            names.push(t);
            assert(views(names@) =~= before.push(trim(pls@[k as int]@)));
        }
        k += 1;
    }
    assert(pall.take(pls@.len() as int) == pall);
    let ghost nv = views(names@);
    let text = chars_of(stdout);
    let ls = lines_of(text.as_slice());
    let ghost all = views(ls@);
    let mut jobs: Vec<NodeJobEntry> = Vec::new();
    let mut i: usize = 0;
    assert(all.take(0) =~= Seq::<Seq<char>>::empty());
    assert(entry_views(jobs@) =~= Seq::<EntryView>::empty());
    while i < ls.len()
        invariant
            all == views(ls@),
            all == lines(stdout@),
            nv == views(names@),
            nv == trimmed_names(lines(partitions_stdout@)),
            i <= ls@.len(),
            pending_rows(all.take(i as int), nv) == Ok::<Seq<EntryView>, Seq<char>>(
                entry_views(jobs@),
            ),
        decreases ls@.len() - i,
    {
        let ghost prefix = all.take(i + 1);
        assert(prefix.drop_last() =~= all.take(i as int));
        assert(prefix.last() == ls@[i as int]@);
        let line = &ls[i];
        if !is_blank(line.as_slice()) {
            let parts = split_on(line.as_slice(), '|');
            let ghost pv = views(parts@);
            if parts.len() < 7 {
                assert(pending_rows(prefix, nv) == Err::<Seq<EntryView>, Seq<char>>(line@));
                proof {
                    lemma_pending_err_sticks(all, nv, i as int + 1, line@);
                }
                return Err(SlurmError::PendingRow(owned(line)));
            }
            assert(pv[5] == parts@[5]@);
            if contains_name(&names, parts[5].as_slice()) {
                let e = NodeJobEntry {
                    job_id: owned(&parts[0]),
                    name: owned(&parts[1]),
                    user: owned(&parts[2]),
                    status: owned(&parts[3]),
                    time: owned(&parts[4]),
                    mem: owned(&parts[6]),
                };
                let ghost before = entry_views(jobs@);
                jobs.push(e);
                assert(entry_views(jobs@) =~= before.push(e@));
            }
        }
        i += 1;
    }
    assert(all.take(ls@.len() as int) == all);
    Ok(jobs)
}

/// The node jobs from the outputs of the running-jobs, pending-jobs and
/// partition queries (running rows are read first).
pub fn node_jobs_from_outputs(
    node: &str,
    running_stdout: &str,
    pending_stdout: &str,
    partitions_stdout: &str,
) -> (r: Result<NodeJobsData, SlurmError>)
    ensures
        match r {
            Ok(d) => d.node@ == node@ && running_rows(lines(running_stdout@)) == Ok::<
                Seq<EntryView>,
                Seq<char>,
            >(entry_views(d.running_jobs@)) && pending_rows(
                lines(pending_stdout@),
                trimmed_names(lines(partitions_stdout@)),
            ) == Ok::<Seq<EntryView>, Seq<char>>(entry_views(d.pending_jobs@)),
            Err(e) => match running_rows(lines(running_stdout@)) {
                Err(l) => e matches SlurmError::RunningRow(x) && x@ == l,
                Ok(_) => pending_rows(lines(pending_stdout@), trimmed_names(lines(partitions_stdout@)))
                    matches Err(l) && e matches SlurmError::PendingRow(x) && x@ == l,
            },
        },
{
    let running_jobs = parse_node_running_jobs(running_stdout)?;
    let pending_jobs = parse_node_pending_jobs(pending_stdout, partitions_stdout)?;
    Ok(NodeJobsData { node: node.to_owned(), running_jobs, pending_jobs })
}

/// The result of a client query step: its output when the command succeeded,
/// else an error naming the step and the trimmed error output.
pub fn query_output(what: &str, output: ExecRunData) -> (r: Result<String, SlurmError>)
    ensures
        output.exit_code == 0 ==> (r matches Ok(s) && s@ == output.stdout@),
        output.exit_code != 0 ==> (r matches Err(SlurmError::QueryFailed { what: w, stderr: e })
            && w@ == what@ && e@ == output.stderr@),
{
    if output.exit_code != 0 {
        return Err(
            SlurmError::QueryFailed {
                what: what.to_owned(),
                stderr: output.stderr,
            },
        );
    }
    Ok(output.stdout)
}

/// The remote queries whose failure the client reports by name.
#[derive(Clone, Copy, Debug, PartialEq, Eq)]
pub enum QueryStep {
    NodeJobsRunning,
    NodeJobsPending,
    NodeJobsPartition,
    PartitionNodes,
    PartitionJobs,
}

/// The name a failed query is reported under.
pub open spec fn query_step_name(step: QueryStep) -> Seq<char> {
    match step {
        QueryStep::NodeJobsRunning => "node-jobs running query"@,
        QueryStep::NodeJobsPending => "node-jobs pending query"@,
        QueryStep::NodeJobsPartition => "node-jobs partition query"@,
        QueryStep::PartitionNodes => "partition-info node query"@,
        QueryStep::PartitionJobs => "partition-info jobs query"@,
    }
}

fn query_step_label(step: QueryStep) -> (r: &'static str)
    ensures
        r@ == query_step_name(step),
{
    match step {
        QueryStep::NodeJobsRunning => "node-jobs running query",
        QueryStep::NodeJobsPending => "node-jobs pending query",
        QueryStep::NodeJobsPartition => "node-jobs partition query",
        QueryStep::PartitionNodes => "partition-info node query",
        QueryStep::PartitionJobs => "partition-info jobs query",
    }
}

/// The standard output of the query `step`, or its failure reported under
/// the step's name with the query's error output.
pub fn query_step_output(step: QueryStep, output: ExecRunData) -> (r: Result<String, SlurmError>)
    ensures
        output.exit_code == 0 ==> (r matches Ok(s) && s@ == output.stdout@),
        output.exit_code != 0 ==> (r matches Err(SlurmError::QueryFailed { what: w, stderr: e })
            && w@ == query_step_name(step) && e@ == output.stderr@),
{
    query_output(query_step_label(step), output)
}

/// The queries of `node-jobs`, in the order they run: running jobs on the
/// node, pending jobs, then the node's partitions.
pub fn node_jobs_plan(node: &str) -> (r: Vec<(QueryStep, String)>)
    ensures
        r@.len() == 3,
        r@[0].0 == QueryStep::NodeJobsRunning,
        r@[1].0 == QueryStep::NodeJobsPending,
        r@[2].0 == QueryStep::NodeJobsPartition,
        r@[0].1@ == "squeue -w "@ + node@ + " -t RUNNING -h -o '%i|%j|%u|%T|%M|%m'"@,
        r@[1].1@ == "squeue -t PENDING -h -o '%i|%j|%u|%T|%M|%P|%m'"@,
        r@[2].1@ == "sinfo -N -n "@ + node@ + " -h -o '%P'"@,
{
    let (running, pending, partitions) = node_jobs_commands(node);
    let mut v: Vec<(QueryStep, String)> = Vec::new();
    v.push((QueryStep::NodeJobsRunning, running));
    v.push((QueryStep::NodeJobsPending, pending));
    v.push((QueryStep::NodeJobsPartition, partitions));
    v
}

/// The queries of `partition-info`, in the order they run: the node rows,
/// then the running jobs.
pub fn partition_info_plan(partition: Option<&str>) -> (r: Vec<(QueryStep, String)>)
    ensures
        r@.len() == 2,
        r@[0].0 == QueryStep::PartitionNodes,
        r@[1].0 == QueryStep::PartitionJobs,
        partition is Some ==> r@[0].1@ == "sinfo -p "@ + partition->0@ + " -N -h -o '%N|%C|%G|%m'"@
            && r@[1].1@ == "squeue -p "@ + partition->0@ + " -t RUNNING -h -o '%i|%N|%b|%M'"@,
        partition is None ==> r@[0].1@ == "sinfo -N -h -o '%N|%P|%C|%G|%m'"@ && r@[1].1@
            == "squeue -t RUNNING -h -o '%i|%N|%b|%M'"@,
{
    let (nodes, jobs) = partition_info_commands(partition);
    let mut v: Vec<(QueryStep, String)> = Vec::new();
    v.push((QueryStep::PartitionNodes, nodes));
    v.push((QueryStep::PartitionJobs, jobs));
    v
}

/// What a command made of remote queries does next.
#[derive(Debug, PartialEq, Eq)]
pub enum QueryAction {
    /// Run the query at this position of the plan.
    Run(usize),
    /// Every query succeeded.
    Finished,
    /// A query failed; the command stops with this error.
    Stop(SlurmError),
}

/// One step of a command that runs the queries of `plan` in order and stops
/// at the first that fails. `outputs` holds the standard output of each query
/// that succeeded so far; `last` is the result of the query just run, `None`
/// before the first. A successful result is kept and the next query run; a
/// failed one stops the command, reported under its step's name.
pub fn next_query(plan: &Vec<(QueryStep, String)>, outputs: &mut Vec<String>, last: Option<ExecRunData>) -> (r:
    QueryAction)
    ensures
        old(outputs)@.len() >= plan@.len() ==> r == QueryAction::Finished && final(outputs)@ == old(outputs)@,
        old(outputs)@.len() < plan@.len() ==> match last {
            None => r == QueryAction::Run(old(outputs)@.len() as usize) && final(outputs)@ == old(outputs)@,
            Some(o) => if o.exit_code != 0 {
                final(outputs)@ == old(outputs)@ && (r matches QueryAction::Stop(
                    SlurmError::QueryFailed { what: w, stderr: e },
                ) && w@ == query_step_name(plan@[old(outputs)@.len() as int].0) && e@ == o.stderr@)
            } else {
                string_views(final(outputs)@) == string_views(old(outputs)@).push(o.stdout@) && if old(outputs)@.len() + 1 < plan@.len() {
                    r == QueryAction::Run((old(outputs)@.len() + 1) as usize)
                } else {
                    r == QueryAction::Finished
                }
            },
        },
{
    let i = outputs.len();
    if i >= plan.len() {
        return QueryAction::Finished;
    }
    match last {
        None => QueryAction::Run(i),
        Some(o) => match query_step_output(plan[i].0, o) {
            Err(e) => QueryAction::Stop(e),
            Ok(s) => {
                let ghost before = outputs@;
                outputs.push(s);
                assert(string_views(outputs@) =~= string_views(before).push(s@));
                if i + 1 < plan.len() {
                    QueryAction::Run(i + 1)
                } else {
                    QueryAction::Finished
                }
            },
        },
    }
}

/// The description of a node from the output of `scontrol show node`.
pub fn node_info_from_output(node: &str, output: ExecRunData) -> (r: Result<NodeInfoData, SlurmError>)
    ensures
        output.exit_code == 0 ==> (r matches Ok(d) && d.node@ == node@ && d.raw_output@
            == output.stdout@),
        output.exit_code != 0 ==> (r matches Err(SlurmError::QueryFailed { what: w, stderr: e })
            && w@ == "node-info command"@ && e@ == output.stderr@),
{
    let raw_output = query_output("node-info command", output)?;
    Ok(NodeInfoData { node: node.to_owned(), raw_output })
}

// ---------------------------------------------------------------------------
// Table cells
// ---------------------------------------------------------------------------

/// A table cell of at most `width` characters: the value itself when it
/// fits, else its first `width - 1` characters and `+` (`…` when `width` is
/// at most one).
pub open spec fn truncate_spec(value: Seq<char>, width: nat) -> Seq<char> {
    if value.len() <= width {
        value
    } else if width <= 1 {
        "\u{2026}"@
    } else {
        value.take(width - 1).push('+')
    }
}

/// A table cell of at most `width` characters.
pub fn truncate_for_table(value: &str, width: usize) -> (r: String)
    ensures
        r@ == truncate_spec(value@, width as nat),
{
    let cs = chars_of(value);
    if cs.len() <= width {
        return string_of(cs.as_slice());
    }
    if width <= 1 {
        return "\u{2026}".to_owned();
    }
    let mut out = copy_range(cs.as_slice(), 0, width - 1);
    out.push('+');
    string_of(out.as_slice())
}

/// A table cell is never wider than its column (one character at least).
pub proof fn law_truncate_fits(value: Seq<char>, width: nat)
    ensures
        truncate_spec(value, width).len() <= if width == 0 { 1 } else { width },
{
    reveal_strlit("\u{2026}");
}

// ---------------------------------------------------------------------------
// `sinfo` figures
// ---------------------------------------------------------------------------

pub open spec fn parse_or_zero(s: Seq<char>) -> u32 {
    match crate::text::parse_u32_spec(s) {
        Some(n) => n,
        None => 0,
    }
}

/// The four numbers of an `allocated/idle/other/total` CPU field; all zero
/// unless it has exactly four parts, and zero for a part that is no number.
pub open spec fn cpu_alloc_spec(alloc: Seq<char>) -> (u32, u32, u32, u32) {
    let p = split_char(alloc, '/');
    if p.len() != 4 {
        (0, 0, 0, 0)
    } else {
        (parse_or_zero(p[0]), parse_or_zero(p[1]), parse_or_zero(p[2]), parse_or_zero(p[3]))
    }
}

fn num_or_zero(v: &Vec<char>) -> (r: u32)
    ensures
        r == parse_or_zero(v@),
{
    match parse_u32(v.as_slice()) {
        Some(n) => n,
        None => 0,
    }
}

/// The numbers of an `allocated/idle/other/total` CPU field.
pub fn parse_cpu_alloc(alloc: &str) -> (r: (u32, u32, u32, u32))
    ensures
        r == cpu_alloc_spec(alloc@),
{
    let cs = chars_of(alloc);
    let parts = split_on(cs.as_slice(), '/');
    if parts.len() != 4 {
        return (0, 0, 0, 0);
    }
    (num_or_zero(&parts[0]), num_or_zero(&parts[1]), num_or_zero(&parts[2]), num_or_zero(&parts[3]))
}

pub open spec fn typed_gres_pattern() -> Seq<char> {
    "gpu:([a-zA-Z_]\\w*):(\\d+)"@
}

pub open spec fn simple_gres_pattern() -> Seq<char> {
    "gpu:(\\d+)"@
}

/// The GPU count and upper-case type of a `sinfo` GRES field, given the
/// captures of the typed (`gpu:<type>:<n>`) and simple (`gpu:<n>`) forms: a
/// typed match gives its count (zero when not a number) and type, else a
/// simple match gives its count and `UNKNOWN`, else no GPU and no type.
pub open spec fn gres_local_choice(
    typed: Option<Seq<Option<Seq<char>>>>,
    simple: Option<Seq<Option<Seq<char>>>>,
) -> (u32, Option<Seq<char>>) {
    if typed is Some {
        (
            match opt_parse(group_of(typed, 2)) {
                Some(n) => n,
                None => 0,
            },
            match group_of(typed, 1) {
                Some(t) => Some(upper(t)),
                None => None,
            },
        )
    } else if simple is Some {
        (
            match opt_parse(group_of(simple, 1)) {
                Some(n) => n,
                None => 0,
            },
            Some("UNKNOWN"@),
        )
    } else {
        (0, None)
    }
}

pub open spec fn gres_local_spec(gres: Seq<char>) -> (u32, Option<Seq<char>>) {
    let l = lower(gres);
    gres_local_choice(
        regex_captures_of(typed_gres_pattern(), l),
        regex_captures_of(simple_gres_pattern(), l),
    )
}

pub open spec fn opt_string_view(o: Option<String>) -> Option<Seq<char>> {
    crate::text::opt_view(o)
}

fn parse_group(caps: &Option<Vec<Option<String>>>, i: usize) -> (r: u32)
    ensures
        r == match opt_parse(group_of(captures_view(*caps), i as int)) {
            Some(n) => n,
            None => 0u32,
        },
{
    match capture_group(caps, i) {
        Some(s) => match parse_u32(chars_of(s.as_str()).as_slice()) {
            Some(n) => n,
            None => 0,
        },
        None => 0,
    }
}

/// The GPU count and type, given the captures of the typed and simple forms.
pub fn gres_local_from_captures(
    typed: Option<Vec<Option<String>>>,
    simple: Option<Vec<Option<String>>>,
) -> (r: (u32, Option<String>))
    ensures
        (r.0, opt_string_view(r.1)) == gres_local_choice(captures_view(typed), captures_view(simple)),
{
    if typed.is_some() {
        let n = parse_group(&typed, 2);
        let t = match capture_group(&typed, 1) {
            Some(s) => Some(string_of(upper_chars(chars_of(s.as_str()).as_slice()).as_slice())),
            None => None,
        };
        return (n, t);
    }
    if simple.is_some() {
        let n = parse_group(&simple, 1);
        return (n, Some("UNKNOWN".to_owned()));
    }
    (0, None)
}

/// The GPU count and upper-case type of a `sinfo` GRES field, matched on its
/// lower-case form: `gpu:a10:2` gives `(2, Some("A10"))`, `gpu:8` gives
/// `(8, Some("UNKNOWN"))`, anything else `(0, None)`.
pub fn parse_gpu_gres_local(gres: &str) -> (r: (u32, Option<String>))
    ensures
        (r.0, opt_string_view(r.1)) == gres_local_spec(gres@),
{
    let l = lower_chars(chars_of(gres).as_slice());
    let lower_text = string_of(l.as_slice());
    let typed = regex_captures("gpu:([a-zA-Z_]\\w*):(\\d+)", lower_text.as_str());
    let simple = regex_captures("gpu:(\\d+)", lower_text.as_str());
    gres_local_from_captures(typed, simple)
}

} // verus!
