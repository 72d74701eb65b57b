//! Job listings: `squeue` rows and the `sbatch` reply.
use vstd::prelude::*;
use crate::error::SlurmError;
use crate::pattern::{capture_group, captures_view, group_of, regex_captures, regex_captures_of, regex_compiles, regex_is_valid};
use crate::proto::SlurmJob;
use crate::text::{chars_of, lines, lines_of, parse_u32, parse_u32_spec, splitn_char, splitn_on, string_of, trim, trim_chars, views};

verus! {

/// What a job row holds.
pub struct JobView {
    pub job_id: Seq<char>,
    pub partition: Seq<char>,
    pub name: Seq<char>,
    pub user: Seq<char>,
    pub state: Seq<char>,
    pub time: Seq<char>,
    pub nodes: u32,
    pub reason: Seq<char>,
}

impl View for SlurmJob {
    type V = JobView;

    open spec fn view(&self) -> JobView {
        JobView {
            job_id: self.job_id@,
            partition: self.partition@,
            name: self.name@,
            user: self.user@,
            state: self.state@,
            time: self.time@,
            nodes: self.nodes,
            reason: self.reason@,
        }
    }
}

pub open spec fn job_views(s: Seq<SlurmJob>) -> Seq<JobView> {
    s.map_values(|j: SlurmJob| j@)
}

/// One line of `squeue -o '%i|%P|%j|%u|%T|%M|%D|%R'` output, numbered `no`
/// from 1: nothing for a blank line, else eight `|`-separated fields (the
/// last taking the rest of the line) with a numeric node count.
pub open spec fn squeue_row(raw: Seq<char>, no: nat) -> Option<Result<JobView, SlurmError>> {
    let line = trim(raw);
    let parts = splitn_char(line, 8, '|');
    if line.len() == 0 {
        None
    } else if parts.len() != 8 {
        Some(Err(SlurmError::SqueueFieldCount { line: no as usize, got: parts.len() as usize }))
    } else if parse_u32_spec(parts[6]) is None {
        Some(Err(SlurmError::SqueueNodeCount { line: no as usize }))
    } else {
        Some(
            Ok(
                JobView {
                    job_id: parts[0],
                    partition: parts[1],
                    name: parts[2],
                    user: parts[3],
                    state: parts[4],
                    time: parts[5],
                    nodes: parse_u32_spec(parts[6])->0,
                    reason: parts[7],
                },
            ),
        )
    }
}

/// The jobs of the given lines, or the error of the first bad line.
pub open spec fn squeue_rows(ls: Seq<Seq<char>>) -> Result<Seq<JobView>, SlurmError>
    decreases ls.len(),
{
    if ls.len() == 0 {
        Ok(Seq::empty())
    } else {
        match squeue_rows(ls.drop_last()) {
            Err(e) => Err(e),
            Ok(jobs) => match squeue_row(ls.last(), ls.len()) {
                None => Ok(jobs),
                Some(Err(e)) => Err(e),
                Some(Ok(j)) => Ok(jobs.push(j)),
            },
        }
    }
}

fn owned(s: &Vec<char>) -> (r: String)
    ensures
        r@ == s@,
{
    string_of(s.as_slice())
}

/// The jobs listed by `squeue -o '%i|%P|%j|%u|%T|%M|%D|%R'`, one per
/// non-blank line; a line without eight fields or with a non-numeric node
/// count is an error naming its (1-based) line number.
pub fn parse_squeue_jobs_output(stdout: &str) -> (r: Result<Vec<SlurmJob>, SlurmError>)
    ensures
        match r {
            Ok(jobs) => squeue_rows(lines(stdout@)) == Ok::<Seq<JobView>, SlurmError>(
                job_views(jobs@),
            ),
            Err(e) => squeue_rows(lines(stdout@)) == Err::<Seq<JobView>, SlurmError>(e),
        },
{
    let text = chars_of(stdout);
    let ls = lines_of(text.as_slice());
    let ghost all = views(ls@);
    let mut jobs: Vec<SlurmJob> = Vec::new();
    let mut i: usize = 0;
    assert(all.take(0) =~= Seq::<Seq<char>>::empty());
    assert(job_views(jobs@) =~= Seq::<JobView>::empty());
    while i < ls.len()
        invariant
            all == views(ls@),
            all == lines(text@),
            text@ == stdout@,
            i <= ls@.len(),
            squeue_rows(all.take(i as int)) == Ok::<Seq<JobView>, SlurmError>(job_views(jobs@)),
        decreases ls@.len() - i,
    {
        let ghost prefix = all.take(i + 1);
        assert(prefix.drop_last() =~= all.take(i as int));
        assert(prefix.last() == ls@[i as int]@);
        assert(prefix.len() == i + 1);
        let line = trim_chars(ls[i].as_slice());
        if line.len() > 0 {
            let parts = splitn_on(line.as_slice(), 8, '|');
            let ghost pv = views(parts@);
            if parts.len() != 8 {
                let e = SlurmError::SqueueFieldCount { line: i + 1, got: parts.len() };
                assert(squeue_rows(prefix) == Err::<Seq<JobView>, SlurmError>(e));
                assert(all.take(ls@.len() as int) == all);
                proof {
                    lemma_squeue_rows_err_sticks(all, i as int + 1, e);
                }
                return Err(e);
            }
            assert(pv[6] == parts@[6]@);
            let nodes = match parse_u32(parts[6].as_slice()) {
                Some(n) => n,
                None => {
                    let e = SlurmError::SqueueNodeCount { line: i + 1 };
                    assert(squeue_rows(prefix) == Err::<Seq<JobView>, SlurmError>(e));
                    proof {
                        lemma_squeue_rows_err_sticks(all, i as int + 1, e);
                    }
                    return Err(e);
                },
            };
            let job = SlurmJob {
                job_id: owned(&parts[0]),
                partition: owned(&parts[1]),
                name: owned(&parts[2]),
                user: owned(&parts[3]),
                state: owned(&parts[4]),
                time: owned(&parts[5]),
                nodes,
                reason: owned(&parts[7]),
            };
            let ghost before = job_views(jobs@);
            jobs.push(job);
            assert(job_views(jobs@) =~= before.push(job@));
        }
        i += 1;
    }
    assert(all.take(ls@.len() as int) == all);
    Ok(jobs)
}

/// Once a prefix of the lines gives an error, so do all longer prefixes.
pub proof fn lemma_squeue_rows_err_sticks(ls: Seq<Seq<char>>, k: int, e: SlurmError)
    requires
        0 <= k <= ls.len(),
        squeue_rows(ls.take(k)) == Err::<Seq<JobView>, SlurmError>(e),
    ensures
        squeue_rows(ls) == Err::<Seq<JobView>, SlurmError>(e),
    decreases ls.len() - k,
{
    if k < ls.len() {
        assert(ls.take(k + 1).drop_last() =~= ls.take(k));
        lemma_squeue_rows_err_sticks(ls, k + 1, e);
    } else {
        assert(ls.take(k) == ls);
    }
}

/// The `|`-separated fields of a trimmed job row, at most eight (the last
/// taking the rest of the line).
pub open spec fn squeue_fields(l: Seq<char>) -> Seq<Seq<char>> {
    splitn_char(trim(l), 8, '|')
}

/// What one more line of `squeue -o '%i|%P|%j|%u|%T|%M|%D|%R'` output does to
/// the listing: a blank line adds nothing; a line of eight fields with a
/// numeric seventh adds the job whose id, partition, name, user, state, time,
/// node count and reason are its fields in that order; any other line is an
/// error naming its line number.
pub proof fn law_squeue_row_fields(ls: Seq<Seq<char>>, l: Seq<char>)
    requires
        squeue_rows(ls) is Ok,
    ensures
        trim(l).len() == 0 ==> squeue_rows(ls.push(l)) == squeue_rows(ls),
        trim(l).len() > 0 && squeue_fields(l).len() != 8 ==> squeue_rows(ls.push(l)) == Err::<
            Seq<JobView>,
            SlurmError,
        >(SlurmError::SqueueFieldCount { line: (ls.len() + 1) as usize, got: squeue_fields(l).len() as usize }),
        trim(l).len() > 0 && squeue_fields(l).len() == 8 && parse_u32_spec(squeue_fields(l)[6]) is None
            ==> squeue_rows(ls.push(l)) == Err::<Seq<JobView>, SlurmError>(
            SlurmError::SqueueNodeCount { line: (ls.len() + 1) as usize },
        ),
        trim(l).len() > 0 && squeue_fields(l).len() == 8 && parse_u32_spec(squeue_fields(l)[6]) is Some
            ==> squeue_rows(ls.push(l)) is Ok && (squeue_rows(ls.push(l))->Ok_0).len() == (squeue_rows(ls)->Ok_0).len() + 1
            && (squeue_rows(ls.push(l))->Ok_0).drop_last() == squeue_rows(ls)->Ok_0
            && (squeue_rows(ls.push(l))->Ok_0).last().job_id == squeue_fields(l)[0]
            && (squeue_rows(ls.push(l))->Ok_0).last().partition == squeue_fields(l)[1]
            && (squeue_rows(ls.push(l))->Ok_0).last().name == squeue_fields(l)[2]
            && (squeue_rows(ls.push(l))->Ok_0).last().user == squeue_fields(l)[3]
            && (squeue_rows(ls.push(l))->Ok_0).last().state == squeue_fields(l)[4]
            && (squeue_rows(ls.push(l))->Ok_0).last().time == squeue_fields(l)[5]
            && (squeue_rows(ls.push(l))->Ok_0).last().nodes == parse_u32_spec(squeue_fields(l)[6])->0
            && (squeue_rows(ls.push(l))->Ok_0).last().reason == squeue_fields(l)[7],
{
    let t = ls.push(l);
    assert(t.drop_last() =~= ls);
    assert(t.last() == l);
    if trim(l).len() > 0 && squeue_fields(l).len() == 8 && parse_u32_spec(squeue_fields(l)[6]) is Some {
        let js = squeue_rows(ls)->Ok_0;
        assert(squeue_rows(t) == Ok::<Seq<JobView>, SlurmError>(js.push(squeue_row(l, t.len())->0->Ok_0)));
        assert(js.push(squeue_row(l, t.len())->0->Ok_0).drop_last() =~= js);
    }
}

// ---------------------------------------------------------------------------
// The reply of `sbatch`
// ---------------------------------------------------------------------------

pub open spec fn submit_pattern() -> Seq<char> {
    "Submitted batch job (\\d+)"@
}

/// The job id in an `sbatch` reply, given whether the pattern compiles and
/// its captures in the reply.
pub open spec fn submitted_job_id_spec(
    raw: Seq<char>,
    compiles: bool,
    caps: Option<Seq<Option<Seq<char>>>>,
) -> Result<Seq<char>, ()> {
    if compiles && caps is Some && group_of(caps, 1) is Some {
        Ok(group_of(caps, 1)->0)
    } else {
        Err(())
    }
}

/// The job id in an `sbatch` reply, given whether the pattern compiled and
/// what it captured: the first group, or the matching error.
pub fn submitted_job_id_from_captures(
    raw: &str,
    compiles: bool,
    caps: Option<Vec<Option<String>>>,
) -> (r: Result<String, SlurmError>)
    ensures
        match r {
            Ok(id) => compiles && group_of(captures_view(caps), 1) == Some(id@),
            Err(e) => {
                &&& !compiles ==> e == SlurmError::SubmitRegexInvalid
                &&& compiles && caps is None ==> (e matches SlurmError::SubmittedJobIdNotFound(t)
                    && t@ == raw@)
                &&& compiles && caps is Some ==> e == SlurmError::SubmitCaptureMissing
                    && group_of(captures_view(caps), 1) is None
            },
        },
{
    if !compiles {
        return Err(SlurmError::SubmitRegexInvalid);
    }
    match caps {
        None => {
            let t = chars_of(raw);
            Err(SlurmError::SubmittedJobIdNotFound(string_of(t.as_slice())))
        },
        Some(_) => match capture_group(&caps, 1) {
            Some(id) => Ok(id),
            None => Err(SlurmError::SubmitCaptureMissing),
        },
    }
}

/// The job id in an `sbatch` reply (`Submitted batch job <id>`).
pub fn parse_submitted_job_id(raw_output: &str) -> (r: Result<String, SlurmError>)
    ensures
        match r {
            Ok(id) => regex_compiles(submit_pattern()) && group_of(
                regex_captures_of(submit_pattern(), raw_output@),
                1,
            ) == Some(id@),
            Err(e) => {
                &&& !regex_compiles(submit_pattern()) ==> e == SlurmError::SubmitRegexInvalid
                &&& regex_compiles(submit_pattern()) && regex_captures_of(
                    submit_pattern(),
                    raw_output@,
                ) is None ==> (e matches SlurmError::SubmittedJobIdNotFound(t) && t@
                    == raw_output@)
                &&& regex_compiles(submit_pattern()) && regex_captures_of(
                    submit_pattern(),
                    raw_output@,
                ) is Some ==> e == SlurmError::SubmitCaptureMissing
            },
        },
{
    let compiles = regex_is_valid("Submitted batch job (\\d+)");
    let caps = regex_captures("Submitted batch job (\\d+)", raw_output);
    submitted_job_id_from_captures(raw_output, compiles, caps)
}

} // verus!
