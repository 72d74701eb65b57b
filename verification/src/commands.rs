//! The Slurm command lines that the client and server send: `squeue`,
//! `scancel`, `sbatch`, log reads, `salloc`, `srun`, `sinfo` and `scontrol`.
use vstd::prelude::*;
use crate::error::SlurmError;
use crate::gpu::str_opt_view;
use crate::text::{
    chars_of, dec, dec_chars, has_prefix, is_ascii_alnum, is_ascii_alnum_char, join, join_chars,
    push_all, push_str, same_chars, starts_with_str, string_of, string_views, trim, trim_chars,
    views,
};

verus! {

/// A job id made of ASCII letters, digits, `_`, `-` and `.`, and not empty.
pub open spec fn valid_job_id(id: Seq<char>) -> bool {
    &&& id.len() > 0
    &&& forall|i: int|
        0 <= i < id.len() ==> {
            let c = #[trigger] id[i];
            is_ascii_alnum(c) || c == '_' || c == '-' || c == '.'
        }
}

/// Whether a job id is valid.
pub fn is_valid_job_id(id: &str) -> (r: bool)
    ensures
        r == valid_job_id(id@),
{
    let cs = chars_of(id);
    if cs.len() == 0 {
        return false;
    }
    let mut i: usize = 0;
    while i < cs.len()
        invariant
            cs@ == id@,
            i <= cs@.len(),
            forall|j: int|
                0 <= j < i ==> {
                    let c = #[trigger] cs@[j];
                    is_ascii_alnum(c) || c == '_' || c == '-' || c == '.'
                },
        decreases cs@.len() - i,
    {
        let c = cs[i];
        if !(is_ascii_alnum_char(c) || c == '_' || c == '-' || c == '.') {
            return false;
        }
        i += 1;
    }
    true
}

/// The shell command that prints a job's log file, or a fixed note when it
/// does not exist.
pub open spec fn log_command(id: Seq<char>) -> Seq<char> {
    "test -f slurm-"@ + id + ".out && cat slurm-"@ + id + ".out || printf 'Log file not found'"@
}

/// The file `sbatch` writes a job's output to.
pub open spec fn log_file(id: Seq<char>) -> Seq<char> {
    "slurm-"@ + id + ".out"@
}

/// The log command prints the job's whole log file with `cat` when the file
/// exists, and a fixed note otherwise.
pub proof fn law_log_command_prints_whole_file(id: Seq<char>)
    ensures
        log_command(id) == "test -f "@ + log_file(id) + " && cat "@ + log_file(id)
            + " || printf 'Log file not found'"@,
{
    reveal_strlit("test -f slurm-");
    reveal_strlit(".out && cat slurm-");
    reveal_strlit(".out || printf 'Log file not found'");
    reveal_strlit("test -f ");
    reveal_strlit("slurm-");
    reveal_strlit(".out");
    reveal_strlit(" && cat ");
    reveal_strlit(" || printf 'Log file not found'");
    assert(log_command(id) =~= "test -f "@ + log_file(id) + " && cat "@ + log_file(id)
        + " || printf 'Log file not found'"@);
}

/// The command that prints the log of a job; the job id must be valid.
pub fn build_slurm_log_command(job_id: &str) -> (r: Result<String, SlurmError>)
    ensures
        valid_job_id(job_id@) ==> (r matches Ok(c) && c@ == log_command(job_id@)),
        !valid_job_id(job_id@) ==> (r matches Err(SlurmError::InvalidLogJobId(x)) && x@ == job_id@),
{
    if !is_valid_job_id(job_id) {
        return Err(SlurmError::InvalidLogJobId(job_id.to_owned()));
    }
    let mut v = chars_of("test -f slurm-");
    push_str(&mut v, job_id);
    push_str(&mut v, ".out && cat slurm-");
    push_str(&mut v, job_id);
    push_str(&mut v, ".out || printf 'Log file not found'");
    Ok(string_of(v.as_slice()))
}

/// The command that cancels the jobs: `scancel` and the ids. There must be at
/// least one id, and the first invalid id is reported.
pub fn build_scancel_command(job_ids: &[String]) -> (r: Result<String, SlurmError>)
    ensures
        match r {
            Ok(c) => job_ids@.len() > 0 && (forall|i: int|
                0 <= i < job_ids@.len() ==> valid_job_id(#[trigger] job_ids@[i]@)) && c@
                == "scancel "@ + join(string_views(job_ids@), " "@),
            Err(e) => (job_ids@.len() == 0 && e == SlurmError::NoJobIds) || exists|k: int|
                0 <= k < job_ids@.len() && !valid_job_id(#[trigger] job_ids@[k]@) && (forall|i: int|
                    0 <= i < k ==> valid_job_id(#[trigger] job_ids@[i]@)) && (
                e matches SlurmError::InvalidCancelJobId(x) && x@ == job_ids@[k]@),
        },
{
    if job_ids.len() == 0 {
        return Err(SlurmError::NoJobIds);
    }
    let mut parts: Vec<Vec<char>> = Vec::new();
    let mut i: usize = 0;
    while i < job_ids.len()
        invariant
            i <= job_ids@.len(),
            views(parts@) == string_views(job_ids@).take(i as int),
            forall|j: int| 0 <= j < i ==> valid_job_id(#[trigger] job_ids@[j]@),
        decreases job_ids@.len() - i,
    {
        if !is_valid_job_id(job_ids[i].as_str()) {
            let bad = string_of(chars_of(job_ids[i].as_str()).as_slice());
            return Err(SlurmError::InvalidCancelJobId(bad));
        }
        let ghost before = views(parts@);
        parts.push(chars_of(job_ids[i].as_str()));
        assert(views(parts@) =~= before.push(job_ids@[i as int]@));
        assert(string_views(job_ids@).take(i + 1) =~= string_views(job_ids@).take(i as int).push(
            job_ids@[i as int]@,
        ));
        i += 1;
    }
    assert(string_views(job_ids@).take(job_ids@.len() as int) == string_views(job_ids@));
    let sep = chars_of(" ");
    let joined = join_chars(&parts, sep.as_slice());
    let mut v = chars_of("scancel ");
    push_all(&mut v, joined.as_slice());
    Ok(string_of(v.as_slice()))
}

/// How `sbatch` is given the script path: `$HOME` for `~`, `$HOME/'<rest>'`
/// for `~/<rest>`, else the path in single quotes.
pub open spec fn rendered_script_path(p: Seq<char>) -> Seq<char> {
    if p == "~"@ {
        "$HOME"@
    } else if has_prefix(p, "~/"@) {
        "$HOME/'"@ + p.skip(2) + "'"@
    } else {
        "'"@ + p + "'"@
    }
}

/// The command that submits a batch script. The path must not be blank or
/// hold a single quote.
pub fn build_sbatch_command(script_path: &str) -> (r: Result<String, SlurmError>)
    ensures
        trim(script_path@).len() == 0 ==> r == Err::<String, SlurmError>(
            SlurmError::EmptyScriptPath,
        ),
        trim(script_path@).len() > 0 && script_path@.contains('\'') ==> r == Err::<
            String,
            SlurmError,
        >(SlurmError::QuotedScriptPath),
        trim(script_path@).len() > 0 && !script_path@.contains('\'') ==> (r matches Ok(c) && c@
            == "sbatch "@ + rendered_script_path(script_path@)),
{
    let p = chars_of(script_path);
    let t = trim_chars(p.as_slice());
    if t.len() == 0 {
        return Err(SlurmError::EmptyScriptPath);
    }
    if crate::text::has_char(p.as_slice(), '\'') {
        return Err(SlurmError::QuotedScriptPath);
    }
    let tilde = chars_of("~");
    let mut v = chars_of("sbatch ");
    if same_chars(p.as_slice(), tilde.as_slice()) {
        push_str(&mut v, "$HOME");
    } else if starts_with_str(p.as_slice(), "~/") {
        push_str(&mut v, "$HOME/'");
        proof {
            reveal_strlit("~/");
        }
        let rest = crate::text::copy_range(p.as_slice(), 2, p.len());
        push_all(&mut v, rest.as_slice());
        push_str(&mut v, "'");
    } else {
        push_str(&mut v, "'");
        push_all(&mut v, p.as_slice());
        push_str(&mut v, "'");
    }
    Ok(string_of(v.as_slice()))
}

/// The `squeue` command that lists one job, or a user's jobs.
pub open spec fn squeue_jobs_command(job_id: Option<Seq<char>>, username: Seq<char>) -> Seq<char> {
    match job_id {
        Some(id) => "squeue -j "@ + id + " -h -o '%i|%P|%j|%u|%T|%M|%D|%R'"@,
        None => "squeue -u "@ + username + " -h -o '%i|%P|%j|%u|%T|%M|%D|%R'"@,
    }
}

/// The `squeue` command for a jobs query. It needs a user name: the
/// connection's, else the local one.
pub fn build_squeue_jobs_command(
    job_id: Option<&str>,
    connection_username: Option<&str>,
    local_username: Option<&str>,
) -> (r: Result<String, SlurmError>)
    ensures
        connection_username is None && local_username is None ==> r == Err::<String, SlurmError>(
            SlurmError::MissingUsername,
        ),
        connection_username is Some ==> (r matches Ok(c) && c@ == squeue_jobs_command(
            str_opt_view(job_id),
            connection_username->0@,
        )),
        connection_username is None && local_username is Some ==> (r matches Ok(c) && c@
            == squeue_jobs_command(str_opt_view(job_id), local_username->0@)),
{
    let username: &str = match connection_username {
        Some(u) => u,
        None => match local_username {
            Some(u) => u,
            None => {
                return Err(SlurmError::MissingUsername);
            },
        },
    };
    let mut v: Vec<char>;
    match job_id {
        Some(id) => {
            v = chars_of("squeue -j ");
            push_str(&mut v, id);
        },
        None => {
            v = chars_of("squeue -u ");
            push_str(&mut v, username);
        },
    }
    push_str(&mut v, " -h -o '%i|%P|%j|%u|%T|%M|%D|%R'");
    Ok(string_of(v.as_slice()))
}

/// One argument for each present value.
pub open spec fn opt_arg(prefix: Seq<char>, v: Option<Seq<char>>) -> Seq<Seq<char>> {
    match v {
        Some(x) => seq![prefix + x],
        None => Seq::empty(),
    }
}

pub open spec fn opt_num_arg(prefix: Seq<char>, v: Option<u32>) -> Seq<Seq<char>> {
    match v {
        Some(x) => seq![prefix + dec(x as nat)],
        None => Seq::empty(),
    }
}

pub open spec fn opt_pair(flag: Seq<char>, v: Option<Seq<char>>) -> Seq<Seq<char>> {
    match v {
        Some(x) => seq![flag, x],
        None => Seq::empty(),
    }
}

/// The words of an `salloc` command.
pub open spec fn salloc_words(
    partition: Seq<char>,
    gres: Option<Seq<char>>,
    cpus: Option<u32>,
    time: Option<Seq<char>>,
    mem: Option<Seq<char>>,
    nodelist: Option<Seq<char>>,
    max_wait: Option<u32>,
) -> Seq<Seq<char>> {
    seq!["salloc"@, "-p"@, partition] + opt_num_arg("--cpus-per-task="@, cpus) + opt_arg(
        "--gres="@,
        gres,
    ) + opt_arg("--time="@, time) + opt_arg("--mem="@, mem) + opt_pair("-w"@, nodelist)
        + opt_num_arg("--wait="@, max_wait)
}

fn push_word(parts: &mut Vec<Vec<char>>, w: Vec<char>)
    ensures
        views(final(parts)@) == views(old(parts)@).push(w@),
{
    let ghost before = views(parts@);
    parts.push(w);
    assert(views(parts@) =~= before.push(w@));
}

fn push_opt_arg(parts: &mut Vec<Vec<char>>, prefix: &str, v: Option<&str>)
    ensures
        views(final(parts)@) == views(old(parts)@) + opt_arg(prefix@, str_opt_view(v)),
{
    let ghost before = views(parts@);
    if let Some(x) = v {
        let mut w = chars_of(prefix);
        push_str(&mut w, x);
        push_word(parts, w);
        assert(views(parts@) =~= before + opt_arg(prefix@, str_opt_view(v)));
    } else {
        assert(views(parts@) =~= before + opt_arg(prefix@, str_opt_view(v)));
    }
}

fn push_opt_num_arg(parts: &mut Vec<Vec<char>>, prefix: &str, v: Option<u32>)
    ensures
        views(final(parts)@) == views(old(parts)@) + opt_num_arg(prefix@, v),
{
    let ghost before = views(parts@);
    if let Some(x) = v {
        let mut w = chars_of(prefix);
        let d = dec_chars(x as u64);
        push_all(&mut w, d.as_slice());
        push_word(parts, w);
        assert(views(parts@) =~= before + opt_num_arg(prefix@, v));
    } else {
        assert(views(parts@) =~= before + opt_num_arg(prefix@, v));
    }
}

fn push_opt_pair(parts: &mut Vec<Vec<char>>, flag: &str, v: Option<&str>)
    ensures
        views(final(parts)@) == views(old(parts)@) + opt_pair(flag@, str_opt_view(v)),
{
    let ghost before = views(parts@);
    if let Some(x) = v {
        push_word(parts, chars_of(flag));
        push_word(parts, chars_of(x));
        assert(views(parts@) =~= before + opt_pair(flag@, str_opt_view(v)));
    } else {
        assert(views(parts@) =~= before + opt_pair(flag@, str_opt_view(v)));
    }
}

/// The `salloc` command that requests an interactive allocation.
pub fn build_salloc_command(
    partition: &str,
    gres: Option<&str>,
    cpus: Option<u32>,
    time: Option<&str>,
    mem: Option<&str>,
    nodelist: Option<&str>,
    max_wait: Option<u32>,
) -> (r: String)
    ensures
        r@ == join(
            salloc_words(
                partition@,
                str_opt_view(gres),
                cpus,
                str_opt_view(time),
                str_opt_view(mem),
                str_opt_view(nodelist),
                max_wait,
            ),
            " "@,
        ),
{
    let mut parts: Vec<Vec<char>> = Vec::new();
    assert(views(parts@) =~= Seq::<Seq<char>>::empty());
    push_word(&mut parts, chars_of("salloc"));
    push_word(&mut parts, chars_of("-p"));
    push_word(&mut parts, chars_of(partition));
    assert(views(parts@) =~= seq!["salloc"@, "-p"@, partition@]);
    push_opt_num_arg(&mut parts, "--cpus-per-task=", cpus);
    push_opt_arg(&mut parts, "--gres=", gres);
    push_opt_arg(&mut parts, "--time=", time);
    push_opt_arg(&mut parts, "--mem=", mem);
    push_opt_pair(&mut parts, "-w", nodelist);
    push_opt_num_arg(&mut parts, "--wait=", max_wait);
    let sep = chars_of(" ");
    let v = join_chars(&parts, sep.as_slice());
    string_of(v.as_slice())
}

/// The words of an `srun` command.
pub open spec fn srun_words(
    command: Seq<Seq<char>>,
    partition: Option<Seq<char>>,
    gres: Option<Seq<char>>,
    cpus: Option<u32>,
    time: Option<Seq<char>>,
    mem: Option<Seq<char>>,
    nodelist: Option<Seq<char>>,
) -> Seq<Seq<char>> {
    seq!["srun"@] + opt_pair("-p"@, partition) + opt_arg("--gres="@, gres) + opt_num_arg(
        "--cpus-per-task="@,
        cpus,
    ) + opt_arg("--time="@, time) + opt_arg("--mem="@, mem) + opt_pair("-w"@, nodelist) + command
}

/// Joining two non-empty runs of words puts one separator between them.
pub proof fn lemma_join_concat(a: Seq<Seq<char>>, b: Seq<Seq<char>>, sep: Seq<char>)
    requires
        a.len() > 0,
        b.len() > 0,
    ensures
        join(a + b, sep) == join(a, sep) + sep + join(b, sep),
    decreases b.len(),
{
    if b.len() == 1 {
        assert((a + b).drop_last() =~= a);
        assert((a + b).last() == b[0]);
    } else {
        lemma_join_concat(a, b.drop_last(), sep);
        assert((a + b).drop_last() =~= a + b.drop_last());
        assert((a + b).last() == b.last());
    }
}

/// An `srun` command starts with `srun` and ends with every word of the
/// command to run, in order; the options stand between. Its text therefore
/// ends with a space and the command's words joined by spaces.
pub proof fn law_srun_ends_with_command(
    command: Seq<Seq<char>>,
    partition: Option<Seq<char>>,
    gres: Option<Seq<char>>,
    cpus: Option<u32>,
    time: Option<Seq<char>>,
    mem: Option<Seq<char>>,
    nodelist: Option<Seq<char>>,
)
    ensures
        srun_words(command, partition, gres, cpus, time, mem, nodelist)[0] == "srun"@,
        srun_words(command, partition, gres, cpus, time, mem, nodelist).len() >= command.len() + 1,
        srun_words(command, partition, gres, cpus, time, mem, nodelist).skip(
            srun_words(command, partition, gres, cpus, time, mem, nodelist).len() - command.len(),
        ) == command,
        command.len() > 0 ==> join(srun_words(command, partition, gres, cpus, time, mem, nodelist), " "@)
            == join(
            srun_words(command, partition, gres, cpus, time, mem, nodelist).take(
                srun_words(command, partition, gres, cpus, time, mem, nodelist).len() - command.len(),
            ),
            " "@,
        ) + " "@ + join(command, " "@),
{
    let w = srun_words(command, partition, gres, cpus, time, mem, nodelist);
    let head = seq!["srun"@] + opt_pair("-p"@, partition) + opt_arg("--gres="@, gres) + opt_num_arg(
        "--cpus-per-task="@,
        cpus,
    ) + opt_arg("--time="@, time) + opt_arg("--mem="@, mem) + opt_pair("-w"@, nodelist);
    assert(w == head + command);
    assert(head[0] == "srun"@);
    assert(w.skip(w.len() - command.len()) =~= command);
    assert(w.take(w.len() - command.len()) =~= head);
    if command.len() > 0 {
        lemma_join_concat(head, command, " "@);
    }
}

/// The `srun` command that runs `command` in an allocation; the command must
/// not be empty.
pub fn build_srun_command(
    command: &[String],
    partition: Option<&str>,
    gres: Option<&str>,
    cpus: Option<u32>,
    time: Option<&str>,
    mem: Option<&str>,
    nodelist: Option<&str>,
) -> (r: Result<String, SlurmError>)
    ensures
        command@.len() == 0 ==> r == Err::<String, SlurmError>(SlurmError::MissingSrunCommand),
        command@.len() > 0 ==> (r matches Ok(c) && c@ == join(
            srun_words(
                string_views(command@),
                str_opt_view(partition),
                str_opt_view(gres),
                cpus,
                str_opt_view(time),
                str_opt_view(mem),
                str_opt_view(nodelist),
            ),
            " "@,
        )),
{
    if command.len() == 0 {
        return Err(SlurmError::MissingSrunCommand);
    }
    let mut parts: Vec<Vec<char>> = Vec::new();
    assert(views(parts@) =~= Seq::<Seq<char>>::empty());
    push_word(&mut parts, chars_of("srun"));
    push_opt_pair(&mut parts, "-p", partition);
    push_opt_arg(&mut parts, "--gres=", gres);
    push_opt_num_arg(&mut parts, "--cpus-per-task=", cpus);
    push_opt_arg(&mut parts, "--time=", time);
    push_opt_arg(&mut parts, "--mem=", mem);
    push_opt_pair(&mut parts, "-w", nodelist);
    let ghost base = views(parts@);
    let mut i: usize = 0;
    while i < command.len()
        invariant
            i <= command@.len(),
            views(parts@) == base + string_views(command@).take(i as int),
        decreases command@.len() - i,
    {
        push_word(&mut parts, chars_of(command[i].as_str()));
        assert(string_views(command@).take(i + 1) =~= string_views(command@).take(i as int).push(
            command@[i as int]@,
        ));
        i += 1;
        assert(views(parts@) =~= base + string_views(command@).take(i as int));
    }
    assert(string_views(command@).take(command@.len() as int) == string_views(command@));
    let sep = chars_of(" ");
    let v = join_chars(&parts, sep.as_slice());
    Ok(string_of(v.as_slice()))
}

/// The command that describes a node.
pub fn node_info_command(node: &str) -> (r: String)
    ensures
        r@ == "scontrol show node "@ + node@,
{
    let mut v = chars_of("scontrol show node ");
    push_str(&mut v, node);
    string_of(v.as_slice())
}

/// The commands that list a node's running jobs, all pending jobs with their
/// partition, and the node's partitions.
pub fn node_jobs_commands(node: &str) -> (r: (String, String, String))
    ensures
        r.0@ == "squeue -w "@ + node@ + " -t RUNNING -h -o '%i|%j|%u|%T|%M|%m'"@,
        r.1@ == "squeue -t PENDING -h -o '%i|%j|%u|%T|%M|%P|%m'"@,
        r.2@ == "sinfo -N -n "@ + node@ + " -h -o '%P'"@,
{
    let mut running = chars_of("squeue -w ");
    push_str(&mut running, node);
    push_str(&mut running, " -t RUNNING -h -o '%i|%j|%u|%T|%M|%m'");
    let pending = chars_of("squeue -t PENDING -h -o '%i|%j|%u|%T|%M|%P|%m'");
    let mut partitions = chars_of("sinfo -N -n ");
    push_str(&mut partitions, node);
    push_str(&mut partitions, " -h -o '%P'");
    (
        string_of(running.as_slice()),
        string_of(pending.as_slice()),
        string_of(partitions.as_slice()),
    )
}

/// The commands that list the nodes and the running jobs of one partition,
/// or of all partitions (then the node rows also name their partition).
pub fn partition_info_commands(partition: Option<&str>) -> (r: (String, String))
    ensures
        partition is Some ==> r.0@ == "sinfo -p "@ + partition->0@ + " -N -h -o '%N|%C|%G|%m'"@
            && r.1@ == "squeue -p "@ + partition->0@ + " -t RUNNING -h -o '%i|%N|%b|%M'"@,
        partition is None ==> r.0@ == "sinfo -N -h -o '%N|%P|%C|%G|%m'"@ && r.1@
            == "squeue -t RUNNING -h -o '%i|%N|%b|%M'"@,
{
    match partition {
        Some(p) => {
            let mut nodes = chars_of("sinfo -p ");
            push_str(&mut nodes, p);
            push_str(&mut nodes, " -N -h -o '%N|%C|%G|%m'");
            let mut jobs = chars_of("squeue -p ");
            push_str(&mut jobs, p);
            push_str(&mut jobs, " -t RUNNING -h -o '%i|%N|%b|%M'");
            (string_of(nodes.as_slice()), string_of(jobs.as_slice()))
        },
        None => {
            let nodes = chars_of("sinfo -N -h -o '%N|%P|%C|%G|%m'");
            let jobs = chars_of("squeue -t RUNNING -h -o '%i|%N|%b|%M'");
            (string_of(nodes.as_slice()), string_of(jobs.as_slice()))
        },
    }
}

} // verus!
