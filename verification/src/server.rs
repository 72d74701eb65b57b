//! What the server decides on its own: which requests it lets in, how a
//! finished process is reported, how each remote command's output becomes a
//! reply, and the steps of a resource node's health check.
use vstd::prelude::*;
use crate::error::{message_of, SlurmError};
use crate::gpu::{parse_scontrol_gpu_nodes_output, parsed_views, scontrol_gpu_nodes, ParsedGpuNode};
use crate::jobs::{
    job_views, parse_squeue_jobs_output, parse_submitted_job_id, squeue_rows, submit_pattern,
    JobView,
};
use crate::pattern::{group_of, regex_captures_of, regex_compiles};
use crate::proto::{
    ErrorBody, ErrorCode, ErrorResponse, ExecRunData, SlurmCancelData, SlurmJobsData, SlurmLogData,
    SlurmSubmitData,
};
use crate::text::{
    chars_eq_str, chars_of, dec, dec_chars, lines, opt_view, push_all, push_str, same_chars, string_of,
    string_views, trim, trim_chars,
};

verus! {

// ---------------------------------------------------------------------------
// Capabilities and access
// ---------------------------------------------------------------------------

/// The version of the API that the server speaks.
pub const SERVER_API_VERSION: u32 = 1;

/// The features the server reports in its status.
pub open spec fn capabilities_spec() -> Seq<Seq<char>> {
    seq!["connections"@, "exec"@, "files"@, "server"@, "sessions"@, "slurm"@]
}

/// The features the server reports in its status, in order of name.
pub fn server_capabilities() -> (r: Vec<String>)
    ensures
        string_views(r@) == capabilities_spec(),
{
    let mut v: Vec<String> = Vec::new();
    v.push("connections".to_owned());
    v.push("exec".to_owned());
    v.push("files".to_owned());
    v.push("server".to_owned());
    v.push("sessions".to_owned());
    v.push("slurm".to_owned());
    assert(string_views(v@) =~= capabilities_spec());
    v
}

/// The `Authorization` header value that the server accepts.
pub open spec fn bearer(token: Seq<char>) -> Seq<char> {
    "Bearer "@ + token
}

/// A request is let in when its `Authorization` header (`None` when absent or
/// not visible ASCII) is exactly `Bearer <token>`.
pub fn is_authorized(header: Option<&str>, token: &str) -> (r: bool)
    ensures
        r == (header matches Some(h) && h@ == bearer(token@)),
{
    match header {
        None => false,
        Some(h) => {
            let mut expected = chars_of("Bearer ");
            let t = chars_of(token);
            push_all(&mut expected, t.as_slice());
            let got = chars_of(h);
            same_chars(got.as_slice(), expected.as_slice())
        },
    }
}

/// The `Authorization` header value for `token`.
pub fn authorization_value(token: &str) -> (r: String)
    ensures
        r@ == bearer(token@),
{
    let mut v = chars_of("Bearer ");
    push_str(&mut v, token);
    string_of(v.as_slice())
}

/// The URL of an API route of the server at `host` and `port`.
pub fn api_url(host: &str, port: u16, route: &str) -> (r: String)
    ensures
        r@ == "http://"@ + host@ + ":"@ + dec(port as nat) + route@,
{
    let mut v = chars_of("http://");
    push_str(&mut v, host);
    push_str(&mut v, ":");
    push_all(&mut v, dec_chars(port as u64).as_slice());
    push_str(&mut v, route);
    string_of(v.as_slice())
}

/// The reply to a request without the right token.
pub fn unauthorized_error() -> (r: ErrorResponse)
    ensures
        !r.ok,
        r.error.code == ErrorCode::Unauthorized,
        r.error.message@ == "Invalid or missing token"@,
{
    ErrorResponse {
        ok: false,
        error: ErrorBody { code: ErrorCode::Unauthorized, message: "Invalid or missing token".to_owned() },
    }
}

/// The reply to a request that failed, carrying the failure's message.
pub fn internal_error(message: String) -> (r: ErrorResponse)
    ensures
        !r.ok,
        r.error.code == ErrorCode::InternalError,
        r.error.message@ == message@,
{
    ErrorResponse { ok: false, error: ErrorBody { code: ErrorCode::InternalError, message } }
}

/// The reply to a request that failed with `e`: a missing connection or
/// session is answered with its own code and a message naming it, any other
/// failure as an internal error carrying the failure's message.
pub fn error_reply(e: &SlurmError) -> (r: ErrorResponse)
    ensures
        !r.ok,
        match e {
            SlurmError::ConnectionNotFound(id) => r.error.code == ErrorCode::ConnectionNotFound
                && r.error.message@ == "Connection not found: "@ + id@,
            SlurmError::SessionNotFound(id) => r.error.code == ErrorCode::SessionNotFound
                && r.error.message@ == "Session not found: "@ + id@,
            _ => r.error.code == ErrorCode::InternalError && r.error.message@ == message_of(*e),
        },
{
    match e {
        SlurmError::ConnectionNotFound(id) => {
            let mut v = chars_of("Connection not found: ");
            push_all(&mut v, chars_of(id.as_str()).as_slice());
            ErrorResponse {
                ok: false,
                error: ErrorBody { code: ErrorCode::ConnectionNotFound, message: string_of(v.as_slice()) },
            }
        },
        SlurmError::SessionNotFound(id) => {
            let mut v = chars_of("Session not found: ");
            push_all(&mut v, chars_of(id.as_str()).as_slice());
            ErrorResponse {
                ok: false,
                error: ErrorBody { code: ErrorCode::SessionNotFound, message: string_of(v.as_slice()) },
            }
        },
        _ => internal_error(e.message()),
    }
}

/// A time stamp of `secs` seconds since the epoch, as the server writes it.
pub fn iso_like(secs: u64) -> (r: String)
    ensures
        r@ == dec(secs as nat) + "Z"@,
{
    let mut v = dec_chars(secs);
    push_str(&mut v, "Z");
    string_of(v.as_slice())
}

// ---------------------------------------------------------------------------
// Finished processes
// ---------------------------------------------------------------------------

/// How long to wait for a process: the requested seconds, at least one.
pub fn wait_secs(timeout_secs: u64) -> (r: u64)
    ensures
        r == if timeout_secs < 1 {
            1
        } else {
            timeout_secs
        },
{
    if timeout_secs < 1 {
        1
    } else {
        timeout_secs
    }
}

/// The error output of a process that was stopped for taking too long.
pub open spec fn timed_out_stderr(stderr: Seq<char>) -> Seq<char> {
    if stderr.len() == 0 {
        "Command timed out"@
    } else {
        stderr + "\n"@ + "Command timed out"@
    }
}

/// The report of a process from its captured output and how it ended:
/// `finished` is `None` when it was stopped for taking too long (exit code
/// 124, a note appended to the error output), else its exit code, `None`
/// when a signal ended it (reported as -1).
pub fn process_outcome(stdout: String, stderr: String, finished: Option<Option<i32>>) -> (r: ExecRunData)
    ensures
        r.stdout@ == stdout@,
        match finished {
            None => r.exit_code == 124 && r.stderr@ == timed_out_stderr(stderr@),
            Some(code) => r.stderr@ == stderr@ && r.exit_code == match code {
                Some(c) => c,
                None => -1i32,
            },
        },
{
    match finished {
        None => {
            let mut e = chars_of(stderr.as_str());
            if e.len() > 0 {
                push_str(&mut e, "\n");
            }
            push_str(&mut e, "Command timed out");
            ExecRunData { stdout, stderr: string_of(e.as_slice()), exit_code: 124 }
        },
        Some(code) => {
            let exit_code = match code {
                Some(c) => c,
                None => -1,
            };
            ExecRunData { stdout, stderr, exit_code }
        },
    }
}

// ---------------------------------------------------------------------------
// Command output
// ---------------------------------------------------------------------------

/// The failure of a command `what` that ended with a non-zero exit code.
pub open spec fn command_failed(e: SlurmError, what: Seq<char>, output: ExecRunData) -> bool {
    e matches SlurmError::CommandFailed { what: w, exit_code, stderr } && w@ == what
        && exit_code == output.exit_code && stderr@ == output.stderr@
}

/// The output of command `what`, or its failure when the exit code is not zero.
pub fn require_success(what: &str, output: ExecRunData) -> (r: Result<ExecRunData, SlurmError>)
    ensures
        output.exit_code == 0 ==> r == Ok::<ExecRunData, SlurmError>(output),
        output.exit_code != 0 ==> (r matches Err(e) && command_failed(e, what@, output)),
{
    if output.exit_code == 0 {
        Ok(output)
    } else {
        Err(
            SlurmError::CommandFailed {
                what: what.to_owned(),
                exit_code: output.exit_code,
                stderr: output.stderr,
            },
        )
    }
}

/// The jobs of a `squeue` run.
pub fn jobs_data_from_output(output: ExecRunData) -> (r: Result<SlurmJobsData, SlurmError>)
    ensures
        output.exit_code != 0 ==> (r matches Err(e) && command_failed(e, "squeue"@, output)),
        output.exit_code == 0 ==> match r {
            Ok(d) => squeue_rows(lines(output.stdout@)) == Ok::<Seq<JobView>, SlurmError>(
                job_views(d.jobs@),
            ),
            Err(e) => squeue_rows(lines(output.stdout@)) == Err::<Seq<JobView>, SlurmError>(e),
        },
{
    let output = require_success("squeue", output)?;
    let jobs = parse_squeue_jobs_output(output.stdout.as_str())?;
    Ok(SlurmJobsData { jobs })
}

/// The text the log command prints when the job has no log file.
pub open spec fn missing_log_text() -> Seq<char> {
    "Log file not found"@
}

/// The log of a job from the output of the log command: found unless the
/// command printed exactly the missing-log text.
pub fn log_data_from_output(job_id: &str, output: ExecRunData) -> (r: Result<SlurmLogData, SlurmError>)
    ensures
        output.exit_code != 0 ==> (r matches Err(e) && command_failed(e, "log query"@, output)),
        output.exit_code == 0 ==> (r matches Ok(d) && d.job_id@ == job_id@ && d.content@
            == output.stdout@ && d.found == (output.stdout@ != missing_log_text())),
{
    let output = require_success("log query", output)?;
    let text = chars_of(output.stdout.as_str());
    let missing = chars_eq_str(text.as_slice(), "Log file not found");
    Ok(SlurmLogData { job_id: job_id.to_owned(), found: !missing, content: output.stdout })
}

/// A copy of a list of strings.
fn copy_strings(v: &Vec<String>) -> (r: Vec<String>)
    ensures
        string_views(r@) == string_views(v@),
{
    let mut out: Vec<String> = Vec::new();
    let mut i: usize = 0;
    while i < v.len()
        invariant
            i <= v@.len(),
            string_views(out@) == string_views(v@).take(i as int),
        decreases v@.len() - i,
    {
        let ghost before = out@;
        out.push(v[i].clone());
        assert(string_views(out@) =~= string_views(v@).take(i + 1)) by {
            assert(string_views(out@) =~= string_views(before).push(v@[i as int]@));
        }
        i += 1;
    }
    assert(string_views(v@).take(v@.len() as int) =~= string_views(v@));
    out
}

/// The reply to a cancel request whose `scancel` run ended as `output`.
pub fn cancel_data_from_output(job_ids: &Vec<String>, output: ExecRunData) -> (r: Result<
    SlurmCancelData,
    SlurmError,
>)
    ensures
        output.exit_code != 0 ==> (r matches Err(e) && command_failed(e, "scancel"@, output)),
        output.exit_code == 0 ==> (r matches Ok(d) && string_views(d.cancelled@) == string_views(
            job_ids@,
        )),
{
    let _ = require_success("scancel", output)?;
    Ok(SlurmCancelData { cancelled: copy_strings(job_ids) })
}

/// The reply to a submit request whose `sbatch` run ended as `output`: the
/// trimmed output and the job id read from it.
pub fn submit_data_from_output(output: ExecRunData) -> (r: Result<SlurmSubmitData, SlurmError>)
    ensures
        output.exit_code != 0 ==> (r matches Err(e) && command_failed(e, "sbatch"@, output)),
        output.exit_code == 0 ==> match r {
            Ok(d) => d.raw_output@ == trim(output.stdout@) && regex_compiles(submit_pattern())
                && group_of(regex_captures_of(submit_pattern(), trim(output.stdout@)), 1) == Some(
                d.job_id@,
            ),
            Err(e) => {
                &&& !regex_compiles(submit_pattern()) ==> e == SlurmError::SubmitRegexInvalid
                &&& regex_compiles(submit_pattern()) && regex_captures_of(
                    submit_pattern(),
                    trim(output.stdout@),
                ) is None ==> (e matches SlurmError::SubmittedJobIdNotFound(t) && t@ == trim(
                    output.stdout@,
                ))
                &&& regex_compiles(submit_pattern()) && regex_captures_of(
                    submit_pattern(),
                    trim(output.stdout@),
                ) is Some ==> e == SlurmError::SubmitCaptureMissing
            },
        },
{
    let output = require_success("sbatch", output)?;
    let t = trim_chars(chars_of(output.stdout.as_str()).as_slice());
    let raw_output = string_of(t.as_slice());
    let job_id = parse_submitted_job_id(raw_output.as_str())?;
    Ok(SlurmSubmitData { job_id, raw_output })
}

/// The GPU nodes of a `scontrol show node` run.
pub fn gpu_nodes_from_output(output: ExecRunData) -> (r: Result<Vec<ParsedGpuNode>, SlurmError>)
    ensures
        output.exit_code != 0 ==> (r matches Err(e) && command_failed(e, "scontrol show node"@, output)),
        output.exit_code == 0 ==> (r matches Ok(nodes) && parsed_views(nodes@) == scontrol_gpu_nodes(
            output.stdout@,
        )),
{
    let output = require_success("scontrol show node", output)?;
    parse_scontrol_gpu_nodes_output(output.stdout.as_str())
}

// ---------------------------------------------------------------------------
// The health check of a resource node
// ---------------------------------------------------------------------------

/// What the health check does next: report a state and a message, or run
/// `ssh` with the given arguments and hand back how it ended.
pub enum HealthStep {
    Report { state: String, message: String },
    RunSsh { args: Vec<String> },
}

/// The ssh options every check passes.
pub open spec fn accept_new() -> Seq<Seq<char>> {
    seq!["-o"@, "StrictHostKeyChecking=accept-new"@]
}

/// The arguments of the first check: reach the node through the jump host.
pub open spec fn connect_args(host: Seq<char>, port: Option<u16>, username: Seq<char>, jump_host: Seq<char>) -> Seq<
    Seq<char>,
> {
    accept_new() + seq!["-J"@, jump_host] + match port {
        Some(p) => seq!["-p"@, dec(p as nat)],
        None => Seq::empty(),
    } + seq![username + "@"@ + host, "hostname"@]
}

/// The remote command of the second check: is the node among the user's jobs?
pub open spec fn queue_check_command(host: Seq<char>, username: Seq<char>) -> Seq<char> {
    "squeue -h -u "@ + username + " -o '%N' | xargs -r -n1 scontrol show hostnames | grep -Fx '"@ + host
        + "' >/dev/null"@
}

/// The arguments of the second check, run on the jump host.
pub open spec fn queue_check_args(host: Seq<char>, username: Seq<char>, jump_host: Seq<char>) -> Seq<
    Seq<char>,
> {
    accept_new() + seq![jump_host, queue_check_command(host, username)]
}

/// The step is a report of `state` and `message`.
pub open spec fn reports(step: HealthStep, state: Seq<char>, message: Seq<char>) -> bool {
    step matches HealthStep::Report { state: s, message: m } && s@ == state && m@ == message
}

/// The step runs `ssh` with `args`.
pub open spec fn runs(step: HealthStep, args: Seq<Seq<char>>) -> bool {
    step matches HealthStep::RunSsh { args: a } && string_views(a@) == args
}

fn push_text(v: &mut Vec<String>, s: &str)
    ensures
        string_views(final(v)@) == string_views(old(v)@).push(s@),
{
    let ghost before = string_views(v@);
    v.push(s.to_owned());
    assert(string_views(v@) =~= before.push(s@));
}

fn push_owned(v: &mut Vec<String>, s: String)
    ensures
        string_views(final(v)@) == string_views(old(v)@).push(s@),
{
    let ghost before = string_views(v@);
    let ghost sv = s@;
    v.push(s);
    assert(string_views(v@) =~= before.push(sv));
}

/// The first step of the health check of a resource node: a record without
/// host, user or jump host is invalid; otherwise try to reach the node.
pub fn check_resource_node_state(
    host: Option<&str>,
    port: Option<u16>,
    username: Option<&str>,
    jump_host: Option<&str>,
) -> (r: HealthStep)
    ensures
        (host is None || username is None || jump_host is None) ==> reports(
            r,
            "invalid"@,
            "resource_node missing host/user/jump_host"@,
        ),
        host matches Some(h) ==> (username matches Some(u) ==> (jump_host matches Some(j) ==> runs(
            r,
            connect_args(h@, port, u@, j@),
        ))),
{
    let (h, u, j) = match (host, username, jump_host) {
        (Some(h), Some(u), Some(j)) => (h, u, j),
        _ => {
            return HealthStep::Report {
                state: "invalid".to_owned(),
                message: "resource_node missing host/user/jump_host".to_owned(),
            };
        },
    };
    let mut args: Vec<String> = Vec::new();
    push_text(&mut args, "-o");
    push_text(&mut args, "StrictHostKeyChecking=accept-new");
    push_text(&mut args, "-J");
    push_text(&mut args, j);
    let ghost head = string_views(args@);
    match port {
        Some(p) => {
            push_text(&mut args, "-p");
            push_owned(&mut args, string_of(dec_chars(p as u64).as_slice()));
        },
        None => {},
    }
    let ghost mid = string_views(args@);
    let mut target = chars_of(u);
    push_str(&mut target, "@");
    let hv = chars_of(h);
    push_all(&mut target, hv.as_slice());
    push_owned(&mut args, string_of(target.as_slice()));
    push_text(&mut args, "hostname");
    proof {
        let pp: Seq<Seq<char>> = match port {
            Some(p) => seq!["-p"@, dec(p as nat)],
            None => Seq::empty(),
        };
        assert(head =~= accept_new() + seq!["-J"@, j@]);
        assert(mid =~= head + pp);
        assert(string_views(args@) =~= connect_args(h@, port, u@, j@));
    }
    HealthStep::RunSsh { args }
}

/// The step after the first check, given how that `ssh` run ended (`Err`
/// holding the message when it could not be run): on success check the
/// user's queue; otherwise the node is offline.
pub fn health_after_connect(
    host: &str,
    username: &str,
    jump_host: &str,
    outcome: &Result<ExecRunData, String>,
) -> (r: HealthStep)
    ensures
        outcome matches Ok(o) ==> (o.exit_code == 0 ==> runs(
            r,
            queue_check_args(host@, username@, jump_host@),
        )),
        outcome matches Ok(o) ==> (o.exit_code != 0 ==> reports(
            r,
            "offline"@,
            "ssh failed: "@ + trim(o.stderr@),
        )),
        outcome matches Err(m) ==> reports(r, "offline"@, "ssh error: "@ + m@),
{
    match outcome {
        Ok(o) => {
            if o.exit_code != 0 {
                let mut m = chars_of("ssh failed: ");
                let t = trim_chars(chars_of(o.stderr.as_str()).as_slice());
                push_all(&mut m, t.as_slice());
                return HealthStep::Report { state: "offline".to_owned(), message: string_of(m.as_slice()) };
            }
        },
        Err(e) => {
            let mut m = chars_of("ssh error: ");
            push_all(&mut m, chars_of(e.as_str()).as_slice());
            return HealthStep::Report { state: "offline".to_owned(), message: string_of(m.as_slice()) };
        },
    }
    let mut c = chars_of("squeue -h -u ");
    push_all(&mut c, chars_of(username).as_slice());
    push_str(&mut c, " -o '%N' | xargs -r -n1 scontrol show hostnames | grep -Fx '");
    push_all(&mut c, chars_of(host).as_slice());
    push_str(&mut c, "' >/dev/null");
    let mut args: Vec<String> = Vec::new();
    push_text(&mut args, "-o");
    push_text(&mut args, "StrictHostKeyChecking=accept-new");
    push_text(&mut args, jump_host);
    push_owned(&mut args, string_of(c.as_slice()));
    assert(string_views(args@) =~= queue_check_args(host@, username@, jump_host@));
    HealthStep::RunSsh { args }
}

/// The state and message of the health check, given how the queue check's
/// `ssh` run ended: online when it succeeded, released when it ran and
/// failed, unknown when it could not be run.
pub fn health_after_queue(outcome: &Result<ExecRunData, String>) -> (r: (String, String))
    ensures
        outcome matches Ok(o) ==> (o.exit_code == 0 ==> r.0@ == "online"@ && r.1@
            == "resource node reachable and active in user queue"@),
        outcome matches Ok(o) ==> (o.exit_code != 0 ==> r.0@ == "released"@ && r.1@
            == "node reachable but not present in current user jobs"@),
        outcome matches Err(m) ==> r.0@ == "unknown"@ && r.1@ == "failed to check queue state: "@
            + m@,
{
    match outcome {
        Ok(o) => {
            if o.exit_code == 0 {
                ("online".to_owned(), "resource node reachable and active in user queue".to_owned())
            } else {
                ("released".to_owned(), "node reachable but not present in current user jobs".to_owned())
            }
        },
        Err(e) => {
            let mut m = chars_of("failed to check queue state: ");
            push_all(&mut m, chars_of(e.as_str()).as_slice());
            ("unknown".to_owned(), string_of(m.as_slice()))
        },
    }
}

/// Why a client could not reach a server it started: the last failure it
/// saw, or the timeout when it saw none.
pub fn ensure_failure_message(last_error: Option<String>) -> (r: String)
    ensures
        match last_error {
            Some(e) => r@ == "server ensure failed: "@ + e@,
            None => r@ == "server ensure failed: timeout waiting for server startup"@,
        },
{
    match last_error {
        Some(e) => {
            let mut v = chars_of("server ensure failed: ");
            push_all(&mut v, chars_of(e.as_str()).as_slice());
            string_of(v.as_slice())
        },
        None => "server ensure failed: timeout waiting for server startup".to_owned(),
    }
}

// ---------------------------------------------------------------------------
// Making sure a current server runs
// ---------------------------------------------------------------------------

/// How long a client waits for a server it started, in seconds.
pub const ENSURE_DEADLINE_SECS: u64 = 8;

/// How long a client waits between two looks at a starting server, in
/// milliseconds.
pub const ENSURE_POLL_MILLIS: u64 = 200;

/// Whether a server that reports `api_version` and `caps` is the one this
/// client speaks to: the same API version, and every capability offered.
pub open spec fn server_current(api_version: u32, caps: Seq<Seq<char>>) -> bool {
    &&& api_version == SERVER_API_VERSION
    &&& forall|k: int| 0 <= k < capabilities_spec().len() ==> caps.contains(#[trigger] capabilities_spec()[k])
}

fn has_string(caps: &Vec<String>, want: &String) -> (r: bool)
    ensures
        r == string_views(caps@).contains(want@),
{
    let w = chars_of(want.as_str());
    let mut i: usize = 0;
    while i < caps.len()
        invariant
            w@ == want@,
            i <= caps@.len(),
            forall|j: int| 0 <= j < i ==> caps@[j]@ != want@,
        decreases caps@.len() - i,
    {
        if chars_eq_str(w.as_slice(), caps[i].as_str()) {
            assert(string_views(caps@)[i as int] == want@);
            return true;
        }
        i += 1;
    }
    assert forall|j: int| 0 <= j < string_views(caps@).len() implies string_views(caps@)[j] != want@ by {
        assert(string_views(caps@)[j] == caps@[j]@);
    }
    false
}

/// Whether the server that reported `api_version` and `capabilities` in its
/// status is current.
pub fn server_matches(api_version: u32, capabilities: &Vec<String>) -> (r: bool)
    ensures
        r == server_current(api_version, string_views(capabilities@)),
{
    if api_version != SERVER_API_VERSION {
        return false;
    }
    let wanted = server_capabilities();
    let ghost cs = capabilities_spec();
    let mut k: usize = 0;
    while k < wanted.len()
        invariant
            string_views(wanted@) == cs,
            cs == capabilities_spec(),
            k <= wanted@.len(),
            forall|j: int| 0 <= j < k ==> string_views(capabilities@).contains(#[trigger] cs[j]),
        decreases wanted@.len() - k,
    {
        assert(string_views(wanted@)[k as int] == wanted@[k as int]@);
        if !has_string(capabilities, &wanted[k]) {
            return false;
        }
        k += 1;
    }
    true
}

/// What a client learned from its last look at the local server.
pub enum EnsureEvent {
    /// The server answered with its status.
    Answered { api_version: u32, capabilities: Vec<String> },
    /// Reading the runtime file or asking for the status failed.
    Failed(String),
    /// The time for a started server to come up has run out.
    DeadlinePassed,
}

/// What the client does next.
#[derive(Debug, PartialEq, Eq)]
pub enum EnsureAction {
    /// Use the server that answered.
    UseServer,
    /// Start a server, none having answered.
    Start,
    /// Stop the server that answered, which is out of date, and start one.
    Restart,
    /// Look again after a pause.
    WaitAndRetry,
    /// Fail with this message.
    GiveUp(String),
}

/// Why a server that answered is not used.
pub open spec fn stale_message(api_version: u32) -> Seq<char> {
    "local server is out of date (api_version "@ + dec(api_version as nat) + ")"@
}

fn stale_text(api_version: u32) -> (r: String)
    ensures
        r@ == stale_message(api_version),
{
    let mut v = chars_of("local server is out of date (api_version ");
    push_all(&mut v, dec_chars(api_version as u64).as_slice());
    push_str(&mut v, ")");
    string_of(v.as_slice())
}

/// One step of making sure a current server runs. Before a server was
/// `started`, a current server that answers is used, an out-of-date one is
/// restarted and a failed look starts one. Once one was started, a current
/// server is used; any other answer is remembered as the last failure and
/// looked at again, until the deadline gives up with the last failure.
pub fn ensure_step(started: bool, last_error: Option<String>, event: EnsureEvent) -> (r: (
    Option<String>,
    EnsureAction,
))
    ensures
        match event {
            EnsureEvent::Answered { api_version, capabilities } => if server_current(
                api_version,
                string_views(capabilities@),
            ) {
                r.1 == EnsureAction::UseServer && opt_view(r.0) == opt_view(last_error)
            } else if !started {
                r.1 == EnsureAction::Restart && opt_view(r.0) == opt_view(last_error)
            } else {
                r.1 == EnsureAction::WaitAndRetry && opt_view(r.0) == Some(stale_message(api_version))
            },
            EnsureEvent::Failed(e) => if !started {
                r.1 == EnsureAction::Start && opt_view(r.0) == opt_view(last_error)
            } else {
                r.1 == EnsureAction::WaitAndRetry && opt_view(r.0) == Some(e@)
            },
            EnsureEvent::DeadlinePassed => opt_view(r.0) == opt_view(last_error) && (r.1 matches EnsureAction::GiveUp(m)
                && m@ == match last_error {
                Some(e) => "server ensure failed: "@ + e@,
                None => "server ensure failed: timeout waiting for server startup"@,
            }),
        },
{
    match event {
        EnsureEvent::Answered { api_version, capabilities } => {
            if server_matches(api_version, &capabilities) {
                (last_error, EnsureAction::UseServer)
            } else if !started {
                (last_error, EnsureAction::Restart)
            } else {
                (Some(stale_text(api_version)), EnsureAction::WaitAndRetry)
            }
        },
        EnsureEvent::Failed(e) => {
            if !started {
                (last_error, EnsureAction::Start)
            } else {
                (Some(e), EnsureAction::WaitAndRetry)
            }
        },
        EnsureEvent::DeadlinePassed => {
            let kept = match &last_error {
                Some(e) => Some(e.clone()),
                None => None,
            };
            (kept, EnsureAction::GiveUp(ensure_failure_message(last_error)))
        },
    }
}

} // verus!
