use slurm_assistant::client::{
    node_info_from_output, node_jobs_from_outputs, parse_cpu_alloc, parse_gpu_gres_local,
    next_query, node_jobs_plan, parse_node_pending_jobs, partition_info_plan, query_output,
    query_step_output, truncate_for_table, NodeJobEntry, NodeJobsData, QueryAction, QueryStep,
};
use slurm_assistant::commands::{
    build_squeue_jobs_command, is_valid_job_id, node_info_command, node_jobs_commands,
    partition_info_commands,
};
use slurm_assistant::error::SlurmError;
use slurm_assistant::gpu::{
    find_gpu_fits, find_gpu_from_nodes, gpu_node_public, gpu_summary,
    parse_scontrol_gpu_nodes_output, status_gpu_fits, status_gpu_from_nodes, ParsedGpuNode,
};
use slurm_assistant::partition::{job_node_count_fits, parse_partition_info, partition_info_checked};
use slurm_assistant::paths::data_dir_segments;
use slurm_assistant::programs::{build_exec_program, jump_lookup_key, resolve_jump_host_value};
use slurm_assistant::proto::{
    ConnectionAddRequest, ConnectionKind, ConnectionRecord, ErrorCode, ExecRunData,
    FileTransferData, SessionConnectionSummary, SessionNodeRole, SessionRecord, SessionState,
    ServerStatusData, SessionSummaryData, SessionUpsertRequest, SlurmFindGpuData, SlurmGpuNode,
    SlurmGpuSummary, SlurmJob, SlurmStatusGpuData, SlurmSubmitData,
};
use slurm_assistant::render::{
    alloc_plan_lines, cancelled_lines, connection_added_lines, connection_removed_lines,
    released_lines, server_status_lines, session_removed_line, session_upserted_lines,
    submitted_lines, connection_detail_lines, connections_lines, find_gpu_lines, gpu_summary_lines,
    gpu_table_lines, jobs_table_lines, node_jobs_lines, partition_info_lines,
    session_detail_lines, session_summary_lines, sessions_lines, status_gpu_lines,
    transfer_lines,
};
use slurm_assistant::server::{
    api_url, authorization_value, cancel_data_from_output, check_resource_node_state,
    ensure_failure_message, ensure_step, error_reply, gpu_nodes_from_output, server_matches,
    EnsureAction, EnsureEvent, ENSURE_DEADLINE_SECS, ENSURE_POLL_MILLIS, health_after_connect, health_after_queue,
    internal_error, is_authorized, iso_like, jobs_data_from_output, log_data_from_output,
    process_outcome, require_success, server_capabilities, submit_data_from_output,
    unauthorized_error, wait_secs, HealthStep, SERVER_API_VERSION,
};
use slurm_assistant::store::{
    check_session_request, connection_from_row, connection_id_for_label, connection_kind_as_str,
    normalize_description, normalize_keepalive_secs, parse_connection_kind,
    parse_session_node_role, parse_session_state, prepare_connection_add, session_from_row,
    count_active_sessions, session_node_role_as_str, session_state_as_str,
    summarize_active_sessions,
};

fn out(stdout: &str, stderr: &str, exit_code: i32) -> ExecRunData {
    ExecRunData { stdout: stdout.to_string(), stderr: stderr.to_string(), exit_code }
}

fn gpu_node(node: &str, partition: &str, idle: u32, total: u32, ty: &str, drain: bool) -> ParsedGpuNode {
    ParsedGpuNode {
        node: node.to_string(),
        partition: partition.to_string(),
        gpu_idle: idle,
        gpu_total: total,
        gpu_type: ty.to_string(),
        cpu_idle: 8,
        cpu_total: 16,
        is_drain: drain,
    }
}

fn session(id: &str, conn: &str, state: SessionState, last_seen: &str) -> SessionRecord {
    SessionRecord {
        id: id.to_string(),
        connection_id: conn.to_string(),
        session_type: "alloc".to_string(),
        description: Some(format!("{id} work")),
        state,
        node_role: SessionNodeRole::Compute,
        remote_host: None,
        compute_node: Some(format!("{id}-node")),
        keepalive_secs: Some(1800),
        created_at: "1Z".to_string(),
        last_seen_at: last_seen.to_string(),
    }
}

// ---------------------------------------------------------------------------
// Store rules
// ---------------------------------------------------------------------------

#[test]
fn connection_ids_are_slugs_of_labels() {
    assert_eq!(connection_id_for_label("gzu-cluster"), "conn_gzu_cluster");
    assert_eq!(connection_id_for_label("GZU  Cluster!"), "conn_gzu_cluster");
    assert_eq!(connection_id_for_label("__a--b__"), "conn_a_b");
    assert_eq!(connection_id_for_label("!!!"), "conn_default");
    assert_eq!(connection_id_for_label(""), "conn_default");
    assert_eq!(connection_id_for_label("ABC"), connection_id_for_label("abc"));
}

#[test]
fn stored_names_read_back_as_what_was_stored() {
    for kind in [
        ConnectionKind::Local,
        ConnectionKind::Cluster,
        ConnectionKind::Instance,
        ConnectionKind::Server,
        ConnectionKind::ResourceNode,
    ] {
        assert_eq!(parse_connection_kind(connection_kind_as_str(&kind)), kind);
    }
    assert_eq!(connection_kind_as_str(&ConnectionKind::ResourceNode), "resource_node");
    assert_eq!(parse_connection_kind("bogus"), ConnectionKind::Server);
    for state in [SessionState::Active, SessionState::Idle, SessionState::Closed] {
        assert_eq!(parse_session_state(session_state_as_str(&state)), state);
    }
    assert_eq!(parse_session_state("bogus"), SessionState::Idle);
    for role in [SessionNodeRole::Login, SessionNodeRole::Compute, SessionNodeRole::Unknown] {
        assert_eq!(parse_session_node_role(session_node_role_as_str(&role)), role);
    }
    assert_eq!(parse_session_node_role("bogus"), SessionNodeRole::Unknown);
}

#[test]
fn keepalive_is_clamped_to_a_minute_and_a_day() {
    assert_eq!(normalize_keepalive_secs(Some(5)), Some(60));
    assert_eq!(normalize_keepalive_secs(Some(100_000)), Some(86_400));
    assert_eq!(normalize_keepalive_secs(Some(1800)), Some(1800));
    assert_eq!(normalize_keepalive_secs(None), None);
    let once = normalize_keepalive_secs(Some(7));
    assert_eq!(normalize_keepalive_secs(once), once);
}

#[test]
fn descriptions_are_trimmed_and_limited() {
    assert_eq!(normalize_description(Some("  hi  ".to_string())), Ok(Some("hi".to_string())));
    assert_eq!(normalize_description(Some("   ".to_string())), Ok(None));
    assert_eq!(normalize_description(None), Ok(None));
    let exact = "a".repeat(256);
    assert_eq!(normalize_description(Some(exact.clone())), Ok(Some(exact)));
    let err = normalize_description(Some("b".repeat(257))).unwrap_err();
    assert_eq!(err, SlurmError::DescriptionTooLong);
    assert_eq!(err.message(), "session description too long (max 256 characters)");
}

#[test]
fn resource_nodes_need_host_user_and_jump_host() {
    let mut request = ConnectionAddRequest {
        label: "node".to_string(),
        host: None,
        port: None,
        username: Some("u".to_string()),
        kind: ConnectionKind::ResourceNode,
        jump_host: Some("j".to_string()),
        default_keepalive_secs: Some(10),
    };
    assert_eq!(prepare_connection_add(&request), Err(SlurmError::ResourceNodeMissingHost));
    assert_eq!(
        SlurmError::ResourceNodeMissingHost.message(),
        "resource_node connection requires --host"
    );
    request.host = Some("h".to_string());
    request.username = Some(String::new());
    assert_eq!(prepare_connection_add(&request), Err(SlurmError::ResourceNodeMissingUser));
    assert_eq!(
        SlurmError::ResourceNodeMissingUser.message(),
        "resource_node connection requires --user"
    );
    request.username = Some("u".to_string());
    assert_eq!(prepare_connection_add(&request), Ok(("conn_node".to_string(), Some(60))));
    request.kind = ConnectionKind::Cluster;
    request.host = None;
    assert_eq!(prepare_connection_add(&request), Ok(("conn_node".to_string(), Some(60))));
}

#[test]
fn sessions_need_id_and_type() {
    let mut request = SessionUpsertRequest {
        id: "  ".to_string(),
        connection_id: "conn_a".to_string(),
        session_type: String::new(),
        description: None,
        state: SessionState::Active,
        node_role: SessionNodeRole::Login,
        remote_host: None,
        compute_node: None,
        keepalive_secs: None,
    };
    let err = check_session_request(&request).unwrap_err();
    assert_eq!(err.message(), "session id must not be empty");
    request.id = "sess".to_string();
    let err = check_session_request(&request).unwrap_err();
    assert_eq!(err.message(), "session type must not be empty");
    request.session_type = "alloc".to_string();
    assert_eq!(check_session_request(&request), Ok(()));
}

#[test]
fn summary_counts_active_sessions_and_picks_the_latest() {
    let sessions = vec![
        session("a", "conn_1", SessionState::Active, "2"),
        session("b", "conn_1", SessionState::Active, "3"),
        session("c", "conn_2", SessionState::Idle, "9"),
        session("d", "conn_0", SessionState::Active, "1"),
        session("e", "conn_1", SessionState::Active, "3"),
    ];
    let summary = summarize_active_sessions(&sessions);
    assert_eq!(summary.total_active, 4);
    assert_eq!(summary.connections.len(), 2);
    let total: u32 = summary.connections.iter().map(|c| c.active_count).sum();
    assert_eq!(total, summary.total_active);
    assert_eq!(summary.connections[0].connection_id, "conn_0");
    assert_eq!(summary.connections[0].active_count, 1);
    assert_eq!(summary.connections[0].current_session_id.as_deref(), Some("d"));
    assert_eq!(summary.connections[1].connection_id, "conn_1");
    assert_eq!(summary.connections[1].active_count, 3);
    assert_eq!(summary.connections[1].current_session_id.as_deref(), Some("b"));
    assert_eq!(summary.connections[1].current_description.as_deref(), Some("b work"));
    assert_eq!(summary.connections[1].current_compute_node.as_deref(), Some("b-node"));
    assert_eq!(summary.connections[1].current_node_role, Some(SessionNodeRole::Compute));
    assert_eq!(summary.connections[1].last_seen_at.as_deref(), Some("3"));
    assert_eq!(summarize_active_sessions(&Vec::new()).total_active, 0);
}

#[test]
fn stored_rows_become_records() {
    let c = connection_from_row(
        "conn_a".to_string(),
        "a".to_string(),
        Some("h".to_string()),
        Some(70_000),
        None,
        "resource_node",
        Some("j".to_string()),
        Some(-1),
        Some("online".to_string()),
        None,
        None,
    );
    assert_eq!(c.port, Some(70_000i64 as u16));
    assert_eq!(c.kind, ConnectionKind::ResourceNode);
    assert_eq!(c.default_keepalive_secs, Some(u64::MAX));
    assert_eq!(c.health_state.as_deref(), Some("online"));
    let c = connection_from_row(
        "conn_b".to_string(),
        "b".to_string(),
        None,
        Some(21563),
        None,
        "weird",
        None,
        None,
        None,
        None,
        None,
    );
    assert_eq!(c.port, Some(21563));
    assert_eq!(c.kind, ConnectionKind::Server);
    let s = session_from_row(
        "s".to_string(),
        "conn_a".to_string(),
        "alloc".to_string(),
        None,
        "active",
        "login",
        None,
        Some("n1".to_string()),
        Some(900),
        "1Z".to_string(),
        "2Z".to_string(),
    );
    assert_eq!(s.state, SessionState::Active);
    assert_eq!(s.node_role, SessionNodeRole::Login);
    assert_eq!(s.keepalive_secs, Some(900));
    assert_eq!(s.last_seen_at, "2Z");
}

// ---------------------------------------------------------------------------
// Data directory
// ---------------------------------------------------------------------------

#[test]
fn data_directory_follows_the_environment() {
    assert_eq!(data_dir_segments(Some("/data"), true, None, None, None), Ok(vec!["/data".to_string()]));
    assert_eq!(
        data_dir_segments(None, true, Some("C:\\AppData"), Some("/x"), Some("/h")),
        Ok(vec!["C:\\AppData".to_string(), "slurm-assistant".to_string()])
    );
    let err = data_dir_segments(None, true, None, Some("/x"), Some("/h")).unwrap_err();
    assert_eq!(err.message(), "APPDATA not set");
    assert_eq!(
        data_dir_segments(None, false, None, Some("/state"), Some("/h")),
        Ok(vec!["/state".to_string(), "slurm-assistant".to_string()])
    );
    assert_eq!(
        data_dir_segments(None, false, None, None, Some("/home/u")),
        Ok(vec![
            "/home/u".to_string(),
            ".local".to_string(),
            "share".to_string(),
            "slurm-assistant".to_string()
        ])
    );
    let err = data_dir_segments(None, false, None, None, None).unwrap_err();
    assert_eq!(err, SlurmError::EnvNotSet("HOME".to_string()));
    assert_eq!(err.message(), "HOME not set");
}

// ---------------------------------------------------------------------------
// Access and processes
// ---------------------------------------------------------------------------

#[test]
fn only_the_bearer_token_is_let_in() {
    assert!(is_authorized(Some("Bearer token"), "token"));
    assert!(!is_authorized(Some("Bearer other"), "token"));
    assert!(!is_authorized(Some("token"), "token"));
    assert!(!is_authorized(None, "token"));
    let header = authorization_value("sa-1-2");
    assert_eq!(header, "Bearer sa-1-2");
    assert!(is_authorized(Some(&header), "sa-1-2"));
    let e = unauthorized_error();
    assert!(!e.ok);
    assert_eq!(e.error.code, ErrorCode::Unauthorized);
    assert_eq!(e.error.message, "Invalid or missing token");
    let e = internal_error("boom".to_string());
    assert_eq!(e.error.code, ErrorCode::InternalError);
    assert_eq!(e.error.message, "boom");
}

#[test]
fn server_reports_its_capabilities_and_urls() {
    assert_eq!(
        server_capabilities(),
        vec!["connections", "exec", "files", "server", "sessions", "slurm"]
    );
    assert_eq!(api_url("127.0.0.1", 47831, "/v1/ping"), "http://127.0.0.1:47831/v1/ping");
    assert_eq!(iso_like(123), "123Z");
    assert_eq!(iso_like(0), "0Z");
    assert_eq!(
        ensure_failure_message(Some("refused".to_string())),
        "server ensure failed: refused"
    );
    assert_eq!(
        ensure_failure_message(None),
        "server ensure failed: timeout waiting for server startup"
    );
}

#[test]
fn processes_report_timeouts_and_signals() {
    assert_eq!(wait_secs(0), 1);
    assert_eq!(wait_secs(30), 30);
    let r = process_outcome("partial".to_string(), String::new(), None);
    assert_eq!(r.exit_code, 124);
    assert_eq!(r.stderr, "Command timed out");
    assert_eq!(r.stdout, "partial");
    let r = process_outcome(String::new(), "oops".to_string(), None);
    assert_eq!(r.stderr, "oops\nCommand timed out");
    assert!(r.stderr.contains("timed out"));
    let r = process_outcome("x".to_string(), "e".to_string(), Some(None));
    assert_eq!(r.exit_code, -1);
    assert_eq!(r.stderr, "e");
    let r = process_outcome("x".to_string(), String::new(), Some(Some(3)));
    assert_eq!(r.exit_code, 3);
}

#[test]
fn command_output_becomes_replies() {
    assert_eq!(require_success("scp", out("ok", "", 0)), Ok(out("ok", "", 0)));
    let err = require_success("scp", out("", " denied \n", 1)).unwrap_err();
    assert_eq!(err.message(), "scp failed with exit code 1: denied");
    let err = jobs_data_from_output(out("", "bad", 2)).unwrap_err();
    assert_eq!(err.message(), "squeue failed with exit code 2: bad");
    let jobs = jobs_data_from_output(out("1|p|n|u|RUNNING|00:01|1|node1\n", "", 0)).unwrap();
    assert_eq!(jobs.jobs.len(), 1);
    assert_eq!(jobs.jobs[0].partition, "p");
    let err = jobs_data_from_output(out("1|p|n|u|RUNNING|00:01|x|node1\n", "", 0)).unwrap_err();
    assert_eq!(err, SlurmError::SqueueNodeCount { line: 1 });
    assert_eq!(err.message(), "failed to parse node count on line 1");

    let log = log_data_from_output("999999999", out("Log file not found", "", 0)).unwrap();
    assert_eq!(log.job_id, "999999999");
    assert!(!log.found);
    assert_eq!(log.content, "Log file not found");
    let log = log_data_from_output("7", out("training started\n", "", 0)).unwrap();
    assert!(log.found);
    let err = log_data_from_output("7", out("", "no", -1)).unwrap_err();
    assert_eq!(err.message(), "log query failed with exit code -1: no");

    let ids = vec!["60001".to_string(), "60002".to_string()];
    assert_eq!(cancel_data_from_output(&ids, out("", "", 0)).unwrap().cancelled, ids);
    assert!(cancel_data_from_output(&ids, out("", "", 1)).is_err());

    let submitted = submit_data_from_output(out("  Submitted batch job 60001\n", "", 0)).unwrap();
    assert_eq!(submitted.job_id, "60001");
    assert_eq!(submitted.raw_output, "Submitted batch job 60001");
    let err = submit_data_from_output(out("nope\n", "", 0)).unwrap_err();
    assert_eq!(err.message(), "failed to parse submitted job id from output: nope");
    let err = submit_data_from_output(out("", "boom", 1)).unwrap_err();
    assert_eq!(err.message(), "sbatch failed with exit code 1: boom");

    let nodes = gpu_nodes_from_output(out("NodeName=g1\nGres=gpu:a10:2\n", "", 0)).unwrap();
    assert_eq!(nodes.len(), 1);
    assert_eq!(nodes[0].gpu_type, "A10");
    assert_eq!(nodes[0].partition, "unknown");
    let err = gpu_nodes_from_output(out("", "x", 1)).unwrap_err();
    assert_eq!(err.message(), "scontrol show node failed with exit code 1: x");
}

#[test]
fn health_check_walks_through_its_steps() {
    match check_resource_node_state(Some("gpu-a100-01"), Some(22), Some("qiandingh"), Some("gzu-hpc")) {
        HealthStep::RunSsh { args } => assert_eq!(
            args,
            vec![
                "-o",
                "StrictHostKeyChecking=accept-new",
                "-J",
                "gzu-hpc",
                "-p",
                "22",
                "qiandingh@gpu-a100-01",
                "hostname"
            ]
        ),
        HealthStep::Report { .. } => panic!("a complete record is checked"),
    }
    match check_resource_node_state(Some("n"), None, Some("u"), None) {
        HealthStep::Report { state, .. } => assert_eq!(state, "invalid"),
        HealthStep::RunSsh { .. } => panic!("no jump host"),
    }
    match health_after_connect("gpu-a100-01", "qiandingh", "gzu-hpc", &Ok(out("n\n", "", 0))) {
        HealthStep::RunSsh { args } => assert_eq!(
            args,
            vec![
                "-o",
                "StrictHostKeyChecking=accept-new",
                "gzu-hpc",
                "squeue -h -u qiandingh -o '%N' | xargs -r -n1 scontrol show hostnames | grep -Fx 'gpu-a100-01' >/dev/null"
            ]
        ),
        HealthStep::Report { .. } => panic!("a reachable node is checked in the queue"),
    }
    match health_after_connect("h", "u", "j", &Ok(out("", " refused \n", 255))) {
        HealthStep::Report { state, message } => {
            assert_eq!(state, "offline");
            assert_eq!(message, "ssh failed: refused");
        }
        HealthStep::RunSsh { .. } => panic!("an unreachable node is offline"),
    }
    match health_after_connect("h", "u", "j", &Err("no ssh".to_string())) {
        HealthStep::Report { state, message } => {
            assert_eq!(state, "offline");
            assert_eq!(message, "ssh error: no ssh");
        }
        HealthStep::RunSsh { .. } => panic!("ssh could not run"),
    }
    assert_eq!(
        health_after_queue(&Ok(out("", "", 0))),
        ("online".to_string(), "resource node reachable and active in user queue".to_string())
    );
    assert_eq!(
        health_after_queue(&Ok(out("", "", 1))),
        ("released".to_string(), "node reachable but not present in current user jobs".to_string())
    );
    assert_eq!(
        health_after_queue(&Err("gone".to_string())),
        ("unknown".to_string(), "failed to check queue state: gone".to_string())
    );
}

// ---------------------------------------------------------------------------
// Programs and commands
// ---------------------------------------------------------------------------

fn record(kind: ConnectionKind, host: Option<&str>, user: Option<&str>, jump: Option<&str>) -> ConnectionRecord {
    ConnectionRecord {
        id: "conn_x".to_string(),
        label: "x".to_string(),
        host: host.map(str::to_string),
        port: None,
        username: user.map(str::to_string),
        kind,
        jump_host: jump.map(str::to_string),
        default_keepalive_secs: None,
        health_state: None,
        health_message: None,
        last_health_checked_at: None,
    }
}

#[test]
fn exec_programs_for_each_kind_of_connection() {
    let local = record(ConnectionKind::Local, None, None, None);
    assert_eq!(
        build_exec_program(None, &local, "echo hi", false).unwrap(),
        ("sh".to_string(), vec!["-lc".to_string(), "echo hi".to_string()])
    );
    assert_eq!(
        build_exec_program(None, &local, "echo hi", true).unwrap(),
        ("cmd".to_string(), vec!["/C".to_string(), "echo hi".to_string()])
    );
    let no_host = record(ConnectionKind::Server, None, Some("u"), None);
    assert_eq!(build_exec_program(None, &no_host, "x", false), Err(SlurmError::RemoteMissingHost));
    assert_eq!(SlurmError::RemoteMissingHost.message(), "remote connection missing host");
    let no_user = record(ConnectionKind::Server, Some("h"), None, None);
    assert_eq!(build_exec_program(None, &no_user, "x", false), Err(SlurmError::RemoteMissingUsername));
    let jumped = record(ConnectionKind::Instance, Some("h"), Some("u"), Some("  ju@jh  "));
    let (program, args) = build_exec_program(None, &jumped, "x", false).unwrap();
    assert_eq!(program, "ssh");
    assert_eq!(args, vec!["-o", "StrictHostKeyChecking=accept-new", "-J", "ju@jh", "u@h", "x"]);
    let blank_jump = record(ConnectionKind::Instance, Some("h"), Some("u"), Some("   "));
    let err = build_exec_program(None, &blank_jump, "x", false).unwrap_err();
    assert_eq!(err.message(), "jump host must not be empty");
}

#[test]
fn jump_hosts_resolve_through_stored_connections() {
    assert_eq!(jump_lookup_key(" gzu-hpc "), Some("gzu-hpc".to_string()));
    assert_eq!(jump_lookup_key("user@host"), None);
    assert_eq!(jump_lookup_key("host:22"), None);
    assert_eq!(jump_lookup_key("  "), None);
    assert_eq!(resolve_jump_host_value(None, " plain "), Ok("plain".to_string()));
    let no_port = record(ConnectionKind::Instance, Some("h"), Some("u"), None);
    assert_eq!(resolve_jump_host_value(Some(&no_port), "conn_x"), Ok("u@h".to_string()));
    let no_host = record(ConnectionKind::Instance, None, Some("u"), None);
    let err = resolve_jump_host_value(Some(&no_host), "conn_x").unwrap_err();
    assert_eq!(err.message(), "jump host connection `conn_x` missing host");
    let no_user = record(ConnectionKind::Instance, Some("h"), None, None);
    let err = resolve_jump_host_value(Some(&no_user), "conn_x").unwrap_err();
    assert_eq!(err.message(), "jump host connection `conn_x` missing username");
}

#[test]
fn job_ids_and_query_commands() {
    assert!(is_valid_job_id("60001"));
    assert!(is_valid_job_id("60001_3"));
    assert!(!is_valid_job_id(""));
    assert!(!is_valid_job_id("1;2"));
    assert_eq!(
        build_squeue_jobs_command(Some("57373"), Some("alice"), None).unwrap(),
        "squeue -j 57373 -h -o '%i|%P|%j|%u|%T|%M|%D|%R'"
    );
    assert_eq!(
        build_squeue_jobs_command(None, None, Some("bob")).unwrap(),
        "squeue -u bob -h -o '%i|%P|%j|%u|%T|%M|%D|%R'"
    );
    let err = build_squeue_jobs_command(None, None, None).unwrap_err();
    assert_eq!(err.message(), "missing username for slurm jobs query");
    assert_eq!(node_info_command("gpu-1"), "scontrol show node gpu-1");
    let (running, pending, parts) = node_jobs_commands("gpu-1");
    assert_eq!(running, "squeue -w gpu-1 -t RUNNING -h -o '%i|%j|%u|%T|%M|%m'");
    assert_eq!(pending, "squeue -t PENDING -h -o '%i|%j|%u|%T|%M|%P|%m'");
    assert_eq!(parts, "sinfo -N -n gpu-1 -h -o '%P'");
    assert_eq!(
        partition_info_commands(Some("gpu-a10")),
        (
            "sinfo -p gpu-a10 -N -h -o '%N|%C|%G|%m'".to_string(),
            "squeue -p gpu-a10 -t RUNNING -h -o '%i|%N|%b|%M'".to_string()
        )
    );
    assert_eq!(
        partition_info_commands(None),
        (
            "sinfo -N -h -o '%N|%P|%C|%G|%m'".to_string(),
            "squeue -t RUNNING -h -o '%i|%N|%b|%M'".to_string()
        )
    );
}

// ---------------------------------------------------------------------------
// Client parsing
// ---------------------------------------------------------------------------

#[test]
fn sinfo_figures_are_read() {
    assert_eq!(parse_cpu_alloc("28/20/0/48"), (28, 20, 0, 48));
    assert_eq!(parse_cpu_alloc("28/x/0/48"), (28, 0, 0, 48));
    assert_eq!(parse_cpu_alloc("1/2/3"), (0, 0, 0, 0));
    assert_eq!(parse_gpu_gres_local("gpu:a10:2"), (2, Some("A10".to_string())));
    assert_eq!(parse_gpu_gres_local("GPU:8"), (8, Some("UNKNOWN".to_string())));
    assert_eq!(parse_gpu_gres_local("(null)"), (0, None));
    assert_eq!(truncate_for_table("abc", 1), "\u{2026}");
    assert_eq!(truncate_for_table("abc", 0), "\u{2026}");
    assert_eq!(truncate_for_table("abc", 3), "abc");
    assert!(truncate_for_table("a long cell value", 6).chars().count() <= 6);
}

#[test]
fn node_jobs_keep_pending_jobs_of_the_node_partitions() {
    let pending = "1|a|u|PENDING|0:00|gpu|1G\n2|b|u|PENDING|0:00|cpu|2G\n";
    let jobs = parse_node_pending_jobs(pending, " gpu \n\n").unwrap();
    assert_eq!(jobs.len(), 1);
    assert_eq!(jobs[0].job_id, "1");
    assert_eq!(jobs[0].mem, "1G");
    let err = parse_node_pending_jobs("1|a|u\n", "gpu\n").unwrap_err();
    assert_eq!(err.message(), "failed to parse pending node-jobs row: 1|a|u");
    let err = node_jobs_from_outputs("n1", "bad\n", pending, "gpu\n").unwrap_err();
    assert_eq!(err, SlurmError::RunningRow("bad".to_string()));
    let data = node_jobs_from_outputs("n1", "9|t|u|RUNNING|0:01|4G\n", pending, "gpu\n").unwrap();
    assert_eq!(data.node, "n1");
    assert_eq!(data.running_jobs.len(), 1);
    assert_eq!(data.pending_jobs.len(), 1);
}

#[test]
fn client_query_steps_report_failures() {
    assert_eq!(query_output("node-jobs running query", out("rows", "", 0)), Ok("rows".to_string()));
    let err = query_output("node-jobs running query", out("", " down\n", 1)).unwrap_err();
    assert_eq!(err.message(), "node-jobs running query failed: down");
    let info = node_info_from_output("gpu-1", out("NodeName=gpu-1", "", 0)).unwrap();
    assert_eq!(info.node, "gpu-1");
    assert_eq!(info.raw_output, "NodeName=gpu-1");
    let err = node_info_from_output("gpu-1", out("", "no", 1)).unwrap_err();
    assert_eq!(err.message(), "node-info command failed: no");
}

#[test]
fn partition_overview_counts_jobs_and_reports_bad_rows() {
    let nodes = "b-node|gpu|0/8/0/8|gpu:a10:4|1000\na-node|gpu|0/8/0/8|gpu:a10:4|1000\nc-node|gpu|1/7/0/8|(null)|500\n";
    let jobs = "1|a-node,b-node|gpu:2|00:01\n2|a-node|GRES:GPU:A10:3|00:02\n\n3| c-node |N/A|00:03\n";
    let parsed = parse_partition_info(nodes, jobs, None).unwrap();
    assert_eq!(parsed.partitions.len(), 1);
    let section = &parsed.partitions[0];
    assert_eq!(section.partition, "gpu");
    assert_eq!(section.gpu_nodes.len(), 2);
    assert_eq!(section.gpu_nodes[0].node, "a-node");
    assert_eq!(section.gpu_nodes[0].jobs, 2);
    assert_eq!(section.gpu_nodes[0].gpu_idle, 1);
    assert_eq!(section.gpu_nodes[1].node, "b-node");
    assert_eq!(section.gpu_nodes[1].jobs, 1);
    assert_eq!(section.gpu_nodes[1].gpu_idle, 2);
    assert_eq!(section.cpu_nodes.len(), 1);
    assert_eq!(section.cpu_nodes[0].jobs, 1);
    assert_eq!(section.cpu_nodes[0].cpu_idle, 7);
    assert_eq!(section.cpu_nodes[0].gpu_type, None);

    let fixed = parse_partition_info("n1|1/1/0/2|gpu:8|10\n", "", Some("p")).unwrap();
    assert_eq!(fixed.partitions[0].partition, "p");
    assert_eq!(fixed.partitions[0].gpu_nodes[0].gpu_type.as_deref(), Some("UNKNOWN"));

    let err = parse_partition_info("n1|p|1/1/0/2\n", "", None).unwrap_err();
    assert_eq!(err.message(), "failed to parse partition node row: n1|p|1/1/0/2");
    let err = parse_partition_info("n1|p|1/1/0/2|(null)|1\n", "1|n1|x\n", None).unwrap_err();
    assert_eq!(err, SlurmError::PartitionJobsRow("1|n1|x".to_string()));
    assert!(job_node_count_fits(nodes, jobs, None));
    assert!(job_node_count_fits(nodes, "", None));
    assert!(job_node_count_fits("n1|p|1/1/0/2\n", jobs, None));
    assert!(job_node_count_fits("n1|p|1/1/0/2|(null)|1\n", "1|n1|x\n2|n1|gpu:1|0:01\n", None));
    let checked = partition_info_checked(nodes, jobs, None).unwrap().unwrap();
    assert_eq!(checked, parse_partition_info(nodes, jobs, None).unwrap());
    let checked = partition_info_checked("n1|p|1/1/0/2\n", "", None).unwrap().unwrap_err();
    assert_eq!(checked.message(), "failed to parse partition node row: n1|p|1/1/0/2");
}

// ---------------------------------------------------------------------------
// GPU views
// ---------------------------------------------------------------------------

#[test]
fn gpu_views_split_and_summarize_nodes() {
    let nodes = vec![
        gpu_node("g1", "gpu-a10,gpu-share", 1, 2, "A10", false),
        gpu_node("g2", "gpu-a10", 0, 4, "A10", false),
        gpu_node("g3", "gpu-a10", 2, 2, "A40", true),
        gpu_node("g4", "gpu-a100", 8, 8, "A100", false),
    ];
    assert!(status_gpu_fits(&nodes, Some("gpu-a10")));
    let status = status_gpu_from_nodes(nodes.clone(), Some("gpu-a10"));
    assert_eq!(status.available_nodes.len(), 2);
    assert_eq!(status.drain_nodes.len(), 1);
    assert_eq!(status.summary, SlurmGpuSummary { available_nodes: 2, total_gpu: 6, idle_gpu: 1 });

    assert!(find_gpu_fits(&nodes, Some("a10")));
    let found = find_gpu_from_nodes(nodes.clone(), Some("a10"));
    assert_eq!(found.available_nodes.len(), 1);
    assert_eq!(found.busy_nodes.len(), 1);
    assert_eq!(found.drain_nodes.len(), 0);
    assert_eq!(found.summary, SlurmGpuSummary { available_nodes: 2, total_gpu: 6, idle_gpu: 1 });
    let all = find_gpu_from_nodes(nodes.clone(), None);
    assert_eq!(all.available_nodes.len() + all.busy_nodes.len() + all.drain_nodes.len(), 4);

    let huge = vec![
        gpu_node("h1", "p", 0, u32::MAX, "X", false),
        gpu_node("h2", "p", 0, 1, "X", false),
    ];
    assert!(!status_gpu_fits(&huge, None));
    assert!(!find_gpu_fits(&huge, None));
    assert!(status_gpu_fits(&huge, Some("other")));

    let public = gpu_node_public(&nodes[0]);
    assert_eq!(public.node, "g1");
    assert_eq!(public.gpu_total, 2);
    let summary = gpu_summary(&[public]);
    assert_eq!(summary, SlurmGpuSummary { available_nodes: 1, total_gpu: 2, idle_gpu: 1 });
}

// ---------------------------------------------------------------------------
// Printed text
// ---------------------------------------------------------------------------

fn a10_node() -> SlurmGpuNode {
    SlurmGpuNode {
        node: "gpu-a10-3".to_string(),
        partition: "gpu-a10".to_string(),
        gpu_idle: 1,
        gpu_total: 2,
        gpu_type: "A10".to_string(),
        cpu_idle: 16,
        cpu_total: 32,
    }
}

fn gpu_row(n: &SlurmGpuNode) -> String {
    format!(
        "{:<20} {:<12} {:<15} {:<15} {}",
        truncate_for_table(&n.node, 20),
        truncate_for_table(&n.partition, 12),
        format!("{}/{}", n.gpu_idle, n.gpu_total),
        format!("{}/{}", n.cpu_idle, n.cpu_total),
        n.gpu_type
    )
}

fn gpu_header() -> String {
    format!(
        "{:<20} {:<12} {:<15} {:<15} GPU TYPE",
        "NODE", "PARTITION", "GPU IDLE/TOTAL", "CPU IDLE/TOTAL"
    )
}

#[test]
fn gpu_status_text_lists_nodes_and_summary() {
    let node = a10_node();
    assert_eq!(gpu_table_lines(&[node.clone()]), vec![gpu_header(), gpu_row(&node)]);
    assert_eq!(
        gpu_summary_lines(1, 2, 1),
        vec!["Summary", "  available_nodes: 1", "  total_gpu: 2", "  idle_gpu: 1"]
    );
    let data = SlurmStatusGpuData {
        available_nodes: vec![node.clone()],
        drain_nodes: vec![node.clone()],
        summary: SlurmGpuSummary { available_nodes: 1, total_gpu: 2, idle_gpu: 1 },
    };
    let lines = status_gpu_lines(&data);
    assert_eq!(
        lines,
        vec![
            "[AVAILABLE] GPU nodes (1)".to_string(),
            gpu_header(),
            gpu_row(&node),
            String::new(),
            "[DRAIN] GPU nodes (1)".to_string(),
            gpu_header(),
            gpu_row(&node),
            String::new(),
            "Summary".to_string(),
            "  available_nodes: 1".to_string(),
            "  total_gpu: 2".to_string(),
            "  idle_gpu: 1".to_string(),
        ]
    );
    let empty = SlurmStatusGpuData {
        available_nodes: vec![],
        drain_nodes: vec![],
        summary: SlurmGpuSummary { available_nodes: 0, total_gpu: 0, idle_gpu: 0 },
    };
    assert_eq!(
        status_gpu_lines(&empty),
        vec!["No GPU nodes found", "", "Summary", "  available_nodes: 0", "  total_gpu: 0", "  idle_gpu: 0"]
    );
}

#[test]
fn gpu_search_text_separates_groups() {
    let node = a10_node();
    let data = SlurmFindGpuData {
        available_nodes: vec![],
        busy_nodes: vec![node.clone()],
        drain_nodes: vec![node.clone()],
        summary: SlurmGpuSummary { available_nodes: 1, total_gpu: 2, idle_gpu: 1 },
    };
    assert_eq!(
        find_gpu_lines(&data),
        vec![
            "[BUSY] Nodes without idle GPU (1)".to_string(),
            gpu_header(),
            gpu_row(&node),
            String::new(),
            "[DRAIN] Unavailable GPU nodes (1)".to_string(),
            gpu_header(),
            gpu_row(&node),
            String::new(),
            "Summary".to_string(),
            "  available_nodes: 1".to_string(),
            "  total_gpu: 2".to_string(),
            "  idle_gpu: 1".to_string(),
        ]
    );
    let empty = SlurmFindGpuData {
        available_nodes: vec![],
        busy_nodes: vec![],
        drain_nodes: vec![],
        summary: SlurmGpuSummary { available_nodes: 0, total_gpu: 0, idle_gpu: 0 },
    };
    assert_eq!(find_gpu_lines(&empty)[0], "No matching GPU nodes found");
    assert_eq!(find_gpu_lines(&empty).len(), 6);
}

#[test]
fn connection_and_transfer_text() {
    let mut c = record(ConnectionKind::ResourceNode, Some("h"), Some("u"), None);
    c.port = Some(22);
    c.default_keepalive_secs = Some(1800);
    assert_eq!(
        connection_detail_lines(&c),
        vec![
            "Connection",
            "  id: conn_x",
            "  label: x",
            "  kind: resourcenode",
            "  endpoint: u@h:22",
            "  jump_host: -",
            "  default_keepalive_secs: 1800"
        ]
    );
    let local = record(ConnectionKind::Local, None, None, Some("j"));
    assert_eq!(connection_detail_lines(&local)[4], "  endpoint: local");
    assert_eq!(connection_detail_lines(&local)[5], "  jump_host: j");
    assert_eq!(
        connections_lines(&[c.clone(), local.clone()]),
        vec!["Connections", "  x [resourcenode] u@h:22 keepalive:1800", "  x [local] local keepalive:-"]
    );
    assert_eq!(connections_lines(&[]), vec!["No connections configured"]);
    let data = FileTransferData {
        source_path: "/tmp/a".to_string(),
        destination_path: "~/a".to_string(),
        recursive: true,
    };
    assert_eq!(transfer_lines("Uploaded", &data), vec!["Uploaded /tmp/a", "  to: ~/a", "  recursive: true"]);
}

#[test]
fn session_text_shows_details_and_tables() {
    let s = session("sess_a", "conn_gzu_cluster", SessionState::Active, "5Z");
    assert_eq!(
        session_detail_lines(&s),
        vec![
            "Session",
            "  id: sess_a",
            "  connection: conn_gzu_cluster",
            "  type: alloc",
            "  state: Active",
            "  node_role: Compute",
            "  description: sess_a work",
            "  remote_host: -",
            "  compute_node: sess_a-node",
            "  keepalive_secs: 1800",
            "  created_at: 1Z",
            "  last_seen_at: 5Z"
        ]
    );
    assert_eq!(sessions_lines(&[]), vec!["No sessions found"]);
    let lines = sessions_lines(&[s.clone()]);
    assert_eq!(
        lines[0],
        format!(
            "{:<18} {:<20} {:<8} {:<8} {:<16} {:<10} Description",
            "SESSION_ID", "CONNECTION", "TYPE", "STATE", "COMPUTE_NODE", "KEEPALIVE"
        )
    );
    assert_eq!(
        lines[1],
        format!(
            "{:<18} {:<20} {:<8} {:<8} {:<16} {:<10} {}",
            "sess_a", "conn_gzu_cluster", "alloc", "active", "sess_a-node", "1800", "sess_a work"
        )
    );
    let summary = SessionSummaryData {
        total_active: 1,
        connections: vec![SessionConnectionSummary {
            connection_id: "conn_with_a_rather_long_identifier".to_string(),
            active_count: 1,
            current_session_id: Some("sess_a".to_string()),
            current_description: None,
            current_node_role: Some(SessionNodeRole::Compute),
            current_compute_node: None,
            current_keepalive_secs: None,
            last_seen_at: Some("5Z".to_string()),
        }],
    };
    assert_eq!(
        session_summary_lines(&summary),
        vec![
            "Active sessions: 1".to_string(),
            format!(
                "{:<20} {:<7} {:<18} {:<16} {:<10} Description",
                "CONNECTION", "ACTIVE", "CURRENT_SESSION", "COMPUTE_NODE", "KEEPALIVE"
            ),
            format!(
                "{:<20} {:<7} {:<18} {:<16} {:<10} {}",
                "conn_with_a_rather_+", 1, "sess_a", "-", "-", "-"
            ),
        ]
    );
    let none = SessionSummaryData { total_active: 0, connections: vec![] };
    assert_eq!(session_summary_lines(&none), vec!["Active sessions: 0"]);
}

#[test]
fn job_listings_render_as_tables() {
    let job = SlurmJob {
        job_id: "57373".to_string(),
        partition: "gpu-a10".to_string(),
        name: "interactive".to_string(),
        user: "qiandingh".to_string(),
        state: "RUNNING".to_string(),
        time: "17:08:48".to_string(),
        nodes: 1,
        reason: "gpu-a10-13".to_string(),
    };
    assert_eq!(jobs_table_lines(&[]), vec!["No jobs found"]);
    assert_eq!(
        jobs_table_lines(&[job]),
        vec![
            format!(
                "{:<12} {:<12} {:<20} {:<12} {:<12} {:<12} {:<6} REASON",
                "JOBID", "PARTITION", "NAME", "USER", "STATE", "TIME", "NODES"
            ),
            format!(
                "{:<12} {:<12} {:<20} {:<12} {:<12} {:<12} {:<6} {}",
                "57373", "gpu-a10", "interactive", "qiandingh", "RUNNING", "17:08:48", 1, "gpu-a10-13"
            ),
        ]
    );
    let data = NodeJobsData {
        node: "gpu-1".to_string(),
        running_jobs: vec![NodeJobEntry {
            job_id: "123".to_string(),
            name: "a-very-long-training-job-name".to_string(),
            user: "alice".to_string(),
            status: "RUNNING".to_string(),
            time: "00:12".to_string(),
            mem: "8G".to_string(),
        }],
        pending_jobs: vec![],
    };
    assert_eq!(
        node_jobs_lines(&data),
        vec![
            "Node: gpu-1".to_string(),
            String::new(),
            "[RUNNING] Running jobs (1)".to_string(),
            format!("{:<10} {:<25} {:<12} {:<12} Memory", "JOBID", "Name", "User", "Runtime"),
            format!(
                "{:<10} {:<25} {:<12} {:<12} {}",
                "123", "a-very-long-training-job+", "alice", "00:12", "8G"
            ),
            String::new(),
            "[PENDING] Pending jobs (0)".to_string(),
            "  None".to_string(),
        ]
    );
}

#[test]
fn partition_overview_renders_sections() {
    let nodes = "gpu-a10-1|gpu-a10|28/20/0/48|gpu:a10:2|128000\ncpu48c-1|cpu48c|4/44/0/48|(null)|64000\n";
    let parsed = parse_partition_info(nodes, "9001|gpu-a10-1|gpu:1|00:10\n", None).unwrap();
    let rule = "=".repeat(60);
    assert_eq!(
        partition_info_lines(&parsed),
        vec![
            rule.clone(),
            "Partition: cpu48c".to_string(),
            rule.clone(),
            String::new(),
            "[CPU Nodes] (1)".to_string(),
            format!("{:<18} {:<14} {:<8} Memory", "Node", "CPU Idle/Total", "Jobs"),
            format!("{:<18} {:<14} {:<8} {}", "cpu48c-1", "44/48", 0, "64000"),
            String::new(),
            rule.clone(),
            "Partition: gpu-a10".to_string(),
            rule.clone(),
            String::new(),
            "[GPU Nodes] (1)".to_string(),
            format!(
                "{:<18} {:<14} {:<14} {:<8} Memory",
                "Node", "GPU Idle/Total", "CPU Idle/Total", "Jobs"
            ),
            format!("{:<18} {:<14} {:<14} {:<8} {}", "gpu-a10-1", "1/2", "20/48", 1, "128000"),
            String::new(),
        ]
    );
}

#[test]
fn every_error_names_its_cause() {
    let cases = vec![
        (SlurmError::InvalidLogJobId("1;x".to_string()), "invalid job id for log query: 1;x"),
        (SlurmError::InvalidCancelJobId("2;y".to_string()), "invalid job id for cancel query: 2;y"),
        (SlurmError::NoJobIds, "must provide at least one job id"),
        (SlurmError::EmptyScriptPath, "script path must not be empty"),
        (SlurmError::QuotedScriptPath, "script path must not contain single quotes"),
        (SlurmError::SubmitRegexInvalid, "failed to compile submit regex"),
        (SlurmError::SubmittedJobIdNotFound("x".to_string()), "failed to parse submitted job id from output: x"),
        (SlurmError::SubmitCaptureMissing, "submit output missing job id capture"),
        (SlurmError::SqueueFieldCount { line: 3, got: 2 }, "failed to parse squeue line 3: expected 8 fields, got 2"),
        (SlurmError::SqueueNodeCount { line: 12 }, "failed to parse node count on line 12"),
        (SlurmError::RemoteMissingHost, "remote connection missing host"),
        (SlurmError::RemoteMissingUsername, "remote connection missing username"),
        (SlurmError::EmptyJumpHost, "jump host must not be empty"),
        (SlurmError::JumpHostMissingHost("c".to_string()), "jump host connection `c` missing host"),
        (SlurmError::JumpHostMissingUsername("c".to_string()), "jump host connection `c` missing username"),
        (SlurmError::MissingSrunCommand, "must provide command for srun"),
        (SlurmError::RunningRow("r".to_string()), "failed to parse running node-jobs row: r"),
        (SlurmError::PendingRow("p".to_string()), "failed to parse pending node-jobs row: p"),
        (SlurmError::PartitionNodeRow("n".to_string()), "failed to parse partition node row: n"),
        (SlurmError::PartitionJobsRow("j".to_string()), "failed to parse partition jobs row: j"),
        (SlurmError::PartitionRegexInvalid, "failed to compile partition-info GPU usage regex"),
        (
            SlurmError::CommandFailed { what: "squeue".to_string(), exit_code: -2, stderr: "\tboom\n".to_string() },
            "squeue failed with exit code -2: boom",
        ),
        (
            SlurmError::QueryFailed { what: "node-info command".to_string(), stderr: " no ".to_string() },
            "node-info command failed: no",
        ),
        (SlurmError::ResourceNodeMissingHost, "resource_node connection requires --host"),
        (SlurmError::ResourceNodeMissingUser, "resource_node connection requires --user"),
        (SlurmError::ResourceNodeMissingJumpHost, "resource_node connection requires --jump-host"),
        (SlurmError::EmptySessionId, "session id must not be empty"),
        (SlurmError::EmptySessionType, "session type must not be empty"),
        (SlurmError::DescriptionTooLong, "session description too long (max 256 characters)"),
        (SlurmError::MissingUsername, "missing username for slurm jobs query"),
        (SlurmError::EnvNotSet("HOME".to_string()), "HOME not set"),
        (SlurmError::ConnectionNotFound("conn_x".to_string()), "connection not found: conn_x"),
        (SlurmError::SessionNotFound("sess_x".to_string()), "session not found: sess_x"),
    ];
    for (err, text) in cases {
        assert_eq!(err.message(), text);
    }
}

#[test]
fn scontrol_nodes_never_have_more_idle_than_total() {
    let output = "NodeName=a\nGres=gpu:2\nAllocTRES=gres/gpu=5\nCPUAlloc=40 CPUTot=32\nNodeName=b\nGres=cpu:4\nNodeName=c\nGres=gpu:t4:1\nState=MIXED+DRAIN\n";
    let nodes = parse_scontrol_gpu_nodes_output(output).unwrap();
    assert_eq!(nodes.len(), 2);
    for n in &nodes {
        assert!(n.gpu_total > 0);
        assert!(n.gpu_idle <= n.gpu_total);
        assert!(n.cpu_idle <= n.cpu_total);
    }
    assert_eq!(nodes[0].gpu_idle, 0);
    assert_eq!(nodes[0].cpu_idle, 0);
    assert_eq!(nodes[0].gpu_type, "UNKNOWN");
    assert!(nodes[1].is_drain);
    assert_eq!(nodes[1].gpu_type, "T4");
}

#[test]
fn short_reports_read_as_before() {
    let ids = vec!["60001".to_string(), "60002".to_string()];
    assert_eq!(cancelled_lines(&ids), vec!["Cancelled 2 job(s)", "  60001", "  60002"]);
    assert_eq!(released_lines(&vec!["7".to_string()]), vec!["Resources released", "  7"]);
    assert_eq!(
        connection_added_lines("conn_a", true),
        vec!["Connection added", "  id: conn_a", "  created: true"]
    );
    assert_eq!(
        connection_removed_lines("conn_a", false),
        vec!["Connection removed", "  id: conn_a", "  deleted: false"]
    );
    assert_eq!(
        session_upserted_lines("sess_a", false),
        vec!["Session upserted", "  id: sess_a", "  created: false"]
    );
    assert_eq!(session_removed_line(true), "Session removed: true");
    let status = ServerStatusData {
        pid: 1,
        started_at: "123Z".to_string(),
        transport: "tcp".to_string(),
        host: "127.0.0.1".to_string(),
        port: 47831,
        db_path: "state.db".to_string(),
        runtime_path: "runtime.json".to_string(),
        api_version: SERVER_API_VERSION,
        capabilities: server_capabilities(),
    };
    assert_eq!(
        server_status_lines("Server ready", &status),
        vec![
            "Server ready",
            "  transport: tcp",
            "  endpoint: 127.0.0.1:47831",
            "  runtime: runtime.json",
            "  db: state.db"
        ]
    );
    assert_eq!(
        alloc_plan_lines("salloc -p gpu"),
        vec!["Interactive allocation command", "  salloc -p gpu"]
    );
    let submitted = SlurmSubmitData {
        job_id: "60001".to_string(),
        raw_output: "Submitted batch job 60001".to_string(),
    };
    assert_eq!(submitted_lines(&submitted), vec!["Submitted batch job 60001", "job_id: 60001"]);
}

#[test]
fn summary_of_latest_first_sessions_names_the_first_active_one() {
    let sessions = vec![
        session("c", "conn_2", SessionState::Idle, "9"),
        session("e", "conn_1", SessionState::Active, "3"),
        session("b", "conn_1", SessionState::Active, "3"),
        session("a", "conn_1", SessionState::Active, "2"),
        session("d", "conn_0", SessionState::Active, "1"),
    ];
    let summary = summarize_active_sessions(&sessions);
    assert_eq!(count_active_sessions(&sessions), 4);
    assert_eq!(summary.total_active, 4);
    assert_eq!(summary.connections[1].connection_id, "conn_1");
    assert_eq!(summary.connections[1].current_session_id.as_deref(), Some("e"));
    assert_eq!(summary.connections[0].current_session_id.as_deref(), Some("d"));
    assert_eq!(count_active_sessions(&Vec::new()), 0);
}

#[test]
fn query_steps_are_reported_by_name() {
    assert_eq!(query_step_output(QueryStep::PartitionJobs, out("rows", "", 0)), Ok("rows".to_string()));
    let cases = [
        (QueryStep::NodeJobsRunning, "node-jobs running query failed: down"),
        (QueryStep::NodeJobsPending, "node-jobs pending query failed: down"),
        (QueryStep::NodeJobsPartition, "node-jobs partition query failed: down"),
        (QueryStep::PartitionNodes, "partition-info node query failed: down"),
        (QueryStep::PartitionJobs, "partition-info jobs query failed: down"),
    ];
    for (step, message) in cases {
        let err = query_step_output(step, out("", " down\n", 2)).unwrap_err();
        assert_eq!(err.message(), message);
    }
}

#[test]
fn missing_records_are_answered_with_their_own_codes() {
    let reply = error_reply(&SlurmError::ConnectionNotFound("conn_xxx".to_string()));
    assert!(!reply.ok);
    assert_eq!(reply.error.code, ErrorCode::ConnectionNotFound);
    assert_eq!(reply.error.message, "Connection not found: conn_xxx");
    let reply = error_reply(&SlurmError::SessionNotFound("sess_1".to_string()));
    assert_eq!(reply.error.code, ErrorCode::SessionNotFound);
    assert_eq!(reply.error.message, "Session not found: sess_1");
    let reply = error_reply(&SlurmError::PartitionJobsRow("1|n1|x".to_string()));
    assert_eq!(reply.error.code, ErrorCode::InternalError);
    assert_eq!(reply.error.message, "failed to parse partition jobs row: 1|n1|x");
}

#[test]
fn a_current_server_speaks_the_api_version_and_offers_every_capability() {
    let caps = server_capabilities();
    assert!(server_matches(SERVER_API_VERSION, &caps));
    assert!(!server_matches(0, &caps));
    assert!(!server_matches(SERVER_API_VERSION, &Vec::new()));
    let mut missing = caps.clone();
    missing.pop();
    assert!(!server_matches(SERVER_API_VERSION, &missing));
    let mut more = caps.clone();
    more.insert(0, "extra".to_string());
    assert!(server_matches(SERVER_API_VERSION, &more));
}

#[test]
fn ensuring_a_server_starts_restarts_waits_and_gives_up() {
    assert_eq!(ENSURE_DEADLINE_SECS, 8);
    assert_eq!(ENSURE_POLL_MILLIS, 200);
    let current = || EnsureEvent::Answered { api_version: SERVER_API_VERSION, capabilities: server_capabilities() };
    let stale = || EnsureEvent::Answered { api_version: 0, capabilities: Vec::new() };
    assert_eq!(ensure_step(false, None, current()), (None, EnsureAction::UseServer));
    assert_eq!(ensure_step(false, None, stale()), (None, EnsureAction::Restart));
    assert_eq!(ensure_step(false, None, EnsureEvent::Failed("no file".to_string())), (None, EnsureAction::Start));
    assert_eq!(
        ensure_step(true, None, EnsureEvent::Failed("refused".to_string())),
        (Some("refused".to_string()), EnsureAction::WaitAndRetry)
    );
    assert_eq!(
        ensure_step(true, None, stale()),
        (Some("local server is out of date (api_version 0)".to_string()), EnsureAction::WaitAndRetry)
    );
    assert_eq!(
        ensure_step(true, Some("refused".to_string()), current()),
        (Some("refused".to_string()), EnsureAction::UseServer)
    );
    assert_eq!(
        ensure_step(true, Some("refused".to_string()), EnsureEvent::DeadlinePassed),
        (Some("refused".to_string()), EnsureAction::GiveUp("server ensure failed: refused".to_string()))
    );
    assert_eq!(
        ensure_step(true, None, EnsureEvent::DeadlinePassed),
        (None, EnsureAction::GiveUp("server ensure failed: timeout waiting for server startup".to_string()))
    );
}

#[test]
fn scontrol_blocks_are_read_in_order_and_skipped_without_gpus() {
    let output = "NodeName=cpu-1 Arch=x86_64\n   State=DRAIN\n   Gres=(null)\n\
NodeName=gpu-b Arch=x86_64\n   State=mixed+drain\n   Gres=gpu:l40s:2\n\
NodeName=gpu-c\n   State=IDLE\n   Gres=gpu:3\n\
NodeName=gpu-d\n   State=IDLE\n\
NodeName=gpu-a\n   State=IDLE\n   Gres=gpu:a10:1\n   Gres=gpu:0\n";
    let nodes = parse_scontrol_gpu_nodes_output(output).unwrap();
    assert_eq!(nodes.len(), 2);
    assert_eq!(nodes[0].node, "gpu-b");
    assert_eq!(nodes[0].gpu_type, "L40S");
    assert_eq!(nodes[0].gpu_total, 2);
    assert!(nodes[0].is_drain);
    assert_eq!(nodes[1].node, "gpu-c");
    assert_eq!(nodes[1].gpu_type, "UNKNOWN");
    assert!(!nodes[1].is_drain);
    assert!(parse_scontrol_gpu_nodes_output("").unwrap().is_empty());
}

#[test]
fn partition_overview_fails_at_the_first_bad_row() {
    let err = parse_partition_info("\nn1|p|1/1/0/2\nn2|p\n", "x\n", None).unwrap_err();
    assert_eq!(err, SlurmError::PartitionNodeRow("n1|p|1/1/0/2".to_string()));
    let err = parse_partition_info("n1|1/1/0/2|(null)\n", "", Some("p")).unwrap_err();
    assert_eq!(err, SlurmError::PartitionNodeRow("n1|1/1/0/2|(null)".to_string()));
    let err = parse_partition_info("n1|p|1/1/0/2|(null)|1\n", "\n1|n1|x|1\n2|n1\n3\n", None).unwrap_err();
    assert_eq!(err, SlurmError::PartitionJobsRow("2|n1".to_string()));
    assert!(parse_partition_info("\n", "\n", None).unwrap().partitions.is_empty());
}

#[test]
fn query_plans_run_in_order_and_stop_at_the_first_failure() {
    let plan = node_jobs_plan("gpu-1");
    assert_eq!(plan.len(), 3);
    assert_eq!(plan[0], (QueryStep::NodeJobsRunning, "squeue -w gpu-1 -t RUNNING -h -o '%i|%j|%u|%T|%M|%m'".to_string()));
    assert_eq!(plan[1].0, QueryStep::NodeJobsPending);
    assert_eq!(plan[2], (QueryStep::NodeJobsPartition, "sinfo -N -n gpu-1 -h -o '%P'".to_string()));
    let mut outputs = Vec::new();
    assert_eq!(next_query(&plan, &mut outputs, None), QueryAction::Run(0));
    assert_eq!(next_query(&plan, &mut outputs, Some(out("r", "", 0))), QueryAction::Run(1));
    assert_eq!(outputs, vec!["r".to_string()]);
    let stop = next_query(&plan, &mut outputs, Some(out("", " busy\n", 1)));
    match stop {
        QueryAction::Stop(e) => assert_eq!(e.message(), "node-jobs pending query failed: busy"),
        other => panic!("unexpected {other:?}"),
    }
    assert_eq!(outputs.len(), 1);
    assert_eq!(next_query(&plan, &mut outputs, Some(out("p", "", 0))), QueryAction::Run(2));
    assert_eq!(next_query(&plan, &mut outputs, Some(out("g", "", 0))), QueryAction::Finished);
    assert_eq!(outputs, vec!["r".to_string(), "p".to_string(), "g".to_string()]);
    assert_eq!(next_query(&plan, &mut outputs, None), QueryAction::Finished);
    let plan = partition_info_plan(Some("gpu"));
    assert_eq!(plan[0], (QueryStep::PartitionNodes, "sinfo -p gpu -N -h -o '%N|%C|%G|%m'".to_string()));
    assert_eq!(plan[1], (QueryStep::PartitionJobs, "squeue -p gpu -t RUNNING -h -o '%i|%N|%b|%M'".to_string()));
    let plan = partition_info_plan(None);
    assert_eq!(plan[0].1, "sinfo -N -h -o '%N|%P|%C|%G|%m'");
}
