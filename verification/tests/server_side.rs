use slurm_assistant::commands::{build_sbatch_command, build_scancel_command, build_slurm_log_command};
use slurm_assistant::gpu::{matches_token, parse_gpu_gres, parse_scontrol_gpu_nodes_output};
use slurm_assistant::jobs::{parse_squeue_jobs_output, parse_submitted_job_id};
use slurm_assistant::programs::{build_exec_program, build_scp_program};
use slurm_assistant::proto::{ConnectionKind, ConnectionRecord};
use slurm_assistant::server::{check_resource_node_state, HealthStep};

fn gzu_cluster() -> ConnectionRecord {
    ConnectionRecord {
        id: "conn_gzu_cluster".to_string(),
        label: "gzu-cluster".to_string(),
        host: Some("210.40.56.85".to_string()),
        port: Some(21563),
        username: Some("qiandingh".to_string()),
        kind: ConnectionKind::Cluster,
        jump_host: None,
        default_keepalive_secs: None,
        health_state: None,
        health_message: None,
        last_health_checked_at: None,
    }
}

#[test]
fn remote_exec_program_uses_ssh_target() {
    let connection = gzu_cluster();
    let (program, args) = build_exec_program(None, &connection, "hostname", false).unwrap();
    assert_eq!(program, "ssh");
    assert!(args.iter().any(|arg| arg == "qiandingh@210.40.56.85"));
    assert!(args.iter().any(|arg| arg == "21563"));
    assert_eq!(args.last().map(String::as_str), Some("hostname"));
}

#[test]
fn parse_squeue_jobs_output_decodes_multiple_rows() {
    let output = "\
57373|gpu-a10|interactive|qiandingh|RUNNING|17:08:48|1|gpu-a10-13\n\
57374|cpu|train-job|qiandingh|PENDING|00:00|2|Priority\n";
    let jobs = parse_squeue_jobs_output(output).unwrap();
    assert_eq!(jobs.len(), 2);
    assert_eq!(jobs[0].job_id, "57373");
    assert_eq!(jobs[0].nodes, 1);
    assert_eq!(jobs[1].state, "PENDING");
    assert_eq!(jobs[1].reason, "Priority");
}

#[test]
fn parse_squeue_jobs_output_rejects_bad_rows() {
    let err = parse_squeue_jobs_output("57373|gpu-a10|interactive").unwrap_err();
    assert!(err.message().contains("expected 8 fields"));
}

#[test]
fn parse_gpu_gres_supports_typed_and_simple_forms() {
    assert_eq!(parse_gpu_gres("gpu:a100:4"), (4, "a100".to_string()));
    assert_eq!(parse_gpu_gres("gpu:a40:2(S:0)"), (2, "a40".to_string()));
    assert_eq!(parse_gpu_gres("gpu:8"), (8, "unknown".to_string()));
    assert_eq!(parse_gpu_gres("cpu"), (0, String::new()));
}

#[test]
fn parse_scontrol_gpu_nodes_output_classifies_available_and_drain() {
    let output = "\
NodeName=gpu-a10-3 Arch=x86_64\n\
   State=IDLE\n\
   Gres=gpu:a10:2\n\
   Partitions=gpu-a10\n\
   CPUAlloc=16 CPUTot=32\n\
   AllocTRES=cpu=16,gres/gpu=1\n\
NodeName=gpu-a40-9 Arch=x86_64\n\
   State=DRAIN\n\
   Gres=gpu:a40:4\n\
   Partitions=gpu-a40\n\
   CPUAlloc=0 CPUTot=64\n\
   AllocTRES=\n";
    let nodes = parse_scontrol_gpu_nodes_output(output).unwrap();
    assert_eq!(nodes.len(), 2);
    assert_eq!(nodes[0].gpu_idle, 1);
    assert_eq!(nodes[0].cpu_idle, 16);
    assert!(!nodes[0].is_drain);
    assert!(nodes[1].is_drain);
    assert_eq!(nodes[1].gpu_type, "A40");
}

#[test]
fn matches_token_uses_exact_partition_segments() {
    assert!(matches_token("gpu-a10", "gpu-a10"));
    assert!(matches_token("gpu-a10,gpu-share", "gpu-share"));
    assert!(!matches_token("gpu-a100", "gpu-a10"));
}

#[test]
fn build_slurm_log_command_rejects_invalid_job_id() {
    let err = build_slurm_log_command("57373;rm -rf /").unwrap_err();
    assert!(err.message().contains("invalid job id"));
}

#[test]
fn build_scancel_command_validates_job_ids() {
    assert_eq!(
        build_scancel_command(&["60001".to_string(), "60002".to_string()]).unwrap(),
        "scancel 60001 60002"
    );
    let err = build_scancel_command(&["60001;rm".to_string()]).unwrap_err();
    assert!(err.message().contains("invalid job id"));
    let err = build_scancel_command(&[]).unwrap_err();
    assert!(err.message().contains("at least one job id"));
}

#[test]
fn build_sbatch_command_validates_script_path() {
    assert_eq!(build_sbatch_command("job.sh").unwrap(), "sbatch 'job.sh'");
    assert_eq!(build_sbatch_command("~/job.sh").unwrap(), "sbatch $HOME/'job.sh'");
    let err = build_sbatch_command("").unwrap_err();
    assert!(err.message().contains("must not be empty"));
    let err = build_sbatch_command("bad'quote.sh").unwrap_err();
    assert!(err.message().contains("single quotes"));
}

#[test]
fn parse_submitted_job_id_extracts_job_id() {
    assert_eq!(parse_submitted_job_id("Submitted batch job 60001").unwrap(), "60001");
    let err = parse_submitted_job_id("submission failed").unwrap_err();
    assert!(err.message().contains("failed to parse submitted job id"));
}

#[test]
fn build_scp_program_uses_remote_prefixes() {
    let connection = gzu_cluster();
    let (program, args) =
        build_scp_program(None, &connection, "/tmp/train.py", "~/train.py", false, false).unwrap();
    assert_eq!(program, "scp");
    assert_eq!(args.last().map(String::as_str), Some("qiandingh@210.40.56.85:~/train.py"));

    let (_, download_args) =
        build_scp_program(None, &connection, "~/slurm.out", "/tmp/slurm.out", false, true).unwrap();
    assert!(download_args.iter().any(|value| value == "qiandingh@210.40.56.85:~/slurm.out"));
}

#[test]
fn resource_node_health_check_rejects_incomplete_record() {
    let (state, message) = match check_resource_node_state(None, None, None, None) {
        HealthStep::Report { state, message } => (state, message),
        HealthStep::RunSsh { .. } => panic!("an incomplete record is not checked over ssh"),
    };
    assert_eq!(state, "invalid");
    assert!(message.contains("missing"));
}
