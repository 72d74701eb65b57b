use slurm_assistant::client::{parse_node_running_jobs, truncate_for_table};
use slurm_assistant::commands::{build_salloc_command, build_srun_command};
use slurm_assistant::partition::parse_partition_info;
use slurm_assistant::proto::{
    default_server_api_version, ServerStatusData, SlurmGpuNode, SlurmGpuSummary, SlurmStatusGpuData,
    SuccessResponse,
};

#[test]
fn server_status_payload_defaults_to_tcp() {
    let payload = SuccessResponse::new(ServerStatusData {
        pid: 0,
        started_at: "1970-01-01T00:00:00Z".to_string(),
        transport: "tcp".to_string(),
        host: "127.0.0.1".to_string(),
        port: 0,
        db_path: "state.db".to_string(),
        runtime_path: "runtime.json".to_string(),
        api_version: default_server_api_version(),
        capabilities: Vec::new(),
    });
    assert_eq!(payload.data.transport, "tcp");
    assert_eq!(payload.data.host, "127.0.0.1");
}

#[test]
fn truncate_for_table_adds_suffix_when_needed() {
    assert_eq!(truncate_for_table("short", 8), "short");
    assert_eq!(truncate_for_table("abcdefghijkl", 8), "abcdefg+");
}

#[test]
fn gpu_summary_text_mentions_counts() {
    let data = SlurmStatusGpuData {
        available_nodes: vec![SlurmGpuNode {
            node: "gpu-a10-3".to_string(),
            partition: "gpu-a10".to_string(),
            gpu_idle: 1,
            gpu_total: 2,
            gpu_type: "A10".to_string(),
            cpu_idle: 16,
            cpu_total: 32,
        }],
        drain_nodes: vec![],
        summary: SlurmGpuSummary { available_nodes: 1, total_gpu: 2, idle_gpu: 1 },
    };
    assert_eq!(data.summary.available_nodes, 1);
    assert_eq!(data.available_nodes[0].gpu_type, "A10");
}

#[test]
fn build_salloc_command_renders_optional_flags() {
    let command = build_salloc_command(
        "gpu-a10",
        Some("gpu:1"),
        Some(8),
        Some("00:30:00"),
        Some("16G"),
        Some("gpu-a10-3"),
        Some(5),
    );
    assert_eq!(
        command,
        "salloc -p gpu-a10 --cpus-per-task=8 --gres=gpu:1 --time=00:30:00 --mem=16G -w gpu-a10-3 --wait=5"
    );
}

#[test]
fn build_srun_command_requires_payload() {
    let err = build_srun_command(&[], None, None, None, None, None, None).unwrap_err();
    assert!(err.message().contains("must provide command"));
}

#[test]
fn build_srun_command_renders_flags() {
    let command = build_srun_command(
        &["python".to_string(), "train.py".to_string()],
        Some("gpu-a10"),
        Some("gpu:1"),
        Some(8),
        Some("01:00:00"),
        Some("32G"),
        Some("gpu-a10-7"),
    )
    .unwrap();
    assert_eq!(
        command,
        "srun -p gpu-a10 --gres=gpu:1 --cpus-per-task=8 --time=01:00:00 --mem=32G -w gpu-a10-7 python train.py"
    );
}

#[test]
fn parse_node_running_jobs_decodes_rows() {
    let jobs = parse_node_running_jobs("123|train|alice|RUNNING|00:12|8G\n").unwrap();
    assert_eq!(jobs.len(), 1);
    assert_eq!(jobs[0].job_id, "123");
    assert_eq!(jobs[0].mem, "8G");
}

#[test]
fn parse_partition_info_groups_gpu_and_cpu_nodes() {
    let nodes = "\
gpu-a10-1|gpu-a10|28/20/0/48|gpu:a10:2|128000\n\
cpu48c-1|cpu48c|4/44/0/48|(null)|64000\n";
    let jobs = "9001|gpu-a10-1|gpu:1|00:10\n";
    let parsed = parse_partition_info(nodes, jobs, None).unwrap();
    assert_eq!(parsed.partitions.len(), 2);
    assert_eq!(parsed.partitions[0].gpu_nodes.len() + parsed.partitions[0].cpu_nodes.len(), 1);
    let gpu_section =
        parsed.partitions.iter().find(|section| section.partition == "gpu-a10").unwrap();
    assert_eq!(gpu_section.gpu_nodes[0].gpu_idle, 1);
    assert_eq!(gpu_section.gpu_nodes[0].jobs, 1);
}
