use slurm_assistant::programs::{build_exec_program, jump_lookup_key, resolve_jump_host_value};
use slurm_assistant::proto::{ConnectionAddRequest, ConnectionKind, ConnectionRecord};
use slurm_assistant::store::{connection_id_for_label, prepare_connection_add};

/// The record that storing the `gzu-hpc` connection leaves behind.
fn stored_gzu_hpc() -> ConnectionRecord {
    let request = ConnectionAddRequest {
        label: "gzu-hpc".to_string(),
        host: Some("210.40.56.85".to_string()),
        port: Some(21563),
        username: Some("qiandingh".to_string()),
        kind: ConnectionKind::Instance,
        jump_host: None,
        default_keepalive_secs: None,
    };
    let (id, keepalive) = prepare_connection_add(&request).unwrap();
    ConnectionRecord {
        id,
        label: request.label,
        host: request.host,
        port: request.port,
        username: request.username,
        kind: request.kind,
        jump_host: request.jump_host,
        default_keepalive_secs: keepalive,
        health_state: None,
        health_message: None,
        last_health_checked_at: None,
    }
}

#[test]
fn resolve_jump_host_connection_id_to_target() {
    let stored = stored_gzu_hpc();
    assert_eq!(stored.id, "conn_gzu_hpc");
    assert_eq!(jump_lookup_key("conn_gzu_hpc"), Some(stored.id.clone()));
    let resolved = resolve_jump_host_value(Some(&stored), "conn_gzu_hpc").unwrap();
    assert_eq!(resolved, "qiandingh@210.40.56.85:21563");
}

#[test]
fn build_exec_program_resolves_jump_host_connection_id() {
    let stored = stored_gzu_hpc();
    let node_conn = ConnectionRecord {
        id: "conn_gpu_a100_8card_1".to_string(),
        label: "gpu-a100-8card-1".to_string(),
        host: Some("gpu-a100-8card-1".to_string()),
        port: Some(22),
        username: Some("qiandingh".to_string()),
        kind: ConnectionKind::ResourceNode,
        jump_host: Some("conn_gzu_hpc".to_string()),
        default_keepalive_secs: None,
        health_state: None,
        health_message: None,
        last_health_checked_at: None,
    };
    let (_program, args) = build_exec_program(Some(&stored), &node_conn, "hostname", false).unwrap();
    assert!(args.iter().any(|arg| arg == "qiandingh@210.40.56.85:21563"));
}

#[test]
fn resource_node_requires_jump_host() {
    let err = prepare_connection_add(&ConnectionAddRequest {
        label: "gpu-a100-temp".to_string(),
        host: Some("gpu-a100-01".to_string()),
        port: Some(22),
        username: Some("qiandingh".to_string()),
        kind: ConnectionKind::ResourceNode,
        jump_host: None,
        default_keepalive_secs: Some(1200),
    })
    .unwrap_err();
    assert!(err.message().contains("requires --jump-host"));
    assert_eq!(connection_id_for_label("gpu-a100-temp"), "conn_gpu_a100_temp");
}
