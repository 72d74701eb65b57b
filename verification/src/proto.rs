//! The request and response types exchanged between the client and the
//! server, and the records that the server keeps.
use vstd::prelude::*;

verus! {

#[derive(Debug, Clone, Copy, PartialEq, Eq, Structural)]
pub enum ErrorCode {
    Unauthorized,
    ServerUnavailable,
    InvalidRequest,
    ConnectionNotFound,
    SessionNotFound,
    ExecFailed,
    SshFailed,
    Timeout,
    NotSupported,
    InternalError,
}

#[derive(Debug, Clone, PartialEq, Eq)]
pub struct ErrorBody {
    pub code: ErrorCode,
    pub message: String,
}

#[derive(Debug, Clone, PartialEq, Eq)]
pub struct ErrorResponse {
    pub ok: bool,
    pub error: ErrorBody,
}

#[derive(Debug, Clone, PartialEq, Eq)]
pub struct SuccessResponse<T> {
    pub ok: bool,
    pub data: T,
}

impl<T> SuccessResponse<T> {
    /// A successful response carrying `data`.
    pub fn new(data: T) -> (r: Self)
        ensures
            r.ok,
            r.data == data,
    {
        Self { ok: true, data }
    }
}

#[derive(Debug, Clone, PartialEq, Eq)]
pub struct PingData {
    pub message: String,
}

#[derive(Debug, Clone, PartialEq, Eq)]
pub struct ServerStatusData {
    pub pid: u32,
    pub started_at: String,
    pub transport: String,
    pub host: String,
    pub port: u16,
    pub db_path: String,
    pub runtime_path: String,
    pub api_version: u32,
    pub capabilities: Vec<String>,
}

/// The API version assumed for a server status that does not state one.
pub fn default_server_api_version() -> (r: u32)
    ensures
        r == 0,
{
    0
}

#[derive(Debug, Clone, PartialEq, Eq)]
pub struct RuntimeFile {
    pub version: u32,
    pub transport: String,
    pub host: String,
    pub port: u16,
    pub token: String,
    pub pid: u32,
    pub started_at: String,
}

#[derive(Debug, Clone, Copy, PartialEq, Eq, Structural)]
pub enum ConnectionKind {
    Local,
    Cluster,
    Instance,
    Server,
    ResourceNode,
}

#[derive(Debug, Clone, PartialEq, Eq)]
pub struct ConnectionRecord {
    pub id: String,
    pub label: String,
    pub host: Option<String>,
    pub port: Option<u16>,
    pub username: Option<String>,
    pub kind: ConnectionKind,
    pub jump_host: Option<String>,
    pub default_keepalive_secs: Option<u64>,
    pub health_state: Option<String>,
    pub health_message: Option<String>,
    pub last_health_checked_at: Option<String>,
}

#[derive(Debug, Clone, PartialEq, Eq)]
pub struct ConnectionAddRequest {
    pub label: String,
    pub host: Option<String>,
    pub port: Option<u16>,
    pub username: Option<String>,
    pub kind: ConnectionKind,
    pub jump_host: Option<String>,
    pub default_keepalive_secs: Option<u64>,
}

#[derive(Debug, Clone, PartialEq, Eq)]
pub struct ConnectionAddData {
    pub connection_id: String,
    pub created: bool,
}

#[derive(Debug, Clone, PartialEq, Eq)]
pub struct ConnectionListData {
    pub connections: Vec<ConnectionRecord>,
}

#[derive(Debug, Clone, PartialEq, Eq)]
pub struct ConnectionDeleteData {
    pub deleted: bool,
}

#[derive(Debug, Clone, Copy, PartialEq, Eq, Structural)]
pub enum SessionState {
    Active,
    Idle,
    Closed,
}

#[derive(Debug, Clone, Copy, PartialEq, Eq, Structural)]
pub enum SessionNodeRole {
    Login,
    Compute,
    Unknown,
}

#[derive(Debug, Clone, PartialEq, Eq)]
pub struct SessionRecord {
    pub id: String,
    pub connection_id: String,
    pub session_type: String,
    pub description: Option<String>,
    pub state: SessionState,
    pub node_role: SessionNodeRole,
    pub remote_host: Option<String>,
    pub compute_node: Option<String>,
    pub keepalive_secs: Option<u64>,
    pub created_at: String,
    pub last_seen_at: String,
}

#[derive(Debug, Clone, PartialEq, Eq)]
pub struct SessionUpsertRequest {
    pub id: String,
    pub connection_id: String,
    pub session_type: String,
    pub description: Option<String>,
    pub state: SessionState,
    pub node_role: SessionNodeRole,
    pub remote_host: Option<String>,
    pub compute_node: Option<String>,
    pub keepalive_secs: Option<u64>,
}

#[derive(Debug, Clone, PartialEq, Eq)]
pub struct SessionUpsertData {
    pub session_id: String,
    pub created: bool,
}

#[derive(Debug, Clone, PartialEq, Eq)]
pub struct SessionDeleteData {
    pub deleted: bool,
}

#[derive(Debug, Clone, PartialEq, Eq)]
pub struct SessionListData {
    pub sessions: Vec<SessionRecord>,
}

#[derive(Debug, Clone, PartialEq, Eq)]
pub struct SessionConnectionSummary {
    pub connection_id: String,
    pub active_count: u32,
    pub current_session_id: Option<String>,
    pub current_description: Option<String>,
    pub current_node_role: Option<SessionNodeRole>,
    pub current_compute_node: Option<String>,
    pub current_keepalive_secs: Option<u64>,
    pub last_seen_at: Option<String>,
}

#[derive(Debug, Clone, PartialEq, Eq)]
pub struct SessionSummaryData {
    pub total_active: u32,
    pub connections: Vec<SessionConnectionSummary>,
}

#[derive(Debug, Clone, PartialEq, Eq)]
pub struct ExecRunRequest {
    pub connection_id: String,
    pub command: String,
    pub timeout_secs: u64,
}

#[derive(Debug, Clone, PartialEq, Eq)]
pub struct ExecRunData {
    pub stdout: String,
    pub stderr: String,
    pub exit_code: i32,
}

#[derive(Debug, Clone, PartialEq, Eq)]
pub struct SlurmJobsRequest {
    pub connection_id: String,
    pub job_id: Option<String>,
}

#[derive(Debug, Clone, PartialEq, Eq)]
pub struct SlurmStatusGpuRequest {
    pub connection_id: String,
    pub partition: Option<String>,
}

#[derive(Debug, Clone, PartialEq, Eq)]
pub struct SlurmFindGpuRequest {
    pub connection_id: String,
    pub gpu_type: Option<String>,
}

#[derive(Debug, Clone, PartialEq, Eq)]
pub struct SlurmGpuNode {
    pub node: String,
    pub partition: String,
    pub gpu_idle: u32,
    pub gpu_total: u32,
    pub gpu_type: String,
    pub cpu_idle: u32,
    pub cpu_total: u32,
}

#[derive(Debug, Clone, PartialEq, Eq)]
pub struct SlurmGpuSummary {
    pub available_nodes: u32,
    pub total_gpu: u32,
    pub idle_gpu: u32,
}

#[derive(Debug, Clone, PartialEq, Eq)]
pub struct SlurmStatusGpuData {
    pub available_nodes: Vec<SlurmGpuNode>,
    pub drain_nodes: Vec<SlurmGpuNode>,
    pub summary: SlurmGpuSummary,
}

#[derive(Debug, Clone, PartialEq, Eq)]
pub struct SlurmFindGpuData {
    pub available_nodes: Vec<SlurmGpuNode>,
    pub busy_nodes: Vec<SlurmGpuNode>,
    pub drain_nodes: Vec<SlurmGpuNode>,
    pub summary: SlurmGpuSummary,
}

#[derive(Debug, Clone, PartialEq, Eq)]
pub struct SlurmJob {
    pub job_id: String,
    pub partition: String,
    pub name: String,
    pub user: String,
    pub state: String,
    pub time: String,
    pub nodes: u32,
    pub reason: String,
}

#[derive(Debug, Clone, PartialEq, Eq)]
pub struct SlurmJobsData {
    pub jobs: Vec<SlurmJob>,
}

#[derive(Debug, Clone, PartialEq, Eq)]
pub struct SlurmLogRequest {
    pub connection_id: String,
    pub job_id: String,
}

#[derive(Debug, Clone, PartialEq, Eq)]
pub struct SlurmLogData {
    pub job_id: String,
    pub found: bool,
    pub content: String,
}

#[derive(Debug, Clone, PartialEq, Eq)]
pub struct SlurmCancelRequest {
    pub connection_id: String,
    pub job_ids: Vec<String>,
}

#[derive(Debug, Clone, PartialEq, Eq)]
pub struct SlurmCancelData {
    pub cancelled: Vec<String>,
}

#[derive(Debug, Clone, PartialEq, Eq)]
pub struct SlurmSubmitRequest {
    pub connection_id: String,
    pub script_path: String,
}

#[derive(Debug, Clone, PartialEq, Eq)]
pub struct SlurmSubmitData {
    pub job_id: String,
    pub raw_output: String,
}

#[derive(Debug, Clone, PartialEq, Eq)]
pub struct FileUploadRequest {
    pub connection_id: String,
    pub local_path: String,
    pub remote_path: String,
    pub recursive: bool,
}

#[derive(Debug, Clone, PartialEq, Eq)]
pub struct FileDownloadRequest {
    pub connection_id: String,
    pub remote_path: String,
    pub local_path: String,
    pub recursive: bool,
}

#[derive(Debug, Clone, PartialEq, Eq)]
pub struct FileTransferData {
    pub source_path: String,
    pub destination_path: String,
    pub recursive: bool,
}


} // verus!
