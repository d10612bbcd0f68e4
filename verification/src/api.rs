//! The request and response shapes of the HTTP surface, as plain data.
//! Environment maps are ordered key-value lists so that the order in
//! which updates are written to a shell is the order they arrived in.

use vstd::prelude::*;

verus! {

/// Server configuration.
pub struct Config {
    pub addr: String,
    pub workspace_path: String,
    pub max_file_size: u64,
    pub token: Option<String>,
}

// Process surface.

pub struct ExecProcessRequest {
    pub command: String,
    pub args: Option<Vec<String>>,
    pub cwd: Option<String>,
    pub env: Option<Vec<(String, String)>>,
    pub shell: Option<String>,
    pub timeout: Option<u64>,
}

pub struct ExecProcessResponse {
    pub process_id: String,
    pub pid: Option<u32>,
    pub process_status: String,
}

pub struct ProcessStatus {
    pub process_id: String,
    pub pid: Option<u32>,
    pub command: String,
    pub process_status: String,
    pub start_time: String,
    pub end_time: Option<String>,
    pub exit_code: Option<i32>,
}

pub struct ListProcessesResponse {
    pub processes: Vec<ProcessStatus>,
}

pub struct ProcessOperationResponse {
    pub success: bool,
}

pub struct ProcessLogsResponse {
    pub process_id: String,
    pub pid: Option<u32>,
    pub process_status: String,
    pub exit_code: Option<i32>,
    pub logs: Vec<String>,
}

pub struct SyncExecutionRequest {
    pub command: String,
    pub args: Option<Vec<String>>,
    pub cwd: Option<String>,
    pub env: Option<Vec<(String, String)>>,
    pub shell: Option<String>,
    pub timeout: Option<u64>,
}

#[derive(Debug)]
pub struct SyncExecutionResponse {
    pub stdout: String,
    pub stderr: String,
    pub exit_code: Option<i32>,
    pub duration_ms: u128,
    pub start_time: String,
    pub end_time: String,
}

pub struct SyncStreamExecutionRequest {
    pub command: String,
    pub args: Option<Vec<String>>,
    pub cwd: Option<String>,
    pub env: Option<Vec<(String, String)>>,
    pub shell: Option<String>,
    pub timeout: Option<u64>,
}

// Events of the streaming sync execution.

pub struct StreamStartEvent {
    pub timestamp: String,
}

pub struct StreamOutputEvent {
    pub output: String,
    pub timestamp: String,
}

pub struct StreamCompleteEvent {
    pub exit_code: Option<i32>,
    pub duration: i64,
    pub timestamp: String,
}

pub struct StreamErrorEvent {
    pub error: String,
    pub duration_ms: i64,
    pub timestamp: String,
}

// Session surface.

pub struct CreateSessionRequest {
    pub working_dir: Option<String>,
    pub env: Option<Vec<(String, String)>>,
    pub shell: Option<String>,
}

pub struct CreateSessionResponse {
    pub session_id: String,
    pub shell: String,
    pub cwd: String,
    pub session_status: String,
}

pub struct SessionStatus {
    pub session_id: String,
    pub shell: String,
    pub cwd: String,
    pub env: Vec<(String, String)>,
    pub session_status: String,
    pub created_at: String,
    pub last_used_at: String,
}

pub struct ListSessionsResponse {
    pub sessions: Vec<SessionStatus>,
}

pub struct SessionOperationResponse {
    pub success: bool,
}

pub struct UpdateSessionEnvRequest {
    pub env: Vec<(String, String)>,
}

pub struct SessionExecRequest {
    pub command: String,
}

pub struct SessionExecResponse {
    pub exit_code: i32,
    pub stdout: String,
    pub stderr: String,
    pub duration: u64,
}

pub struct SessionCdRequest {
    pub path: String,
}

pub struct SessionCdResponse {
    pub working_dir: String,
}

pub struct SessionLogsResponse {
    pub session_id: String,
    pub logs: Vec<String>,
}

// Health and port surface.

pub struct HealthCheckResponse {
    pub health_status: String,
    pub uptime: String,
    pub version: String,
}

pub struct ReadinessCheckResponse {
    pub readiness_status: String,
    pub workspace: bool,
}

pub struct PortsResponse {
    pub ports: Vec<u16>,
    pub last_updated_at: i64,
}

// File surface.

pub struct FileInfo {
    pub name: String,
    pub path: String,
    pub size: u64,
    pub is_dir: bool,
    pub mime_type: Option<String>,
    pub permissions: Option<String>,
    pub modified: Option<String>,
}

pub struct ListFilesParams {
    pub path: Option<String>,
    pub show_hidden: bool,
    pub limit: usize,
    pub offset: usize,
}

pub struct ListFilesResponse {
    pub files: Vec<FileInfo>,
}

pub struct FileOperationResponse {
    pub success: bool,
}

pub struct WriteFileResponse {
    pub path: String,
    pub size: u64,
}

pub struct BatchUploadResult {
    pub path: String,
    pub success: bool,
    pub error: Option<String>,
    pub size: Option<u64>,
}

pub struct BatchUploadResponse {
    pub results: Vec<BatchUploadResult>,
    pub total_files: usize,
    pub success_count: usize,
}

pub struct DownloadFilesRequest {
    pub paths: Vec<String>,
    pub format: Option<String>,
}

pub struct DeleteFileRequest {
    pub path: String,
    pub recursive: bool,
}

pub struct WriteFileRequest {
    pub path: String,
    pub content: String,
    pub encoding: Option<String>,
}

pub struct ReadFileParams {
    pub path: String,
}

pub struct MoveFileRequest {
    pub source: String,
    pub destination: String,
    pub overwrite: bool,
}

pub struct RenameFileRequest {
    pub old_path: String,
    pub new_path: String,
}

pub struct ChmodRequest {
    pub path: String,
    pub mode: String,
    pub recursive: bool,
    pub owner: Option<String>,
}

pub struct SearchRequest {
    pub dir: String,
    pub pattern: String,
}

pub struct SearchResponse {
    pub files: Vec<String>,
}

pub struct FindRequest {
    pub dir: String,
    pub keyword: String,
}

pub struct FindResponse {
    pub files: Vec<String>,
}

pub struct ReplaceRequest {
    pub files: Vec<String>,
    pub from: String,
    pub to: String,
}

pub struct ReplaceResult {
    pub file: String,
    pub status: String,
    pub replacements: usize,
    pub error: Option<String>,
}

pub struct ReplaceResponse {
    pub results: Vec<ReplaceResult>,
}

} // verus!
