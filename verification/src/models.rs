//! The records that travel between the library and the application shell.

use crate::text::text_of;
use std::collections::HashMap;
use vstd::prelude::*;

verus! {

/// How an external tool is started.
#[derive(Debug, Clone, PartialEq, Eq)]
pub struct OpenToolSettings {
    pub command_path: String,
    pub arguments: Vec<String>,
}

impl Default for OpenToolSettings {
    fn default() -> (r: Self)
        ensures
            r.command_path@.len() == 0,
            r.arguments@.len() == 0,
    {
        OpenToolSettings { command_path: String::new(), arguments: Vec::new() }
    }
}

#[derive(Debug, Clone, PartialEq, Eq)]
pub struct GitIdentity {
    pub name: String,
    pub email: String,
}

#[derive(Debug, Clone, PartialEq, Eq)]
pub struct AppSettings {
    pub editor_open_tool: OpenToolSettings,
    pub terminal_open_tool: OpenToolSettings,
    pub terminal_use_webgl_renderer: bool,
    pub terminal_theme: String,
    pub show_monitor_window: bool,
    pub git_identities: Vec<GitIdentity>,
}

pub fn default_terminal_use_webgl_renderer() -> (r: bool)
    ensures
        r,
{
    true
}

pub fn default_terminal_theme() -> (r: String)
    ensures
        r@ == "DevHaven Dark"@,
{
    text_of("DevHaven Dark")
}

impl Default for AppSettings {
    fn default() -> (r: Self)
        ensures
            r.terminal_use_webgl_renderer,
            r.terminal_theme@ == "DevHaven Dark"@,
            !r.show_monitor_window,
            r.git_identities@.len() == 0,
            r.editor_open_tool.command_path@.len() == 0,
            r.editor_open_tool.arguments@.len() == 0,
            r.terminal_open_tool.command_path@.len() == 0,
            r.terminal_open_tool.arguments@.len() == 0,
    {
        AppSettings {
            editor_open_tool: OpenToolSettings { command_path: String::new(), arguments: Vec::new() },
            terminal_open_tool: OpenToolSettings {
                command_path: String::new(),
                arguments: Vec::new(),
            },
            terminal_use_webgl_renderer: default_terminal_use_webgl_renderer(),
            terminal_theme: default_terminal_theme(),
            show_monitor_window: false,
            git_identities: Vec::new(),
        }
    }
}

#[derive(Debug, Clone, PartialEq, Eq)]
pub struct ProjectScript {
    pub id: String,
    pub name: String,
    pub start: String,
    pub stop: Option<String>,
}

#[derive(Debug, Clone, PartialEq, Eq)]
pub struct MarkdownFileEntry {
    pub path: String,
    pub absolute_path: String,
}

#[derive(Debug, Clone, Copy, PartialEq, Eq)]
pub enum FsEntryKind {
    File,
    Dir,
}

#[derive(Debug, Clone, Copy, PartialEq, Eq)]
pub enum FsFailureReason {
    TooLarge,
    Binary,
    OutsideProject,
    SymlinkEscape,
    NotFound,
    NotADirectory,
    NotAFile,
    IoError,
    InvalidPath,
}

#[derive(Debug, Clone, PartialEq, Eq)]
pub struct FsEntry {
    pub name: String,
    pub relative_path: String,
    pub kind: FsEntryKind,
    pub size: Option<u64>,
}

#[derive(Debug, Clone, PartialEq, Eq)]
pub struct FsListResponse {
    pub ok: bool,
    pub relative_path: String,
    pub entries: Vec<FsEntry>,
    pub reason: Option<FsFailureReason>,
    pub message: Option<String>,
}

#[derive(Debug, Clone, PartialEq, Eq)]
pub struct FsReadResponse {
    pub ok: bool,
    pub relative_path: String,
    pub content: Option<String>,
    pub size: u64,
    pub max_size: u64,
    pub reason: Option<FsFailureReason>,
    pub message: Option<String>,
}

#[derive(Debug, Clone, PartialEq, Eq)]
pub struct FsWriteResponse {
    pub ok: bool,
    pub relative_path: String,
    pub size: u64,
    pub max_size: u64,
    pub reason: Option<FsFailureReason>,
    pub message: Option<String>,
}

#[derive(Debug, Clone, PartialEq, Eq)]
pub struct GitDailyResult {
    pub path: String,
    pub git_daily: Option<String>,
    pub error: Option<String>,
}

#[derive(Debug, Clone, PartialEq, Eq)]
pub struct HeatmapCacheEntry {
    pub date_string: String,
    pub commit_count: i64,
    pub project_ids: Vec<String>,
}

#[derive(Debug, Clone, PartialEq, Eq)]
pub struct HeatmapCacheFile {
    pub version: i32,
    pub last_updated: String,
    pub daily_activity: HashMap<String, HeatmapCacheEntry>,
    pub project_count: i64,
    pub git_daily_signature: String,
}

impl Default for HeatmapCacheFile {
    fn default() -> (r: Self)
        ensures
            r.version == 1,
            r.last_updated@.len() == 0,
            r.project_count == 0,
            r.git_daily_signature@.len() == 0,
    {
        HeatmapCacheFile {
            version: 1,
            last_updated: String::new(),
            daily_activity: HashMap::new(),
            project_count: 0,
            git_daily_signature: String::new(),
        }
    }
}

#[derive(Debug, Clone, PartialEq, Eq)]
pub struct BranchListItem {
    pub name: String,
    pub is_main: bool,
}

#[derive(Debug, Clone, PartialEq, Eq)]
pub struct GitWorktreeAddResult {
    pub path: String,
    pub branch: String,
}

#[derive(Debug, Clone, PartialEq, Eq)]
pub struct GitWorktreeListItem {
    pub path: String,
    pub branch: String,
}

#[derive(Debug, Clone, Copy, PartialEq, Eq)]
pub enum WorktreeInitVisualStatus {
    Creating,
    Ready,
    Failed,
}

#[derive(Debug, Clone, Copy, PartialEq, Eq)]
pub enum WorktreeInitStep {
    Pending,
    Validating,
    CheckingBranch,
    CreatingWorktree,
    PreparingEnvironment,
    Syncing,
    Ready,
    Failed,
    Cancelled,
}

#[derive(Debug, Clone, PartialEq, Eq)]
pub struct WorktreeInitStartRequest {
    pub project_id: String,
    pub project_path: String,
    pub branch: String,
    pub create_branch: bool,
    pub base_branch: Option<String>,
    pub target_path: Option<String>,
}

#[derive(Debug, Clone, PartialEq, Eq)]
pub struct WorktreeInitStartResult {
    pub job_id: String,
    pub project_id: String,
    pub project_path: String,
    pub worktree_path: String,
    pub branch: String,
    pub base_branch: Option<String>,
    pub step: WorktreeInitStep,
    pub message: String,
}

#[derive(Debug, Clone, PartialEq, Eq)]
pub struct WorktreeInitProgressPayload {
    pub job_id: String,
    pub project_id: String,
    pub project_path: String,
    pub worktree_path: String,
    pub branch: String,
    pub base_branch: Option<String>,
    pub step: WorktreeInitStep,
    pub message: String,
    pub error: Option<String>,
}

#[derive(Debug, Clone, PartialEq, Eq)]
pub struct WorktreeInitCancelResult {
    pub job_id: String,
    pub cancelled: bool,
}

#[derive(Debug, Clone, PartialEq, Eq)]
pub struct WorktreeInitRetryRequest {
    pub job_id: String,
}

#[derive(Debug, Clone, PartialEq, Eq)]
pub struct WorktreeInitStatusQuery {
    pub project_id: Option<String>,
    pub project_path: Option<String>,
}

#[derive(Debug, Clone, PartialEq, Eq)]
pub struct WorktreeInitJobStatus {
    pub job_id: String,
    pub project_id: String,
    pub project_path: String,
    pub worktree_path: String,
    pub branch: String,
    pub base_branch: Option<String>,
    pub create_branch: bool,
    pub step: WorktreeInitStep,
    pub message: String,
    pub error: Option<String>,
    pub updated_at: i64,
    pub is_running: bool,
    pub cancel_requested: bool,
}

#[derive(Debug, Clone, Copy, PartialEq, Eq)]
pub enum GitFileStatus {
    Added,
    Modified,
    Deleted,
    Renamed,
    Copied,
    Untracked,
}

#[derive(Debug, Clone, PartialEq, Eq)]
pub struct GitChangedFile {
    pub path: String,
    pub old_path: Option<String>,
    pub status: GitFileStatus,
}

#[derive(Debug, Clone, PartialEq, Eq)]
pub struct GitRepoStatus {
    pub branch: String,
    pub upstream: Option<String>,
    pub ahead: i32,
    pub behind: i32,
    pub staged: Vec<GitChangedFile>,
    pub unstaged: Vec<GitChangedFile>,
    pub untracked: Vec<GitChangedFile>,
}

#[derive(Debug, Clone, PartialEq, Eq)]
pub struct GitDiffContents {
    pub original: String,
    pub modified: String,
    pub original_truncated: bool,
    pub modified_truncated: bool,
}

#[derive(Debug, Clone, Copy, PartialEq, Eq)]
pub enum CodexMonitorState {
    Offline,
    Idle,
    Working,
    Completed,
    Error,
    NeedsAttention,
}

#[derive(Debug, Clone, PartialEq, Eq)]
pub struct CodexMonitorSession {
    pub id: String,
    pub cwd: String,
    pub cli_version: Option<String>,
    pub model: Option<String>,
    pub effort: Option<String>,
    pub started_at: i64,
    pub last_activity_at: i64,
    pub state: CodexMonitorState,
    pub is_running: bool,
    pub session_title: Option<String>,
    pub details: Option<String>,
}

#[derive(Debug, Clone, Copy, PartialEq, Eq)]
pub enum CodexAgentEventType {
    AgentStart,
    AgentStop,
    AgentActive,
    AgentIdle,
    TaskComplete,
    TaskError,
    NeedsAttention,
}

#[derive(Debug, Clone, PartialEq, Eq)]
pub struct CodexAgentEvent {
    pub event_type: CodexAgentEventType,
    pub agent: String,
    pub timestamp: i64,
    pub details: Option<String>,
    pub session_id: Option<String>,
    pub session_title: Option<String>,
    pub working_directory: Option<String>,
}

#[derive(Debug, Clone, PartialEq, Eq)]
pub struct CodexMonitorSnapshot {
    pub sessions: Vec<CodexMonitorSession>,
    pub is_codex_running: bool,
    pub updated_at: i64,
}

#[derive(Debug, Clone, PartialEq, Eq)]
pub struct TerminalCodexPaneOverlay {
    pub session_id: String,
    pub model: Option<String>,
    pub effort: Option<String>,
    pub updated_at: i64,
}

/// Whether interaction is locked, and why.
#[derive(Debug, Clone, PartialEq, Eq)]
pub struct InteractionLockPayload {
    pub locked: bool,
    pub reason: Option<String>,
}

/// How an editor is asked to open a path.
#[derive(Debug, Clone, PartialEq, Eq)]
pub struct EditorOpenParams {
    pub path: String,
    pub app_name: Option<String>,
    pub bundle_id: Option<String>,
    pub command_path: Option<String>,
    pub arguments: Option<Vec<String>>,
}

/// How a terminal is asked to open a directory.
#[derive(Debug, Clone, PartialEq, Eq)]
pub struct TerminalOpenParams {
    pub path: String,
    pub command_path: Option<String>,
    pub arguments: Option<Vec<String>>,
}

} // verus!
