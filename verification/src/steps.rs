//! What the server asks to be done outside, what comes back, and where a call
//! of a tool stands in between.
//!
//! The types have the texts as a parameter, so that one declaration serves the
//! values (`String`) and their models (`Seq<char>`); so too for the requests
//! and the bytes.

use crate::client_model::{OutcomeView, PendingRequest, RequestOutcome, RequestView};
use crate::lsp::LspPosition;
use crate::text::result_view;
use vstd::prelude::*;

verus! {

/// The model of what is to be done outside.
pub type ActionView = Action<Seq<char>, RequestView, Seq<u8>>;

/// The model of what came of it.
pub type EventView = Event<Seq<char>, OutcomeView>;

/// The model of where a call stands.
pub type StageView = Stage<Seq<char>, RequestView>;

/// The model of how far a call got.
pub type ProgressView = Progress<Seq<char>, RequestView, Seq<u8>>;

/// What the server asks to be done outside.
pub type ServerAction = Action<String, PendingRequest, Vec<u8>>;

/// What the server is told of it.
pub type ServerEvent = Event<String, RequestOutcome>;

/// Where a call of the server stands.
pub type CallStage = Stage<String, PendingRequest>;

/// How far a call of the server got.
pub type CallProgress = Progress<String, PendingRequest, Vec<u8>>;

/// What is to be done outside.
#[derive(Debug)]
pub enum Action<S, Q, B> {
    /// Nothing: the next line is to be read.
    Nothing,
    /// This line is to be written; then the next one is to be read.
    Reply { line: S },
    /// The absolute form of a path is to be found.
    Canonicalize { path: S },
    /// The text of a file is to be read.
    ReadFile { path: S },
    /// It is to be found out whether there is something at a path that is no
    /// file.
    Inspect { path: S },
    /// It is to be found out whether a directory has an entry.
    Probe { directory: S, entry: S },
    /// The parent of a directory is to be found.
    Ascend { directory: S },
    /// A language server is to be started, in the root of a Lake project if
    /// there is one.
    Spawn { key: S, lake_root: Option<S> },
    /// A request is to be sent to the language server of a workspace, and its
    /// response is to be awaited.
    Request { key: S, request: Q },
    /// Bytes are to be sent to the language server of a workspace.
    Send { key: S, frame: B },
    /// A text is to be written to a file.
    WriteFile { path: S, text: S },
    /// The time for a wait is to be set, and a moment is to be let pass.
    BeginWait { timeout_ms: u64, pause_ms: u64 },
    /// News of the language server of a workspace are to be awaited until the
    /// time for the wait is over.
    AwaitNews { key: S },
    /// A moment is to be let pass.
    Pause { pause_ms: u64 },
}

impl View for ServerAction {
    type V = ActionView;

    open spec fn view(&self) -> ActionView {
        match self {
            Action::Nothing => Action::Nothing,
            Action::Reply { line } => Action::Reply { line: line@ },
            Action::Canonicalize { path } => Action::Canonicalize { path: path@ },
            Action::ReadFile { path } => Action::ReadFile { path: path@ },
            Action::Inspect { path } => Action::Inspect { path: path@ },
            Action::Probe { directory, entry } => Action::Probe {
                directory: directory@,
                entry: entry@,
            },
            Action::Ascend { directory } => Action::Ascend { directory: directory@ },
            Action::Spawn { key, lake_root } => Action::Spawn {
                key: key@,
                lake_root: lake_root.deep_view(),
            },
            Action::Request { key, request } => Action::Request { key: key@, request: request@ },
            Action::Send { key, frame } => Action::Send { key: key@, frame: frame@ },
            Action::WriteFile { path, text } => Action::WriteFile { path: path@, text: text@ },
            Action::BeginWait { timeout_ms, pause_ms } => Action::BeginWait {
                timeout_ms: *timeout_ms,
                pause_ms: *pause_ms,
            },
            Action::AwaitNews { key } => Action::AwaitNews { key: key@ },
            Action::Pause { pause_ms } => Action::Pause { pause_ms: *pause_ms },
        }
    }
}

/// What came of what was done outside.
#[derive(Debug)]
pub enum Event<S, O> {
    /// The absolute form of a path, if it could be found.
    Canonical { path: Option<S> },
    /// The text of a file, if it could be read.
    FileRead { text: Option<S> },
    /// Whether there is something at a path that is no file.
    Inspected { is_directory: bool },
    /// Whether a directory has an entry.
    Probed { exists: bool },
    /// The parent of a directory, if it has one.
    Ascended { parent: Option<S> },
    /// The language server was started by the process with this id.
    Spawned { process_id: u32 },
    /// The language server could not be started with this command.
    SpawnFailed { command: S },
    /// What became of a request.
    Replied { outcome: O },
    /// Whether the bytes could be sent.
    Sent { sent: bool },
    /// The file was written, as far as that could be done.
    Written,
    /// The moment has passed, or there are news; the time for the wait may be
    /// over.
    Woken { expired: bool },
    /// The time for the wait was over before there were news.
    Overdue,
}

impl View for ServerEvent {
    type V = EventView;

    open spec fn view(&self) -> EventView {
        match self {
            Event::Canonical { path } => Event::Canonical { path: path.deep_view() },
            Event::FileRead { text } => Event::FileRead { text: text.deep_view() },
            Event::Inspected { is_directory } => Event::Inspected { is_directory: *is_directory },
            Event::Probed { exists } => Event::Probed { exists: *exists },
            Event::Ascended { parent } => Event::Ascended { parent: parent.deep_view() },
            Event::Spawned { process_id } => Event::Spawned { process_id: *process_id },
            Event::SpawnFailed { command } => Event::SpawnFailed { command: command@ },
            Event::Replied { outcome } => Event::Replied { outcome: outcome@ },
            Event::Sent { sent } => Event::Sent { sent: *sent },
            Event::Written => Event::Written,
            Event::Woken { expired } => Event::Woken { expired: *expired },
            Event::Overdue => Event::Overdue,
        }
    }
}

/// A document that is to be opened.
#[derive(Debug)]
pub struct Target<S> {
    pub uri: S,
    pub text: S,
    /// Whether the text was read from the disk.
    pub from_disk: bool,
}

impl View for Target<String> {
    type V = Target<Seq<char>>;

    open spec fn view(&self) -> Target<Seq<char>> {
        Target { uri: self.uri@, text: self.text@, from_disk: self.from_disk }
    }
}

/// Where a call of a tool stands: what it waits for.
#[derive(Debug)]
pub enum Stage<S, Q> {
    /// The absolute form of the path of the file to open.
    Locating { path: S, workspace: Option<S> },
    /// The text of the file to open.
    Reading { path: S, workspace: Option<S> },
    /// The absolute form of the workspace that the call names.
    Resolving { named: S, target: Target<S> },
    /// Whether the search for the workspace begins at the path or above it.
    Inspecting { path: S, target: Target<S> },
    /// Whether the directory holds the candidate with this number.
    Probing { directory: S, candidate: usize, target: Target<S> },
    /// The parent of the directory, which holds no candidate.
    Ascending { directory: S, target: Target<S> },
    /// The absolute form of the directory that holds a candidate.
    Detecting { target: Target<S> },
    /// The start of the language server of the workspace.
    Spawning { key: S, target: Target<S> },
    /// The response to the handshake.
    Initializing { target: Target<S>, request: Q },
    /// The sending of the confirmation of the handshake.
    Confirming { target: Target<S> },
    /// The sending of the document.
    Opening { key: S, target: Target<S> },
    /// The session of the document that was opened.
    Connecting { key: S, target: Target<S>, request: Q },
    /// The sending of an edit, with what is told when all is done.
    Changing { text: S, file: Option<S>, answer: S },
    /// The writing of the file, with what is told when it is done.
    Writing { answer: S },
    /// The session that is needed to ask for goals.
    Joining { key: S, uri: S, position: LspPosition, request: Q },
    /// The goals.
    Asking { key: S, request: Q },
    /// The moment until the document is looked at again.
    Waiting { key: S, uri: S },
    /// The moment until the last diagnostics have come.
    Settling { key: S, uri: S },
    /// The sending of the news that the document is closed.
    Closing { key: S, uri: S },
}

impl View for CallStage {
    type V = StageView;

    open spec fn view(&self) -> StageView {
        match self {
            Stage::Locating { path, workspace } => Stage::Locating {
                path: path@,
                workspace: workspace.deep_view(),
            },
            Stage::Reading { path, workspace } => Stage::Reading {
                path: path@,
                workspace: workspace.deep_view(),
            },
            Stage::Resolving { named, target } => Stage::Resolving {
                named: named@,
                target: target@,
            },
            Stage::Inspecting { path, target } => Stage::Inspecting {
                path: path@,
                target: target@,
            },
            Stage::Probing { directory, candidate, target } => Stage::Probing {
                directory: directory@,
                candidate: *candidate,
                target: target@,
            },
            Stage::Ascending { directory, target } => Stage::Ascending {
                directory: directory@,
                target: target@,
            },
            Stage::Detecting { target } => Stage::Detecting { target: target@ },
            Stage::Spawning { key, target } => Stage::Spawning { key: key@, target: target@ },
            Stage::Initializing { target, request } => Stage::Initializing {
                target: target@,
                request: request@,
            },
            Stage::Confirming { target } => Stage::Confirming { target: target@ },
            Stage::Opening { key, target } => Stage::Opening { key: key@, target: target@ },
            Stage::Connecting { key, target, request } => Stage::Connecting {
                key: key@,
                target: target@,
                request: request@,
            },
            Stage::Changing { text, file, answer } => Stage::Changing {
                text: text@,
                file: file.deep_view(),
                answer: answer@,
            },
            Stage::Writing { answer } => Stage::Writing { answer: answer@ },
            Stage::Joining { key, uri, position, request } => Stage::Joining {
                key: key@,
                uri: uri@,
                position: *position,
                request: request@,
            },
            Stage::Asking { key, request } => Stage::Asking { key: key@, request: request@ },
            Stage::Waiting { key, uri } => Stage::Waiting { key: key@, uri: uri@ },
            Stage::Settling { key, uri } => Stage::Settling { key: key@, uri: uri@ },
            Stage::Closing { key, uri } => Stage::Closing { key: key@, uri: uri@ },
        }
    }
}

/// How far a call of a tool got.
#[derive(Debug)]
pub enum Progress<S, Q, B> {
    /// It is done: the text that it tells, or that tells why it failed.
    Done { result: Result<S, S> },
    /// It waits for something to be done outside.
    Ask { action: Action<S, Q, B>, stage: Stage<S, Q> },
}

impl View for CallProgress {
    type V = ProgressView;

    open spec fn view(&self) -> ProgressView {
        match self {
            Progress::Done { result } => Progress::Done { result: result_view(*result) },
            Progress::Ask { action, stage } => Progress::Ask { action: action@, stage: stage@ },
        }
    }
}

/// Whether an event is what a stage waits for.
pub open spec fn awaits<S, Q, O>(stage: Stage<S, Q>, event: Event<S, O>) -> bool {
    match stage {
        Stage::Locating { .. } | Stage::Resolving { .. } | Stage::Detecting { .. } =>
            event is Canonical,
        Stage::Reading { .. } => event is FileRead,
        Stage::Inspecting { .. } => event is Inspected,
        Stage::Probing { .. } => event is Probed,
        Stage::Ascending { .. } => event is Ascended,
        Stage::Spawning { .. } => event is Spawned || event is SpawnFailed,
        Stage::Initializing { .. }
        | Stage::Connecting { .. }
        | Stage::Joining { .. }
        | Stage::Asking { .. } => event is Replied,
        Stage::Confirming { .. }
        | Stage::Opening { .. }
        | Stage::Changing { .. }
        | Stage::Closing { .. } => event is Sent,
        Stage::Writing { .. } => event is Written,
        Stage::Waiting { .. } => event is Woken || event is Overdue,
        Stage::Settling { .. } => event is Woken,
    }
}

}
