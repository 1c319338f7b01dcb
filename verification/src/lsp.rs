//! What the language server tells of a document, and what is known of it.

use vstd::prelude::*;

verus! {

/// A place in a document: both numbers count from zero.
#[derive(Debug, Clone, Copy, PartialEq, Eq, Structural)]
pub struct LspPosition {
    pub line: u64,
    pub character: u64,
}

/// A stretch of a document.
#[derive(Debug, Clone, Copy, PartialEq, Eq, Structural)]
pub struct LspRange {
    pub start: LspPosition,
    pub end: LspPosition,
}

/// An error, a warning or a remark on a stretch of a document.
#[derive(Debug)]
pub struct LspDiagnostic {
    pub range: LspRange,
    pub severity: Option<i64>,
    pub message: String,
    pub source: Option<String>,
}

impl Clone for LspDiagnostic {
    fn clone(&self) -> (copy: Self)
        ensures
            copy == *self,
    {
        let source = match &self.source {
            Some(source) => Some(source.clone()),
            None => None,
        };
        LspDiagnostic {
            range: self.range,
            severity: self.severity,
            message: self.message.clone(),
            source,
        }
    }
}

/// The model of a diagnostic.
pub struct DiagnosticView {
    pub range: LspRange,
    pub severity: Option<i64>,
    pub message: Seq<char>,
    pub source: Option<Seq<char>>,
}

impl View for LspDiagnostic {
    type V = DiagnosticView;

    open spec fn view(&self) -> DiagnosticView {
        DiagnosticView {
            range: self.range,
            severity: self.severity,
            message: self.message@,
            source: self.source.deep_view(),
        }
    }
}

impl DeepView for LspDiagnostic {
    type V = DiagnosticView;

    open spec fn deep_view(&self) -> DiagnosticView {
        self@
    }
}

/// Whether Lean has finished with a document.
#[derive(Debug, Clone, Copy, PartialEq, Eq, Structural)]
pub enum FileCheckStatus {
    /// Lean is still working on it.
    Processing,
    /// Lean has checked all of it.
    Checked,
}

impl DeepView for FileCheckStatus {
    type V = FileCheckStatus;

    open spec fn deep_view(&self) -> FileCheckStatus {
        *self
    }
}

/// An open document.
#[derive(Debug)]
pub struct DocumentState {
    pub uri: String,
    pub version: i64,
    pub text: String,
    pub rpc_session_id: Option<String>,
}

impl Clone for DocumentState {
    fn clone(&self) -> (copy: Self)
        ensures
            copy == *self,
    {
        let rpc_session_id = match &self.rpc_session_id {
            Some(session) => Some(session.clone()),
            None => None,
        };
        DocumentState {
            uri: self.uri.clone(),
            version: self.version,
            text: self.text.clone(),
            rpc_session_id,
        }
    }
}

/// The model of an open document.
pub struct DocumentView {
    pub uri: Seq<char>,
    pub version: int,
    pub text: Seq<char>,
    pub rpc_session_id: Option<Seq<char>>,
}

impl View for DocumentState {
    type V = DocumentView;

    open spec fn view(&self) -> DocumentView {
        DocumentView {
            uri: self.uri@,
            version: self.version as int,
            text: self.text@,
            rpc_session_id: self.rpc_session_id.deep_view(),
        }
    }
}

impl DeepView for DocumentState {
    type V = DocumentView;

    open spec fn deep_view(&self) -> DocumentView {
        self@
    }
}

}
