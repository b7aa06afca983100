use vstd::prelude::*;
use vstd::string::*;

verus! {

/// Errors of the client. Errors that originate in outside libraries (the
/// webview runtime, the file system, JSON, SQLite) carry the text that those
/// libraries gave for them.
#[derive(Debug)]
pub enum AppError {
    InvalidState(String),
    Disconnected,
    Timeout(String),
    Tauri(String),
    Io(String),
    Json(String),
    Sqlite(String),
    Storage(String),
    Protocol(String),
    Server { code: String, message: String, retryable: bool },
}

/// An error with its texts as character sequences.
pub enum ErrorView {
    InvalidState(Seq<char>),
    Disconnected,
    Timeout(Seq<char>),
    Tauri(Seq<char>),
    Io(Seq<char>),
    Json(Seq<char>),
    Sqlite(Seq<char>),
    Storage(Seq<char>),
    Protocol(Seq<char>),
    Server { code: Seq<char>, message: Seq<char>, retryable: bool },
}

impl View for AppError {
    type V = ErrorView;

    open spec fn view(&self) -> ErrorView {
        match self {
            AppError::InvalidState(s) => ErrorView::InvalidState(s@),
            AppError::Disconnected => ErrorView::Disconnected,
            AppError::Timeout(s) => ErrorView::Timeout(s@),
            AppError::Tauri(s) => ErrorView::Tauri(s@),
            AppError::Io(s) => ErrorView::Io(s@),
            AppError::Json(s) => ErrorView::Json(s@),
            AppError::Sqlite(s) => ErrorView::Sqlite(s@),
            AppError::Storage(s) => ErrorView::Storage(s@),
            AppError::Protocol(s) => ErrorView::Protocol(s@),
            AppError::Server { code, message, retryable } => ErrorView::Server {
                code: code@,
                message: message@,
                retryable: *retryable,
            },
        }
    }
}

/// Whether a failed request may be sent again unchanged.
pub open spec fn retryable_error(error: ErrorView) -> bool {
    match error {
        ErrorView::Disconnected => true,
        ErrorView::Timeout(_) => true,
        ErrorView::Server { retryable, .. } => retryable,
        _ => false,
    }
}

/// The text shown to the user for an error.
pub open spec fn error_text(error: ErrorView) -> Seq<char> {
    match error {
        ErrorView::InvalidState(s) => "Transizione di stato non valida: "@ + s,
        ErrorView::Disconnected => "WebSocket non connesso"@,
        ErrorView::Timeout(s) => "Timeout della richiesta "@ + s,
        ErrorView::Tauri(s) => "Errore Tauri: "@ + s,
        ErrorView::Io(s) => "Errore I/O: "@ + s,
        ErrorView::Json(s) => "Errore JSON: "@ + s,
        ErrorView::Sqlite(s) => "Errore SQLite: "@ + s,
        ErrorView::Storage(s) => "Errore storage: "@ + s,
        ErrorView::Protocol(s) => "Errore protocollo: "@ + s,
        ErrorView::Server { code, message, .. } => "Errore server "@ + code + ": "@ + message,
    }
}

impl AppError {
    pub fn is_retryable(&self) -> (r: bool)
        ensures
            r == retryable_error(self@),
    {
        match self {
            AppError::Disconnected => true,
            AppError::Timeout(_) => true,
            AppError::Server { retryable, .. } => *retryable,
            _ => false,
        }
    }

    /// The user-facing text of the error.
    pub fn message(&self) -> (text: String)
        ensures
            text@ == error_text(self@),
    {
        match self {
            AppError::InvalidState(s) => String::from_str("Transizione di stato non valida: ").concat(s.as_str()),
            AppError::Disconnected => String::from_str("WebSocket non connesso"),
            AppError::Timeout(s) => String::from_str("Timeout della richiesta ").concat(s.as_str()),
            AppError::Tauri(s) => String::from_str("Errore Tauri: ").concat(s.as_str()),
            AppError::Io(s) => String::from_str("Errore I/O: ").concat(s.as_str()),
            AppError::Json(s) => String::from_str("Errore JSON: ").concat(s.as_str()),
            AppError::Sqlite(s) => String::from_str("Errore SQLite: ").concat(s.as_str()),
            AppError::Storage(s) => String::from_str("Errore storage: ").concat(s.as_str()),
            AppError::Protocol(s) => String::from_str("Errore protocollo: ").concat(s.as_str()),
            AppError::Server { code, message, .. } => String::from_str("Errore server ").concat(
                code.as_str(),
            ).concat(": ").concat(message.as_str()),
        }
    }
}

} // verus!
