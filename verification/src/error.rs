//! Domain errors returned by the library.

use vstd::prelude::*;

use crate::text;

verus! {

/// An error returned by Feather's configuration, drivers, daemon, or IPC layer.
#[derive(Clone, Debug, PartialEq, Eq)]
pub enum FeatherError {
    /// The configuration file could not be read, parsed, or validated.
    Config(String),
    /// A hardware driver could not discover, read, write, or release a device.
    Driver(String),
    /// The daemon could not start or complete an operation.
    Daemon(String),
    /// A local IPC message did not follow the expected protocol.
    Protocol(String),
    /// An operating-system I/O operation failed.
    Io(String),
    /// JSON serialization or deserialization failed.
    Json(String),
}

/// The result type shared by Feather modules.
pub type Result<T> = std::result::Result<T, FeatherError>;

/// An error as its kind and the characters of its message.
pub ghost enum ErrorView {
    /// See [`FeatherError::Config`].
    Config(Seq<char>),
    /// See [`FeatherError::Driver`].
    Driver(Seq<char>),
    /// See [`FeatherError::Daemon`].
    Daemon(Seq<char>),
    /// See [`FeatherError::Protocol`].
    Protocol(Seq<char>),
    /// See [`FeatherError::Io`].
    Io(Seq<char>),
    /// See [`FeatherError::Json`].
    Json(Seq<char>),
}

impl View for FeatherError {
    type V = ErrorView;

    open spec fn view(&self) -> ErrorView {
        match *self {
            FeatherError::Config(message) => ErrorView::Config(message@),
            FeatherError::Driver(message) => ErrorView::Driver(message@),
            FeatherError::Daemon(message) => ErrorView::Daemon(message@),
            FeatherError::Protocol(message) => ErrorView::Protocol(message@),
            FeatherError::Io(message) => ErrorView::Io(message@),
            FeatherError::Json(message) => ErrorView::Json(message@),
        }
    }
}

/// An error in words: what failed, then its message.
pub open spec fn described(error: ErrorView) -> Seq<char> {
    match error {
        ErrorView::Config(message) => "configuration error: "@ + message,
        ErrorView::Driver(message) => "driver error: "@ + message,
        ErrorView::Daemon(message) => "daemon error: "@ + message,
        ErrorView::Protocol(message) => "protocol error: "@ + message,
        ErrorView::Io(message) => "I/O error: "@ + message,
        ErrorView::Json(message) => "JSON error: "@ + message,
    }
}

/// The process exit code for an error: 2 for configuration and protocol errors,
/// 3 for daemon errors, 4 for driver errors, and 1 for the rest.
pub open spec fn exit_code_of(error: ErrorView) -> u8 {
    match error {
        ErrorView::Config(_) => 2,
        ErrorView::Protocol(_) => 2,
        ErrorView::Daemon(_) => 3,
        ErrorView::Driver(_) => 4,
        ErrorView::Io(_) => 1,
        ErrorView::Json(_) => 1,
    }
}

/// An outcome as its value and the view of its error.
pub open spec fn outcome<T>(result: Result<T>) -> std::result::Result<T, ErrorView> {
    match result {
        Ok(value) => Ok(value),
        Err(error) => Err(error@),
    }
}

impl FeatherError {
    /// The error in words.
    pub fn to_text(&self) -> (result: String)
        ensures
            result@ == described(self@),
    {
        match self {
            FeatherError::Config(message) => text::concat2("configuration error: ", message),
            FeatherError::Driver(message) => text::concat2("driver error: ", message),
            FeatherError::Daemon(message) => text::concat2("daemon error: ", message),
            FeatherError::Protocol(message) => text::concat2("protocol error: ", message),
            FeatherError::Io(message) => text::concat2("I/O error: ", message),
            FeatherError::Json(message) => text::concat2("JSON error: ", message),
        }
    }

    /// The process exit code for this error.
    pub fn exit_code(&self) -> (code: u8)
        ensures
            code == exit_code_of(self@),
    {
        match self {
            FeatherError::Config(_) => 2,
            FeatherError::Protocol(_) => 2,
            FeatherError::Daemon(_) => 3,
            FeatherError::Driver(_) => 4,
            FeatherError::Io(_) => 1,
            FeatherError::Json(_) => 1,
        }
    }
}

/// A process that fails ends with a code that tells the kind of its cause: 2 for a configuration
/// or a message that is wrong, 3 for the daemon, 4 for a driver, and 1 for anything else.
pub proof fn law_exit_codes_tell_the_cause(message: Seq<char>)
    ensures
        exit_code_of(ErrorView::Config(message)) == 2,
        exit_code_of(ErrorView::Protocol(message)) == 2,
        exit_code_of(ErrorView::Daemon(message)) == 3,
        exit_code_of(ErrorView::Driver(message)) == 4,
        exit_code_of(ErrorView::Io(message)) == 1,
        exit_code_of(ErrorView::Json(message)) == 1,
        forall|error: ErrorView| 1 <= #[trigger] exit_code_of(error) <= 4,
{
}

/// An error is described by its kind and its message.
pub proof fn law_errors_are_described_by_their_message(message: Seq<char>)
    ensures
        described(ErrorView::Config(message)) == "configuration error: "@ + message,
        described(ErrorView::Driver(message)) == "driver error: "@ + message,
        described(ErrorView::Daemon(message)) == "daemon error: "@ + message,
        described(ErrorView::Protocol(message)) == "protocol error: "@ + message,
        described(ErrorView::Io(message)) == "I/O error: "@ + message,
        described(ErrorView::Json(message)) == "JSON error: "@ + message,
{
}

} // verus!
