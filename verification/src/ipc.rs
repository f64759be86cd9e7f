//! Versioned request and response messages for the local `featherd` socket.

use vstd::prelude::*;

use crate::drivers::Reply;
use crate::error::ErrorView;
use crate::error::FeatherError;
use crate::error::Result;
use crate::json::Json;
use crate::json::JsonView;
use crate::text;
use crate::types::IPC_PROTOCOL_VERSION;
use crate::views;

verus! {

/// Maximum encoded size of one newline-delimited IPC message.
pub const MAX_MESSAGE_BYTES: usize = 1_048_576;

/// Milliseconds that a client waits for each step of an exchange.
pub const CLIENT_TIMEOUT_MS: u64 = 10_000;

/// A request sent to the local daemon socket.
#[derive(Debug)]
pub struct Request {
    /// IPC protocol version understood by the client.
    pub protocol_version: u32,
    /// Client-generated identifier echoed by the daemon.
    pub request_id: String,
    /// Operation for the daemon to perform.
    pub command: Command,
}

/// Operations accepted by the local daemon.
#[derive(Clone, Debug, PartialEq, Eq)]
pub enum Command {
    /// Return the current daemon, sensor, and output status.
    Status,
    /// Return devices known to the running daemon.
    Devices,
    /// Validate and activate the configuration file again.
    ConfigReload,
    /// List configured profiles and the active profile.
    ProfileList,
    /// Activate a configured profile.
    ProfileSet {
        /// Profile name from the configuration file.
        profile: String,
        /// Save the profile as the startup selection.
        persist: bool,
    },
    /// Set a temporary fan duty override.
    OverrideFan {
        /// Output alias to override.
        output: String,
        /// Requested fan duty from 0 through 100.
        percent: u8,
        /// Override lifetime in milliseconds.
        duration_ms: u64,
        /// Permit a value below the output's configured minimum.
        allow_below_minimum: bool,
    },
    /// Set a temporary RGB override.
    OverrideRgb {
        /// Output alias to override.
        output: String,
        /// Red, green, and blue channel values.
        rgb: [u8; 3],
        /// Override lifetime in milliseconds.
        duration_ms: u64,
    },
    /// Set a temporary display override.
    OverrideDisplay {
        /// Output alias to override.
        output: String,
        /// Whether the display is on.
        enabled: bool,
        /// Override lifetime in milliseconds.
        duration_ms: u64,
    },
    /// Clear temporary overrides.
    OverrideClear {
        /// Output alias, or all outputs when omitted.
        output: Option<String>,
    },
    /// Return one output or physical device to its hardware policy.
    OutputRelease {
        /// Output alias, or all outputs when omitted.
        output: Option<String>,
    },
    /// Resume `featherd` control of one output or physical device.
    OutputResume {
        /// Output alias, or all outputs when omitted.
        output: Option<String>,
    },
    /// Read raw diagnostic data from a configured Corsair HID device.
    DebugHidDump {
        /// Configured device alias.
        device: String,
    },
}

/// A response returned by the local daemon.
#[derive(Debug)]
pub struct Response {
    /// IPC protocol version used by the daemon.
    pub protocol_version: u32,
    /// Identifier copied from the request.
    pub request_id: String,
    /// Whether the command completed successfully.
    pub ok: bool,
    /// Command result when `ok` is true.
    pub data: Option<Json>,
    /// Structured error when `ok` is false.
    pub error: Option<ApiError>,
}

/// An error returned across the local IPC protocol.
#[derive(Clone, Debug, PartialEq, Eq)]
pub struct ApiError {
    /// Machine-readable error category.
    pub code: ErrorCode,
    /// Error message intended for the CLI user.
    pub message: String,
}

/// Machine-readable categories for IPC errors.
#[derive(Clone, Copy, Debug, PartialEq, Eq, Structural)]
pub enum ErrorCode {
    /// The request body or command arguments are invalid.
    InvalidRequest,
    /// The client and daemon use different IPC protocol versions.
    IncompatibleProtocol,
    /// The configuration file is invalid.
    InvalidConfig,
    /// A named profile, output, or device does not exist.
    UnknownResource,
    /// A hardware operation failed.
    HardwareFailure,
    /// The daemon encountered an error outside the other categories.
    Internal,
}

/// See [`Response`].
pub ghost struct ResponseView {
    /// See [`Response::protocol_version`].
    pub protocol_version: u32,
    /// See [`Response::request_id`].
    pub request_id: Seq<char>,
    /// See [`Response::ok`].
    pub ok: bool,
    /// See [`Response::data`].
    pub data: Option<JsonView>,
    /// See [`Response::error`].
    pub error: Option<(ErrorCode, Seq<char>)>,
}

impl View for Response {
    type V = ResponseView;

    open spec fn view(&self) -> ResponseView {
        ResponseView {
            protocol_version: self.protocol_version,
            request_id: self.request_id@,
            ok: self.ok,
            data: views::maybe(self.data),
            error: match self.error {
                Some(error) => Some((error.code, error.message@)),
                None => None,
            },
        }
    }
}

/// A response with data.
pub open spec fn succeeded(request_id: Seq<char>, data: JsonView) -> ResponseView {
    ResponseView {
        protocol_version: IPC_PROTOCOL_VERSION,
        request_id,
        ok: true,
        data: Some(data),
        error: None,
    }
}

/// A response with an error.
pub open spec fn failed(request_id: Seq<char>, code: ErrorCode, message: Seq<char>) -> ResponseView {
    ResponseView {
        protocol_version: IPC_PROTOCOL_VERSION,
        request_id,
        ok: false,
        data: None,
        error: Some((code, message)),
    }
}

/// The error that a category stands for.
pub open spec fn error_of(code: ErrorCode, message: Seq<char>) -> ErrorView {
    match code {
        ErrorCode::InvalidConfig => ErrorView::Config(message),
        ErrorCode::InvalidRequest => ErrorView::Protocol(message),
        ErrorCode::HardwareFailure => ErrorView::Driver(message),
        ErrorCode::IncompatibleProtocol => ErrorView::Daemon(message),
        ErrorCode::UnknownResource => ErrorView::Daemon(message),
        ErrorCode::Internal => ErrorView::Daemon(message),
    }
}

/// What a response says.
pub open spec fn data_of(response: ResponseView) -> Reply<JsonView> {
    if response.protocol_version != IPC_PROTOCOL_VERSION {
        Err(
            ErrorView::Protocol(
                "daemon uses protocol "@ + text::decimal(response.protocol_version as nat)
                    + ", client uses "@ + text::decimal(IPC_PROTOCOL_VERSION as nat),
            ),
        )
    } else if response.ok {
        match response.data {
            Some(data) => Ok(data),
            None => Err(ErrorView::Protocol("successful daemon response contained no data"@)),
        }
    } else {
        match response.error {
            Some((code, message)) => Err(error_of(code, message)),
            None => Err(ErrorView::Protocol("failed daemon response contained no error"@)),
        }
    }
}

impl Request {
    /// Creates a request with the current protocol version. Its identifier is made of the
    /// number of the client process and a sequence number, and is unique while no client uses
    /// one sequence number twice.
    pub fn new(process: u32, sequence: u64, command: Command) -> (request: Self)
        ensures
            request.protocol_version == IPC_PROTOCOL_VERSION,
            request.request_id@ == text::decimal(process as nat) + "-"@ + text::decimal(
                sequence as nat,
            ),
            request.command == command,
    {
        let mut request_id = String::new();
        text::push_decimal(&mut request_id, process as u64);
        request_id.append("-");
        text::push_decimal(&mut request_id, sequence);
        proof {
            assert(request_id@ =~= text::decimal(process as nat) + "-"@ + text::decimal(
                sequence as nat,
            ));
        }
        Request { protocol_version: IPC_PROTOCOL_VERSION, request_id, command }
    }
}

impl Response {
    /// Creates a successful response containing `data`.
    pub fn success(request_id: String, data: Json) -> (response: Self)
        ensures
            response@ == succeeded(request_id@, data@),
    {
        Response {
            protocol_version: IPC_PROTOCOL_VERSION,
            request_id,
            ok: true,
            data: Some(data),
            error: None,
        }
    }

    /// Creates a failed response with a structured error.
    pub fn failure(request_id: String, code: ErrorCode, message: &str) -> (response: Self)
        ensures
            response@ == failed(request_id@, code, message@),
    {
        Response {
            protocol_version: IPC_PROTOCOL_VERSION,
            request_id,
            ok: false,
            data: None,
            error: Some(ApiError { code, message: message.to_owned() }),
        }
    }

    /// Checks the response envelope and returns its data.
    ///
    /// # Errors
    ///
    /// Returns an error when the protocol version differs, the envelope is
    /// incomplete, or the daemon reported a failed command.
    pub fn into_data(self) -> (result: Result<Json>)
        ensures
            views::outcome(result) == data_of(self@),
    {
        if self.protocol_version != IPC_PROTOCOL_VERSION {
            let mut message = "daemon uses protocol ".to_owned();
            text::push_decimal(&mut message, self.protocol_version as u64);
            message.append(", client uses ");
            text::push_decimal(&mut message, IPC_PROTOCOL_VERSION as u64);
            return Err(FeatherError::Protocol(message));
        }
        if self.ok {
            match self.data {
                Some(data) => Ok(data),
                None => Err(
                    FeatherError::Protocol(
                        "successful daemon response contained no data".to_owned(),
                    ),
                ),
            }
        } else {
            match self.error {
                Some(error) => match error.code {
                    ErrorCode::InvalidConfig => Err(FeatherError::Config(error.message)),
                    ErrorCode::InvalidRequest => Err(FeatherError::Protocol(error.message)),
                    ErrorCode::HardwareFailure => Err(FeatherError::Driver(error.message)),
                    ErrorCode::IncompatibleProtocol => Err(FeatherError::Daemon(error.message)),
                    ErrorCode::UnknownResource => Err(FeatherError::Daemon(error.message)),
                    ErrorCode::Internal => Err(FeatherError::Daemon(error.message)),
                },
                None => Err(
                    FeatherError::Protocol(
                        "failed daemon response contained no error".to_owned(),
                    ),
                ),
            }
        }
    }
}

// ---------------------------------------------------------------- client

/// Accepts the size of an encoded request.
///
/// # Errors
///
/// Returns an error when the request is too large.
pub fn check_request_size(bytes: usize) -> (result: Result<()>)
    ensures
        result is Ok <==> bytes <= 1_048_576,
        if bytes > MAX_MESSAGE_BYTES {
            result matches Err(e) && e@ == ErrorView::Protocol("request is too large"@)
        } else {
            result is Ok
        },
{
    if bytes > MAX_MESSAGE_BYTES {
        return Err(FeatherError::Protocol("request is too large".to_owned()));
    }
    Ok(())
}

/// Accepts the size of an encoded response.
///
/// # Errors
///
/// Returns an error when the response is too large or missing.
pub fn check_response_size(bytes: usize) -> (result: Result<()>)
    ensures
        result is Ok <==> 0 < bytes <= 1_048_576,
        if bytes > MAX_MESSAGE_BYTES {
            result matches Err(e) && e@ == ErrorView::Protocol("daemon response is too large"@)
        } else if bytes == 0 {
            result matches Err(e) && e@ == ErrorView::Protocol(
                "daemon closed the socket without a response"@,
            )
        } else {
            result is Ok
        },
{
    if bytes > MAX_MESSAGE_BYTES {
        return Err(FeatherError::Protocol("daemon response is too large".to_owned()));
    }
    if bytes == 0 {
        return Err(
            FeatherError::Protocol("daemon closed the socket without a response".to_owned()),
        );
    }
    Ok(())
}

/// What a response says to the client that sent a request.
pub open spec fn answer_to(response: ResponseView, request_id: Seq<char>) -> Reply<JsonView> {
    if response.request_id != request_id {
        Err(
            ErrorView::Protocol(
                "response request ID '"@ + response.request_id + "' did not match '"@ + request_id
                    + "'"@,
            ),
        )
    } else {
        data_of(response)
    }
}

/// Takes the data of the response to a request.
///
/// # Errors
///
/// Returns an error when the response belongs to another request, or holds no data.
pub fn receive(response: Response, request_id: &str) -> (result: Result<Json>)
    ensures
        views::outcome(result) == answer_to(response@, request_id@),
{
    if !text::same(response.request_id.as_str(), request_id) {
        return Err(
            FeatherError::Protocol(
                text::concat5(
                    "response request ID '",
                    response.request_id.as_str(),
                    "' did not match '",
                    request_id,
                    "'",
                ),
            ),
        );
    }
    response.into_data()
}

// ---------------------------------------------------------------- daemon

/// Answers a request that is too large.
pub fn refuse_size(bytes: usize) -> (response: Option<Response>)
    ensures
        response is None <==> bytes <= 1_048_576,
        views::maybe(response) == (if bytes > MAX_MESSAGE_BYTES {
            Some(
                failed(Seq::<char>::empty(), ErrorCode::InvalidRequest, "request is too large"@),
            )
        } else {
            None
        }),
{
    if bytes > MAX_MESSAGE_BYTES {
        let none = String::new();
        assert(none@ =~= Seq::<char>::empty());
        Some(Response::failure(none, ErrorCode::InvalidRequest, "request is too large"))
    } else {
        None
    }
}

/// Answers a request that cannot be decoded.
pub fn refuse_format(reason: &str) -> (response: Response)
    ensures
        response@ == failed(
            Seq::<char>::empty(),
            ErrorCode::InvalidRequest,
            "invalid request: "@ + reason@,
        ),
{
    let message = text::concat2("invalid request: ", reason);
    let none = String::new();
    assert(none@ =~= Seq::<char>::empty());
    Response::failure(none, ErrorCode::InvalidRequest, message.as_str())
}

/// The answer to a client of another protocol version, if it is one.
pub open spec fn version_refusal(version: u32, request_id: Seq<char>) -> Option<ResponseView> {
    if version != IPC_PROTOCOL_VERSION {
        Some(
            failed(
                request_id,
                ErrorCode::IncompatibleProtocol,
                "client uses protocol "@ + text::decimal(version as nat) + ", daemon uses "@
                    + text::decimal(IPC_PROTOCOL_VERSION as nat),
            ),
        )
    } else {
        None
    }
}

/// Answers a client of another protocol version.
pub fn refuse_version(version: u32, request_id: &str) -> (response: Option<Response>)
    ensures
        views::maybe(response) == version_refusal(version, request_id@),
{
    if version != IPC_PROTOCOL_VERSION {
        let mut message = "client uses protocol ".to_owned();
        text::push_decimal(&mut message, version as u64);
        message.append(", daemon uses ");
        text::push_decimal(&mut message, IPC_PROTOCOL_VERSION as u64);
        Some(
            Response::failure(
                request_id.to_owned(),
                ErrorCode::IncompatibleProtocol,
                message.as_str(),
            ),
        )
    } else {
        None
    }
}

/// Whether a message of the daemon refuses an argument of a command: the duration or the duty of
/// an override, or an output of another kind than the override is for.
pub open spec fn refuses_argument(message: Seq<char>) -> bool {
    ||| text::has_prefix(message, "override duration "@)
    ||| text::has_prefix(message, "fan override "@)
    ||| text::has_prefix(message, "output '"@) && (text::has_suffix(message, "' is not a fan"@)
        || text::has_suffix(message, "' is not RGB"@) || text::has_suffix(
        message,
        "' is not a display"@,
    ))
}

/// Whether a message of the daemon refuses an argument of a command.
fn is_argument_refusal(message: &str) -> (result: bool)
    ensures
        result == refuses_argument(message@),
{
    text::starts_with(message, "override duration ") || text::starts_with(message, "fan override ")
        || (text::starts_with(message, "output '") && (text::ends_with(message, "' is not a fan")
        || text::ends_with(message, "' is not RGB") || text::ends_with(
        message,
        "' is not a display",
    )))
}

/// The category and the message that an error is answered with.
pub open spec fn reported(error: ErrorView) -> (ErrorCode, Seq<char>) {
    match error {
        ErrorView::Config(message) => (ErrorCode::InvalidConfig, message),
        ErrorView::Driver(message) => (ErrorCode::HardwareFailure, message),
        ErrorView::Daemon(message) => if text::has_prefix(message, "unknown"@) {
            (ErrorCode::UnknownResource, message)
        } else if refuses_argument(message) {
            (ErrorCode::InvalidRequest, message)
        } else {
            (ErrorCode::Internal, message)
        },
        ErrorView::Protocol(message) => (ErrorCode::InvalidRequest, message),
        ErrorView::Io(message) => (ErrorCode::Internal, message),
        ErrorView::Json(message) => (ErrorCode::Internal, message),
    }
}

/// The answer to a command that was carried out.
pub open spec fn response_to(request_id: Seq<char>, outcome: Reply<JsonView>) -> ResponseView {
    match outcome {
        Ok(data) => succeeded(request_id, data),
        Err(error) => failed(request_id, reported(error).0, reported(error).1),
    }
}

/// Answers a command that was carried out.
pub fn respond(request_id: String, outcome: Result<Json>) -> (response: Response)
    ensures
        response@ == response_to(request_id@, views::outcome(outcome)),
{
    match outcome {
        Ok(data) => Response::success(request_id, data),
        Err(error) => {
            let (code, message) = match error {
                FeatherError::Config(message) => (ErrorCode::InvalidConfig, message),
                FeatherError::Driver(message) => (ErrorCode::HardwareFailure, message),
                FeatherError::Daemon(message) => {
                    if text::starts_with(message.as_str(), "unknown") {
                        (ErrorCode::UnknownResource, message)
                    } else if is_argument_refusal(message.as_str()) {
                        (ErrorCode::InvalidRequest, message)
                    } else {
                        (ErrorCode::Internal, message)
                    }
                },
                FeatherError::Protocol(message) => (ErrorCode::InvalidRequest, message),
                FeatherError::Io(message) => (ErrorCode::Internal, message),
                FeatherError::Json(message) => (ErrorCode::Internal, message),
            };
            Response::failure(request_id, code, message.as_str())
        },
    }
}

/// What a client gets of a command that the daemon carried out: the data, or the same error.
/// Only an I/O or JSON error of the daemon arrives as a daemon error, and a refused argument as a
/// protocol error, with its message.
pub proof fn law_client_gets_outcome(request_id: Seq<char>, outcome: Reply<JsonView>)
    ensures
        answer_to(response_to(request_id, outcome), request_id) == (match outcome {
            Err(ErrorView::Io(message)) => Err(ErrorView::Daemon(message)),
            Err(ErrorView::Json(message)) => Err(ErrorView::Daemon(message)),
            Err(ErrorView::Daemon(message)) => if !text::has_prefix(message, "unknown"@)
                && refuses_argument(message) {
                Err(ErrorView::Protocol(message))
            } else {
                outcome
            },
            _ => outcome,
        }),
{
}

/// A client of another protocol version is refused, and learns both versions.
pub proof fn law_version_refused(version: u32, request_id: Seq<char>)
    requires
        version != IPC_PROTOCOL_VERSION,
    ensures
        version_refusal(version, request_id) matches Some(response) && answer_to(
            response,
            request_id,
        ) == Err::<JsonView, ErrorView>(
            ErrorView::Daemon(
                "client uses protocol "@ + text::decimal(version as nat) + ", daemon uses "@
                    + text::decimal(IPC_PROTOCOL_VERSION as nat),
            ),
        ),
{
}

} // verus!
