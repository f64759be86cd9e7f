use feather::error::FeatherError;
use feather::ipc::{
    check_request_size, check_response_size, receive, refuse_format, refuse_size, refuse_version,
    respond, Command, ErrorCode, Request, Response, MAX_MESSAGE_BYTES,
};
use feather::json::{object1, Json};
use feather::types::IPC_PROTOCOL_VERSION;

#[test]
fn response_error_maps_to_domain_error() {
    let response = Response::failure("test".into(), ErrorCode::HardwareFailure, "denied");
    assert!(matches!(response.into_data(), Err(FeatherError::Driver(_))));
}

#[test]
fn requests_carry_the_version_and_an_identifier() {
    let request = Request::new(4021, 7, Command::Status);
    assert_eq!(request.protocol_version, IPC_PROTOCOL_VERSION);
    assert_eq!(request.request_id, "4021-7");
    assert_eq!(request.command, Command::Status);
}

#[test]
fn a_client_gets_back_what_the_daemon_answered() {
    let answer = || object1("answer", Json::number(42));
    let response = respond("1-1".to_owned(), Ok(answer()));
    assert_eq!(receive(response, "1-1").unwrap(), answer());

    let errors = [
        (FeatherError::Config("a".to_owned()), ErrorCode::InvalidConfig),
        (FeatherError::Driver("b".to_owned()), ErrorCode::HardwareFailure),
        (FeatherError::Daemon("unknown output 'x'".to_owned()), ErrorCode::UnknownResource),
        (FeatherError::Daemon("d".to_owned()), ErrorCode::Internal),
        (FeatherError::Protocol("e".to_owned()), ErrorCode::InvalidRequest),
    ];
    for (error, code) in errors {
        let response = respond("1-1".to_owned(), Err(error.clone()));
        assert_eq!(response.error.as_ref().unwrap().code, code);
        assert_eq!(receive(response, "1-1").unwrap_err(), error);
    }
    for error in [
        FeatherError::Io("gone".to_owned()),
        FeatherError::Json("gone".to_owned()),
    ] {
        let response = respond("1-1".to_owned(), Err(error));
        assert_eq!(
            receive(response, "1-1").unwrap_err(),
            FeatherError::Daemon("gone".to_owned())
        );
    }
}

#[test]
fn refused_arguments_and_unknown_names_are_told_apart() {
    let codes = [
        ("unknown device 'nope'", ErrorCode::UnknownResource),
        ("unknown profile 'x'", ErrorCode::UnknownResource),
        ("override duration must be greater than zero", ErrorCode::InvalidRequest),
        ("override duration is too large", ErrorCode::InvalidRequest),
        ("fan override percentage must be at most 100", ErrorCode::InvalidRequest),
        ("fan override 5% is below output 'case' minimum 30%", ErrorCode::InvalidRequest),
        ("output 'case' is not a fan", ErrorCode::InvalidRequest),
        ("output 'case' is not RGB", ErrorCode::InvalidRequest),
        ("output 'case' is not a display", ErrorCode::InvalidRequest),
        ("output 'case' has no active override", ErrorCode::Internal),
        ("output 'case' is not controlled by the active profile", ErrorCode::Internal),
    ];
    for (message, code) in codes {
        let response = respond("r".to_owned(), Err(FeatherError::Daemon(message.to_owned())));
        assert!(!response.ok);
        assert_eq!(response.request_id, "r");
        assert_eq!(response.data, None);
        let error = response.error.unwrap();
        assert_eq!(error.code, code);
        assert_eq!(error.message, message);
    }
    let response = respond(
        "r".to_owned(),
        Err(FeatherError::Daemon("fan override percentage must be at most 100".to_owned())),
    );
    assert_eq!(
        receive(response, "r").unwrap_err(),
        FeatherError::Protocol("fan override percentage must be at most 100".to_owned())
    );
}

#[test]
fn responses_to_other_requests_and_broken_envelopes_are_refused() {
    let response = respond("1-2".to_owned(), Ok(Json::Null));
    assert_eq!(
        receive(response, "1-1").unwrap_err(),
        FeatherError::Protocol("response request ID '1-2' did not match '1-1'".to_owned())
    );
    let mut response = Response::success("1".to_owned(), Json::Null);
    response.data = None;
    assert_eq!(
        response.into_data().unwrap_err(),
        FeatherError::Protocol("successful daemon response contained no data".to_owned())
    );
    let mut response = Response::failure("1".to_owned(), ErrorCode::Internal, "x");
    response.error = None;
    assert_eq!(
        response.into_data().unwrap_err(),
        FeatherError::Protocol("failed daemon response contained no error".to_owned())
    );
    let mut response = Response::success("1".to_owned(), Json::Null);
    response.protocol_version = 2;
    assert_eq!(
        response.into_data().unwrap_err(),
        FeatherError::Protocol("daemon uses protocol 2, client uses 3".to_owned())
    );
}

#[test]
fn other_protocol_versions_are_refused() {
    assert!(refuse_version(IPC_PROTOCOL_VERSION, "1").is_none());
    let response = refuse_version(2, "1").unwrap();
    assert_eq!(
        response.error.as_ref().unwrap().code,
        ErrorCode::IncompatibleProtocol
    );
    assert_eq!(
        receive(response, "1").unwrap_err(),
        FeatherError::Daemon("client uses protocol 2, daemon uses 3".to_owned())
    );
}

#[test]
fn messages_are_limited_in_size() {
    assert!(check_request_size(MAX_MESSAGE_BYTES).is_ok());
    assert_eq!(
        check_request_size(MAX_MESSAGE_BYTES + 1).unwrap_err(),
        FeatherError::Protocol("request is too large".to_owned())
    );
    assert!(check_response_size(MAX_MESSAGE_BYTES).is_ok());
    assert_eq!(
        check_response_size(MAX_MESSAGE_BYTES + 1).unwrap_err(),
        FeatherError::Protocol("daemon response is too large".to_owned())
    );
    assert_eq!(
        check_response_size(0).unwrap_err(),
        FeatherError::Protocol("daemon closed the socket without a response".to_owned())
    );
    assert!(refuse_size(MAX_MESSAGE_BYTES).is_none());
    let response = refuse_size(MAX_MESSAGE_BYTES + 1).unwrap();
    assert_eq!(response.request_id, "");
    assert_eq!(
        refuse_format("line 1").into_data().unwrap_err(),
        FeatherError::Protocol("invalid request: line 1".to_owned())
    );
}
