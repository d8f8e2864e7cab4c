use heel::frontend::CliError;
use heel::ipc::{
    encode_request, interpret_response, parse_endpoint, response_length, response_length_error,
    split_response, wrapper_kind, CommandEnvelope, CommandPayload, IpcEndpoint, IpcFrameError,
    LooseCommandEnvelope, LoosePayload, ResponseDecodings, WrapperKind,
};

fn message_of(e: CliError) -> String {
    match e {
        CliError::Message { message } => message,
        other => panic!("unexpected error {other:?}"),
    }
}

#[test]
fn request_frame_has_length_method_and_params() {
    let frame = encode_request(b"ping", &[0x80]).expect("short method");
    assert_eq!(frame, vec![0, 0, 0, 6, 4, b'p', b'i', b'n', b'g', 0x80]);
}

#[test]
fn request_frame_rejects_long_methods() {
    let method = vec![b'a'; 256];
    assert_eq!(
        encode_request(&method, &[]),
        Err(IpcFrameError::MethodTooLong)
    );
    assert!(encode_request(&vec![b'a'; 255], &[]).is_ok());
}

#[test]
fn response_length_is_big_endian_and_bounded() {
    assert_eq!(response_length([0, 0, 1, 2]), Ok(258));
    assert_eq!(response_length([0, 0x01, 0, 0]), Ok(65536));
    assert_eq!(
        response_length([0, 0, 0, 0]),
        Err(IpcFrameError::InvalidResponseLength(0))
    );
    assert_eq!(response_length([0, 0x00, 0x00, 0x01]), Ok(1));
    assert_eq!(response_length([0x01, 0, 0, 0]), Ok(16 * 1024 * 1024));
    assert_eq!(
        response_length([0x01, 0, 0, 1]),
        Err(IpcFrameError::InvalidResponseLength(16 * 1024 * 1024 + 1))
    );
}

#[test]
fn response_length_errors_become_cli_errors() {
    match response_length_error(IpcFrameError::InvalidResponseLength(0)) {
        CliError::InvalidIpcResponseLength { length } => assert_eq!(length, 0),
        other => panic!("unexpected {other:?}"),
    }
    assert_eq!(
        message_of(response_length_error(IpcFrameError::MethodTooLong)),
        "method name too long (max 255 bytes)"
    );
}

#[test]
fn response_body_splits_success_flag_and_payload() {
    assert_eq!(split_response(&[1, 7, 8]), Some((true, vec![7, 8])));
    assert_eq!(split_response(&[0]), Some((false, vec![])));
    assert_eq!(split_response(&[]), None);
}

#[test]
fn endpoints_are_tcp_or_unix() {
    assert_eq!(
        parse_endpoint("tcp://127.0.0.1:9000"),
        IpcEndpoint::Tcp("127.0.0.1:9000".to_string())
    );
    assert_eq!(
        parse_endpoint("/tmp/heel.sock"),
        IpcEndpoint::Unix("/tmp/heel.sock".to_string())
    );
    assert_eq!(parse_endpoint("tcp:/x"), IpcEndpoint::Unix("tcp:/x".to_string()));
}

fn decodings(envelope: Result<CommandEnvelope, String>) -> ResponseDecodings {
    ResponseDecodings {
        envelope,
        loose: None,
        text: None,
        lossy: String::new(),
    }
}

#[test]
fn successful_envelopes_render_their_payload() {
    let text = CommandEnvelope {
        ok: true,
        payload: Some(CommandPayload::Text {
            content: "hello".to_string(),
        }),
        error: None,
    };
    assert_eq!(interpret_response(true, &decodings(Ok(text))).unwrap(), "hello");
    let json = CommandEnvelope {
        ok: true,
        payload: Some(CommandPayload::Json {
            compact: "{\"a\":1}".to_string(),
            pretty: "{\n  \"a\": 1\n}".to_string(),
        }),
        error: None,
    };
    assert_eq!(
        interpret_response(true, &decodings(Ok(json))).unwrap(),
        "{\n  \"a\": 1\n}"
    );
    let empty = CommandEnvelope {
        ok: true,
        payload: None,
        error: None,
    };
    assert_eq!(interpret_response(true, &decodings(Ok(empty))).unwrap(), "");
}

#[test]
fn failed_envelopes_report_error_then_payload_then_default() {
    let with_error = CommandEnvelope {
        ok: false,
        payload: Some(CommandPayload::Text {
            content: "payload".to_string(),
        }),
        error: Some("boom".to_string()),
    };
    assert_eq!(
        message_of(interpret_response(true, &decodings(Ok(with_error))).unwrap_err()),
        "boom"
    );
    let blank_error = CommandEnvelope {
        ok: false,
        payload: Some(CommandPayload::Text {
            content: "payload".to_string(),
        }),
        error: Some("  \n".to_string()),
    };
    assert_eq!(
        message_of(interpret_response(true, &decodings(Ok(blank_error))).unwrap_err()),
        "payload"
    );
    let nothing = CommandEnvelope {
        ok: false,
        payload: Some(CommandPayload::Text {
            content: " ".to_string(),
        }),
        error: None,
    };
    assert_eq!(
        message_of(interpret_response(true, &decodings(Ok(nothing))).unwrap_err()),
        "IPC command failed"
    );
    let json = CommandEnvelope {
        ok: false,
        payload: Some(CommandPayload::Json {
            compact: "[1]".to_string(),
            pretty: "[\n  1\n]".to_string(),
        }),
        error: None,
    };
    assert_eq!(
        message_of(interpret_response(true, &decodings(Ok(json))).unwrap_err()),
        "[1]"
    );
}

#[test]
fn undecodable_success_falls_back_to_loose_then_string_then_decode_error() {
    let loose = ResponseDecodings {
        envelope: Err("bad".to_string()),
        loose: Some(LooseCommandEnvelope {
            ok: true,
            payload: Some(LoosePayload::Text {
                value: "plain".to_string(),
                rendered: "\"plain\"".to_string(),
            }),
            error: None,
        }),
        text: Some("ignored".to_string()),
        lossy: String::new(),
    };
    assert_eq!(message_of(interpret_response(true, &loose).unwrap_err()), "plain");
    let failed_loose = ResponseDecodings {
        envelope: Err("bad".to_string()),
        loose: Some(LooseCommandEnvelope {
            ok: false,
            payload: Some(LoosePayload::Text {
                value: "".to_string(),
                rendered: "\"\"".to_string(),
            }),
            error: None,
        }),
        text: None,
        lossy: String::new(),
    };
    assert_eq!(
        message_of(interpret_response(true, &failed_loose).unwrap_err()),
        "\"\""
    );
    let as_string = ResponseDecodings {
        envelope: Err("bad".to_string()),
        loose: None,
        text: Some("just text".to_string()),
        lossy: String::new(),
    };
    assert_eq!(
        message_of(interpret_response(true, &as_string).unwrap_err()),
        "just text"
    );
    let nothing = ResponseDecodings {
        envelope: Err("invalid type".to_string()),
        loose: None,
        text: None,
        lossy: String::new(),
    };
    assert_eq!(
        message_of(interpret_response(true, &nothing).unwrap_err()),
        "failed to decode IPC response: invalid type"
    );
}

#[test]
fn failure_flag_reports_string_or_lossy_text() {
    let with_text = ResponseDecodings {
        envelope: Err("x".to_string()),
        loose: None,
        text: Some("denied".to_string()),
        lossy: "garbage".to_string(),
    };
    assert_eq!(
        message_of(interpret_response(false, &with_text).unwrap_err()),
        "denied"
    );
    let lossy = ResponseDecodings {
        envelope: Err("x".to_string()),
        loose: None,
        text: None,
        lossy: "raw bytes".to_string(),
    };
    assert_eq!(
        message_of(interpret_response(false, &lossy).unwrap_err()),
        "raw bytes"
    );
}

#[test]
fn wrapper_kind_follows_positional_and_stdin_arguments() {
    assert!(matches!(wrapper_kind(&vec![], None), WrapperKind::Simple));
    assert!(matches!(wrapper_kind(&vec![], Some("body")), WrapperKind::Simple));
    match wrapper_kind(&vec!["subagent".to_string(), "prompt".to_string()], None) {
        WrapperKind::Positional(args) => {
            assert_eq!(args.len(), 2);
            assert_eq!(args[0].name, "subagent");
            assert_eq!(args[0].shell_var, "arg0");
            assert_eq!(args[1].shell_ref, "$arg1");
        }
        other => panic!("unexpected {other:?}"),
    }
    match wrapper_kind(&vec!["query".to_string()], Some("body")) {
        WrapperKind::Stdin {
            primary_arg,
            stdin_arg,
        } => {
            assert_eq!(primary_arg, "query");
            assert_eq!(stdin_arg, "body");
        }
        other => panic!("unexpected {other:?}"),
    }
}
