use sbt_client::envelope::{classify, id_answers, ClassifyError, CorrelationId, Envelope};
use sbt_client::exit_status::{
    monitor, ExitTrackingState, ParamsError, Progress, Report, SessionOutcome,
};
use sbt_client::frame::{parse_header, read_frame, write_frame, FrameError, HeaderError, LspHeader};
use sbt_client::json::{encode_json, parse_json, Json};
use sbt_client::message::{make_request, read_message, MessageError};
use sbt_client::session::{exec_request, handshake_reply, initialize_request, HandshakeReport, EXEC_ID};

fn json(text: &str) -> Json {
    parse_json(text).expect("test input is JSON")
}

fn envelope(text: &str) -> Envelope {
    classify(json(text)).expect("test input has a shape")
}

fn log(level: i64, message: &str) -> Envelope {
    let text = format!(
        r#"{{"jsonrpc":"2.0","method":"window/logMessage","params":{{"type":{},"message":{:?}}}}}"#,
        level, message
    );
    envelope(&text)
}

fn member<'a>(j: &'a Json, key: &str) -> Option<&'a Json> {
    match j {
        Json::Object(o) => o.iter().rev().find(|(k, _)| k == key).map(|(_, v)| v),
        _ => None,
    }
}

#[test]
fn decode_ok() {
    let msg = r#"{"jsonrpc":"2.0","result":{"commandQueue":["collectAnalyses","shell"],"exitCode":0,"status":"Done"},"id":null}"#;
    let j = parse_json(msg).expect("is JSON");
    let e = classify(j).expect("is JSON RPC");
    assert!(matches!(e, Envelope::SuccessResponse { id: CorrelationId::Null, .. }));
}

#[test]
fn decode_ko() {
    let msg = r#"{"jsonrpc":"2.0","result":{"commandQueue":["collectAnalyses","shell"],"exitCode":0,"status":"Done"}}"#;
    let j = parse_json(msg).expect("is JSON");
    assert_eq!(classify(j), Err(ClassifyError::NoShape));
}

#[test]
fn header_is_case_insensitive() {
    assert_eq!(parse_header("Content-Length: 42"), Ok(LspHeader::ContentLength(42)));
    assert_eq!(parse_header("content-length: 42"), Ok(LspHeader::ContentLength(42)));
    assert_eq!(parse_header("CONTENT-LENGTH: 42\r\n"), Ok(LspHeader::ContentLength(42)));
    assert_eq!(parse_header("Content-Type: application/vscode-jsonrpc; charset=utf-8"), Ok(LspHeader::ContentType));
}

#[test]
fn header_errors() {
    assert_eq!(parse_header("X-Foo: 1"), Err(HeaderError::UnknownName));
    assert_eq!(parse_header("Content-Length 42"), Err(HeaderError::Malformed));
    assert_eq!(parse_header("Content-Length: 4: 2"), Err(HeaderError::Malformed));
    assert_eq!(parse_header("Content-Length: forty"), Err(HeaderError::BadLength));
    assert_eq!(parse_header("Content-Length: "), Err(HeaderError::BadLength));
    assert_eq!(parse_header("Content-Length: +7"), Ok(LspHeader::ContentLength(7)));
    assert_eq!(
        parse_header("Content-Length: 99999999999999999999999"),
        Err(HeaderError::BadLength)
    );
}

#[test]
fn frame_round_trip() {
    let body = br#"{"a":[1,2,3]}"#;
    let mut bytes = write_frame(body);
    assert_eq!(bytes, b"Content-Length: 13\r\n\r\n{\"a\":[1,2,3]}".to_vec());
    bytes.extend_from_slice(b"Content-Length: 2");
    let (start, n) = read_frame(&bytes).unwrap();
    assert_eq!(&bytes[start..start + n], &body[..]);
    assert_eq!(start + n, 35);
}

#[test]
fn frame_with_content_type_and_empty_body() {
    let bytes = b"Content-Type: utf-8\r\ncontent-length: 0\r\n\r\n";
    assert_eq!(read_frame(bytes), Ok((42, 0)));
    assert_eq!(read_frame(b"Content-Length: 3\r\nContent-Length: 1\r\n\r\nab"), Ok((40, 1)));
}

#[test]
fn short_body_is_truncated() {
    let bytes = b"Content-Length: 10\r\n\r\n12345";
    assert_eq!(read_frame(bytes), Err(FrameError::Truncated));
    assert_eq!(read_message(bytes), Err(MessageError::Frame(FrameError::Truncated)));
    assert_eq!(read_frame(b"Content-Length: 10\r\n"), Err(FrameError::Truncated));
    assert_eq!(read_frame(b""), Err(FrameError::Truncated));
}

#[test]
fn frame_errors() {
    assert_eq!(read_frame(b"\r\n{}"), Err(FrameError::MissingLength));
    assert_eq!(read_frame(b"Content-Type: x\r\n\r\n{}"), Err(FrameError::MissingLength));
    assert_eq!(
        read_frame(b"X-Foo: 1\r\n\r\n{}"),
        Err(FrameError::Header(HeaderError::UnknownName))
    );
    assert_eq!(read_message(b"Content-Length: 2\r\n\r\n\xff\xfe"), Err(MessageError::NotUtf8));
    assert_eq!(read_message(b"Content-Length: 2\r\n\r\n{]"), Err(MessageError::NotJson));
}

#[test]
fn message_round_trip() {
    let params = json(r#"{"commandLine":"compile","n":[1,2.5,-3,null,true]}"#);
    let bytes = make_request(7, "sbt/exec", params).unwrap();
    let (j, used) = read_message(&bytes).unwrap();
    assert_eq!(used, bytes.len());
    let expected = json(
        r#"{"jsonrpc":"2.0","id":7,"method":"sbt/exec","params":{"commandLine":"compile","n":[1,2.5,-3,null,true]}}"#,
    );
    assert_eq!(j, expected);
}

#[test]
fn requests_of_the_session() {
    let init = initialize_request().unwrap();
    let text = String::from_utf8(init.clone()).unwrap();
    assert!(text.starts_with("Content-Length: "));
    let (j, _) = read_message(&init).unwrap();
    assert_eq!(j, json(r#"{"jsonrpc":"2.0","id":1,"method":"initialize","params":{}}"#));
    let exec = exec_request("runMain t.Main").unwrap();
    let (j, _) = read_message(&exec).unwrap();
    assert_eq!(
        j,
        json(r#"{"jsonrpc":"2.0","id":2,"method":"sbt/exec","params":{"commandLine":"runMain t.Main"}}"#)
    );
    assert_eq!(member(&j, "id"), Some(&Json::Number("2".to_string())));
}

#[test]
fn json_text_both_ways() {
    assert_eq!(parse_json("[1, \"a\", {\"b\": false}]"), Some(Json::Array(vec![
        Json::Number("1".to_string()),
        Json::Str("a".to_string()),
        Json::Object(vec![("b".to_string(), Json::Bool(false))]),
    ])));
    assert_eq!(parse_json("{"), None);
    assert_eq!(parse_json(" null "), Some(Json::Null));
    let bytes = encode_json(&Json::Object(vec![("k".to_string(), Json::Number("-12".to_string()))])).unwrap();
    assert_eq!(bytes, b"{\"k\":-12}".to_vec());
    assert_eq!(encode_json(&Json::Number("not a number".to_string())), None);
}

#[test]
fn classifier_shapes() {
    assert!(matches!(
        envelope(r#"{"jsonrpc":"2.0","method":"m"}"#),
        Envelope::Notification { params: None, .. }
    ));
    assert!(matches!(
        envelope(r#"{"jsonrpc":"2.0","method":"m","id":"x","params":[]}"#),
        Envelope::Request { id: CorrelationId::Str(_), params: Some(Json::Array(_)), .. }
    ));
    assert!(matches!(
        envelope(r#"{"jsonrpc":"2.0","id":3,"result":null}"#),
        Envelope::SuccessResponse { id: CorrelationId::Num(3), result: Json::Null }
    ));
    assert!(matches!(
        envelope(r#"{"jsonrpc":"2.0","id":-4,"error":{"code":1}}"#),
        Envelope::ErrorResponse { id: CorrelationId::Num(-4), .. }
    ));
}

#[test]
fn classifier_errors() {
    assert_eq!(classify(json("[1]")), Err(ClassifyError::NotObject));
    assert_eq!(classify(json("{}")), Err(ClassifyError::NoShape));
    assert_eq!(classify(json(r#"{"id":1}"#)), Err(ClassifyError::NoShape));
    assert_eq!(classify(json(r#"{"id":1,"result":1,"error":2}"#)), Err(ClassifyError::Ambiguous));
    assert_eq!(classify(json(r#"{"method":5}"#)), Err(ClassifyError::BadMethod));
    assert_eq!(classify(json(r#"{"method":"m","id":1.5}"#)), Err(ClassifyError::BadId));
    assert_eq!(classify(json(r#"{"id":true,"result":1}"#)), Err(ClassifyError::BadId));
}

#[test]
fn ids_answer_by_number_or_decimal_text() {
    assert!(id_answers(&CorrelationId::Num(2), 2));
    assert!(id_answers(&CorrelationId::Str("2".to_string()), 2));
    assert!(id_answers(&CorrelationId::Str("-15".to_string()), -15));
    assert!(!id_answers(&CorrelationId::Str("02".to_string()), 2));
    assert!(!id_answers(&CorrelationId::Num(99), 2));
    assert!(!id_answers(&CorrelationId::Null, 2));
}

#[test]
fn success_path() {
    let events = vec![log(4, "Exited with code 0"), log(4, "Done")];
    assert_eq!(monitor(events, EXEC_ID), Progress::Finished(SessionOutcome::Success));
}

#[test]
fn failure_path_bad_run() {
    let events = vec![log(4, "Done"), log(1, "Nonzero exit code: 1")];
    assert_eq!(monitor(events, EXEC_ID), Progress::Finished(SessionOutcome::Failure));
}

#[test]
fn done_alone_keeps_waiting() {
    let events = vec![log(4, "Done"), log(3, "compiling")];
    assert_eq!(
        monitor(events, EXEC_ID),
        Progress::Waiting(ExitTrackingState { done: true, success: false, failure: false })
    );
}

#[test]
fn id_mismatch_isolation() {
    let mut state = ExitTrackingState::new();
    let other = envelope(r#"{"jsonrpc":"2.0","id":99,"result":{}}"#);
    let (report, outcome) = state.step(other, EXEC_ID).unwrap();
    assert_eq!(outcome, None);
    assert!(matches!(report, Report::Unrelated(_)));
    let ours = envelope(r#"{"jsonrpc":"2.0","id":2,"result":{}}"#);
    assert_eq!(state.step(ours, EXEC_ID), Ok((Report::Reply, Some(SessionOutcome::Success))));
}

#[test]
fn error_response_for_the_command_fails() {
    let mut state = ExitTrackingState::new();
    let other = envelope(r#"{"jsonrpc":"2.0","id":"7","error":{"code":-1}}"#);
    assert!(matches!(state.step(other, EXEC_ID), Ok((Report::Unrelated(_), None))));
    let ours = envelope(r#"{"jsonrpc":"2.0","id":"2","error":{"code":-1,"message":"bad"}}"#);
    assert_eq!(
        state.step(ours, EXEC_ID),
        Ok((Report::ServerError(json(r#"{"code":-1,"message":"bad"}"#)), Some(SessionOutcome::Failure)))
    );
}

#[test]
fn notifications_report() {
    let mut state = ExitTrackingState::new();
    let d = envelope(
        r#"{"jsonrpc":"2.0","method":"textDocument/publishDiagnostics","params":{"uri":"file:///a.scala","diagnostics":[{"message":"x"}]}}"#,
    );
    assert_eq!(
        state.step(d, EXEC_ID),
        Ok((
            Report::Diagnostics {
                uri: "file:///a.scala".to_string(),
                diagnostics: vec![json(r#"{"message":"x"}"#)],
            },
            None
        ))
    );
    let other = envelope(r#"{"jsonrpc":"2.0","method":"sbt/other","params":1}"#);
    assert!(matches!(state.step(other, EXEC_ID), Ok((Report::Notice(_), None))));
    let req = envelope(r#"{"jsonrpc":"2.0","method":"ask","id":5}"#);
    assert!(matches!(state.step(req, EXEC_ID), Ok((Report::Anomaly(_), None))));
    assert_eq!(state.step(log(2, "Exited with code 0"), EXEC_ID), Ok((Report::Log("Exited with code 0".to_string()), None)));
    assert_eq!(state, ExitTrackingState { done: false, success: true, failure: false });
}

#[test]
fn params_errors() {
    let mut state = ExitTrackingState::new();
    let bad_log = envelope(r#"{"jsonrpc":"2.0","method":"window/logMessage","params":{"type":"4","message":"Done"}}"#);
    assert_eq!(state.step(bad_log, EXEC_ID), Err(ParamsError::LogMessage));
    let bad_diag = envelope(r#"{"jsonrpc":"2.0","method":"textDocument/publishDiagnostics","params":{"uri":"u"}}"#);
    assert_eq!(state.step(bad_diag, EXEC_ID), Err(ParamsError::Diagnostics));
    assert_eq!(state, ExitTrackingState::new());
}

#[test]
fn end_to_end_scenario() {
    let reply = envelope(r#"{"jsonrpc":"2.0","method":"window/logMessage","params":{"type":3,"message":"welcome"}}"#);
    assert_eq!(handshake_reply(reply), HandshakeReport::Quiet);
    let mut wire = Vec::new();
    for text in [
        r#"{"jsonrpc":"2.0","method":"window/logMessage","params":{"type":4,"message":"Exited with code 0"}}"#,
        r#"{"jsonrpc":"2.0","method":"window/logMessage","params":{"type":4,"message":"Done"}}"#,
    ] {
        wire.extend(write_frame(text.as_bytes()));
    }
    let mut events = Vec::new();
    let mut at = 0;
    while at < wire.len() {
        let (j, used) = read_message(&wire[at..]).unwrap();
        events.push(classify(j).unwrap());
        at += used;
    }
    assert_eq!(monitor(events, EXEC_ID), Progress::Finished(SessionOutcome::Success));
}

#[test]
fn handshake_request_is_an_anomaly() {
    let req = envelope(r#"{"jsonrpc":"2.0","method":"ask","id":1}"#);
    assert!(matches!(handshake_reply(req), HandshakeReport::Anomaly(Envelope::Request { .. })));
    let err = envelope(r#"{"jsonrpc":"2.0","id":1,"error":{}}"#);
    assert_eq!(handshake_reply(err), HandshakeReport::Quiet);
}

#[test]
fn frame_round_trip_edges() {
    let empty = write_frame(b"");
    assert_eq!(empty, b"Content-Length: 0\r\n\r\n".to_vec());
    assert_eq!(read_frame(&empty), Ok((21, 0)));
    let body: Vec<u8> = (0u8..=255).collect();
    let bytes = write_frame(&body);
    let (start, n) = read_frame(&bytes).unwrap();
    assert_eq!(n, 256);
    assert_eq!(&bytes[start..], &body[..]);
}
