use checkerlib::ipc::{
    flag_request, load_request, parse_response, result_request, store_request,
    ControlInterface, IpcControlInterface, ScriptedTransport,
};
use checkerlib::{CheckerResult, Error};

fn scripted_backend(line: &str, copies: usize) -> IpcControlInterface<ScriptedTransport> {
    let script = vec![String::from(line); copies];
    IpcControlInterface::new(ScriptedTransport::new(script))
}

fn testflag_backend() -> IpcControlInterface<ScriptedTransport> {
    scripted_backend("{\"response\":\"TESTFLAG\"}", 8)
}

#[test]
fn scripted_responder_yields_testflag_for_any_tick_and_payload() {
    let mut backend = testflag_backend();
    assert_eq!(backend.get_flag(0, &vec![1u8, 2, 3]).unwrap(), "TESTFLAG");
    assert_eq!(backend.get_flag(4, &Vec::new()).unwrap(), "TESTFLAG");
    assert_eq!(backend.get_flag(2, &vec![0u8; 64]).unwrap(), "TESTFLAG");
}

#[test]
fn flag_request_wire_shape() {
    // base64 really transforms the payload: "ab" becomes "YWI="
    let line = flag_request(0, &vec![b'a', b'b']);
    assert_eq!(line, "{\"action\":\"FLAG\",\"param\":{\"payload\":\"YWI=\",\"tick\":0}}");
    let empty = flag_request(17, &Vec::new());
    assert_eq!(empty, "{\"action\":\"FLAG\",\"param\":{\"payload\":\"\",\"tick\":17}}");
    // matches what the serde-built envelope would be
    let parsed: serde_json::Value = serde_json::from_str(&line).unwrap();
    assert_eq!(parsed["action"], "FLAG");
    assert_eq!(parsed["param"]["payload"], "YWI=");
    assert_eq!(parsed["param"]["tick"], 0);
}

#[test]
fn store_and_load_request_wire_shape() {
    assert_eq!(
        store_request("k", "\"v\""),
        "{\"action\":\"STORE\",\"param\":{\"key\":\"k\",\"data\":\"\\\"v\\\"\"}}"
    );
    assert_eq!(load_request("k"), "{\"action\":\"LOAD\",\"param\":\"k\"}");
    let parsed: serde_json::Value =
        serde_json::from_str(&store_request("a b", "{\"x\":1}")).unwrap();
    assert_eq!(parsed["param"]["key"], "a b");
    assert_eq!(parsed["param"]["data"], "{\"x\":1}");
}

#[test]
fn result_request_wire_shape() {
    assert_eq!(
        result_request(&CheckerResult::Okay),
        "{\"action\":\"RESULT\",\"param\":\"Ok\"}"
    );
    assert_eq!(
        result_request(&CheckerResult::FlagNotFound),
        "{\"action\":\"RESULT\",\"param\":\"FlagNotFound\"}"
    );
    assert_eq!(
        result_request(&CheckerResult::Down),
        "{\"action\":\"RESULT\",\"param\":\"Down\"}"
    );
    assert_eq!(
        result_request(&CheckerResult::Recovering),
        "{\"action\":\"RESULT\",\"param\":\"Recovering\"}"
    );
}

#[test]
fn response_parsing_accepts_envelopes_and_rejects_the_rest() {
    assert_eq!(parse_response("{\"response\":\"ok\"}").unwrap(), "ok");
    // whitespace and a trailing newline, as a line read off a channel has
    assert_eq!(parse_response(" { \"response\" : \"x y\" } \n").unwrap(), "x y");
    // escapes inside the carried string
    assert_eq!(parse_response("{\"response\":\"a\\n\\\"b\\\"\"}").unwrap(), "a\n\"b\"");
    assert!(matches!(parse_response("garbage"), Err(Error::SerdeError)));
    assert!(matches!(parse_response(""), Err(Error::SerdeError)));
    assert!(matches!(parse_response("{\"other\":\"x\"}"), Err(Error::SerdeError)));
    assert!(matches!(parse_response("{\"response\":5}"), Err(Error::SerdeError)));
    assert!(matches!(
        parse_response("{\"response\":\"x\"} trailing"),
        Err(Error::SerdeError)
    ));
}

#[test]
fn store_data_and_store_result_only_write() {
    let mut backend = testflag_backend();
    backend.store_data("k", "\"v\"").unwrap();
    backend.store_result(&CheckerResult::Down).unwrap();
    let written = &backend.transport.written;
    assert_eq!(written.len(), 2);
    assert!(written[0].contains("\"action\":\"STORE\""));
    assert!(written[1].contains("\"action\":\"RESULT\""));
}

#[test]
fn ipc_load_data_returns_the_carried_string() {
    let mut backend = scripted_backend("{\"response\":\"{\\\"n\\\":1}\"}", 1);
    let raw = backend.load_data("k").unwrap();
    assert_eq!(raw, "{\"n\":1}");
    let decoded: serde_json::Value = serde_json::from_str(&raw).unwrap();
    assert_eq!(decoded["n"], 1);
}

#[test]
fn a_broken_response_line_is_a_protocol_error() {
    let mut backend = scripted_backend("not json", 1);
    assert!(matches!(backend.get_flag(0, &Vec::new()), Err(Error::SerdeError)));
    // a drained channel is a transport failure on the next read
    let mut drained = scripted_backend("{\"response\":\"x\"}", 0);
    assert!(matches!(drained.get_flag(0, &Vec::new()), Err(Error::IoError)));
}

#[test]
fn checker_result_names() {
    assert_eq!(CheckerResult::Okay.result_string(), "OK");
    assert_eq!(CheckerResult::Down.result_string(), "DOWN");
    assert_eq!(CheckerResult::Faulty.result_string(), "FAULTY");
    assert_eq!(CheckerResult::FlagNotFound.result_string(), "FLAG_NOT_FOUND");
    assert_eq!(CheckerResult::Recovering.result_string(), "RECOVERING");
}

#[test]
fn backend_selection_follows_the_environment_signal() {
    assert_eq!(checkerlib::context::local_mode(true), false);
    assert_eq!(checkerlib::context::local_mode(false), true);
}

#[test]
fn response_parsing_accepts_the_full_escape_set() {
    // \b and \f forms
    assert_eq!(
        parse_response("{\"response\":\"a\\b\\f\"}").unwrap(),
        "a\u{8}\u{c}"
    );
    // a general \uXXXX escape, as serde_json may emit for non-ASCII text
    assert_eq!(parse_response("{\"response\":\"\\u0107\"}").unwrap(), "\u{107}");
    // a surrogate pair for a character outside the basic plane
    assert_eq!(
        parse_response("{\"response\":\"\\uD83D\\uDE00\"}").unwrap(),
        "\u{1F600}"
    );
    // what serde_json decodes, this parser decodes identically
    let carried: String = serde_json::from_str("\"a\\b\\f\\u0107\\uD83D\\uDE00\"").unwrap();
    assert_eq!(
        parse_response("{\"response\":\"a\\b\\f\\u0107\\uD83D\\uDE00\"}").unwrap(),
        carried
    );
    // a lone surrogate is rejected
    assert!(matches!(
        parse_response("{\"response\":\"\\uD83D\"}"),
        Err(Error::SerdeError)
    ));
}
