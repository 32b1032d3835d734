use ducky_relay::capture::{CaptureState, EVENT_TYPE_KEY, KEY_PRESSED, KEY_RELEASED};
use ducky_relay::codec::{
    check_reply, encode_request, frame, message_complete, message_length, message_payload, reply_result,
    request_frame, VarlinkError, ERROR_MEMBER, SEND_KEYS_METHOD,
};
use ducky_relay::commands::{CommandMapping, Config};
use ducky_relay::executor::{exit_result, runuser_args, ExecutionError, LOGIN_SHELL, RUNUSER};
use ducky_relay::service::KeystrokeService;
use ducky_relay::startup::{listen_source, ListenSource, LISTEN_FDS_START};

fn strings(items: &[&str]) -> Vec<String> {
    items.iter().map(|s| s.to_string()).collect()
}

#[test]
fn request_names_method_keys_and_pressed() {
    assert_eq!(SEND_KEYS_METHOD, "io.ducky.Keystroke.SendKeys");
    assert_eq!(
        encode_request(&strings(&["c", "ctrl"]), true).unwrap(),
        "{\"method\":\"io.ducky.Keystroke.SendKeys\",\"parameters\":{\"keys\":[\"c\",\"ctrl\"],\"pressed\":true}}"
    );
    assert_eq!(
        encode_request(&strings(&["f1"]), false).unwrap(),
        "{\"method\":\"io.ducky.Keystroke.SendKeys\",\"parameters\":{\"keys\":[\"f1\"],\"pressed\":false}}"
    );
    assert_eq!(
        encode_request(&strings(&[]), true).unwrap(),
        "{\"method\":\"io.ducky.Keystroke.SendKeys\",\"parameters\":{\"keys\":[],\"pressed\":true}}"
    );
}

#[test]
fn request_escapes_what_json_must_escape() {
    assert_eq!(
        encode_request(&strings(&["a\"b", "back\\slash", "tab\t", "é"]), true).unwrap(),
        "{\"method\":\"io.ducky.Keystroke.SendKeys\",\"parameters\":{\"keys\":[\"a\\\"b\",\"back\\\\slash\",\"tab\\t\",\"é\"],\"pressed\":true}}"
    );
}

#[test]
fn request_is_json_that_reads_back() {
    let keys = strings(&["shift", "a\u{0}b", "\"", "\u{1f}"]);
    let text = encode_request(&keys, true).unwrap();
    let value: serde_json::Value = serde_json::from_str(&text).unwrap();
    assert_eq!(value.get("method").and_then(|m| m.as_str()), Some("io.ducky.Keystroke.SendKeys"));
    let parameters = value.get("parameters").unwrap();
    assert_eq!(parameters.get("pressed").and_then(|p| p.as_bool()), Some(true));
    let read: Vec<String> = parameters
        .get("keys")
        .and_then(|k| k.as_array())
        .unwrap()
        .iter()
        .map(|k| k.as_str().unwrap().to_string())
        .collect();
    assert_eq!(read, keys);
}

#[test]
fn frame_ends_in_one_nul_byte() {
    assert_eq!(frame("{}"), vec![b'{', b'}', 0]);
    assert_eq!(frame(""), vec![0]);
    assert_eq!(frame("é"), vec![0xc3, 0xa9, 0]);
}

#[test]
fn nothing_is_sent_for_no_keys() {
    assert_eq!(request_frame(&strings(&[]), true).unwrap(), None);
    let sent = request_frame(&strings(&["a"]), true).unwrap().unwrap();
    let mut expected =
        b"{\"method\":\"io.ducky.Keystroke.SendKeys\",\"parameters\":{\"keys\":[\"a\"],\"pressed\":true}}".to_vec();
    expected.push(0);
    assert_eq!(sent, expected);
}

#[test]
fn message_ends_at_the_first_nul() {
    assert_eq!(message_length(b"abc\0def\0"), 3);
    assert_eq!(message_payload(b"abc\0def\0"), b"abc");
    assert!(message_complete(b"abc\0def\0"));
    assert_eq!(message_length(b"\0"), 0);
    assert_eq!(message_payload(b"\0"), b"");
    assert!(message_complete(b"\0"));
}

#[test]
fn message_without_nul_is_all_that_came() {
    assert_eq!(message_length(b"abc"), 3);
    assert_eq!(message_payload(b"abc"), b"abc");
    assert!(!message_complete(b"abc"));
    assert_eq!(message_length(b""), 0);
    assert!(!message_complete(b""));
}

#[test]
fn sent_frame_reads_back_as_its_text() {
    let sent = request_frame(&strings(&["ctrl", "c"]), true).unwrap().unwrap();
    assert!(message_complete(&sent));
    let text = encode_request(&strings(&["ctrl", "c"]), true).unwrap();
    assert_eq!(message_payload(&sent), text.as_bytes());
}

#[test]
fn reply_without_error_is_success() {
    assert_eq!(ERROR_MEMBER, "error");
    assert!(check_reply(b"{\"parameters\":{\"success\":true,\"keys\":[\"a\"],\"pressed\":true}}").is_ok());
    assert!(check_reply(b"{}").is_ok());
    assert!(check_reply(b"[1,2]").is_ok());
    assert!(check_reply(b"{\"parameters\":{\"error\":\"nested\"}}").is_ok());
}

#[test]
fn reply_with_error_is_a_call_error() {
    let reply = b"{\"error\":\"io.ducky.Keystroke.InvalidKey\",\"parameters\":{\"message\":\"Keys list cannot be empty\"}}";
    match check_reply(reply) {
        Err(VarlinkError::Call(text)) => assert_eq!(text, "\"io.ducky.Keystroke.InvalidKey\""),
        other => panic!("unexpected outcome: {:?}", other),
    }
    match check_reply(b"{\"error\":{\"code\":7,\"a\":null}}") {
        Err(VarlinkError::Call(text)) => assert_eq!(text, "{\"a\":null,\"code\":7}"),
        other => panic!("unexpected outcome: {:?}", other),
    }
    match check_reply(b"{\"error\":null}") {
        Err(VarlinkError::Call(text)) => assert_eq!(text, "null"),
        other => panic!("unexpected outcome: {:?}", other),
    }
}

#[test]
fn reply_that_is_no_json_is_a_protocol_error() {
    for reply in [&b""[..], b"not json", b"{\"error\":", b"{} trailing", b"{}\0"] {
        match check_reply(reply) {
            Err(VarlinkError::Protocol(text)) => assert!(!text.is_empty()),
            other => panic!("unexpected outcome: {:?}", other),
        }
    }
}

#[test]
fn reply_result_follows_the_member() {
    assert!(reply_result(Ok(None)).is_ok());
    match reply_result(Ok(Some("\"x\"".to_string()))) {
        Err(VarlinkError::Call(text)) => assert_eq!(text, "\"x\""),
        other => panic!("unexpected outcome: {:?}", other),
    }
    match reply_result(Err("expected value".to_string())) {
        Err(VarlinkError::Protocol(text)) => assert_eq!(text, "expected value"),
        other => panic!("unexpected outcome: {:?}", other),
    }
}

#[test]
fn varlink_errors_have_their_texts() {
    assert_eq!(VarlinkError::Connection("refused".to_string()).message(), "Connection error: refused");
    assert_eq!(VarlinkError::Io("broken pipe".to_string()).message(), "IO error: broken pipe");
    assert_eq!(VarlinkError::Protocol("eof".to_string()).message(), "Protocol error: eof");
    assert_eq!(VarlinkError::Call("\"x\"".to_string()).message(), "Call error: \"x\"");
}

#[test]
fn script_path_is_an_argument_of_its_own() {
    assert_eq!(RUNUSER, "runuser");
    assert_eq!(LOGIN_SHELL, "/bin/bash");
    assert_eq!(
        runuser_args("ducky", "/opt/s.sh"),
        strings(&["-u", "ducky", "--", "/bin/bash", "-l", "-c", "exec \"$0\"", "/opt/s.sh"])
    );
    let odd = "/opt/my script; rm -rf $(HOME) `x` \"q\".sh";
    let args = runuser_args("a b", odd);
    assert_eq!(args.len(), 8);
    assert_eq!(args[1], "a b");
    assert_eq!(args[6], "exec \"$0\"");
    assert_eq!(args[7], odd);
}

#[test]
fn exit_code_zero_is_success() {
    assert_eq!(exit_result(Some(0)), Ok(()));
    assert_eq!(exit_result(Some(1)), Err(ExecutionError::Failed { code: Some(1) }));
    assert_eq!(exit_result(Some(-1)), Err(ExecutionError::Failed { code: Some(-1) }));
    assert_eq!(exit_result(None), Err(ExecutionError::Failed { code: None }));
}

#[test]
fn execution_errors_have_their_texts() {
    assert_eq!(
        ExecutionError::Launch { reason: "No such file or directory (os error 2)".to_string() }.message(),
        "Failed to execute runuser: No such file or directory (os error 2)"
    );
    for code in [Some(1), Some(127), Some(255), Some(-1), Some(i32::MIN), Some(i32::MAX), None] {
        assert_eq!(
            ExecutionError::Failed { code }.message(),
            format!("Command failed with exit code: {:?}", code)
        );
    }
    assert_eq!(ExecutionError::Failed { code: Some(3) }.message(), "Command failed with exit code: Some(3)");
}

#[test]
fn socket_is_inherited_only_for_this_process() {
    assert_eq!(LISTEN_FDS_START, 3);
    assert_eq!(listen_source(Some("77"), Some("1"), 77), ListenSource::Inherited { fd: 3 });
    assert_eq!(listen_source(Some("77"), Some("4"), 77), ListenSource::Inherited { fd: 3 });
    assert_eq!(listen_source(Some("077"), Some("01"), 77), ListenSource::Inherited { fd: 3 });
    assert_eq!(listen_source(Some("76"), Some("1"), 77), ListenSource::Bind);
    assert_eq!(listen_source(Some("77"), Some("0"), 77), ListenSource::Bind);
    assert_eq!(listen_source(None, Some("1"), 77), ListenSource::Bind);
    assert_eq!(listen_source(Some("77"), None, 77), ListenSource::Bind);
    assert_eq!(listen_source(None, None, 77), ListenSource::Bind);
}

#[test]
fn values_that_are_no_numbers_say_nothing() {
    for bad in ["", " 77", "77 ", "+77", "-77", "7x", "0x4d", "７７", "4294967296", "99999999999999999999999"] {
        assert_eq!(listen_source(Some(bad), Some("1"), 77), ListenSource::Bind);
        assert_eq!(listen_source(Some("77"), Some(bad), 77), ListenSource::Bind);
    }
    assert_eq!(
        listen_source(Some("4294967295"), Some("4294967295"), u32::MAX),
        ListenSource::Inherited { fd: 3 }
    );
}

#[test]
fn combination_travels_from_the_pad_to_its_script() {
    let config = Config {
        user: "ducky".to_string(),
        commands: vec![CommandMapping { keys: "Ctrl+C".to_string(), path: "/opt/copy.sh".to_string() }],
    };
    let mut service = KeystrokeService::new(config.user.clone(), config.build_command_map());
    let mut pad = CaptureState::new();
    let mut runs = Vec::new();
    let events = [(29u16, KEY_PRESSED), (46, KEY_PRESSED), (46, 2), (46, KEY_RELEASED), (29, KEY_RELEASED)];
    for (step, (code, value)) in events.iter().enumerate() {
        let Some(names) = pad.on_event(EVENT_TYPE_KEY, *code, *value) else { continue };
        let sent = request_frame(names.names(), true).unwrap().unwrap();
        assert!(message_complete(&sent));
        let request: serde_json::Value = serde_json::from_slice(message_payload(&sent)).unwrap();
        assert_eq!(request["method"], "io.ducky.Keystroke.SendKeys");
        let keys: Vec<String> = request["parameters"]["keys"]
            .as_array()
            .unwrap()
            .iter()
            .map(|k| k.as_str().unwrap().to_string())
            .collect();
        let pressed = request["parameters"]["pressed"].as_bool().unwrap();
        let outcome = service.send_keys_at(keys, pressed, 10 * step as u64).unwrap();
        assert_eq!(outcome.response.keys, names.to_vec());
        if let Some(dispatch) = outcome.dispatch {
            runs.push((step, dispatch.user, dispatch.script));
        }
    }
    assert_eq!(runs, vec![(1, "ducky".to_string(), "/opt/copy.sh".to_string())]);
}
