use hourglass::web_receiver::{
    forward_frame, inject_browser_pid, read_frame, run, search_config, ForwardError, FrameError,
    FrameState, FrameStep, ReadOutcome, ReceiverAction, ReceiverEvent, ReceiverSession, SearchStep,
    NUM_MAX_FRAME_BYTES,
};

// reads one frame off a byte slice the way a blocking reader would
fn next_frame(stream: &mut &[u8]) -> Result<Option<Vec<u8>>, FrameError> {
    let mut state = FrameState::Header;
    loop {
        let num_wanted = state.num_wanted();
        let outcome = if stream.len() >= num_wanted {
            let (head, tail) = stream.split_at(num_wanted);
            *stream = tail;
            ReadOutcome::Filled(head.to_vec())
        } else {
            let num_read = stream.len();
            *stream = &[];
            ReadOutcome::UnexpectedEof { num_read }
        };
        match read_frame(state, outcome) {
            FrameStep::Pending(next) => state = next,
            FrameStep::Done(res) => return res,
        }
    }
}

fn encode(body: &[u8]) -> Vec<u8> {
    let mut out = (body.len() as u32).to_le_bytes().to_vec();
    out.extend_from_slice(body);
    out
}

#[test]
fn frames_are_read_back_in_order() {
    let mut bytes = encode(b"{}");
    bytes.extend(encode(b""));
    bytes.extend(encode(&[7u8; 300]));
    let mut stream: &[u8] = &bytes;
    assert_eq!(next_frame(&mut stream), Ok(Some(b"{}".to_vec())));
    assert_eq!(next_frame(&mut stream), Ok(Some(Vec::new())));
    assert_eq!(next_frame(&mut stream), Ok(Some(vec![7u8; 300])));
    assert_eq!(next_frame(&mut stream), Ok(None));
}

#[test]
fn header_is_little_endian() {
    let outcome = ReadOutcome::Filled(vec![0x34, 0x12, 0, 0]);
    match read_frame(FrameState::Header, outcome) {
        FrameStep::Pending(state) => assert_eq!(state, FrameState::Body { num_len: 0x1234 }),
        FrameStep::Done(_) => panic!("frame ended at its header"),
    }
}

#[test]
fn frame_length_limit() {
    let at_limit = (NUM_MAX_FRAME_BYTES as u32).to_le_bytes().to_vec();
    match read_frame(FrameState::Header, ReadOutcome::Filled(at_limit)) {
        FrameStep::Pending(state) => assert_eq!(state.num_wanted(), 1024 * 1024),
        FrameStep::Done(_) => panic!("a frame of the largest size was refused"),
    }
    let mut over: &[u8] = &[1, 0, 0x10, 0];
    assert_eq!(next_frame(&mut over), Err(FrameError::TooLong { num_len: 1024 * 1024 + 1 }));
}

#[test]
fn broken_streams() {
    let mut empty: &[u8] = &[];
    assert_eq!(next_frame(&mut empty), Ok(None));
    for num_read in 1..4 {
        let mut cut_header: &[u8] = &[5u8, 0, 0][..num_read];
        assert_eq!(next_frame(&mut cut_header), Err(FrameError::TruncatedLength { num_read }));
    }
    let mut cut_body: &[u8] = &[3, 0, 0, 0, 9, 9];
    assert_eq!(next_frame(&mut cut_body), Err(FrameError::TruncatedBody { num_read: 2 }));
    let mut no_body: &[u8] = &[3, 0, 0, 0];
    assert_eq!(next_frame(&mut no_body), Err(FrameError::TruncatedBody { num_read: 0 }));
}

#[test]
fn causes_of_failed_reads_are_handed_on() {
    let cause = "pipe broke".to_string();
    match read_frame(FrameState::Header, ReadOutcome::Failed { cause: cause.clone() }) {
        FrameStep::Done(res) => assert_eq!(res, Err(FrameError::ReadLength { cause: cause.clone() })),
        FrameStep::Pending(_) => panic!("a failed read went on"),
    }
    match read_frame(FrameState::Body { num_len: 3 }, ReadOutcome::Failed { cause: cause.clone() }) {
        FrameStep::Done(res) => assert_eq!(res, Err(FrameError::ReadBody { cause })),
        FrameStep::Pending(_) => panic!("a failed read went on"),
    }
}

fn is_parse_error(res: Result<Option<Vec<u8>>, ForwardError>) -> bool {
    matches!(res, Err(ForwardError::ParseExtensionJson { .. }))
}

#[test]
fn pid_is_added_to_objects() {
    let frame = br#" { "url": "https://a.example/\u00e9", "focused": true } "#;
    let out = forward_frame(frame, 4711).unwrap().unwrap();
    assert_eq!(
        String::from_utf8(out).unwrap(),
        "{\"browser_pid\":4711,\"focused\":true,\"url\":\"https://a.example/\u{e9}\"}"
    );
}

#[test]
fn pid_replaces_a_member_of_that_name() {
    let out = forward_frame(br#"{"browser_pid":"forged","title":"t"}"#, 8).unwrap().unwrap();
    assert_eq!(String::from_utf8(out).unwrap(), r#"{"browser_pid":8,"title":"t"}"#);
}

#[test]
fn other_documents_are_only_compacted() {
    let out = forward_frame(b"[1, 2,  {\"a\": null}]", 5).unwrap().unwrap();
    assert_eq!(String::from_utf8(out).unwrap(), "[1,2,{\"a\":null}]");
    assert_eq!(forward_frame(b"  true ", 5).unwrap().unwrap(), b"true".to_vec());
}

#[test]
fn frames_that_are_not_json_are_refused() {
    let bad: Result<serde_json::Value, serde_json::Error> = serde_json::from_slice(b"{");
    let cause = bad.unwrap_err().to_string();
    assert!(cause.contains("line 1 column 1"));
    assert_eq!(forward_frame(b"{", 5), Err(ForwardError::ParseExtensionJson { cause }));
    assert!(is_parse_error(forward_frame(b"{} {}", 5)));
    assert_eq!(forward_frame(b"", 5), Ok(None));
}

#[test]
fn nesting_limit() {
    let deepest = format!("{}1{}", "[".repeat(127), "]".repeat(127));
    assert_eq!(forward_frame(deepest.as_bytes(), 5), Ok(Some(deepest.clone().into_bytes())));
    let deeper = format!("[{}]", deepest);
    assert!(is_parse_error(forward_frame(deeper.as_bytes(), 5)));
}

#[test]
fn datagram_reads_back() {
    let frame = br#"{"event":"url_changed","focused":true,"url":"x\"\\\n\u0001","title":null,"n":0.1}"#;
    let before: serde_json::Value = serde_json::from_slice(frame).unwrap();
    let out = forward_frame(frame, u32::MAX).unwrap().unwrap();
    let after: serde_json::Value = serde_json::from_slice(&out).unwrap();
    assert_eq!(after["browser_pid"], serde_json::Value::from(u32::MAX));
    for key in ["event", "focused", "url", "title"] {
        assert_eq!(after[key], before[key]);
    }
    assert_eq!(after.as_object().unwrap().len(), 6);
}

#[test]
fn largest_float_reads_back_as_an_object() {
    let out = forward_frame(br#"{"n":1.7976931348623157e308}"#, 1).unwrap().unwrap();
    let after: serde_json::Value = serde_json::from_slice(&out).unwrap();
    assert!(after.is_object());
}

#[test]
fn pid_injection_on_values() {
    let mut value: serde_json::Value = serde_json::from_str("{}").unwrap();
    inject_browser_pid(&mut value, 0);
    assert_eq!(value.to_string(), "{\"browser_pid\":0}");
    let mut text = serde_json::Value::from("plain");
    inject_browser_pid(&mut text, 1);
    assert_eq!(text, serde_json::Value::from("plain"));
}

#[test]
fn session_forwards_and_counts() {
    let mut session = ReceiverSession { num_browser_pid: 9, num_frames_ok: 0 };
    let frame = ReceiverEvent::Frame(Ok(Some(b"{}".to_vec())));
    match run(&mut session, frame) {
        ReceiverAction::Send(out) => assert_eq!(out, b"{\"browser_pid\":9}".to_vec()),
        other => panic!("unexpected action {:?}", other),
    }
    assert_eq!(session.num_frames_ok, 0);
    assert!(matches!(run(&mut session, ReceiverEvent::Sent { is_ok: true }), ReceiverAction::ReadFrame));
    assert_eq!(session.num_frames_ok, 1);
    assert!(matches!(run(&mut session, ReceiverEvent::Sent { is_ok: false }), ReceiverAction::ReadFrame));
    assert_eq!(session.num_frames_ok, 1);
    let empty = ReceiverEvent::Frame(Ok(Some(Vec::new())));
    assert!(matches!(run(&mut session, empty), ReceiverAction::ReadFrame));
    assert_eq!(session.num_frames_ok, 2);
}

#[test]
fn a_bad_frame_does_not_end_the_session() {
    let mut session = ReceiverSession { num_browser_pid: 9, num_frames_ok: 3 };
    let bad = ReceiverEvent::Frame(Ok(Some(b"nonsense".to_vec())));
    match run(&mut session, bad) {
        ReceiverAction::SkipFrame(ForwardError::ParseExtensionJson { cause }) => assert!(!cause.is_empty()),
        other => panic!("unexpected action {:?}", other),
    }
    assert_eq!(session.num_frames_ok, 3);
    assert!(matches!(run(&mut session, ReceiverEvent::Frame(Ok(None))), ReceiverAction::Finish));
    let broken = ReceiverEvent::Frame(Err(FrameError::ReadBody { cause: "c".to_string() }));
    match run(&mut session, broken) {
        ReceiverAction::Fail(FrameError::ReadBody { cause }) => assert_eq!(cause, "c"),
        other => panic!("unexpected action {:?}", other),
    }
}

#[test]
fn settings_are_searched_upward() {
    assert_eq!(search_config(0, true, false), SearchStep::Found);
    assert_eq!(search_config(7, true, true), SearchStep::Found);
    assert_eq!(search_config(0, false, true), SearchStep::TryParent);
    assert_eq!(search_config(6, false, true), SearchStep::TryParent);
    assert_eq!(search_config(7, false, true), SearchStep::GiveUp);
    assert_eq!(search_config(2, false, false), SearchStep::GiveUp);
}
