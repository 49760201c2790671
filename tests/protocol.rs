use calcurust::calc::{add, calculate, divide, multiply, subtract, CalcError};
use calcurust::auth::sign_msg_parts;
use calcurust::codec::{encode_msg, parse_msg, CodecError};
use calcurust::json::decimal_bytes;
use calcurust::config::{make_address, scheme_supported, ConnectInfo};
use calcurust::kernel::{dispatch_shell_msg, kernel_info, Channel, KernelState};
use calcurust::server::{handle_frames, ready_order, Input};
use calcurust::message::{Message, MsgHeader};

const KEY: &str = "abc123";

fn header(msg_type: &str, session: &str, id: &str) -> MsgHeader {
    MsgHeader {
        msg_id: id.to_string(),
        username: "user".to_string(),
        session: session.to_string(),
        date: None,
        msg_type: msg_type.to_string(),
        version: "5.0".to_string(),
    }
}

fn request(msg_type: &str, content: &str) -> Message {
    Message {
        identities: vec![b"client-1".to_vec(), b"route".to_vec()],
        header: header(msg_type, "S1", "req-1"),
        parent_header: None,
        metadata: b"{}".to_vec(),
        content: content.as_bytes().to_vec(),
    }
}

fn received(msg_type: &str, content: &str) -> Message {
    parse_msg(encode_msg(&request(msg_type, content), KEY), KEY).expect("request decodes")
}

fn json(b: &[u8]) -> serde_json::Value {
    serde_json::from_slice(b).expect("valid JSON")
}

fn status_of(m: &Message) -> String {
    json(&m.content)["execution_state"].as_str().unwrap().to_string()
}

#[test]
fn execute_request_adds_numbers() {
    let msg = received("execute_request", r#"{"code": "3 4 +"}"#);
    assert_eq!(msg.header.session, "S1");
    let mut state = KernelState::new();
    let d = dispatch_shell_msg(&msg, &mut state);
    assert!(!d.shutdown);
    assert_eq!(d.outgoing.len(), 4);
    let result = &d.outgoing[1];
    assert_eq!(result.channel, Channel::Iopub);
    assert_eq!(result.msg.header.msg_type, "execute_result");
    let c = json(&result.msg.content);
    assert_eq!(c["data"]["text/plain"], "7");
    assert_eq!(c["execution_count"], 1);
    assert_eq!(c["metadata"], serde_json::Value::Object(serde_json::Map::new()));
    let reply = &d.outgoing[2];
    assert_eq!(reply.channel, Channel::Shell);
    assert_eq!(reply.msg.header.msg_type, "execute_reply");
    let c = json(&reply.msg.content);
    assert_eq!(c["status"], "ok");
    assert_eq!(c["execution_count"], 1);
    assert_eq!(state.exec_count, 1);
    assert_eq!(state.stack, vec![7]);
}

#[test]
fn kernel_info_request_answered() {
    let msg = received("kernel_info_request", "{}");
    let mut state = KernelState::new();
    let d = dispatch_shell_msg(&msg, &mut state);
    assert_eq!(d.outgoing.len(), 3);
    let reply = &d.outgoing[1];
    assert_eq!(reply.channel, Channel::Shell);
    assert_eq!(reply.msg.header.msg_type, "kernel_info_reply");
    assert_eq!(reply.msg.parent_header.as_ref().unwrap().msg_id, "req-1");
    let c = json(&reply.msg.content);
    assert_eq!(c["implementation"], "calcurust");
    assert_eq!(c["protocol_version"], "5.0");
    assert_eq!(c["language_info"]["name"], "RPN");
    assert_eq!(state.exec_count, 0);
}

#[test]
fn tampered_signature_is_dropped() {
    let mut frames = encode_msg(&request("execute_request", r#"{"code":"1"}"#), KEY);
    let sig = 3;
    frames[sig][0] = if frames[sig][0] == b'0' { b'1' } else { b'0' };
    assert_eq!(parse_msg(frames, KEY).err(), Some(CodecError::Authentication));
    let next = received("kernel_info_request", "{}");
    let mut state = KernelState::new();
    let d = dispatch_shell_msg(&next, &mut state);
    assert_eq!(d.outgoing.len(), 3);
}

#[test]
fn shutdown_request_stops() {
    let msg = received("shutdown_request", r#"{"restart": false}"#);
    let mut state = KernelState::new();
    let d = dispatch_shell_msg(&msg, &mut state);
    assert!(d.shutdown);
    assert_eq!(d.outgoing.len(), 2);
    assert_eq!(status_of(&d.outgoing[0].msg), "busy");
    assert_eq!(status_of(&d.outgoing[1].msg), "idle");
}

#[test]
fn round_trip_keeps_message() {
    let mut m = request("execute_request", r#"{"code":"1 2 *","silent":false}"#);
    m.header.date = Some("2024-01-02T03:04:05.000006+00:00".to_string());
    m.parent_header = Some(header("other", "S0", "p-9"));
    m.metadata = br#"{"k":[1,2]}"#.to_vec();
    let back = parse_msg(encode_msg(&m, KEY), KEY).unwrap();
    assert_eq!(back.identities, m.identities);
    assert_eq!(back.header.msg_id, "req-1");
    assert_eq!(back.header.username, "user");
    assert_eq!(back.header.session, "S1");
    assert_eq!(back.header.date, m.header.date);
    assert_eq!(back.header.msg_type, "execute_request");
    assert_eq!(back.header.version, "5.0");
    assert!(back.parent_header.is_none());
    assert_eq!(back.metadata, m.metadata);
    assert_eq!(back.content, m.content);
}

#[test]
fn round_trip_with_escapes_and_no_identities() {
    let mut m = request("execute_request", r#"{"code":"\"q\" \\ é"}"#);
    m.identities = vec![];
    m.header.session = "sess \"quoted\" \n é".to_string();
    let back = parse_msg(encode_msg(&m, KEY), KEY).unwrap();
    assert!(back.identities.is_empty());
    assert_eq!(back.header.session, m.header.session);
}

#[test]
fn any_flipped_byte_fails_authentication() {
    let frames = encode_msg(&request("execute_request", r#"{"code":"5"}"#), KEY);
    for f in 4..8 {
        for pos in 0..frames[f].len() {
            let mut t = frames.clone();
            t[f][pos] ^= 0x01;
            assert_eq!(parse_msg(t, KEY).err(), Some(CodecError::Authentication), "frame {} byte {}", f, pos);
        }
    }
    for pos in 0..frames[3].len() {
        let mut t = frames.clone();
        let c = t[3][pos];
        t[3][pos] = if c == b'a' { b'b' } else { b'a' };
        assert_eq!(parse_msg(t, KEY).err(), Some(CodecError::Authentication));
        if c.is_ascii_lowercase() {
            let mut t = frames.clone();
            t[3][pos] = c.to_ascii_uppercase();
            assert_eq!(parse_msg(t, KEY).err(), Some(CodecError::Authentication), "case of byte {}", pos);
        }
    }
    assert_eq!(parse_msg(frames, "other").err(), Some(CodecError::Authentication));
}

#[test]
fn malformed_frames_are_refused() {
    let frames = encode_msg(&request("execute_request", "{}"), KEY);
    let no_delim: Vec<Vec<u8>> = frames.iter().filter(|f| f.as_slice() != b"<IDS|MSG>").cloned().collect();
    assert_eq!(parse_msg(no_delim, KEY).err(), Some(CodecError::Malformed));
    let mut short = frames.clone();
    short.pop();
    assert_eq!(parse_msg(short, KEY).err(), Some(CodecError::Malformed));
    let mut bad_hex = frames.clone();
    bad_hex[3][0] = b'z';
    assert_eq!(parse_msg(bad_hex, KEY).err(), Some(CodecError::Malformed));
    let mut short_sig = frames.clone();
    short_sig[3].truncate(62);
    assert_eq!(parse_msg(short_sig, KEY).err(), Some(CodecError::Malformed));
    let mut upper = frames.clone();
    upper[3] = upper[3].to_ascii_uppercase();
    assert_eq!(parse_msg(upper, KEY).err(), Some(CodecError::Authentication));
    let mut spaced = frames.clone();
    spaced[3].insert(2, b' ');
    assert_eq!(parse_msg(spaced, KEY).err(), Some(CodecError::Malformed));
    let mut long_sig = frames.clone();
    long_sig[3].extend_from_slice(b"00");
    assert_eq!(parse_msg(long_sig, KEY).err(), Some(CodecError::Malformed));
}

#[test]
fn bad_json_is_malformed_after_authentication() {
    let mut m = request("execute_request", "{}");
    m.content = b"{not json".to_vec();
    assert_eq!(parse_msg(encode_msg(&m, KEY), KEY).err(), Some(CodecError::Malformed));
}

#[test]
fn encoded_frames_layout() {
    let m = request("kernel_info_request", "{}");
    let frames = encode_msg(&m, KEY);
    assert_eq!(frames.len(), 8);
    assert_eq!(frames[0], b"client-1".to_vec());
    assert_eq!(frames[2], b"<IDS|MSG>".to_vec());
    assert_eq!(
        frames[4],
        br#"{"msg_id":"req-1","username":"user","session":"S1","date":null,"msg_type":"kernel_info_request","version":"5.0"}"#.to_vec()
    );
    assert_eq!(frames[5], b"null".to_vec());
    let expected = sign_msg_parts(KEY, &frames[4..8]);
    let hex: String = expected.iter().map(|b| format!("{:02x}", b)).collect();
    assert_eq!(frames[3], hex.into_bytes());
}

#[test]
fn hmac_known_values() {
    let parts = vec![b"{}".to_vec(), b"null".to_vec(), b"{}".to_vec(), b"{}".to_vec()];
    let hex: String = sign_msg_parts("abc123", &parts).iter().map(|b| format!("{:02x}", b)).collect();
    assert_eq!(hex, "8702787b5146cbf1c27c83d2fae0847118187739b99c9219027c40a204f68f06");
    let parts = vec![b"The quick brown fox ".to_vec(), b"jumps over the lazy dog".to_vec()];
    let hex: String = sign_msg_parts("key", &parts).iter().map(|b| format!("{:02x}", b)).collect();
    assert_eq!(hex, "f7bc83f430538424b13298e6aa6fb143ef4d59a14946175997479dbc2d1a3cd8");
}

#[test]
fn replies_keep_identities_and_session() {
    for (t, c) in [("execute_request", r#"{"code":"2 3 *"}"#), ("kernel_info_request", "{}"), ("comm_open", "{}"), ("shutdown_request", "{}")] {
        let msg = received(t, c);
        let mut state = KernelState::new();
        let d = dispatch_shell_msg(&msg, &mut state);
        for o in &d.outgoing {
            assert_eq!(o.msg.identities, msg.identities);
            assert_eq!(o.msg.header.session, "S1");
            assert_eq!(o.msg.parent_header.as_ref().unwrap().msg_id, "req-1");
            assert_eq!(o.msg.metadata, b"{}".to_vec());
            assert_ne!(o.msg.header.msg_id, "req-1");
        }
    }
}

#[test]
fn counter_counts_every_execute_request() {
    let mut state = KernelState::new();
    for c in [r#"{"code":"1 2 +"}"#, r#"{"no_code":1}"#, r#"{"code":"1 +"}"#, r#"{"code":""}"#] {
        let msg = received("execute_request", c);
        dispatch_shell_msg(&msg, &mut state);
    }
    let other = received("kernel_info_request", "{}");
    dispatch_shell_msg(&other, &mut state);
    assert_eq!(state.exec_count, 4);
}

#[test]
fn statuses_bracket_each_request() {
    let mut state = KernelState::new();
    for (t, c) in [("execute_request", r#"{"code":"9"}"#), ("kernel_info_request", "{}"), ("unknown", "{}")] {
        let msg = received(t, c);
        let d = dispatch_shell_msg(&msg, &mut state);
        let n = d.outgoing.len();
        assert_eq!(status_of(&d.outgoing[0].msg), "busy");
        assert_eq!(status_of(&d.outgoing[n - 1].msg), "idle");
        assert_eq!(d.outgoing[0].channel, Channel::Iopub);
        assert_eq!(d.outgoing[n - 1].channel, Channel::Iopub);
        for o in &d.outgoing[1..n - 1] {
            assert_ne!(o.msg.header.msg_type, "status");
        }
    }
}

#[test]
fn missing_code_sends_no_reply() {
    let msg = received("execute_request", r#"{"text":"1"}"#);
    let mut state = KernelState::new();
    let d = dispatch_shell_msg(&msg, &mut state);
    assert_eq!(d.outgoing.len(), 2);
    assert_eq!(state.exec_count, 1);
}

#[test]
fn empty_stack_sends_no_reply() {
    let msg = received("execute_request", r#"{"code":"  "}"#);
    let mut state = KernelState::new();
    let d = dispatch_shell_msg(&msg, &mut state);
    assert_eq!(d.outgoing.len(), 2);
}

#[test]
fn evaluation_error_gets_error_reply() {
    let msg = received("execute_request", r#"{"code":"4 0 /"}"#);
    let mut state = KernelState::new();
    let d = dispatch_shell_msg(&msg, &mut state);
    assert_eq!(d.outgoing.len(), 3);
    let reply = &d.outgoing[1];
    assert_eq!(reply.channel, Channel::Shell);
    let c = json(&reply.msg.content);
    assert_eq!(c["status"], "error");
    assert_eq!(c["ename"], "DivisionByZero");
    assert_eq!(c["execution_count"], 1);
    assert_eq!(state.stack, vec![4, 0]);
}

#[test]
fn stack_persists_between_requests() {
    let mut state = KernelState::new();
    dispatch_shell_msg(&received("execute_request", r#"{"code":"10"}"#), &mut state);
    let d = dispatch_shell_msg(&received("execute_request", r#"{"code":"3 -"}"#), &mut state);
    let c = json(&d.outgoing[1].msg.content);
    assert_eq!(c["data"]["text/plain"], "7");
    assert_eq!(c["execution_count"], 2);
}

#[test]
fn kernel_info_reply_content() {
    let msg = request("kernel_info_request", "{}");
    let r = kernel_info(&msg);
    assert_eq!(r.header.msg_type, "kernel_info_reply");
    assert_eq!(r.header.version, "5.0");
    assert_eq!(r.header.username, "");
    assert!(r.header.date.is_some());
    assert_eq!(r.header.msg_id.len(), 36);
    let c = json(&r.content);
    assert_eq!(c["banner"], "Reverse polish notation calculator");
    assert_eq!(c["language_info"]["file_extension"], ".txt");
}

#[test]
fn status_message_content() {
    let msg = request("kernel_info_request", "{}");
    let s = Message::status("busy", &msg);
    assert_eq!(s.content, br#"{"execution_state":"busy"}"#.to_vec());
    assert_eq!(s.header.msg_type, "status");
}

#[test]
fn header_json_round_trip() {
    let h = header("execute_request", "S\"1", "id");
    let text = h.to_json();
    let back = MsgHeader::from_json(&text).unwrap();
    assert_eq!(back.session, "S\"1");
    assert!(MsgHeader::from_json(br#"{"msg_id":"a","username":"b","session":"c","msg_type":"d"}"#).is_none());
    let dated = MsgHeader::from_json(br#"{"msg_id":"a","username":"b","session":"c","date":"2020","msg_type":"d","version":"5.0"}"#).unwrap();
    assert_eq!(dated.date, Some("2020".to_string()));
}

#[test]
fn operators() {
    let mut s = vec![7, 3];
    add(&mut s).unwrap();
    assert_eq!(s, vec![10]);
    let mut s = vec![7, 3];
    subtract(&mut s).unwrap();
    assert_eq!(s, vec![4]);
    let mut s = vec![7, 3];
    multiply(&mut s).unwrap();
    assert_eq!(s, vec![21]);
    let mut s = vec![-7, 2];
    divide(&mut s).unwrap();
    assert_eq!(s, vec![-3]);
}

#[test]
fn operator_errors_leave_stack() {
    let mut s = vec![1];
    assert_eq!(add(&mut s), Err(CalcError::StackUnderflow));
    assert_eq!(s, vec![1]);
    let mut s = vec![1, 0];
    assert_eq!(divide(&mut s), Err(CalcError::DivisionByZero));
    assert_eq!(s, vec![1, 0]);
    let mut s = vec![i32::MAX, 1];
    assert_eq!(add(&mut s), Err(CalcError::Overflow));
    let mut s = vec![i32::MIN, -1];
    assert_eq!(divide(&mut s), Err(CalcError::Overflow));
}

#[test]
fn calculate_lines() {
    let mut s = Vec::new();
    assert_eq!(calculate(&mut s, " 3 4 + 2 *\n"), Ok(()));
    assert_eq!(s, vec![14]);
    let mut s = Vec::new();
    assert_eq!(calculate(&mut s, "-2147483648 +5 +"), Ok(()));
    assert_eq!(s, vec![i32::MIN + 5]);
    let mut s = Vec::new();
    assert_eq!(calculate(&mut s, "1 2147483648"), Err(CalcError::InvalidToken));
    assert_eq!(s, vec![1]);
    let mut s = Vec::new();
    assert_eq!(calculate(&mut s, "1 x 2"), Err(CalcError::InvalidToken));
    assert_eq!(s, vec![1]);
    let mut s = Vec::new();
    assert_eq!(calculate(&mut s, "007 -"), Err(CalcError::StackUnderflow));
    assert_eq!(s, vec![7]);
}

#[test]
fn address_and_scheme() {
    let ci = ConnectInfo {
        ip: "127.0.0.1".to_string(),
        transport: "tcp".to_string(),
        key: KEY.to_string(),
        signature_scheme: "hmac-sha256".to_string(),
        kernel_name: "calc".to_string(),
        stdin_port: 1,
        hb_port: 2,
        control_port: 3,
        shell_port: 5555,
        iopub_port: 5,
    };
    assert_eq!(make_address(&ci, ci.shell_port), b"tcp://127.0.0.1:5555".to_vec());
    assert!(scheme_supported(&ci));
    let other = ConnectInfo { signature_scheme: "hmac-md5".to_string(), ..ci };
    assert!(!scheme_supported(&other));
}

#[test]
fn loop_step_answers_and_drops() {
    let mut state = KernelState::new();
    let frames = encode_msg(&request("execute_request", r#"{"code":"6 7 *"}"#), KEY);
    let step = handle_frames(frames, Channel::Control, KEY, &mut state);
    assert!(step.rejected.is_none());
    assert!(!step.shutdown);
    assert_eq!(step.sends.len(), 4);
    let channels: Vec<Channel> = step.sends.iter().map(|s| s.channel).collect();
    assert_eq!(channels, vec![Channel::Iopub, Channel::Iopub, Channel::Control, Channel::Iopub]);
    let result = parse_msg(step.sends[1].frames.clone(), KEY).unwrap();
    assert_eq!(json(&result.content)["data"]["text/plain"], "42");
    assert_eq!(result.identities, vec![b"client-1".to_vec(), b"route".to_vec()]);

    let mut tampered = encode_msg(&request("execute_request", r#"{"code":"1"}"#), KEY);
    tampered[4][3] ^= 0x20;
    let step = handle_frames(tampered, Channel::Shell, KEY, &mut state);
    assert_eq!(step.rejected, Some(CodecError::Authentication));
    assert!(step.sends.is_empty());
    assert_eq!(state.exec_count, 1);

    let bye = encode_msg(&request("shutdown_request", "{}"), KEY);
    let step = handle_frames(bye, Channel::Control, KEY, &mut state);
    assert!(step.shutdown);
    assert_eq!(step.sends.len(), 2);
}

#[test]
fn ready_channels_served_in_fixed_order() {
    assert_eq!(ready_order(true, true, true), vec![Input::Shell, Input::Control, Input::Heartbeat]);
    assert_eq!(ready_order(false, true, true), vec![Input::Control, Input::Heartbeat]);
    assert_eq!(ready_order(true, false, true), vec![Input::Shell, Input::Heartbeat]);
    assert!(ready_order(false, false, false).is_empty());
}

#[test]
fn decimal_text_of_integers() {
    assert_eq!(decimal_bytes(0), b"0".to_vec());
    assert_eq!(decimal_bytes(1234), b"1234".to_vec());
    assert_eq!(decimal_bytes(-7), b"-7".to_vec());
    assert_eq!(decimal_bytes(i128::MIN), i128::MIN.to_string().into_bytes());
    assert_eq!(decimal_bytes(i128::MAX), i128::MAX.to_string().into_bytes());
}

#[test]
fn fresh_ids_are_hyphenated_v4() {
    let h = MsgHeader::new("status", "S1");
    let id = h.msg_id.as_bytes();
    assert_eq!(id.len(), 36);
    for i in [8, 13, 18, 23] {
        assert_eq!(id[i], b'-');
    }
    assert_eq!(id[14], b'4');
    assert_ne!(MsgHeader::new("status", "S1").msg_id, h.msg_id);
}

#[test]
fn status_text_is_escaped() {
    let msg = request("kernel_info_request", "{}");
    let s = Message::status("a\"\\\u{1}\n\u{7f}é", &msg);
    assert_eq!(s.content, "{\"execution_state\":\"a\\\"\\\\\\u0001\\n\u{7f}é\"}".as_bytes().to_vec());
}
