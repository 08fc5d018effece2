use munin::rpc::{
    decode_request, failure, find_subsequence, next_frame, parse_content_length, response_head, response_id,
    Frame, RpcCommand, RpcParams, RpcRequest, MAX_BODY_SIZE,
};
use munin::types::MacroStep;

fn params() -> RpcParams {
    RpcParams {
        goal: None,
        url: None,
        prune: None,
        max: None,
        node_id: None,
        text: None,
        date: None,
        label: None,
        selector: None,
        state: None,
        state_json: None,
        timeout_ms: None,
        idle_ms: None,
        script: None,
        assertion: None,
        steps: None,
    }
}

fn request(method: Option<&str>, p: RpcParams) -> RpcRequest {
    RpcRequest { id: Some("10".to_string()), method: method.map(|m| m.to_string()), params: p }
}

#[test]
fn subsequence_search() {
    assert_eq!(find_subsequence(b"abc\r\n\r\nxyz", b"\r\n\r\n"), Some(3));
    assert_eq!(find_subsequence(b"abc", b"\r\n\r\n"), None);
    assert_eq!(find_subsequence(b"aaa", b"aa"), Some(0));
}

#[test]
fn content_length_reading() {
    assert_eq!(parse_content_length("POST / HTTP/1.1\r\nContent-Length: 42\r\nHost: x"), Some(42));
    assert_eq!(parse_content_length("POST / HTTP/1.1\r\ncontent-LENGTH:+7"), Some(7));
    assert_eq!(parse_content_length("POST / HTTP/1.1\r\nContent-Length: -1"), None);
    assert_eq!(parse_content_length("POST / HTTP/1.1\r\nContent-Length: abc\r\nContent-Length: 5"), None);
    assert_eq!(parse_content_length("POST / HTTP/1.1\r\nHost: x"), None);
    assert_eq!(parse_content_length("Content-Length: 99999999999999999999999"), None);
}

#[test]
fn framing_decisions() {
    assert_eq!(next_frame(b"POST / HTTP/1.1\r\nContent-Length: 2\r\n"), Frame::Incomplete);
    assert_eq!(next_frame(b"POST / HTTP/1.1\r\n\r\n{}"), Frame::LengthRequired);
    assert_eq!(next_frame(b"POST / HTTP/1.1\r\nContent-Length: 99999999\r\n\r\n"), Frame::TooLarge);
    assert_eq!(next_frame(b"POST / HTTP/1.1\r\nContent-Length: 4\r\n\r\n{}"), Frame::Incomplete);
    let buf = b"POST / HTTP/1.1\r\nContent-Length: 2\r\n\r\n{}extra";
    assert_eq!(next_frame(buf), Frame::Ready { body_start: 38, body_end: 40 });
    assert_eq!(&buf[38..40], b"{}");
    assert_eq!(MAX_BODY_SIZE, 16 * 1024 * 1024);
}

#[test]
fn response_heads() {
    assert_eq!(
        response_head("200 OK", 17, true),
        "HTTP/1.1 200 OK\r\nContent-Type: application/json\r\nContent-Length: 17\r\nConnection: keep-alive\r\n\r\n"
    );
    assert_eq!(
        response_head("411 Length Required", 0, false),
        "HTTP/1.1 411 Length Required\r\nContent-Type: application/json\r\nContent-Length: 0\r\nConnection: close\r\n\r\n"
    );
}

#[test]
fn error_codes() {
    assert_eq!(failure("Method 'x' not found".to_string()).code, -32601);
    assert_eq!(failure("driver broke".to_string()).code, -32000);
}

#[test]
fn decode_methods() {
    let e = decode_request(request(None, params())).err().unwrap();
    assert_eq!(e.code, -32600);
    assert_eq!(e.message, "Invalid Request: missing method");

    assert!(matches!(decode_request(request(Some("ping"), params())), Ok(RpcCommand::Ping)));

    let e = decode_request(request(Some("navigate"), params())).err().unwrap();
    assert_eq!(e.code, -32000);
    assert_eq!(e.message, "Missing 'url' parameter in navigate");

    let mut p = params();
    p.url = Some("http://test.local".to_string());
    match decode_request(request(Some("navigate"), p)) {
        Ok(RpcCommand::Navigate { url }) => assert_eq!(url, "http://test.local"),
        _ => panic!("navigate expected"),
    }

    match decode_request(request(Some("get_action_map"), params())) {
        Ok(RpcCommand::GetActionMap { goal, max }) => {
            assert_eq!(goal, "");
            assert_eq!(max, 30);
        }
        _ => panic!("action map expected"),
    }

    let mut p = params();
    p.selector = Some("#a".to_string());
    match decode_request(request(Some("wait_for"), p)) {
        Ok(RpcCommand::WaitFor { selector, state, timeout_ms }) => {
            assert_eq!(selector, "#a");
            assert_eq!(state, "visible");
            assert_eq!(timeout_ms, 5000);
        }
        _ => panic!("wait_for expected"),
    }

    match decode_request(request(Some("wait_for_network_idle"), params())) {
        Ok(RpcCommand::WaitForNetworkIdle { timeout_ms, idle_ms }) => {
            assert_eq!((timeout_ms, idle_ms), (10000, 500));
        }
        _ => panic!("idle expected"),
    }

    let mut p = params();
    p.node_id = Some("n".to_string());
    let e = decode_request(request(Some("select_option"), p)).err().unwrap();
    assert_eq!(e.message, "Missing 'node_id' or 'label' in select_dropdown params");

    match decode_request(request(Some("probe"), params())) {
        Ok(RpcCommand::Probe { assertion, state }) => {
            assert_eq!(assertion, "");
            assert_eq!(state, "{}");
        }
        _ => panic!("probe expected"),
    }

    let e = decode_request(request(Some("unknown_foo"), params())).err().unwrap();
    assert_eq!(e.code, -32601);
    assert_eq!(e.message, "Method 'unknown_foo' not found");
}

#[test]
fn decode_steps() {
    let e = decode_request(request(Some("execute_steps"), params())).err().unwrap();
    assert_eq!(e.code, -32602);
    assert_eq!(e.message, "Missing 'steps' array in execute_steps");

    let mut p = params();
    p.steps = Some(vec![Ok(MacroStep::new(1, "点击提交按钮", "提交成功")), Err("missing field `intent`".to_string())]);
    let e = decode_request(request(Some("execute_steps"), p)).err().unwrap();
    assert_eq!(e.code, -32602);
    assert_eq!(e.message, "Invalid step: missing field `intent`");

    let mut p = params();
    p.steps = Some(vec![Ok(MacroStep::new(1, "点击提交按钮", "提交成功"))]);
    match decode_request(request(Some("execute_steps"), p)) {
        Ok(RpcCommand::ExecuteSteps { steps }) => {
            assert_eq!(steps.len(), 1);
            assert_eq!(steps[0].step_id, 1);
        }
        _ => panic!("steps expected"),
    }
}

#[test]
fn ids_default_to_null() {
    let r = RpcRequest { id: None, method: None, params: params() };
    assert_eq!(response_id(&r), "null");
    assert_eq!(response_id(&request(None, params())), "10");
}
