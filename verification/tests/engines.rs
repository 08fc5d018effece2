use munin::cli::{
    headless_answer, headless_opt, normalize_url, prompt_answer, resolve_api_key, resolve_setting, serve_log_name,
    serve_port, serve_record_name, suite_verdict,
};
use munin::driver::{
    click_script, fill_script, idle_step, idle_timeout_message, pick_option_script, state_reached, wait_timeout_message,
    wrap_script, IdleStep, NODE_SCRIPT_HEAD, OPTION_SCRIPT_HEAD,
};
use munin::slow::{
    arbitrate_prompt, arbitration_reply, clean_json_markdown, encode_screenshot, plan_prompt, plan_result, rpc_arbitration,
    rpc_reply, screenshot_data_url, trim_base_url, RpcErrorObject, RpcPlanItem,
};

#[test]
fn script_wrapping() {
    assert_eq!(wrap_script("  (() => 1)()  "), "(() => 1)()");
    assert_eq!(wrap_script("const a = 1; return a"), "(() => { const a = 1; return a })()");
    assert_eq!(wrap_script("document.title"), "(() => { try { return (document.title); } catch(e) { return null; } })()");
}

#[test]
fn wait_states() {
    assert_eq!(state_reached("visible", true, true), Ok(true));
    assert_eq!(state_reached("hidden", true, false), Ok(true));
    assert_eq!(state_reached("hidden", true, true), Ok(false));
    assert_eq!(state_reached("attached", false, false), Ok(false));
    assert_eq!(state_reached("detached", false, false), Ok(true));
    assert_eq!(state_reached("gone", false, false), Err("wait_for: unknown state 'gone'".to_string()));
    assert_eq!(
        wait_timeout_message(5000, "#a", "visible"),
        "wait_for timeout after 5000ms: selector '#a' never reached state 'visible'"
    );
    assert_eq!(idle_timeout_message(10000), "wait_for_network_idle timeout after 10000ms");
}

#[test]
fn idle_polls() {
    assert_eq!(idle_step(-1, 3, 0, 500), IdleStep::Changed);
    assert_eq!(idle_step(3, 3, 600, 500), IdleStep::Idle);
    assert_eq!(idle_step(3, 3, 100, 500), IdleStep::Quiet);
}

#[test]
fn planner_replies() {
    assert_eq!(clean_json_markdown("  ```json\n[1]\n```  "), "[1]");
    assert_eq!(clean_json_markdown("```\n[2]\n```"), "[2]");
    assert_eq!(clean_json_markdown("```json [3]"), "```json [3]");
    assert_eq!(clean_json_markdown(" [4] "), "[4]");
    assert_eq!(plan_prompt("g", "c"), "User Goal: g\nCurrent Context: c");
    assert_eq!(arbitrate_prompt("i", "d"), "Current Step Intent: i\nCandidate Elements Description:\nd");
    assert_eq!(arbitration_reply("  click:btn-submit \n"), "click:btn-submit");
    assert_eq!(trim_base_url("https://api.openai.com/v1//"), "https://api.openai.com/v1");
}

#[test]
fn screenshots_as_base64() {
    assert_eq!(encode_screenshot(b"Man"), "TWFu");
    assert_eq!(encode_screenshot(b"Ma"), "TWE=");
    assert_eq!(encode_screenshot(b"M"), "TQ==");
    assert_eq!(encode_screenshot(&[0xff, 0xfe]), "//4=");
    assert_eq!(encode_screenshot(&[0xfb, 0xff, 0xbf, 0x00]), "+/+/AA==");
    assert_eq!(encode_screenshot(b""), "");
    assert_eq!(screenshot_data_url(Some(b"Man")), Some("data:image/png;base64,TWFu".to_string()));
    assert_eq!(screenshot_data_url(Some(b"")), None);
    assert_eq!(screenshot_data_url(None), None);
}

#[test]
fn rpc_planner_replies() {
    let items = vec![
        RpcPlanItem {
            step_id: Some(1),
            intent: Some(Some("打开登录页并输入账号".to_string())),
            description: None,
            expected_outcome: Some("登录成功".to_string()),
        },
        RpcPlanItem { step_id: None, intent: None, description: Some("描述".to_string()), expected_outcome: None },
        RpcPlanItem { step_id: None, intent: Some(None), description: Some("描述".to_string()), expected_outcome: None },
    ];
    let steps = plan_result(Some(items), "[]").unwrap();
    assert_eq!(steps.len(), 3);
    assert_eq!(steps[0].intent, "打开登录页并输入账号");
    assert_eq!(steps[1].step_id, 2);
    assert_eq!(steps[1].intent, "描述");
    assert_eq!(steps[2].intent, "");
    assert_eq!(
        plan_result(None, "42").err().unwrap(),
        "Unexpected RPC plan response: expected array or {'steps': [...]}, got: 42"
    );
    assert_eq!(rpc_arbitration(None, Some("click:btn-submit".to_string()), "{}".to_string()), "click:btn-submit");
    assert_eq!(rpc_arbitration(None, None, "{\"x\":1}".to_string()), "{\"x\":1}");
    assert_eq!(
        rpc_reply(Some(RpcErrorObject { code: Some(-32601), message: Some("Method not found".to_string()) }), None),
        Err("JSON-RPC Server Error (code -32601): Method not found".to_string())
    );
    assert_eq!(
        rpc_reply(Some(RpcErrorObject { code: None, message: None }), None),
        Err("JSON-RPC Server Error (code -1): Unknown RPC error".to_string())
    );
    assert_eq!(rpc_reply(None, Some("[]".to_string())), Ok("[]".to_string()));
    assert_eq!(
        rpc_reply(None, None),
        Err("Malformed JSON-RPC response: missing 'result' field".to_string())
    );
}

#[test]
fn command_line_rules() {
    assert_eq!(normalize_url("example.com".to_string()), "https://example.com");
    assert_eq!(normalize_url("http://a".to_string()), "http://a");
    assert_eq!(headless_opt(true, false), Some(true));
    assert_eq!(headless_opt(true, true), Some(false));
    assert_eq!(headless_opt(false, false), None);
    assert_eq!(serve_port("127.0.0.1:9090"), "9090");
    assert_eq!(serve_record_name("127.0.0.1:9090"), "munin-serve-9090.json");
    assert_eq!(serve_log_name("0.0.0.0:8888"), "munin-serve-8888.log");
    assert_eq!(resolve_setting(None, Some("cfg".to_string()), "gpt-4o"), "cfg");
    assert_eq!(resolve_setting(None, None, "gpt-4o"), "gpt-4o");
    assert!(resolve_api_key(None, None).is_err());
    assert_eq!(resolve_api_key(Some("k".to_string()), Some("c".to_string())), Ok("k".to_string()));
    assert_eq!(prompt_answer(Some("  x \n"), "d"), "x");
    assert_eq!(prompt_answer(Some("   "), "d"), "d");
    assert!(headless_answer(" TRUE\n"));
    assert!(!headless_answer("yes"));
    assert!(suite_verdict(0).is_ok());
    assert_eq!(suite_verdict(2).err().unwrap(), "Scenario test suite failed: 2 step(s) failed");
}

#[test]
fn page_scripts_embed_json_strings() {
    let c = click_script("btn \"x\"");
    assert!(c.starts_with("(() => {\n    const id = \"btn \\\"x\\\"\";"));
    assert!(c.ends_with("})()"));
    assert!(c.contains("el.click();"));
    let f = fill_script("inp", "a\nb");
    assert_eq!(&f[..NODE_SCRIPT_HEAD.len()], NODE_SCRIPT_HEAD);
    assert!(f.contains("const id = \"inp\";\n    const text = \"a\\nb\";"));
    let o = pick_option_script("北京");
    assert!(o.starts_with(OPTION_SCRIPT_HEAD));
    assert!(o.contains("const label = \"北京\";"));
}
