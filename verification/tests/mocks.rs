use munin::dom::{DOMElementNode, StrMap};
use munin::mock_driver::MockDriver;
use munin::mock_engines::{MockFastEngine, MockSlowEngine};
use munin::types::{Action, BlockerClass, MacroStep, RecoveryKind};

#[test]
fn test_mock_driver_flow() {
    let mut driver = MockDriver::new();
    driver.launch(true);
    assert!(driver.is_launched());

    driver.goto("https://example.com");
    assert_eq!(driver.current_url(), "https://example.com");

    driver.add_element(DOMElementNode::new("btn-submit", "button", "Submit"));
    let elements = driver.get_interactive_elements();
    assert_eq!(elements.len(), 1);
    assert_eq!(elements[0].node_id, "btn-submit");

    driver.click("btn-submit").unwrap();
    driver.fill("input-username", "admin");

    let actions = driver.recorded_actions();
    assert_eq!(actions.len(), 3);
    assert_eq!(actions[0], Action::Navigate { url: "https://example.com".to_string() });
    assert_eq!(actions[1], Action::Click { target_id: "btn-submit".to_string() });
    assert_eq!(
        actions[2],
        Action::Fill { target_id: "input-username".to_string(), text: "admin".to_string() }
    );

    driver.set_js_result("document.title", "\"Example Domain\"");
    let title = driver.evaluate_js("return document.title;");
    assert_eq!(title, "\"Example Domain\"");

    let screenshot = driver.take_screenshot();
    assert!(!screenshot.is_empty());
}

#[test]
fn mock_driver_goto_launches() {
    let mut driver = MockDriver::new();
    assert!(!driver.is_launched());
    driver.goto("http://a.test");
    assert!(driver.is_launched());
}

#[test]
fn mock_driver_click_empty_id_fails() {
    let mut driver = MockDriver::new();
    let err = driver.click("").unwrap_err();
    assert_eq!(err, "Cannot click on empty node_id");
    assert_eq!(driver.recorded_actions().len(), 1);
    driver.add_element(DOMElementNode::new("", "button", "blank"));
    assert!(driver.click("").is_ok());
    assert!(driver.click("missing").is_ok());
    driver.clear_actions();
    assert!(driver.recorded_actions().is_empty());
}

#[test]
fn mock_driver_js_answers() {
    let mut driver = MockDriver::new();
    assert_eq!(driver.evaluate_js("1+1"), "\"mock_eval_result_for: 1+1\"");
    driver.set_default_js_result("true");
    assert_eq!(driver.evaluate_js("1+1"), "true");
    driver.set_js_result("title", "\"A\"");
    driver.set_js_result("href", "\"B\"");
    driver.set_js_result("title", "\"C\"");
    assert_eq!(driver.evaluate_js("document.title"), "\"C\"");
    assert_eq!(driver.evaluate_js("location.href + document.title"), "\"C\"");
    assert_eq!(driver.evaluate_js("location.href"), "\"B\"");
}

#[test]
fn mock_driver_screenshot() {
    let mut driver = MockDriver::new();
    assert_eq!(driver.take_screenshot(), vec![0x89, 0x50, 0x4E, 0x47, 0x0D, 0x0A, 0x1A, 0x0A]);
    driver.set_screenshot(vec![1, 2, 3]);
    assert_eq!(driver.take_screenshot(), vec![1, 2, 3]);
}

#[test]
fn test_mock_fast_engine_contract() {
    let engine = MockFastEngine::new().with_choice("node-click-me", 9600).with_probe(true, 9800);
    let mut crit = StrMap::new();
    crit.insert("node-click-me", "Button [Click Me]");
    let (chosen, conf) = engine.choice("Which button to click?", &crit);
    assert_eq!(chosen, "node-click-me");
    assert!(conf > 9000);

    let mut engine = engine;
    let (probe_ok, prob) = engine.probe("Is the form successfully submitted?");
    assert!(probe_ok);
    assert!(prob > 9000);
}

#[test]
fn mock_fast_engine_fallbacks() {
    let mut engine = MockFastEngine::new();
    let mut crit = StrMap::new();
    crit.insert("first", "a");
    crit.insert("second", "b");
    assert_eq!(engine.choice("anything", &crit), ("first".to_string(), 9000));
    assert_eq!(engine.choice("anything", &StrMap::new()), (String::new(), 9000));
    assert_eq!(engine.probe("x"), (true, 9500));
    assert_eq!(engine.score("x"), (50000, 9000));
    engine.map_choice_by_instruction("dismiss", "btn-x", 9800);
    assert_eq!(engine.choice("closes or dismisses", &crit), ("btn-x".to_string(), 9800));
    engine.map_probe_by_assertion("成功", false, 3000);
    assert_eq!(engine.probe("提交成功"), (false, 3000));
    assert!(engine.match_memory().is_none());
}

#[test]
fn mock_fast_engine_sequences() {
    let mut engine = MockFastEngine::new().with_probe_sequence(vec![(false, 2000), (true, 9500)]);
    assert_eq!(engine.probe("a"), (false, 2000));
    assert_eq!(engine.probe("a"), (true, 9500));
    assert_eq!(engine.probe("a"), (true, 9500));
    engine.set_probe_sequence(vec![(false, 1000)]);
    assert_eq!(engine.probe("a"), (false, 1000));
}

#[test]
fn mock_fast_engine_recovery_graph() {
    let mut engine = MockFastEngine::new().with_probe_sequence(vec![(false, 1000), (true, 9600)]);
    engine.set_blocked_sequence(vec![(true, 9000), (false, 9500)]);
    engine.set_recovery(RecoveryKind::Dismiss, 9100);
    let mut crit = StrMap::new();
    crit.insert("btn-a", "<button> A");
    let v = engine.recovery_graph("done", &crit);
    assert_eq!(v.achieved, (false, 1000));
    assert_eq!(v.blocked, (true, 9000));
    assert_eq!(v.blocker, (BlockerClass::Unblocked, 9500));
    assert_eq!(v.recovery, (RecoveryKind::Dismiss, 9100));
    assert_eq!(v.target, Some(("btn-a".to_string(), 9000)));
    let v2 = engine.recovery_graph("done", &StrMap::new());
    assert_eq!(v2.achieved, (true, 9600));
    assert_eq!(v2.blocked, (false, 9500));
    assert!(v2.target.is_none() && v2.recovery_target.is_none());
}

#[test]
fn mock_fast_engine_blocked_override() {
    let mut engine = MockFastEngine::new();
    engine.set_blocked(true, 8800);
    let v = engine.recovery_graph("x", &StrMap::new());
    assert_eq!(v.blocked, (true, 8800));
    assert_eq!(v.recovery, (RecoveryKind::Retry, 9000));
}

#[test]
fn test_mock_slow_engine_contract() {
    let engine = MockSlowEngine::new().with_steps(vec![
        MacroStep::new(1, "Navigate to login", "Login page loaded"),
        MacroStep::new(2, "Enter credentials", "Dashboard visible"),
    ]);
    let steps = engine.plan("Login to system");
    assert_eq!(steps.len(), 2);
    assert_eq!(steps[0].step_id, 1);
    assert_eq!(steps[1].expected_outcome, "Dashboard visible");
    assert_eq!(engine.arbitrate("Stuck on captcha"), "btn-confirm");
}

#[test]
fn mock_slow_engine_maps() {
    let mut engine = MockSlowEngine::new();
    let fallback = engine.plan("Buy milk");
    assert_eq!(fallback.len(), 1);
    assert_eq!(fallback[0].step_id, 1);
    assert_eq!(fallback[0].intent, "Buy milk");
    assert_eq!(fallback[0].expected_outcome, "Target page state achieved");
    engine.map_plan("milk", vec![MacroStep::new(7, "open shop", "shop open")]);
    assert_eq!(engine.plan("Buy milk")[0].step_id, 7);
    engine.set_default_arbitration("btn-ok");
    assert_eq!(engine.arbitrate("x"), "btn-ok");
    engine.map_arbitration("captcha", "btn-skip");
    assert_eq!(engine.arbitrate("solve captcha"), "btn-skip");
}
