use munin::dom::{DOMElementNode, StrMap};
use munin::scenario::{
    build_report, check_title, check_url, default_version, initial_navigation, interpolate, locate, plan_action,
    resolve_url, step_actions, wait_timeout, ActionPlan, FillAction, Scenario, ScenarioAction, ScenarioStep,
    StepResult,
};

fn step(name: &str, actions: Vec<ScenarioAction>) -> ScenarioStep {
    ScenarioStep {
        name: name.to_string(),
        actions,
        navigate: None,
        click: None,
        fill: None,
        wait_for: None,
        assert_text: None,
        assert_exists: None,
        sleep_ms: None,
    }
}

#[test]
fn scenario_defaults_and_first_navigation() {
    assert_eq!(default_version(), "1.0");
    let s = Scenario {
        version: "1.0".to_string(),
        name: "Universal Browser Script Test".to_string(),
        description: None,
        base_url: Some("https://example.com".to_string()),
        variables: StrMap::new(),
        steps: vec![step("Click Submit", vec![ScenarioAction::Click { click: "Submit".to_string() }])],
    };
    assert_eq!(initial_navigation(&s), Some("https://example.com"));
    let mut s2 = s.clone();
    s2.steps[0].navigate = Some("/login".to_string());
    assert_eq!(initial_navigation(&s2), None);
}

#[test]
fn step_actions_append_shortcuts() {
    let mut st = step("s", vec![ScenarioAction::Click { click: "A".to_string() }]);
    st.navigate = Some("/home".to_string());
    st.fill = Some(FillAction { target: "user".to_string(), value: "admin".to_string() });
    st.sleep_ms = Some(10);
    let acts = step_actions(&st).unwrap();
    assert_eq!(acts.len(), 4);
    assert!(matches!(&acts[0], ScenarioAction::Click { click } if click == "A"));
    assert!(matches!(&acts[1], ScenarioAction::Navigate { navigate } if navigate == "/home"));
    assert!(matches!(&acts[2], ScenarioAction::Fill { fill } if fill.value == "admin"));
    assert!(matches!(&acts[3], ScenarioAction::Sleep { sleep: 10 }));
    let empty = step("空步骤", vec![]);
    assert_eq!(step_actions(&empty).err().unwrap(), "步骤 '空步骤' 未定义任何动作");
}

#[test]
fn interpolation_and_urls() {
    let mut vars = StrMap::new();
    vars.insert("user", "admin");
    assert_eq!(
        interpolate("${base_url}/login?u=${user}", &vars, Some("https://x.test/")),
        "https://x.test/login?u=admin"
    );
    assert_eq!(interpolate("${missing}", &vars, None), "${missing}");
    assert_eq!(resolve_url("/a".to_string(), Some("https://x.test//")), "https://x.test/a");
    assert_eq!(resolve_url("b".to_string(), Some("https://x.test")), "b");
    assert_eq!(resolve_url("/a".to_string(), None), "/a");
}

#[test]
fn node_location_order() {
    let es = vec![
        DOMElementNode::new("n1", "input", "").with_attribute("placeholder", "Search here"),
        DOMElementNode::new("n2", "button", "  Submit  "),
        DOMElementNode::new("n3", "button", "Submit order"),
    ];
    assert_eq!(locate(&es, "n3"), Some(2));
    assert_eq!(locate(&es, " Submit "), Some(1));
    assert_eq!(locate(&es, "Search here"), Some(0));
    assert_eq!(locate(&es, "order"), Some(2));
    assert_eq!(locate(&es, "here"), Some(0));
    assert_eq!(locate(&es, "nothing"), None);
}

#[test]
fn action_plans() {
    let vars = StrMap::new();
    match plan_action(&ScenarioAction::Navigate { navigate: "/p".to_string() }, &vars, Some("https://e.com/")) {
        ActionPlan::Goto { url } => assert_eq!(url, "https://e.com/p"),
        _ => panic!("goto expected"),
    }
    match plan_action(&ScenarioAction::AssertExists { assert_exists: ".container".to_string() }, &vars, None) {
        ActionPlan::Eventually { script, failure } => {
            assert_eq!(script, "document.querySelector(\".container\") !== null");
            assert_eq!(failure, "断言失败：未检索到符合选择器的 DOM 元素 '.container'");
        }
        _ => panic!("eventually expected"),
    }
    match plan_action(&ScenarioAction::PressKey { press_key: "Enter".to_string() }, &vars, None) {
        ActionPlan::Script { script } => assert_eq!(
            script,
            "document.activeElement.dispatchEvent(new KeyboardEvent('keydown', { key: \"Enter\", bubbles: true }))"
        ),
        _ => panic!("script expected"),
    }
    match plan_action(&ScenarioAction::Screenshot { screenshot: None }, &vars, None) {
        ActionPlan::Screenshot { path } => assert_eq!(path, "target/screenshot.png"),
        _ => panic!("screenshot expected"),
    }
    assert!(matches!(plan_action(&ScenarioAction::BustOverlays { bust_overlays: true }, &vars, None), ActionPlan::Pause { ms: 50 }));
}

#[test]
fn assertion_checks() {
    assert!(check_title("Example Domain", "Example").is_ok());
    assert_eq!(
        check_title("Home", "Login").err().unwrap(),
        "断言失败：页面标题 'Home' 未包含预期文本 'Login'"
    );
    assert!(check_url("https://a.test/x", "/x").is_ok());
    assert_eq!(wait_timeout("btn"), "等待超时：未能等到目标出现 'btn'");
}

#[test]
fn reports_count_steps() {
    let results = vec![
        StepResult { step_name: "a".to_string(), success: true, elapsed_ms: 5, error: None },
        StepResult { step_name: "b".to_string(), success: false, elapsed_ms: 7, error: Some("x".to_string()) },
        StepResult { step_name: "c".to_string(), success: true, elapsed_ms: 1, error: None },
    ];
    let r = build_report("Universal Browser Script Test".to_string(), results, 13);
    assert_eq!(r.total_steps, 3);
    assert_eq!(r.passed_steps, 2);
    assert_eq!(r.failed_steps, 1);
}
