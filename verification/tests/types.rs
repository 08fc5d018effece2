use munin::config::MuninConfig;
use munin::dom::{DOMElementNode, StrMap};
use munin::types::{Action, BlockerClass, FastDecision, MacroStep, MemoryEntry, RecoveryKind};

#[test]
fn test_dom_node_basics() {
    let node = DOMElementNode::new("btn-1", "button", "Submit")
        .with_attribute("role", "button")
        .with_attribute("type", "submit");

    assert_eq!(node.node_id, "btn-1");
    assert!(node.is_clickable());
    assert!(!node.is_input());
    assert_eq!(node.semantic_summary(), "<button> Submit");
}

#[test]
fn test_default_config() {
    let cfg = MuninConfig::default();
    assert_eq!(cfg.fast_engine.provider, "laya");
    assert_eq!(cfg.fast_engine.endpoint, "http://127.0.0.1:8000");
    assert_eq!(cfg.fast_engine.confidence_threshold, 8500);
    assert_eq!(cfg.slow_engine.provider, "rpc");
    assert_eq!(cfg.slow_engine.endpoint, "http://127.0.0.1:50051");
    assert!(cfg.rpc_server.enabled);
    assert_eq!(cfg.rpc_server.listen, "127.0.0.1:9090");
}

#[test]
fn test_fast_decision_variants() {
    let c = FastDecision::Choice { target_key: "node-42".to_string(), confidence: 9500 };
    let p = FastDecision::Probe { result: true, probability: 9200 };
    let s = FastDecision::Score { score: 45000, confidence: 8800 };
    assert!(matches!(c, FastDecision::Choice { .. }));
    assert!(matches!(p, FastDecision::Probe { .. }));
    assert!(matches!(s, FastDecision::Score { .. }));
}

#[test]
fn attribute_insert_replaces_in_place() {
    let mut m = StrMap::new();
    m.insert("a", "1");
    m.insert("b", "2");
    m.insert("a", "3");
    assert_eq!(m.len(), 2);
    assert_eq!(m.get("a"), Some("3"));
    assert_eq!(m.entry(0), ("a", "3"));
    assert_eq!(m.get("c"), None);
}

#[test]
fn node_input_and_clickable_rules() {
    let input = DOMElementNode::new("i", "INPUT", "");
    assert!(input.is_input());
    let link = DOMElementNode::new("l", "span", "x").with_attribute("role", "button");
    assert!(link.is_clickable());
    let plain = DOMElementNode::new("d", "div", "text");
    assert!(!plain.is_clickable());
    assert_eq!(plain.get_attribute("role"), None);
}

#[test]
fn blocker_and_recovery_catalogues() {
    assert_eq!(BlockerClass::all().len(), 7);
    assert_eq!(RecoveryKind::all().len(), 7);
    assert_eq!(BlockerClass::from_key("captcha"), BlockerClass::Captcha);
    assert_eq!(BlockerClass::from_key("unknown"), BlockerClass::Unblocked);
    assert_eq!(RecoveryKind::from_key("dismiss"), RecoveryKind::Dismiss);
    assert_eq!(RecoveryKind::from_key("unknown"), RecoveryKind::Escalate);
}

#[test]
fn memory_entry_rates() {
    let e = MemoryEntry {
        applicable_desc: "a".to_string(),
        inapplicable_desc: "b".to_string(),
        recovery: RecoveryKind::Retry,
        target: "page".to_string(),
        success_count: 2,
        failure_count: 1,
    };
    assert_eq!(e.success_rate(), 6666);
    assert!(e.reliable());
}

#[test]
fn macro_step_builders() {
    let s = MacroStep::new(3, "click", "done").with_assertion_type("dom").with_threshold(7000);
    assert_eq!(s.step_id, 3);
    assert_eq!(s.assertion_type.as_deref(), Some("dom"));
    assert_eq!(s.threshold, Some(7000));
    let d = s.duplicate();
    assert_eq!(d.intent, "click");
    assert_eq!(d.expected_outcome, "done");
}

#[test]
fn action_duplicate_is_equal() {
    let a = Action::Fill { target_id: "x".to_string(), text: "y".to_string() };
    assert_eq!(a.duplicate(), a);
}
