use munin::decision::{
    contrastive_decide, contrastive_from_probes, probe_of_probability, select_memory, verdict_from_answers,
    GraphAnswers,
};
use munin::dom::{DOMElementNode, StrMap};
use munin::supervisor::{
    achieved_assertion_text, apply_hint_selector, decide_iteration, heuristic_target, hinted_intent_text,
    not_achieved_assertion_text, open_iteration, recovery_plan, resolve_arbitrated_target, unresolved_arbitration,
    IterationDecision, IterationOpening, SupervisorPolicy,
};
use munin::mock_driver::MockDriver;
use munin::mock_engines::MockFastEngine;
use munin::overlay::{dismiss_instruction, OverlayBuster};
use munin::pruner::CandidatePruner;
use munin::types::{Action, BlockerClass, MacroStep, MemoryEntry, RecoveryKind, RecoveryVerdict};

fn verdict(achieved: bool, blocked: bool, target: Option<(&str, u32)>, recovery_conf: u32) -> RecoveryVerdict {
    RecoveryVerdict {
        achieved: (achieved, 9000),
        blocked: (blocked, 9000),
        blocker: (BlockerClass::Unblocked, 9500),
        recovery: (RecoveryKind::Retry, recovery_conf),
        target: target.map(|(t, c)| (t.to_string(), c)),
        recovery_target: None,
    }
}

#[test]
fn contrastive_accepts_only_clear_cases() {
    assert_eq!(contrastive_decide(9000, 1000, 8500), (true, 9000));
    assert_eq!(contrastive_decide(9000, 2000, 8500), (false, 8000));
    assert_eq!(contrastive_decide(8000, 0, 8500), (false, 8000));
    assert_eq!(contrastive_from_probes((false, 1000), (true, 500), 8500), (true, 9000));
    assert_eq!(probe_of_probability(5001), (true, 5001));
    assert_eq!(probe_of_probability(5000), (false, 5000));
}

#[test]
fn iteration_clicks_only_above_threshold() {
    let d = decide_iteration(verdict(false, false, Some(("btn", 9500)), 9000), false, false, 8500);
    assert!(matches!(d, IterationDecision::Click { ref target, confidence: 9500 } if target == "btn"));
    let d = decide_iteration(verdict(false, false, Some(("btn", 6000)), 9000), false, false, 8500);
    assert!(matches!(d, IterationDecision::EscalateLowConfidence { confidence: 6000 }));
    let d = decide_iteration(verdict(true, true, None, 0), false, false, 8500);
    assert!(matches!(d, IterationDecision::Achieved { confidence: 9000 }));
    let d = decide_iteration(verdict(false, false, None, 9000), true, true, 8500);
    assert!(matches!(d, IterationDecision::DomChanged { confidence: 8500 }));
    let d = decide_iteration(verdict(false, true, Some(("btn", 1000)), 1000), false, false, 8500);
    assert!(matches!(d, IterationDecision::EscalateOutOfDomain));
    let d = decide_iteration(verdict(false, true, Some(("btn", 9500)), 9000), false, false, 8500);
    assert!(matches!(d, IterationDecision::Blocked));
    let d = decide_iteration(verdict(false, false, None, 9000), false, false, 8500);
    assert!(matches!(d, IterationDecision::EscalateNoTarget));
}

#[test]
fn recovery_plan_prefers_memory() {
    let v = RecoveryVerdict {
        recovery_target: Some(("btn-close".to_string(), 9000)),
        ..verdict(false, true, None, 9000)
    };
    let entries = vec![MemoryEntry {
        applicable_desc: "a".to_string(),
        inapplicable_desc: "b".to_string(),
        recovery: RecoveryKind::Dismiss,
        target: "btn-x".to_string(),
        success_count: 1,
        failure_count: 0,
    }];
    assert_eq!(recovery_plan(&v, Some((0, 9000)), &entries), (RecoveryKind::Dismiss, "btn-x".to_string()));
    assert_eq!(recovery_plan(&v, None, &entries), (RecoveryKind::Retry, "btn-close".to_string()));
    let w = verdict(false, true, None, 9000);
    assert_eq!(recovery_plan(&w, None, &entries), (RecoveryKind::Retry, "page".to_string()));
}

#[test]
fn arbitration_resolution() {
    let mut crit = StrMap::new();
    crit.insert("btn-target", "<button> Option B");
    crit.insert("btn-ambiguous", "<button> Option A");
    assert_eq!(resolve_arbitrated_target("btn-target", &crit), Some(0));
    assert_eq!(resolve_arbitrated_target("\"btn-ambiguous\"", &crit), Some(1));
    assert_eq!(resolve_arbitrated_target("```json\n{\"node_id\": \"btn-ambiguous\"}\n```", &crit), Some(1));
    assert_eq!(resolve_arbitrated_target("{\"target_id\": \"btn-target\"}", &crit), Some(0));
    assert_eq!(resolve_arbitrated_target("please click btn-target now", &crit), Some(0));
    assert_eq!(resolve_arbitrated_target("nothing", &crit), None);
    assert_eq!(heuristic_target(&crit, true), Some(0));
    assert_eq!(heuristic_target(&crit, false), None);
}

#[test]
fn assertion_texts() {
    assert_eq!(achieved_assertion_text("登录成功"), "当前页面状态已表明：登录成功（结果已达成）");
    assert_eq!(not_achieved_assertion_text("登录成功"), "当前页面仍未达成：登录成功（结果未出现）");
}

#[test]
fn hints_narrow_candidates() {
    let es = vec![
        DOMElementNode::new("a", "button", "Save").with_attribute("class", "primary"),
        DOMElementNode::new("b", "button", "Cancel"),
    ];
    let r = apply_hint_selector(es, ".primary");
    assert_eq!(r.len(), 1);
    assert_eq!(r[0].node_id, "a");
    let es2 = vec![DOMElementNode::new("b", "button", "Cancel")];
    assert_eq!(apply_hint_selector(es2, ".primary").len(), 1);
    assert_eq!(hinted_intent_text("click", Some("  save ")), "click save");
    assert_eq!(hinted_intent_text("click", None), "click");
}

#[test]
fn memory_selection_keeps_best_reliable_hit() {
    let entry = |s: u32, f: u32| MemoryEntry {
        applicable_desc: "a".to_string(),
        inapplicable_desc: "b".to_string(),
        recovery: RecoveryKind::Retry,
        target: "page".to_string(),
        success_count: s,
        failure_count: f,
    };
    let entries = vec![entry(1, 0), entry(0, 3), entry(2, 1)];
    let hits = vec![(true, 8500), (true, 9900), (true, 9000)];
    assert_eq!(select_memory(&hits, &entries), Some((2, 9000)));
    let misses = vec![(false, 9000), (false, 9000), (false, 9000)];
    assert_eq!(select_memory(&misses, &entries), None);
}

#[test]
fn batched_verdict() {
    let a = GraphAnswers {
        achieved_pos: 7000,
        achieved_neg: 2000,
        blocked_pos: 9000,
        blocked_neg: 500,
        blocker: Some(("overlay".to_string(), 8000)),
        recovery: None,
        target: Some(("btn".to_string(), 9100)),
        recovery_target: None,
    };
    let v = verdict_from_answers(a, 6000, true);
    assert_eq!(v.achieved, (true, 7000));
    assert_eq!(v.blocked, (true, 9000));
    assert_eq!(v.blocker, (BlockerClass::Overlay, 8000));
    assert_eq!(v.recovery, (RecoveryKind::Escalate, 0));
    assert_eq!(v.target, Some(("btn".to_string(), 9100)));
    assert_eq!(v.recovery_target, Some((String::new(), 0)));
}

#[test]
fn policy_builders() {
    let p = SupervisorPolicy::new(8500).with_max_attempts(5).with_step_delay_ms(0).with_slow_fallback_heuristic(true);
    assert_eq!(p.confidence_threshold, 8500);
    assert_eq!(p.max_attempts_per_step, 5);
    assert_eq!(p.step_delay_ms, 0);
    assert!(p.slow_fallback_heuristic);
}

#[test]
fn unresolved_arbitration_quotes_the_directive() {
    let a = unresolved_arbitration("say \"hi\"");
    assert_eq!(
        a,
        Action::Custom { name: "slow_arbitrate".to_string(), payload: "{\"directive\":\"say \\\"hi\\\"\"}".to_string() }
    );
}

#[test]
fn test_supervisor_overlay_healing_in_flight() {
    let mut driver = MockDriver::new();
    driver.launch(true);
    // Popup overlay present
    driver.add_element(DOMElementNode::new("btn-dismiss-ad", "button", "跳过广告"));
    driver.add_element(DOMElementNode::new("btn-next", "button", "下一页"));

    let mut fast = MockFastEngine::new().with_probe_sequence(vec![(false, 1000), (true, 9100)]);
    fast.map_choice_by_instruction("closes or dismisses", "btn-dismiss-ad", 9500);
    fast.map_choice_by_instruction("推进当前任务目标", "btn-next", 9000);
    let step = MacroStep::new(1, "Navigate to next page", "已进入下一页");

    let policy = SupervisorPolicy::new(8500);
    let buster = OverlayBuster::default().with_threshold(policy.overlay_threshold);
    let pruner = CandidatePruner::default_pruner();
    let mut achieved = false;
    for _ in 0..policy.max_attempts_per_step {
        let elements = driver.get_interactive_elements();
        if let IterationOpening::HealOverlay { criteria } = open_iteration(&buster, &elements) {
            if let Some(target) = buster.dismissal(fast.choice(&dismiss_instruction(), &criteria)) {
                driver.click(&target).unwrap();
            }
        }
        let criteria = pruner.prune_to_map(&elements, &step.intent);
        let verdict = fast.recovery_graph(&step.expected_outcome, &criteria);
        match decide_iteration(verdict, false, false, policy.confidence_threshold) {
            IterationDecision::Achieved { .. } => {
                achieved = true;
                break;
            }
            IterationDecision::Click { target, .. } => driver.click(&target).unwrap(),
            _ => {}
        }
    }
    assert!(achieved);

    let actions = driver.recorded_actions();
    // Overlay dismiss button should have been clicked first!
    assert_eq!(actions[0], Action::Click { target_id: "btn-dismiss-ad".to_string() });
    assert_eq!(actions[1], Action::Click { target_id: "btn-next".to_string() });
}

#[test]
fn iteration_opening_without_overlay_judges() {
    let buster = OverlayBuster::default();
    let elements = vec![DOMElementNode::new("btn-next", "button", "下一页")];
    assert!(matches!(open_iteration(&buster, &elements), IterationOpening::Judge));
    let elements = vec![
        DOMElementNode::new("btn-next", "button", "下一页"),
        DOMElementNode::new("x", "span", " Close ").with_attribute("aria-label", "close"),
    ];
    match open_iteration(&buster, &elements) {
        IterationOpening::HealOverlay { criteria } => {
            assert_eq!(criteria.len(), 1);
            assert_eq!(criteria.get("x"), Some("span [Close]"));
        }
        IterationOpening::Judge => panic!("expected an overlay"),
    }
}

#[test]
fn unresolved_arbitration_escapes_controls() {
    let a = unresolved_arbitration("a\tb\u{1}c\\");
    assert_eq!(
        a,
        Action::Custom { name: "slow_arbitrate".to_string(), payload: "{\"directive\":\"a\\tb\\u0001c\\\\\"}".to_string() }
    );
}

#[test]
fn arbitration_prefers_the_longest_id_in_bytes() {
    let mut crit = StrMap::new();
    crit.insert("中", "<button> 中");
    crit.insert("ab", "<button> ab");
    assert_eq!(resolve_arbitrated_target("ab中", &crit), Some(0));
    let mut crit = StrMap::new();
    crit.insert("ab", "<button> ab");
    crit.insert("中", "<button> 中");
    assert_eq!(resolve_arbitrated_target("ab中", &crit), Some(1));
}
