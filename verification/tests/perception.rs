use munin::dom::DOMElementNode;
use munin::form::FormMapper;
use munin::memory::RecoveryMemory;
use munin::mock_driver::MockDriver;
use munin::mock_engines::MockFastEngine;
use munin::overlay::{dismiss_instruction, OverlayBuster};
use munin::probe::StateProbe;
use munin::pruner::CandidatePruner;
use munin::types::{Action, RecoveryKind};

#[test]
fn test_candidate_pruner() {
    let pruner = CandidatePruner::new(2);

    let elements = vec![
        DOMElementNode::new("btn-irrelevant", "button", "Irrelevant Action"),
        DOMElementNode::new("input-search", "input", "Search Query")
            .with_attribute("placeholder", "Search articles"),
        DOMElementNode::new("btn-search", "button", "Search"),
        DOMElementNode::new("div-footer", "div", "Copyright 2026"),
    ];

    let pruned = pruner.prune(&elements, "Search articles now");
    assert_eq!(pruned.len(), 2);
    let ids: Vec<&str> = pruned.iter().map(|e| e.node_id.as_str()).collect();
    assert!(ids.contains(&"input-search") || ids.contains(&"btn-search"));
}

#[test]
fn test_form_mapper_heuristic() {
    let mapper = FormMapper::new();
    let elements = vec![
        DOMElementNode::new("inp-1", "input", "")
            .with_attribute("name", "username")
            .with_attribute("placeholder", "Enter username"),
        DOMElementNode::new("inp-2", "input", "").with_attribute("name", "password"),
    ];

    let matched = mapper.match_field_heuristically(&elements, "username");
    assert!(matched.is_some());
    assert_eq!(matched.unwrap().node_id, "inp-1");
}

#[test]
fn test_memory_record_and_rate() {
    let mut mem = RecoveryMemory::in_memory();
    mem.record("当页面出现模态遮罩时", "当页面无遮罩时", RecoveryKind::Dismiss, "btn-close", true);
    assert_eq!(mem.entries.len(), 1);
    assert_eq!(mem.entries[0].success_rate(), 10000);

    mem.record("当页面出现模态遮罩时", "当页面无遮罩时", RecoveryKind::Dismiss, "btn-close", false);
    assert_eq!(mem.entries.len(), 1);
    assert_eq!(mem.entries[0].success_count, 1);
    assert_eq!(mem.entries[0].failure_count, 1);
    assert_eq!(mem.entries[0].success_rate(), 5000);
}

#[test]
fn test_memory_eviction() {
    let mut mem = RecoveryMemory::in_memory();
    mem.max_entries = 3;
    for i in 0..5 {
        mem.record(&format!("故障场景 {}", i), "边界", RecoveryKind::Retry, "page", true);
    }
    assert_eq!(mem.entries.len(), 3);
}

#[test]
fn memory_distinct_targets_make_distinct_entries() {
    let mut mem = RecoveryMemory::in_memory();
    mem.record("遮罩", "无遮罩", RecoveryKind::Dismiss, "btn-a", true);
    mem.record("遮罩", "无遮罩", RecoveryKind::Dismiss, "btn-b", false);
    assert_eq!(mem.entries.len(), 1);
    mem.record("遮罩", "无遮罩", RecoveryKind::Dismiss, "btn-b", true);
    mem.record("遮罩", "无遮罩", RecoveryKind::Dismiss, "btn-b", false);
    assert_eq!(mem.entries.len(), 2);
    assert_eq!(mem.entries[1].failure_count, 1);
    assert_eq!(mem.entries[1].success_rate(), 5000);
}

#[test]
fn memory_marks_count_outcomes() {
    let mut mem = RecoveryMemory::in_memory();
    mem.record("遮罩", "无遮罩", RecoveryKind::Dismiss, "btn-a", true);
    mem.mark_failure(0);
    mem.mark_failure(0);
    mem.mark_success(0);
    assert_eq!(mem.entries[0].success_count, 2);
    assert_eq!(mem.entries[0].failure_count, 2);
    assert_eq!(mem.entries[0].success_rate(), 5000);
    assert!(mem.entries[0].reliable());
}

#[test]
fn memory_eviction_drops_lowest_rate() {
    let mut mem = RecoveryMemory::in_memory();
    mem.max_entries = 2;
    mem.record("场景一", "边界", RecoveryKind::Retry, "page", true);
    mem.record("场景二", "边界", RecoveryKind::Retry, "page", true);
    mem.mark_failure(1);
    mem.mark_failure(1);
    mem.record("场景三", "边界", RecoveryKind::Retry, "page", true);
    assert_eq!(mem.entries.len(), 2);
    assert!(mem.entries.iter().all(|e| e.applicable_desc != "场景二"));
}

#[test]
fn memory_eviction_among_equals_drops_oldest() {
    let mut mem = RecoveryMemory::in_memory();
    mem.max_entries = 2;
    mem.record("场景一", "边界", RecoveryKind::Retry, "page", true);
    mem.record("场景二", "边界", RecoveryKind::Retry, "page", true);
    mem.record("场景三", "边界", RecoveryKind::Retry, "page", true);
    let kept: Vec<&str> = mem.entries.iter().map(|e| e.applicable_desc.as_str()).collect();
    assert_eq!(kept, vec!["场景二", "场景三"]);
}

#[test]
fn memory_home_path() {
    let mem = RecoveryMemory::new(Some("/home/u"));
    assert_eq!(mem.persist_path.as_deref(), Some("/home/u/.munin/recovery.json"));
    assert_eq!(mem.max_entries, 100);
    assert!(RecoveryMemory::new(None).persist_path.is_none());
}

#[test]
fn overlay_candidates_by_keyword() {
    let buster = OverlayBuster::default();
    let elements = vec![
        DOMElementNode::new("btn-close-modal", "button", "关闭弹窗"),
        DOMElementNode::new("btn-submit", "button", "提交"),
    ];
    let found = buster.find_overlay_candidates(&elements);
    assert_eq!(found.len(), 1);
    assert_eq!(found[0].node_id, "btn-close-modal");
    assert_eq!(buster.confidence_threshold, 8000);
    assert_eq!(buster.dismiss_keywords.len(), 16);
}

#[test]
fn overlay_dismissal_needs_confidence() {
    let buster = OverlayBuster::default();
    assert_eq!(buster.dismissal(("btn-close".to_string(), 9500)), Some("btn-close".to_string()));
    assert_eq!(buster.dismissal(("btn-close".to_string(), 7000)), None);
}

#[test]
fn state_probe_threshold() {
    let probe = StateProbe::default();
    assert!(probe.confirmed((true, 9200)));
    assert!(!probe.confirmed((true, 8000)));
    assert!(!probe.confirmed((false, 9900)));
}

#[test]
fn pruner_scores_match_intent() {
    let pruner = CandidatePruner::new(1);
    let elements = vec![
        DOMElementNode::new("a", "div", "Footer"),
        DOMElementNode::new("b", "button", "Login now"),
    ];
    let pruned = pruner.prune(&elements, "login");
    assert_eq!(pruned.len(), 1);
    assert_eq!(pruned[0].node_id, "b");
    let map = pruner.prune_to_map(&elements, "login");
    assert_eq!(map.len(), 1);
    assert_eq!(map.get("b"), Some("<button> Login now"));
}

#[test]
fn form_mapper_ignores_case() {
    let mapper = FormMapper::new();
    let elements = vec![
        DOMElementNode::new("inp-a", "input", "").with_attribute("name", "Password"),
        DOMElementNode::new("inp-b", "input", "").with_attribute("placeholder", "Your E-Mail"),
    ];
    assert_eq!(mapper.match_field_heuristically(&elements, "PASSWORD").unwrap().node_id, "inp-a");
    assert_eq!(mapper.match_field_heuristically(&elements, "e-mail").unwrap().node_id, "inp-b");
    assert!(mapper.match_field_heuristically(&elements, "phone").is_none());
}

#[test]
fn test_overlay_buster() {
    let buster = OverlayBuster::default();

    let mut driver = MockDriver::new();
    driver.launch(true);
    driver.add_element(DOMElementNode::new("btn-close-modal", "button", "关闭弹窗"));
    driver.add_element(DOMElementNode::new("btn-submit", "button", "提交"));

    let fast = MockFastEngine::new().with_choice("btn-close-modal", 9500);

    let elements = driver.get_interactive_elements();
    let candidates = buster.find_overlay_candidates(&elements);
    assert_eq!(candidates.len(), 1);
    let choice = fast.choice(&dismiss_instruction(), &OverlayBuster::criteria(&candidates));
    let dismissed = buster.dismissal(choice);
    assert_eq!(dismissed, Some("btn-close-modal".to_string()));
    driver.click(dismissed.as_deref().unwrap()).unwrap();

    assert_eq!(driver.recorded_actions(), vec![Action::Click { target_id: "btn-close-modal".to_string() }]);
}

#[test]
fn test_state_probe() {
    let probe = StateProbe::new();
    let mut driver = MockDriver::new();
    driver.launch(true);
    driver.set_js_result("document.body", "\"Order #12345 has been created successfully!\"");

    let mut fast = MockFastEngine::new().with_probe(true, 9200);

    let text = driver.evaluate_js(&probe.snapshot_script());
    assert_eq!(text, "\"Order #12345 has been created successfully!\"");
    let (achieved, conf) = fast.probe(&StateProbe::assertion("Order created successfully"));

    assert!(achieved);
    assert!(conf >= 8500);
    assert!(probe.confirmed((achieved, conf)));
}

#[test]
fn pruned_map_has_one_entry_per_kept_node() {
    let pruner = CandidatePruner::new(2);
    let elements = vec![
        DOMElementNode::new("a", "button", "Search"),
        DOMElementNode::new("b", "button", "Search again"),
        DOMElementNode::new("c", "button", "Other"),
    ];
    let kept = pruner.prune(&elements, "search");
    let map = pruner.prune_to_map(&elements, "search");
    assert_eq!(map.len(), kept.len());
    for e in kept {
        assert_eq!(map.get(&e.node_id), Some(e.semantic_summary().as_str()));
    }
}

#[test]
fn memory_keeps_one_entry_per_situation() {
    let mut mem = RecoveryMemory::in_memory();
    mem.max_entries = 2;
    for _ in 0..3 {
        mem.record("遮罩", "无遮罩", RecoveryKind::Dismiss, "btn-a", true);
        mem.record("遮罩", "无遮罩", RecoveryKind::Dismiss, "btn-b", true);
        mem.record("弹窗", "无弹窗", RecoveryKind::Dismiss, "btn-a", false);
    }
    assert_eq!(mem.entries.len(), 2);
    assert_eq!(mem.entries[0].success_count, 3);
    assert_eq!(mem.entries[1].success_count, 3);
    assert_ne!(mem.entries[0].target, mem.entries[1].target);
}

#[test]
fn memory_records_beside_a_saturated_entry() {
    let mut mem = RecoveryMemory::in_memory();
    mem.record("遮罩", "无遮罩", RecoveryKind::Dismiss, "btn-a", true);
    mem.entries[0].failure_count = u32::MAX;
    mem.record("遮罩", "无遮罩", RecoveryKind::Dismiss, "btn-a", true);
    mem.record("弹窗", "无弹窗", RecoveryKind::Dismiss, "btn-b", true);
    assert_eq!(mem.entries.len(), 2);
    assert_eq!(mem.entries[0].success_count, 2);
    assert_eq!(mem.entries[1].success_count, 1);
}

#[test]
fn smaller_pruner_keeps_a_prefix() {
    let elements = vec![
        DOMElementNode::new("a", "button", "Search"),
        DOMElementNode::new("b", "button", "Search again"),
        DOMElementNode::new("c", "button", "Other"),
        DOMElementNode::new("d", "input", "").with_attribute("placeholder", "search here"),
    ];
    let wide = CandidatePruner::new(4).prune(&elements, "search");
    let narrow = CandidatePruner::new(2).prune(&elements, "search");
    let wide_ids: Vec<&str> = wide.iter().map(|e| e.node_id.as_str()).collect();
    let narrow_ids: Vec<&str> = narrow.iter().map(|e| e.node_id.as_str()).collect();
    assert_eq!(narrow_ids, wide_ids[..2].to_vec());
}
