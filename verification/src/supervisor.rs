//! The decisions of the dual-engine supervisor: per-iteration confidence
//! gating, recovery planning and memory write-back, slow-engine arbitration
//! parsing, step hints and failure diagnostics. The driver and the engines are
//! asynchronous outside services; the loop that performs their work hands this
//! module what they returned and carries out what it decides.
use vstd::prelude::*;
use vstd::string::*;
use crate::dom::{lookup, DOMElementNode, NodeView, StrMap};
use crate::memory::{entries_view, record_fits, recorded, RecoveryMemory};
use crate::overlay::{candidate_indices, criteria_of, keywords_view, OverlayBuster};
use crate::pruner::CandidatePruner;
use crate::text::{
    chars_of, contains, contains_chars, lowercase, occurs_at, push_all, slice_range, split_words,
    str_eq, string_of, to_lower, trim, trim_chars, words,
};
use crate::types::{
    Action, ActionView, BlockerClass, Confidence, ExecutionReport, FailureDiagnostics, MemoryEntry, RecoveryKind,
    RecoveryVerdict, StepExecutionResult, CONF_ONE,
};

verus! {

/// Below this confidence, for both the target and the recovery choice, the fast
/// engine is considered to have no judgement about the page at all.
pub const OUT_OF_DOMAIN: u32 = 3000;

/// The tunable settings of the supervisor.
#[derive(Debug, Clone)]
pub struct SupervisorPolicy {
    pub confidence_threshold: Confidence,
    pub max_attempts_per_step: usize,
    pub overlay_threshold: Confidence,
    pub step_delay_ms: u64,
    /// Consecutive failed recoveries within one step before escalating.
    pub max_recovery_failures: usize,
    /// On arbitration failure, fall back to the first candidate.
    pub slow_fallback_heuristic: bool,
}

impl SupervisorPolicy {
    pub fn new(threshold: Confidence) -> (r: Self)
        ensures
            r.confidence_threshold == threshold,
            r.max_attempts_per_step == 5,
            r.overlay_threshold == 8000,
            r.step_delay_ms == 100,
            r.max_recovery_failures == 3,
            !r.slow_fallback_heuristic,
    {
        SupervisorPolicy {
            confidence_threshold: threshold,
            max_attempts_per_step: 5,
            overlay_threshold: 8000,
            step_delay_ms: 100,
            max_recovery_failures: 3,
            slow_fallback_heuristic: false,
        }
    }

    pub fn with_slow_fallback_heuristic(self, enabled: bool) -> (r: Self)
        ensures
            r == (SupervisorPolicy { slow_fallback_heuristic: enabled, ..self }),
    {
        SupervisorPolicy { slow_fallback_heuristic: enabled, ..self }
    }

    pub fn with_max_attempts(self, attempts: usize) -> (r: Self)
        ensures
            r == (SupervisorPolicy { max_attempts_per_step: attempts, ..self }),
    {
        SupervisorPolicy { max_attempts_per_step: attempts, ..self }
    }

    pub fn with_step_delay_ms(self, delay_ms: u64) -> (r: Self)
        ensures
            r == (SupervisorPolicy { step_delay_ms: delay_ms, ..self }),
    {
        SupervisorPolicy { step_delay_ms: delay_ms, ..self }
    }
}

/// What one iteration of a step does, decided from the recovery verdict.
pub enum IterationDecision {
    /// The expected outcome is reached.
    Achieved { confidence: Confidence },
    /// A DOM-asserted step saw the DOM change.
    DomChanged { confidence: Confidence },
    /// The fast engine has no judgement here: ask the slow engine.
    EscalateOutOfDomain,
    /// Something blocks the page: recover.
    Blocked,
    /// No candidate to act on: ask the slow engine.
    EscalateNoTarget,
    /// Confident enough: click the target.
    Click { target: String, confidence: Confidence },
    /// Not confident enough: ask the slow engine.
    EscalateLowConfidence { confidence: Confidence },
}

pub open spec fn target_conf(v: RecoveryVerdict) -> Confidence {
    match v.target {
        Some(t) => t.1,
        None => 0,
    }
}

/// How an iteration of a step opens: with dismiss candidates on the page, the
/// overlay buster asks the fast engine which of them closes the overlay.
pub enum IterationOpening {
    /// Ask the fast engine to pick among these candidates (node id to `tag [text]`).
    HealOverlay { criteria: StrMap },
    /// Nothing looks like a dismiss button: judge the page straight away.
    Judge,
}

/// The page shows dismiss candidates for this overlay buster.
pub open spec fn overlay_present(buster: OverlayBuster, elements: Seq<DOMElementNode>) -> bool {
    candidate_indices(elements, keywords_view(buster.dismiss_keywords@)).len() > 0
}

/// The dismiss candidates of the page, as the overlay buster describes them.
pub open spec fn overlay_criteria(buster: OverlayBuster, elements: Seq<DOMElementNode>) -> Seq<(Seq<char>, Seq<char>)> {
    criteria_of(
        candidate_indices(elements, keywords_view(buster.dismiss_keywords@)).map_values(|i: int| elements[i]@),
    )
}

/// The first decision of every iteration: heal overlays when the page shows
/// dismiss candidates, before the page is judged.
pub fn open_iteration(buster: &OverlayBuster, elements: &[DOMElementNode]) -> (o: IterationOpening)
    ensures
        match o {
            IterationOpening::HealOverlay { criteria } => overlay_present(*buster, elements@) && criteria.view()
                == overlay_criteria(*buster, elements@),
            IterationOpening::Judge => !overlay_present(*buster, elements@),
        },
{
    let candidates = buster.find_overlay_candidates(elements);
    if candidates.len() == 0 {
        return IterationOpening::Judge;
    }
    let criteria = OverlayBuster::criteria(&candidates);
    proof {
        let idx = candidate_indices(elements@, keywords_view(buster.dismiss_keywords@));
        assert(candidates@.map_values(|e: &DOMElementNode| (*e)@) =~= idx.map_values(|i: int| elements@[i]@));
    }
    IterationOpening::HealOverlay { criteria }
}

/// The clicks one iteration makes, in order: the overlay's dismiss button when
/// the page shows dismiss candidates and the fast engine's pick among them is
/// confident enough, then the target when the confidence-gated decision clicks.
pub open spec fn iteration_clicks(
    buster: OverlayBuster,
    elements: Seq<DOMElementNode>,
    dismiss_pick: (Seq<char>, Confidence),
    v: RecoveryVerdict,
    assertion_dom: bool,
    dom_changed: bool,
    threshold: Confidence,
) -> Seq<Seq<char>> {
    let healing = if overlay_present(buster, elements) && dismiss_pick.1 >= buster.confidence_threshold {
        seq![dismiss_pick.0]
    } else {
        Seq::<Seq<char>>::empty()
    };
    let acting = match spec_decide(v, assertion_dom, dom_changed, threshold) {
        IterationDecision::Click { target, .. } => seq![target@],
        _ => Seq::<Seq<char>>::empty(),
    };
    healing + acting
}

/// Healing comes first: on a page with dismiss candidates whose pick is
/// confident, an iteration's first click dismisses the overlay, whatever the
/// page is then judged to be; without candidates no click is spent on healing.
pub proof fn law_heal_before_acting(
    buster: OverlayBuster,
    elements: Seq<DOMElementNode>,
    dismiss_pick: (Seq<char>, Confidence),
    v: RecoveryVerdict,
    assertion_dom: bool,
    dom_changed: bool,
    threshold: Confidence,
)
    ensures
        overlay_present(buster, elements) && dismiss_pick.1 >= buster.confidence_threshold ==> {
            let c = iteration_clicks(buster, elements, dismiss_pick, v, assertion_dom, dom_changed, threshold);
            c.len() >= 1 && c[0] == dismiss_pick.0
        },
        !overlay_present(buster, elements) ==> iteration_clicks(buster, elements, dismiss_pick, v, assertion_dom, dom_changed, threshold) == (
        match spec_decide(v, assertion_dom, dom_changed, threshold) {
            IterationDecision::Click { target, .. } => seq![target@],
            _ => Seq::<Seq<char>>::empty(),
        }),
{
    let healing = if overlay_present(buster, elements) && dismiss_pick.1 >= buster.confidence_threshold {
        seq![dismiss_pick.0]
    } else {
        Seq::<Seq<char>>::empty()
    };
    let acting = match spec_decide(v, assertion_dom, dom_changed, threshold) {
        IterationDecision::Click { target, .. } => seq![target@],
        _ => Seq::<Seq<char>>::empty(),
    };
    if overlay_present(buster, elements) && dismiss_pick.1 >= buster.confidence_threshold {
        assert((healing + acting)[0] == dismiss_pick.0);
    } else {
        assert(healing + acting =~= acting);
    }
}

/// The confidence-gated decision of one iteration.
pub open spec fn spec_decide(v: RecoveryVerdict, assertion_dom: bool, dom_changed: bool, threshold: Confidence) -> IterationDecision {
    if v.achieved.0 {
        IterationDecision::Achieved { confidence: v.achieved.1 }
    } else if assertion_dom && dom_changed {
        IterationDecision::DomChanged { confidence: threshold }
    } else if target_conf(v) < OUT_OF_DOMAIN && v.recovery.1 < OUT_OF_DOMAIN {
        IterationDecision::EscalateOutOfDomain
    } else if v.blocked.0 {
        IterationDecision::Blocked
    } else {
        match v.target {
            None => IterationDecision::EscalateNoTarget,
            Some(t) => if t.1 >= threshold {
                IterationDecision::Click { target: t.0, confidence: t.1 }
            } else {
                IterationDecision::EscalateLowConfidence { confidence: t.1 }
            },
        }
    }
}

/// Decides one iteration once its opening (`open_iteration`) has healed any
/// overlay: an achieved outcome (or, for DOM-asserted steps, a
/// changed DOM) ends the step; an out-of-domain page escalates; a blocked page
/// recovers; otherwise the target is clicked only at or above the threshold and
/// anything less confident is escalated to the slow engine.
pub fn decide_iteration(v: RecoveryVerdict, assertion_dom: bool, dom_changed: bool, threshold: Confidence) -> (d: IterationDecision)
    ensures
        d == spec_decide(v, assertion_dom, dom_changed, threshold),
{
    if v.achieved.0 {
        return IterationDecision::Achieved { confidence: v.achieved.1 };
    }
    if assertion_dom && dom_changed {
        return IterationDecision::DomChanged { confidence: threshold };
    }
    let tc = match &v.target {
        Some(t) => t.1,
        None => 0,
    };
    if tc < 3000 && v.recovery.1 < 3000 {
        return IterationDecision::EscalateOutOfDomain;
    }
    if v.blocked.0 {
        return IterationDecision::Blocked;
    }
    match v.target {
        None => IterationDecision::EscalateNoTarget,
        Some(t) => if t.1 >= threshold {
            IterationDecision::Click { target: t.0, confidence: t.1 }
        } else {
            IterationDecision::EscalateLowConfidence { confidence: t.1 }
        },
    }
}

/// A blocked page is recovered from first: when the outcome is not reached, no
/// DOM change completes the step, and the fast engine has a judgement (its
/// recovery or target confidence reaches `OUT_OF_DOMAIN`), a blocked verdict
/// makes the iteration recover, whatever the target, none included; only an
/// unblocked page escalates for want of a target.
pub proof fn law_blocked_recovers(v: RecoveryVerdict, assertion_dom: bool, dom_changed: bool, threshold: Confidence)
    ensures
        (!v.achieved.0 && !(assertion_dom && dom_changed) && v.blocked.0 && (v.recovery.1 >= OUT_OF_DOMAIN || (
        v.target matches Some(t) && t.1 >= OUT_OF_DOMAIN))) ==> spec_decide(v, assertion_dom, dom_changed, threshold)
            is Blocked,
        spec_decide(v, assertion_dom, dom_changed, threshold) is EscalateNoTarget ==> !v.blocked.0 && v.target is None,
        spec_decide(v, assertion_dom, dom_changed, threshold) is Blocked ==> v.blocked.0 && !v.achieved.0,
{
}

/// Confidence gating: the supervisor clicks on its own only at or above the
/// threshold, and a confident unblocked target is always clicked.
pub proof fn law_confidence_gating(v: RecoveryVerdict, assertion_dom: bool, dom_changed: bool, threshold: Confidence)
    ensures
        spec_decide(v, assertion_dom, dom_changed, threshold) matches IterationDecision::Click { confidence, .. } ==> confidence
            >= threshold,
        spec_decide(v, assertion_dom, dom_changed, threshold) matches IterationDecision::EscalateLowConfidence {
            confidence,
        } ==> confidence < threshold,
        (!v.achieved.0 && !(assertion_dom && dom_changed) && !v.blocked.0 && v.target is Some && target_conf(v)
            >= threshold && target_conf(v) >= OUT_OF_DOMAIN) ==> spec_decide(v, assertion_dom, dom_changed, threshold) is Click,
{
}

/// The progress of one step.
#[derive(Debug)]
pub struct StepRun {
    pub attempts: usize,
    pub completed: bool,
    pub last_confidence: Confidence,
    pub recovery_failures: usize,
    pub actions_taken: Vec<Action>,
}

impl StepRun {
    pub fn start() -> (r: Self)
        ensures
            r.attempts == 0,
            !r.completed,
            r.last_confidence == 0,
            r.recovery_failures == 0,
            r.actions_taken@.len() == 0,
    {
        StepRun { attempts: 0, completed: false, last_confidence: 0, recovery_failures: 0, actions_taken: Vec::new() }
    }

    /// The step goes on while it is not complete and attempts remain.
    pub fn should_continue(&self, max_attempts: usize) -> (b: bool)
        ensures
            b == (!self.completed && self.attempts < max_attempts),
    {
        !self.completed && self.attempts < max_attempts
    }

    /// The step is complete with the given confidence.
    pub fn finish(&mut self, confidence: Confidence)
        ensures
            final(self).completed,
            final(self).last_confidence == confidence,
            final(self).attempts == old(self).attempts,
            final(self).recovery_failures == old(self).recovery_failures,
            final(self).actions_taken == old(self).actions_taken,
    {
        self.completed = true;
        self.last_confidence = confidence;
    }

    /// The slow engine reported the step complete (confidence unchanged).
    pub fn finish_by_arbitration(&mut self)
        ensures
            final(self).completed,
            final(self).last_confidence == old(self).last_confidence,
            final(self).attempts == old(self).attempts,
            final(self).recovery_failures == old(self).recovery_failures,
            final(self).actions_taken == old(self).actions_taken,
    {
        self.completed = true;
    }

    /// One more attempt has been spent.
    pub fn next_attempt(&mut self)
        requires
            old(self).attempts < usize::MAX,
        ensures
            final(self).attempts == old(self).attempts + 1,
            final(self).completed == old(self).completed,
            final(self).last_confidence == old(self).last_confidence,
            final(self).recovery_failures == old(self).recovery_failures,
            final(self).actions_taken == old(self).actions_taken,
    {
        self.attempts = self.attempts + 1;
    }

    /// The target was clicked with the given confidence.
    pub fn record_click(&mut self, target: &str, confidence: Confidence)
        ensures
            final(self).last_confidence == confidence,
            final(self).actions_taken@.len() == old(self).actions_taken@.len() + 1,
            final(self).actions_taken@.drop_last() == old(self).actions_taken@,
            final(self).actions_taken@.last()@ == (ActionView::Click { target_id: target@ }),
            final(self).attempts == old(self).attempts,
            final(self).completed == old(self).completed,
            final(self).recovery_failures == old(self).recovery_failures,
    {
        self.actions_taken.push(Action::Click { target_id: String::from_str(target) });
        self.last_confidence = confidence;
        assert(self.actions_taken@.drop_last() =~= old(self).actions_taken@);
    }

    /// A low-confidence target was escalated; its confidence is still the last one seen.
    pub fn note_confidence(&mut self, confidence: Confidence)
        ensures
            final(self).last_confidence == confidence,
            final(self).actions_taken == old(self).actions_taken,
            final(self).attempts == old(self).attempts,
            final(self).completed == old(self).completed,
            final(self).recovery_failures == old(self).recovery_failures,
    {
        self.last_confidence = confidence;
    }

    /// Appends an action taken on behalf of the step.
    pub fn push_action(&mut self, a: Action)
        ensures
            final(self).actions_taken@ == old(self).actions_taken@.push(a),
            final(self).last_confidence == old(self).last_confidence,
            final(self).attempts == old(self).attempts,
            final(self).completed == old(self).completed,
            final(self).recovery_failures == old(self).recovery_failures,
    {
        self.actions_taken.push(a);
    }
}

/// The recovery to apply to a blocked page: a remembered one when the memory
/// matched, else the verdict's recovery on its recovery target (the page itself
/// when there is none).
pub fn recovery_plan(v: &RecoveryVerdict, memory_hit: Option<(usize, Confidence)>, entries: &Vec<MemoryEntry>) -> (r: (RecoveryKind, String))
    requires
        memory_hit matches Some(h) ==> h.0 < entries@.len(),
    ensures
        match memory_hit {
            Some(h) => r.0 == entries@[h.0 as int].recovery && r.1@ == entries@[h.0 as int].target@,
            None => r.0 == v.recovery.0 && r.1@ == (match v.recovery_target {
                Some(t) => t.0@,
                None => "page"@,
            }),
        },
{
    match memory_hit {
        Some((idx, _)) => (entries[idx].recovery, entries[idx].target.clone()),
        None => {
            let target = match &v.recovery_target {
                Some(t) => t.0.clone(),
                None => String::from_str("page"),
            };
            (v.recovery.0, target)
        },
    }
}

/// The concrete work of a recovery.
pub enum RecoveryStep {
    /// Nothing to do now; the next verdict re-evaluates.
    Retry,
    /// Scroll the page down by 400 pixels.
    Scroll,
    /// Wait 1500 ms for loading.
    Wait,
    /// Reload the page and wait for it.
    Refresh,
    /// Click the named dismiss target.
    ClickTarget { target: String },
    /// Let the overlay buster find the dismiss button.
    BustOverlays,
    /// Go back a page and wait for it.
    Back,
    /// The fast engine gives up on recovery.
    Escalate,
}

pub open spec fn has_node(es: Seq<DOMElementNode>, id: Seq<char>) -> bool {
    exists|i: int| 0 <= i < es.len() && es[i].node_id@ == id
}

/// Turns a recovery kind into work; a dismissal clicks its target when that is a
/// current candidate (not the page), else falls back to the overlay buster.
pub fn recovery_step(kind: RecoveryKind, target: &str, elements: &[DOMElementNode]) -> (r: RecoveryStep)
    ensures
        match kind {
            RecoveryKind::Retry => r is Retry,
            RecoveryKind::Scroll => r is Scroll,
            RecoveryKind::Wait => r is Wait,
            RecoveryKind::Refresh => r is Refresh,
            RecoveryKind::Back => r is Back,
            RecoveryKind::Escalate => r is Escalate,
            RecoveryKind::Dismiss => if target@ != "page"@ && has_node(elements@, target@) {
                r matches RecoveryStep::ClickTarget { target: t } && t@ == target@
            } else {
                r is BustOverlays
            },
        },
{
    match kind {
        RecoveryKind::Retry => RecoveryStep::Retry,
        RecoveryKind::Scroll => RecoveryStep::Scroll,
        RecoveryKind::Wait => RecoveryStep::Wait,
        RecoveryKind::Refresh => RecoveryStep::Refresh,
        RecoveryKind::Back => RecoveryStep::Back,
        RecoveryKind::Escalate => RecoveryStep::Escalate,
        RecoveryKind::Dismiss => {
            if !str_eq(target, "page") && node_present(elements, target) {
                RecoveryStep::ClickTarget { target: String::from_str(target) }
            } else {
                RecoveryStep::BustOverlays
            }
        },
    }
}

/// Whether a node with the given id is among the elements.
pub fn node_present(elements: &[DOMElementNode], id: &str) -> (b: bool)
    ensures
        b == has_node(elements@, id@),
{
    let mut i: usize = 0;
    while i < elements.len()
        invariant
            i <= elements@.len(),
            forall|j: int| 0 <= j < i ==> elements@[j].node_id@ != id@,
        decreases elements@.len() - i,
    {
        if str_eq(elements[i].node_id.as_str(), id) {
            return true;
        }
        i += 1;
    }
    false
}

impl RecoveryStep {
    /// The action recorded for this work, if any.
    pub fn recorded_action(&self) -> (r: Option<Action>)
        ensures
            match self {
                RecoveryStep::Scroll => r matches Some(a) && a@ == (ActionView::Scroll { x: 0, y: 400 }),
                RecoveryStep::Wait => r matches Some(a) && a@ == (ActionView::Wait { duration_ms: 1500 }),
                RecoveryStep::Refresh => r matches Some(a) && a@ == (ActionView::Evaluate { script: "location.reload()"@ }),
                RecoveryStep::Back => r matches Some(a) && a@ == (ActionView::Evaluate { script: "history.back()"@ }),
                RecoveryStep::ClickTarget { target } => r matches Some(a) && a@ == (ActionView::Click { target_id: target@ }),
                _ => r is None,
            },
    {
        match self {
            RecoveryStep::Scroll => Some(Action::Scroll { x: 0, y: 400 }),
            RecoveryStep::Wait => Some(Action::Wait { duration_ms: 1500 }),
            RecoveryStep::Refresh => Some(Action::Evaluate { script: String::from_str("location.reload()") }),
            RecoveryStep::Back => Some(Action::Evaluate { script: String::from_str("history.back()") }),
            RecoveryStep::ClickTarget { target } => Some(Action::Click { target_id: target.clone() }),
            _ => None,
        }
    }

    /// Whether this work counts as an effective recovery once performed; `None`
    /// when it depends on whether the overlay buster dismissed something.
    pub fn effective(&self) -> (r: Option<bool>)
        ensures
            match self {
                RecoveryStep::BustOverlays => r is None,
                RecoveryStep::Escalate => r == Some(false),
                _ => r == Some(true),
            },
    {
        match self {
            RecoveryStep::BustOverlays => None,
            RecoveryStep::Escalate => Some(false),
            _ => Some(true),
        }
    }
}

/// The name of a blocker class as the memory descriptions show it.
pub open spec fn blocker_name(b: BlockerClass) -> Seq<char> {
    match b {
        BlockerClass::Overlay => "Overlay"@,
        BlockerClass::Loading => "Loading"@,
        BlockerClass::Auth => "Auth"@,
        BlockerClass::Captcha => "Captcha"@,
        BlockerClass::Paywall => "Paywall"@,
        BlockerClass::Stale => "Stale"@,
        BlockerClass::Unblocked => "None"@,
    }
}

fn blocker_label(b: BlockerClass) -> (r: &'static str)
    ensures
        r@ == blocker_name(b),
{
    match b {
        BlockerClass::Overlay => "Overlay",
        BlockerClass::Loading => "Loading",
        BlockerClass::Auth => "Auth",
        BlockerClass::Captcha => "Captcha",
        BlockerClass::Paywall => "Paywall",
        BlockerClass::Stale => "Stale",
        BlockerClass::Unblocked => "None",
    }
}

/// The situation in which a recovery was found to work.
pub open spec fn applicable_desc(intent: Seq<char>, b: BlockerClass) -> Seq<char> {
    "当执行「"@ + intent + "」时遇到"@ + blocker_name(b) + "阻塞"@
}

/// The boundary of that situation.
pub open spec fn inapplicable_desc(intent: Seq<char>) -> Seq<char> {
    "当执行「"@ + intent + "」时页面无阻塞或阻塞为验证码/付费墙"@
}

pub fn applicable_description(intent: &str, b: BlockerClass) -> (r: String)
    ensures
        r@ == applicable_desc(intent@, b),
{
    let mut s = String::from_str("当执行「");
    s.append(intent);
    s.append("」时遇到");
    s.append(blocker_label(b));
    s.append("阻塞");
    s
}

pub fn inapplicable_description(intent: &str) -> (r: String)
    ensures
        r@ == inapplicable_desc(intent@),
{
    let mut s = String::from_str("当执行「");
    s.append(intent);
    s.append("」时页面无阻塞或阻塞为验证码/付费墙");
    s
}

/// The count a recovery outcome bumps is below its maximum: that of the
/// remembered entry that was hit, or, for a new effective recovery that is no
/// escalation, that of the entry already recording its situation and target.
pub open spec fn write_back_fits(
    m: RecoveryMemory,
    recovered: bool,
    memory_hit: Option<(usize, Confidence)>,
    kind: RecoveryKind,
    target: Seq<char>,
    intent: Seq<char>,
    blocker: BlockerClass,
) -> bool {
    match memory_hit {
        Some(h) => h.0 < m.entries@.len() ==> (if recovered {
            m.entries@[h.0 as int].success_count < u32::MAX
        } else {
            m.entries@[h.0 as int].failure_count < u32::MAX
        }),
        None => recovered && kind != RecoveryKind::Escalate ==> record_fits(
            entries_view(m.entries@),
            applicable_desc(intent, blocker),
            target,
            true,
        ),
    }
}

/// Writes a recovery outcome back: an effective recovery resets the failure
/// streak and strengthens the remembered entry (or remembers a new one unless
/// the recovery was an escalation); an ineffective one lengthens the streak and
/// weakens the remembered entry. Returns whether the streak now calls for
/// escalation to the slow engine.
pub fn after_recovery(
    run: &mut StepRun,
    memory: &mut RecoveryMemory,
    recovered: bool,
    memory_hit: Option<(usize, Confidence)>,
    kind: RecoveryKind,
    target: &str,
    intent: &str,
    blocker: BlockerClass,
    max_recovery_failures: usize,
) -> (escalate: bool)
    requires
        write_back_fits(*old(memory), recovered, memory_hit, kind, target@, intent@, blocker),
        old(run).recovery_failures < usize::MAX,
    ensures
        recovered ==> final(run).recovery_failures == 0,
        !recovered ==> final(run).recovery_failures == old(run).recovery_failures + 1,
        escalate == (final(run).recovery_failures >= max_recovery_failures),
        final(run).attempts == old(run).attempts,
        final(run).completed == old(run).completed,
        final(run).last_confidence == old(run).last_confidence,
        final(run).actions_taken == old(run).actions_taken,
        final(memory).max_entries == old(memory).max_entries,
        final(memory).persist_path == old(memory).persist_path,
        entries_view(final(memory).entries@) == (match memory_hit {
            Some(h) => if h.0 < old(memory).entries@.len() {
                entries_view(old(memory).entries@).update(
                    h.0 as int,
                    crate::memory::bump(entries_view(old(memory).entries@)[h.0 as int], recovered),
                )
            } else {
                entries_view(old(memory).entries@)
            },
            None => if recovered && kind != RecoveryKind::Escalate {
                recorded(
                    entries_view(old(memory).entries@),
                    old(memory).max_entries as int,
                    applicable_desc(intent@, blocker),
                    inapplicable_desc(intent@),
                    kind,
                    target@,
                    true,
                )
            } else {
                entries_view(old(memory).entries@)
            },
        }),
{
    if recovered {
        run.recovery_failures = 0;
        match memory_hit {
            Some((idx, _)) => memory.mark_success(idx),
            None => {
                if kind != RecoveryKind::Escalate {
                    let app = applicable_description(intent, blocker);
                    let inapp = inapplicable_description(intent);
                    memory.record(app.as_str(), inapp.as_str(), kind, target, true);
                }
            },
        }
    } else {
        run.recovery_failures = run.recovery_failures + 1;
        match memory_hit {
            Some((idx, _)) => memory.mark_failure(idx),
            None => {},
        }
    }
    run.recovery_failures >= max_recovery_failures
}

/// The outcome of asking the slow engine after the recovery streak ran out:
/// achieved completes the step; a plain answer restarts the streak; a failed
/// arbitration changes nothing.
pub fn after_recovery_escalation(run: &mut StepRun, outcome: Option<bool>)
    ensures
        outcome == Some(true) ==> final(run).completed && final(run).recovery_failures == old(run).recovery_failures,
        outcome == Some(false) ==> !final(run).completed == !old(run).completed && final(run).recovery_failures == 0,
        outcome is None ==> final(run).completed == old(run).completed && final(run).recovery_failures == old(run).recovery_failures,
        final(run).attempts == old(run).attempts,
        final(run).last_confidence == old(run).last_confidence,
        final(run).actions_taken == old(run).actions_taken,
{
    match outcome {
        Some(true) => run.completed = true,
        Some(false) => run.recovery_failures = 0,
        None => {},
    }
}

/// `s` with every leading occurrence of `p` removed (`str::trim_start_matches`).
pub open spec fn strip_leading(s: Seq<char>, p: Seq<char>) -> Seq<char>
    decreases s.len(),
{
    if p.len() > 0 && occurs_at(s, p, 0) {
        strip_leading(s.subrange(p.len() as int, s.len() as int), p)
    } else {
        s
    }
}

/// `s` with every trailing occurrence of `p` removed (`str::trim_end_matches`).
pub open spec fn strip_trailing(s: Seq<char>, p: Seq<char>) -> Seq<char>
    decreases s.len(),
{
    if p.len() > 0 && p.len() <= s.len() && occurs_at(s, p, s.len() - p.len()) {
        strip_trailing(s.subrange(0, s.len() - p.len()), p)
    } else {
        s
    }
}

/// What `serde_json::from_str::<Value>(text)` followed by `.get(key)` gives:
/// `None` when the text is not a JSON object holding `key`, `Some(None)` when the
/// field is not a string, `Some(Some(s))` for a string field.
pub uninterp spec fn json_field(text: Seq<char>, key: Seq<char>) -> Option<Option<Seq<char>>>;

/// Parses `text` as JSON with `serde_json` and reads the field `key` (see `json_field`).
#[verifier::external_body]
pub(crate) fn json_str_field(text: &str, key: &str) -> (r: Option<Option<String>>)
    ensures
        match r {
            None => json_field(text@, key@) is None,
            Some(None) => json_field(text@, key@) == Some(None::<Seq<char>>),
            Some(Some(s)) => json_field(text@, key@) == Some(Some(s@)),
        },
{
    match serde_json::from_str::<serde_json::Value>(text) {
        Ok(v) => match v.get(key) {
            Some(f) => Some(f.as_str().map(|s| s.to_string())),
            None => None,
        },
        Err(_) => None,
    }
}

/// The id an arbitration names in JSON: `node_id`, or `target_id` when there is no `node_id` field.
pub open spec fn json_named_id(text: Seq<char>) -> Option<Seq<char>> {
    match json_field(text, "node_id"@) {
        Some(f) => f,
        None => match json_field(text, "target_id"@) {
            Some(f) => f,
            None => None,
        },
    }
}

pub open spec fn first_index_of(s: Seq<char>, c: char) -> Option<int>
    decreases s.len(),
{
    if s.len() == 0 {
        None
    } else if s[0] == c {
        Some(0)
    } else {
        match first_index_of(s.drop_first(), c) {
            Some(i) => Some(i + 1),
            None => None,
        }
    }
}

pub open spec fn key_index(keys: Seq<Seq<char>>, k: Seq<char>) -> Option<int>
    decreases keys.len(),
{
    if keys.len() == 0 {
        None
    } else if keys[0] == k {
        Some(0)
    } else {
        match key_index(keys.drop_first(), k) {
            Some(i) => Some(i + 1),
            None => None,
        }
    }
}

/// The length of a text in UTF-8 bytes (`str::len`).
pub open spec fn byte_len(s: Seq<char>) -> nat {
    vstd::utf8::encode_utf8(s).len()
}

/// The last of the keys contained in `d` that are longest in UTF-8 bytes,
/// scanning the first `n` keys.
pub open spec fn longest_contained(keys: Seq<Seq<char>>, d: Seq<char>, n: int) -> Option<int>
    decreases n,
{
    if n <= 0 {
        None
    } else {
        let prev = longest_contained(keys, d, n - 1);
        let i = n - 1;
        if contains(d, keys[i]) && (match prev {
            Some(p) => byte_len(keys[i]) >= byte_len(keys[p]),
            None => true,
        }) {
            Some(i)
        } else {
            prev
        }
    }
}

/// The JSON fragment of an arbitration: the part from the first `{` of the
/// de-fenced text.
pub open spec fn json_fragment(d: Seq<char>) -> Option<Seq<char>> {
    let jc = trim(strip_trailing(strip_leading(strip_leading(trim(d), "```json"@), "```"@), "```"@));
    match first_index_of(jc, '{') {
        Some(i) => Some(jc.subrange(i, jc.len() as int)),
        None => None,
    }
}

/// Which candidate an arbitration names: the id in its JSON, else the whole
/// answer without surrounding quotes, else the longest candidate id it mentions.
pub open spec fn resolve_target(d: Seq<char>, keys: Seq<Seq<char>>) -> Option<int> {
    let from_json = match json_fragment(d) {
        Some(frag) => match json_named_id(frag) {
            Some(val) => key_index(keys, val),
            None => None,
        },
        None => None,
    };
    match from_json {
        Some(i) => Some(i),
        None => match key_index(keys, strip_quotes(trim(d))) {
            Some(i) => Some(i),
            None => longest_contained(keys, trim(d), keys.len() as int),
        },
    }
}

/// `s` with all leading and trailing `"` removed (`str::trim_matches('"')`).
pub open spec fn strip_quotes(s: Seq<char>) -> Seq<char> {
    strip_trailing(strip_leading(s, seq!['"']), seq!['"'])
}

pub open spec fn map_keys(m: Seq<(Seq<char>, Seq<char>)>) -> Seq<Seq<char>> {
    m.map_values(|p: (Seq<char>, Seq<char>)| p.0)
}

fn strip_leading_chars(s: &[char], p: &[char]) -> (r: Vec<char>)
    ensures
        r@ == strip_leading(s@, p@),
{
    let n = s.len();
    let mut a: usize = 0;
    assert(s@.subrange(0, n as int) =~= s@);
    if p.len() == 0 {
        return slice_range(s, 0, n);
    }
    while crate::text::matches_at(s, p, a)
        invariant
            n == s@.len(),
            p@.len() > 0,
            a <= n,
            strip_leading(s@, p@) == strip_leading(s@.subrange(a as int, n as int), p@),
        decreases n - a,
    {
        proof {
            let t = s@.subrange(a as int, n as int);
            assert(t.subrange(0, p@.len() as int) =~= s@.subrange(a as int, a + p@.len()));
            assert(t.subrange(p@.len() as int, t.len() as int) =~= s@.subrange(a + p@.len(), n as int));
        }
        a = a + p.len();
    }
    proof {
        let t = s@.subrange(a as int, n as int);
        if occurs_at(t, p@, 0) {
            assert(t.subrange(0, p@.len() as int) =~= s@.subrange(a as int, a + p@.len()));
        }
    }
    slice_range(s, a, n)
}

pub(crate) fn strip_trailing_chars(s: &[char], p: &[char]) -> (r: Vec<char>)
    ensures
        r@ == strip_trailing(s@, p@),
{
    let n = s.len();
    assert(s@.subrange(0, n as int) =~= s@);
    if p.len() == 0 {
        return slice_range(s, 0, n);
    }
    let mut b: usize = n;
    while p.len() <= b && crate::text::matches_at(s, p, b - p.len())
        invariant
            n == s@.len(),
            p@.len() > 0,
            b <= n,
            strip_trailing(s@, p@) == strip_trailing(s@.subrange(0, b as int), p@),
        decreases b,
    {
        proof {
            let t = s@.subrange(0, b as int);
            assert(t.subrange(b - p@.len(), b as int) =~= s@.subrange(b - p@.len(), b as int));
            assert(t.subrange(0, b - p@.len()) =~= s@.subrange(0, b - p@.len()));
        }
        b = b - p.len();
    }
    proof {
        let t = s@.subrange(0, b as int);
        if p@.len() <= t.len() && occurs_at(t, p@, t.len() - p@.len()) {
            assert(t.subrange(b - p@.len(), b as int) =~= s@.subrange(b - p@.len(), b as int));
        }
    }
    slice_range(s, 0, b)
}

fn first_brace(s: &[char]) -> (r: Option<usize>)
    ensures
        match first_index_of(s@, '{') {
            Some(i) => r == Some(i as usize) && 0 <= i < s@.len(),
            None => r is None,
        },
{
    proof {
        lemma_first_index_bound(s@, '{');
    }
    let n = s.len();
    let mut i: usize = 0;
    assert(s@.subrange(0, n as int) =~= s@);
    while i < n
        invariant
            n == s@.len(),
            i <= n,
            forall|j: int| 0 <= j < i ==> s@[j] != '{',
            first_index_of(s@, '{') == (match first_index_of(s@.subrange(i as int, n as int), '{') {
                Some(k) => Some(k + i),
                None => None::<int>,
            }),
        decreases n - i,
    {
        proof {
            let t = s@.subrange(i as int, n as int);
            assert(t.drop_first() =~= s@.subrange(i + 1, n as int));
        }
        if s[i] == '{' {
            return Some(i);
        }
        i += 1;
    }
    None
}

/// Index of key `k` in the map.
fn find_key(m: &StrMap, k: &str) -> (r: Option<usize>)
    ensures
        match key_index(map_keys(m.view()), k@) {
            Some(i) => r == Some(i as usize) && 0 <= i < m.view().len(),
            None => r is None,
        },
{
    proof {
        lemma_key_index_bound(map_keys(m.view()), k@);
    }
    let ghost keys = map_keys(m.view());
    let n = m.len();
    let mut i: usize = 0;
    assert(keys.subrange(0, n as int) =~= keys);
    while i < n
        invariant
            n == m.view().len(),
            keys == map_keys(m.view()),
            i <= n,
            key_index(keys, k@) == (match key_index(keys.subrange(i as int, n as int), k@) {
                Some(j) => Some(j + i),
                None => None::<int>,
            }),
        decreases n - i,
    {
        proof {
            let t = keys.subrange(i as int, n as int);
            assert(t.drop_first() =~= keys.subrange(i + 1, n as int));
            if i == 0 {
                assert(t =~= keys);
            }
        }
        let (key, _) = m.entry(i);
        if str_eq(key, k) {
            return Some(i);
        }
        i += 1;
    }
    None
}

/// Which candidate of `criteria` the slow engine's answer names (see `resolve_target`).
pub fn resolve_arbitrated_target(directive: &str, criteria: &StrMap) -> (r: Option<usize>)
    ensures
        match resolve_target(directive@, map_keys(criteria.view())) {
            Some(i) => r == Some(i as usize) && 0 <= i < criteria.view().len(),
            None => r is None,
        },
{
    let ghost keys = map_keys(criteria.view());
    let d = chars_of(directive);
    let trimmed = trim_chars(&d);
    let fence_json = chars_of("```json");
    let fence = chars_of("```");
    let a = strip_leading_chars(&trimmed, &fence_json);
    let b = strip_leading_chars(&a, &fence);
    let c = strip_trailing_chars(&b, &fence);
    let jc = trim_chars(&c);
    let mut from_json: Option<usize> = None;
    proof {
        lemma_key_index_bound(keys, Seq::empty());
    }
    match first_brace(&jc) {
        Some(start) => {
            let frag_chars = slice_range(&jc, start, jc.len());
            let frag = string_of(&frag_chars);
            let named = match json_str_field(frag.as_str(), "node_id") {
                Some(f) => f,
                None => match json_str_field(frag.as_str(), "target_id") {
                    Some(f) => f,
                    None => None,
                },
            };
            match named {
                Some(val) => {
                    from_json = find_key(criteria, val.as_str());
                    proof {
                        lemma_key_index_bound(keys, val@);
                    }
                },
                None => {},
            }
        },
        None => {},
    }
    if from_json.is_some() {
        return from_json;
    }
    let quote = chars_of("\"");
    proof {
        reveal_strlit("\"");
        assert(quote@ =~= seq!['"']);
    }
    let q1 = strip_leading_chars(&trimmed, &quote);
    let q2 = strip_trailing_chars(&q1, &quote);
    let exact = string_of(&q2);
    let ex = find_key(criteria, exact.as_str());
    proof {
        lemma_key_index_bound(keys, exact@);
    }
    if ex.is_some() {
        return ex;
    }
    // the last of the candidate ids mentioned in the answer that are longest in bytes
    let n = criteria.len();
    let mut best: Option<usize> = None;
    let mut i: usize = 0;
    while i < n
        invariant
            n == criteria.view().len(),
            keys == map_keys(criteria.view()),
            trimmed@ == trim(directive@),
            i <= n,
            match longest_contained(keys, trimmed@, i as int) {
                Some(j) => best == Some(j as usize) && 0 <= j < i,
                None => best is None,
            },
        decreases n - i,
    {
        proof {
            lemma_longest_bound(keys, trimmed@, i as int);
            lemma_longest_bound(keys, trimmed@, i + 1);
        }
        let (key, _) = criteria.entry(i);
        let kc = chars_of(key);
        if contains_chars(&trimmed, &kc) {
            let better = match best {
                Some(p) => {
                    let (pk, _) = criteria.entry(p);
                    key.as_bytes().len() >= pk.as_bytes().len()
                },
                None => true,
            };
            if better {
                best = Some(i);
            }
        }
        i += 1;
    }
    best
}

proof fn lemma_first_index_bound(s: Seq<char>, c: char)
    ensures
        first_index_of(s, c) matches Some(i) ==> 0 <= i < s.len(),
    decreases s.len(),
{
    if s.len() > 0 && s[0] != c {
        lemma_first_index_bound(s.drop_first(), c);
    }
}

proof fn lemma_longest_bound(keys: Seq<Seq<char>>, d: Seq<char>, n: int)
    ensures
        longest_contained(keys, d, n) matches Some(i) ==> 0 <= i < n,
    decreases n,
{
    if n > 0 {
        lemma_longest_bound(keys, d, n - 1);
    }
}

proof fn lemma_key_index_bound(keys: Seq<Seq<char>>, k: Seq<char>)
    ensures
        key_index(keys, k) matches Some(i) ==> 0 <= i < keys.len(),
    decreases keys.len(),
{
    if keys.len() > 0 && keys[0] != k {
        lemma_key_index_bound(keys.drop_first(), k);
    }
}

/// The candidate the heuristic fallback clicks when arbitration fails: the first one, if enabled.
pub fn heuristic_target(criteria: &StrMap, enabled: bool) -> (r: Option<usize>)
    ensures
        r == (if enabled && criteria.view().len() > 0 { Some(0usize) } else { None }),
{
    if enabled && criteria.len() > 0 {
        Some(0)
    } else {
        None
    }
}

/// The assertion probed after an arbitrated click.
pub open spec fn achieved_assertion(outcome: Seq<char>) -> Seq<char> {
    "当前页面状态已表明："@ + outcome + "（结果已达成）"@
}

/// The negation probed alongside it by contrastive judgements.
pub open spec fn not_achieved_assertion(outcome: Seq<char>) -> Seq<char> {
    "当前页面仍未达成："@ + outcome + "（结果未出现）"@
}

pub fn achieved_assertion_text(outcome: &str) -> (r: String)
    ensures
        r@ == achieved_assertion(outcome@),
{
    let mut s = String::from_str("当前页面状态已表明：");
    s.append(outcome);
    s.append("（结果已达成）");
    s
}

pub fn not_achieved_assertion_text(outcome: &str) -> (r: String)
    ensures
        r@ == not_achieved_assertion(outcome@),
{
    let mut s = String::from_str("当前页面仍未达成：");
    s.append(outcome);
    s.append("（结果未出现）");
    s
}

/// A lower-case hexadecimal digit.
pub open spec fn hex_digit(n: int) -> char {
    if n < 10 {
        (('0' as u32) + n) as char
    } else {
        (('a' as u32) + (n - 10)) as char
    }
}

/// How `serde_json` writes one character inside a string: `"` and `\` and the
/// control characters below U+0020 are escaped (the usual short forms for
/// backspace, tab, line feed, form feed and carriage return, `\u00xx` with
/// lower-case hex for the rest); every other character is written as it is.
pub open spec fn json_escaped(c: char) -> Seq<char> {
    if c == '"' {
        seq!['\\', '"']
    } else if c == '\\' {
        seq!['\\', '\\']
    } else if c == '\u{8}' {
        seq!['\\', 'b']
    } else if c == '\t' {
        seq!['\\', 't']
    } else if c == '\n' {
        seq!['\\', 'n']
    } else if c == '\u{c}' {
        seq!['\\', 'f']
    } else if c == '\r' {
        seq!['\\', 'r']
    } else if (c as u32) < 0x20 {
        seq!['\\', 'u', '0', '0', hex_digit((c as u32) as int / 16), hex_digit((c as u32) as int % 16)]
    } else {
        seq![c]
    }
}

/// The escaped characters of a string, in order.
pub open spec fn json_escaped_all(s: Seq<char>) -> Seq<char>
    decreases s.len(),
{
    if s.len() == 0 {
        seq![]
    } else {
        json_escaped_all(s.drop_last()) + json_escaped(s.last())
    }
}

/// What `serde_json::to_string` gives for a string: its JSON literal, the
/// escaped characters between double quotes.
pub open spec fn json_literal(s: Seq<char>) -> Seq<char> {
    seq!['"'] + json_escaped_all(s) + seq!['"']
}

/// Serialises a string as a JSON string literal with `serde_json::to_string`
/// (`format_escaped_str` with its escape table; it cannot fail for a string).
#[verifier::external_body]
pub(crate) fn json_quote(s: &str) -> (r: String)
    ensures
        r@ == json_literal(s@),
{
    serde_json::to_string(s).unwrap_or_default()
}

/// The record of an arbitration that named no candidate.
pub fn unresolved_arbitration(directive: &str) -> (a: Action)
    ensures
        a@ == (ActionView::Custom { name: "slow_arbitrate"@, payload: "{\"directive\":"@ + json_literal(directive@) + "}"@ }),
{
    let mut p = String::from_str("{\"directive\":");
    let q = json_quote(directive);
    p.append(q.as_str());
    p.append("}");
    Action::Custom { name: String::from_str("slow_arbitrate"), payload: p }
}

/// `, `-free fingerprint of the DOM: node ids joined by commas.
pub open spec fn join_ids(es: Seq<DOMElementNode>) -> Seq<char>
    decreases es.len(),
{
    if es.len() == 0 {
        seq![]
    } else if es.len() == 1 {
        es[0].node_id@
    } else {
        join_ids(es.drop_last()) + seq![','] + es.last().node_id@
    }
}

/// The fingerprint of a DOM snapshot (node ids joined by commas).
pub fn dom_fingerprint(es: &[DOMElementNode]) -> (r: Vec<char>)
    ensures
        r@ == join_ids(es@),
{
    let mut out: Vec<char> = Vec::new();
    let mut i: usize = 0;
    while i < es.len()
        invariant
            i <= es@.len(),
            out@ == join_ids(es@.subrange(0, i as int)),
        decreases es@.len() - i,
    {
        let id = chars_of(es[i].node_id.as_str());
        proof {
            let t = es@.subrange(0, i + 1);
            assert(t.drop_last() =~= es@.subrange(0, i as int));
            if i == 0 {
                assert(t[0] == es@[0]);
            }
        }
        if i > 0 {
            out.push(',');
        }
        push_all(&mut out, &id);
        i += 1;
    }
    assert(es@.subrange(0, es@.len() as int) =~= es@);
    out
}

/// The values of an attribute list joined by single spaces.
pub open spec fn join_values(s: Seq<(Seq<char>, Seq<char>)>) -> Seq<char>
    decreases s.len(),
{
    if s.len() == 0 {
        seq![]
    } else if s.len() == 1 {
        s[0].1
    } else {
        join_values(s.drop_last()) + seq![' '] + s.last().1
    }
}

/// What a hint selector keyword is matched against: tag, attribute values and id, lower-cased.
pub open spec fn haystack(n: NodeView) -> Seq<char> {
    lowercase(n.tag + seq![' '] + join_values(n.attrs) + seq![' '] + n.node_id)
}

/// The keywords of a selector: lower-cased, leading `.` and `#` stripped, split on whitespace.
pub open spec fn selector_keywords(sel: Seq<char>) -> Seq<Seq<char>> {
    words(strip_leading(strip_leading(lowercase(sel), seq!['.']), seq!['#']))
}

pub open spec fn hint_matches(n: NodeView, kws: Seq<Seq<char>>) -> bool {
    exists|i: int| 0 <= i < kws.len() && kws[i].len() > 0 && contains(haystack(n), kws[i])
}

pub open spec fn hint_filter(es: Seq<DOMElementNode>, kws: Seq<Seq<char>>) -> Seq<NodeView>
    decreases es.len(),
{
    if es.len() == 0 {
        seq![]
    } else if hint_matches(es.last()@, kws) {
        hint_filter(es.drop_last(), kws).push(es.last()@)
    } else {
        hint_filter(es.drop_last(), kws)
    }
}

fn node_haystack(e: &DOMElementNode) -> (r: Vec<char>)
    ensures
        r@ == haystack(e@),
{
    let mut s: Vec<char> = chars_of(e.tag.as_str());
    s.push(' ');
    let n = e.attributes.len();
    let mut vals: Vec<char> = Vec::new();
    let mut i: usize = 0;
    while i < n
        invariant
            n == e.attributes.view().len(),
            i <= n,
            vals@ == join_values(e.attributes.view().subrange(0, i as int)),
        decreases n - i,
    {
        let (_, v) = e.attributes.entry(i);
        let vc = chars_of(v);
        proof {
            let t = e.attributes.view().subrange(0, i + 1);
            assert(t.drop_last() =~= e.attributes.view().subrange(0, i as int));
            if i == 0 {
                assert(t[0] == e.attributes.view()[0]);
            }
        }
        if i > 0 {
            vals.push(' ');
        }
        push_all(&mut vals, &vc);
        i += 1;
    }
    assert(e.attributes.view().subrange(0, n as int) =~= e.attributes.view());
    push_all(&mut s, &vals);
    s.push(' ');
    let id = chars_of(e.node_id.as_str());
    push_all(&mut s, &id);
    let joined = string_of(&s);
    proof {
        assert(s@ =~= e@.tag + seq![' '] + join_values(e@.attrs) + seq![' '] + e@.node_id);
    }
    let l = to_lower(joined.as_str());
    chars_of(l.as_str())
}

fn any_keyword(hay: &Vec<char>, kws: &Vec<Vec<char>>) -> (b: bool)
    ensures
        b == exists|i: int| 0 <= i < kws@.len() && kws@[i]@.len() > 0 && contains(hay@, kws@[i]@),
{
    let mut i: usize = 0;
    while i < kws.len()
        invariant
            i <= kws@.len(),
            forall|j: int| 0 <= j < i ==> !(kws@[j]@.len() > 0 && contains(hay@, kws@[j]@)),
        decreases kws@.len() - i,
    {
        if kws[i].len() > 0 && contains_chars(hay, &kws[i]) {
            return true;
        }
        i += 1;
    }
    false
}

/// Narrows the candidates to those matching a hint selector's keywords; when
/// none match, all candidates stay.
pub fn apply_hint_selector(elements: Vec<DOMElementNode>, selector: &str) -> (r: Vec<DOMElementNode>)
    ensures
        hint_filter(elements@, selector_keywords(selector@)).len() > 0 ==> r@.map_values(|e: DOMElementNode| e@)
            == hint_filter(elements@, selector_keywords(selector@)),
        hint_filter(elements@, selector_keywords(selector@)).len() == 0 ==> r@ == elements@,
{
    let ghost kw_spec = selector_keywords(selector@);
    let l = to_lower(selector);
    let lc = chars_of(l.as_str());
    let dot = vec!['.'];
    let hash = vec!['#'];
    let s1 = strip_leading_chars(&lc, &dot);
    let s2 = strip_leading_chars(&s1, &hash);
    proof {
        assert(dot@ =~= seq!['.']);
        assert(hash@ =~= seq!['#']);
    }
    let kws = split_words(&s2);
    proof {
        assert forall|i: int| 0 <= i < kws@.len() implies kws@[i]@ == kw_spec[i] by {}
    }
    let mut filtered: Vec<DOMElementNode> = Vec::new();
    let mut i: usize = 0;
    while i < elements.len()
        invariant
            i <= elements@.len(),
            kws@.len() == kw_spec.len(),
            forall|k: int| 0 <= k < kws@.len() ==> #[trigger] kws@[k]@ == kw_spec[k],
            filtered@.map_values(|e: DOMElementNode| e@) == hint_filter(elements@.subrange(0, i as int), kw_spec),
        decreases elements@.len() - i,
    {
        let hay = node_haystack(&elements[i]);
        let hit = any_keyword(&hay, &kws);
        proof {
            let t = elements@.subrange(0, i + 1);
            assert(t.drop_last() =~= elements@.subrange(0, i as int));
            assert(t.last() == elements@[i as int]);
            if hit {
                let j = choose|j: int| 0 <= j < kws@.len() && kws@[j]@.len() > 0 && contains(hay@, kws@[j]@);
                assert(kw_spec[j] == kws@[j]@);
            }
            if hint_matches(elements@[i as int]@, kw_spec) {
                let j = choose|j: int| 0 <= j < kw_spec.len() && kw_spec[j].len() > 0 && contains(haystack(elements@[i as int]@), kw_spec[j]);
                assert(kws@[j]@ == kw_spec[j]);
            }
        }
        if hit {
            let ghost before = filtered@;
            filtered.push(elements[i].duplicate());
            proof {
                assert(filtered@.map_values(|e: DOMElementNode| e@) =~= before.map_values(|e: DOMElementNode| e@).push(elements@[i as int]@));
            }
        }
        i += 1;
    }
    assert(elements@.subrange(0, elements@.len() as int) =~= elements@);
    if filtered.len() > 0 {
        filtered
    } else {
        elements
    }
}

/// The intent a hint text sharpens: the intent, a space and the trimmed hint when it is not blank.
pub open spec fn hinted_intent(intent: Seq<char>, hint_text: Option<Seq<char>>) -> Seq<char> {
    match hint_text {
        Some(t) => if trim(t).len() > 0 { intent + seq![' '] + trim(t) } else { intent },
        None => intent,
    }
}

pub fn hinted_intent_text(intent: &str, hint_text: Option<&str>) -> (r: String)
    ensures
        r@ == hinted_intent(intent@, match hint_text {
            Some(t) => Some(t@),
            None => None,
        }),
{
    match hint_text {
        Some(t) => {
            let tc = chars_of(t);
            let tt = trim_chars(&tc);
            if tt.len() > 0 {
                let mut v = chars_of(intent);
                v.push(' ');
                push_all(&mut v, &tt);
                string_of(&v)
            } else {
                String::from_str(intent)
            }
        },
        None => String::from_str(intent),
    }
}

/// The decimal digits of `n`.
pub open spec fn decimal(n: nat) -> Seq<char>
    decreases n,
{
    if n < 10 {
        seq![digit(n)]
    } else {
        decimal(n / 10).push(digit(n % 10))
    }
}

pub open spec fn digit(d: nat) -> char {
    if d == 0 { '0' } else if d == 1 { '1' } else if d == 2 { '2' } else if d == 3 { '3' } else if d == 4 { '4' }
    else if d == 5 { '5' } else if d == 6 { '6' } else if d == 7 { '7' } else if d == 8 { '8' } else { '9' }
}

fn digit_char(d: usize) -> (c: char)
    requires
        d < 10,
    ensures
        c == digit(d as nat),
{
    if d == 0 { '0' } else if d == 1 { '1' } else if d == 2 { '2' } else if d == 3 { '3' } else if d == 4 { '4' }
    else if d == 5 { '5' } else if d == 6 { '6' } else if d == 7 { '7' } else if d == 8 { '8' } else { '9' }
}

/// The decimal representation of a number (`usize::to_string`).
pub fn decimal_chars(n: usize) -> (r: Vec<char>)
    ensures
        r@ == decimal(n as nat),
    decreases n,
{
    if n < 10 {
        let mut v = Vec::new();
        v.push(digit_char(n));
        v
    } else {
        let mut v = decimal_chars(n / 10);
        v.push(digit_char(n % 10));
        v
    }
}

/// The decimal representation of a `u64` (`u64::to_string`).
pub fn decimal_u64(n: u64) -> (r: Vec<char>)
    ensures
        r@ == decimal(n as nat),
    decreases n,
{
    if n < 10 {
        let mut v = Vec::new();
        v.push(digit_char(n as usize));
        v
    } else {
        let mut v = decimal_u64(n / 10);
        v.push(digit_char((n % 10) as usize));
        v
    }
}

/// The message of a step that ran out of attempts.
pub open spec fn exhausted_message(max: nat) -> Seq<char> {
    "Max attempts ("@ + decimal(max) + ") exceeded without achieving expected outcome"@
}

/// The reason recorded in the diagnostics of such a step.
pub open spec fn exhausted_reason(max: nat) -> Seq<char> {
    "快引擎置信度未达阈值或慢引擎仲裁失败，"@ + decimal(max) + " 次尝试后仍未达成预期"@
}

/// The failure of a step that ran out of attempts, with its diagnostic snapshot:
/// the page URL, the first 500 characters of the page text, the last confidence
/// and the ten best remaining candidates for the step's intent.
pub fn exhausted_step(
    step_id: usize,
    max_attempts: usize,
    page_url: String,
    page_text: &str,
    last_confidence: Confidence,
    last_elements: &[DOMElementNode],
    pruner: &CandidatePruner,
    intent: &str,
) -> (r: StepExecutionResult)
    requires
        intent@.len() < 0x1_0000_0000_0000,
    ensures
        r.step_id == step_id,
        !r.success,
        r.actions_taken@.len() == 0,
        r.final_confidence == 0,
        r.message matches Some(m) && m@ == exhausted_message(max_attempts as nat),
        r.diagnostics matches Some(d) && d.page_url == page_url && d.final_confidence == last_confidence
            && d.reason@ == exhausted_reason(max_attempts as nat)
            && d.page_text_preview@ == page_text@.subrange(0, if page_text@.len() < 500 { page_text@.len() as int } else { 500 })
            && d.top_candidates@.len() == (if crate::pruner::pruned_indices(last_elements@, intent@, pruner.max_candidates as int, pruner.prioritize_clickable_and_inputs).len() < 10 {
                crate::pruner::pruned_indices(last_elements@, intent@, pruner.max_candidates as int, pruner.prioritize_clickable_and_inputs).len() as int
            } else {
                10
            })
            && forall|i: int| 0 <= i < d.top_candidates@.len() ==> (#[trigger] d.top_candidates@[i]).0@ == last_elements@[
                crate::pruner::pruned_indices(last_elements@, intent@, pruner.max_candidates as int, pruner.prioritize_clickable_and_inputs)[i]
            ].node_id@ && d.top_candidates@[i].1@ == crate::dom::spec_summary(last_elements@[
                crate::pruner::pruned_indices(last_elements@, intent@, pruner.max_candidates as int, pruner.prioritize_clickable_and_inputs)[i]
            ]@),
{
    let num = decimal_chars(max_attempts);
    let num_s = string_of(&num);
    let mut msg = String::from_str("Max attempts (");
    msg.append(num_s.as_str());
    msg.append(") exceeded without achieving expected outcome");
    let mut reason = String::from_str("快引擎置信度未达阈值或慢引擎仲裁失败，");
    reason.append(num_s.as_str());
    reason.append(" 次尝试后仍未达成预期");
    let tc = chars_of(page_text);
    let cut = if tc.len() < 500 { tc.len() } else { 500 };
    let preview_chars = slice_range(&tc, 0, cut);
    let preview = string_of(&preview_chars);
    let ranked = pruner.prune(last_elements, intent);
    let m = if ranked.len() < 10 { ranked.len() } else { 10 };
    let mut top: Vec<(String, String)> = Vec::new();
    let mut i: usize = 0;
    while i < m
        invariant
            m <= ranked@.len(),
            i <= m,
            top@.len() == i,
            forall|j: int| 0 <= j < i ==> (#[trigger] top@[j]).0@ == (*ranked@[j]).node_id@ && top@[j].1@ == crate::dom::spec_summary((*ranked@[j])@),
        decreases m - i,
    {
        let e = ranked[i];
        top.push((e.node_id.clone(), e.semantic_summary()));
        i += 1;
    }
    let diagnostics = FailureDiagnostics {
        page_url,
        page_text_preview: preview,
        final_confidence: last_confidence,
        top_candidates: top,
        reason,
    };
    let r = StepExecutionResult::failure(step_id, msg.as_str());
    r.with_diagnostics(diagnostics)
}

/// Every step result is a success.
pub open spec fn all_succeeded(s: Seq<StepExecutionResult>) -> bool {
    forall|i: int| 0 <= i < s.len() ==> (#[trigger] s[i]).success
}

/// Every step but possibly the last succeeded: the run stopped at its first failure.
pub open spec fn stops_at_failure(s: Seq<StepExecutionResult>) -> bool {
    forall|i: int| 0 <= i < s.len() - 1 ==> (#[trigger] s[i]).success
}

/// The results of the steps of a goal, run in order until one fails.
pub struct StepLog {
    results: Vec<StepExecutionResult>,
    overall_success: bool,
}

impl StepLog {
    #[verifier::type_invariant]
    closed spec fn wf(self) -> bool {
        &&& self.overall_success == all_succeeded(self.results@)
        &&& stops_at_failure(self.results@)
    }

    /// The results so far.
    pub closed spec fn results_view(&self) -> Seq<StepExecutionResult> {
        self.results@
    }

    /// No step run yet.
    pub fn new() -> (l: Self)
        ensures
            l.results_view().len() == 0,
    {
        StepLog { results: Vec::new(), overall_success: true }
    }

    /// Whether every step so far succeeded.
    pub fn overall_success(&self) -> (b: bool)
        ensures
            b == all_succeeded(self.results_view()),
    {
        proof {
            use_type_invariant(self);
        }
        self.overall_success
    }

    /// Records a step's result; the run goes on only after a success.
    pub fn push(&mut self, r: StepExecutionResult) -> (go_on: bool)
        requires
            all_succeeded(old(self).results_view()),
        ensures
            final(self).results_view() == old(self).results_view().push(r),
            go_on == r.success,
    {
        let ok = r.success;
        let mut log = StepLog::new();
        std::mem::swap(&mut log, self);
        proof {
            use_type_invariant(&log);
        }
        let StepLog { results, overall_success } = log;
        let mut results = results;
        let ghost before = results@;
        results.push(r);
        proof {
            assert(results@ =~= before.push(r));
            if overall_success && ok {
                assert forall|i: int| 0 <= i < results@.len() implies (#[trigger] results@[i]).success by {
                    if i < before.len() {
                        assert(before[i].success);
                    }
                }
            } else if !ok {
                assert(!results@[before.len() as int].success);
            } else {
                let j = choose|j: int| 0 <= j < before.len() && !(#[trigger] before[j]).success;
                assert(!results@[j].success);
            }
        }
        *self = StepLog { results, overall_success: overall_success && ok };
        ok
    }

    /// The results and whether every step succeeded.
    pub fn into_parts(self) -> (r: (Vec<StepExecutionResult>, bool))
        ensures
            r.0@ == self.results_view(),
            stops_at_failure(self.results_view()),
            r.1 == all_succeeded(self.results_view()),
    {
        proof {
            use_type_invariant(&self);
        }
        (self.results, self.overall_success)
    }

    /// The report of the goal: its steps, how long it took, and whether all succeeded.
    pub fn into_report(self, goal: &str, total_duration_ms: u64) -> (r: ExecutionReport)
        ensures
            r.goal@ == goal@,
            r.steps@ == self.results_view(),
            stops_at_failure(self.results_view()),
            r.total_duration_ms == total_duration_ms,
            r.overall_success == all_succeeded(self.results_view()),
    {
        proof {
            use_type_invariant(&self);
        }
        ExecutionReport {
            goal: String::from_str(goal),
            steps: self.results,
            total_duration_ms,
            overall_success: self.overall_success,
        }
    }
}

/// The outcome of a goal: an error unless every step succeeded.
pub fn goal_verdict(goal: &str, report: &ExecutionReport) -> (r: Result<(), String>)
    ensures
        report.overall_success ==> r is Ok,
        !report.overall_success ==> (r matches Err(m) && m@ == "Goal execution failed for goal '"@ + goal@
            + "'. Incomplete steps recorded."@),
{
    if report.overall_success {
        Ok(())
    } else {
        let mut m = String::from_str("Goal execution failed for goal '");
        m.append(goal);
        m.append("'. Incomplete steps recorded.");
        Err(m)
    }
}

/// The context a goal is planned in.
pub fn planning_context() -> (r: String)
    ensures
        r@ == "Browser ready"@,
{
    String::from_str("Browser ready")
}

} // verus!
