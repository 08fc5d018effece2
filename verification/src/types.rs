//! Canonical data of the framework: steps, decisions, actions, reports,
//! blocker and recovery classes, recovery verdicts and memory entries.
use vstd::prelude::*;
use vstd::string::*;
use crate::text::str_eq;

verus! {

/// A probability or confidence in basis points: `CONF_ONE` stands for 1.0.
pub type Confidence = u32;

/// The confidence 1.0.
pub const CONF_ONE: u32 = 10000;

/// A macro step planned by the slow engine.
#[derive(Debug)]
pub struct MacroStep {
    pub step_id: usize,
    pub intent: String,
    pub expected_outcome: String,
    /// `"visual"` (the default, probe based) or `"dom"` (a DOM change counts as success).
    pub assertion_type: Option<String>,
    /// Step-level confidence threshold overriding the global one.
    pub threshold: Option<Confidence>,
    /// Candidate hints narrowing the reflex scope.
    pub hint: Option<StepHint>,
}

/// Hints that narrow the candidates of a step.
#[derive(Debug)]
pub struct StepHint {
    /// Fuzzy text that weights candidates containing it.
    pub text: Option<String>,
    /// A CSS-like selector whose keywords filter candidates.
    pub selector: Option<String>,
}

pub open spec fn opt_view(o: Option<String>) -> Option<Seq<char>> {
    match o {
        Some(s) => Some(s@),
        None => None,
    }
}

pub fn clone_opt(o: &Option<String>) -> (r: Option<String>)
    ensures
        opt_view(r) == opt_view(*o),
{
    match o {
        Some(s) => Some(s.clone()),
        None => None,
    }
}

impl StepHint {
    pub fn duplicate(&self) -> (r: Self)
        ensures
            opt_view(r.text) == opt_view(self.text),
            opt_view(r.selector) == opt_view(self.selector),
    {
        StepHint { text: clone_opt(&self.text), selector: clone_opt(&self.selector) }
    }
}

/// The contents of a step hint.
pub open spec fn hint_view(h: Option<StepHint>) -> Option<(Option<Seq<char>>, Option<Seq<char>>)> {
    match h {
        Some(x) => Some((opt_view(x.text), opt_view(x.selector))),
        None => None,
    }
}

/// Two steps say the same thing.
pub open spec fn same_step(a: MacroStep, b: MacroStep) -> bool {
    &&& a.step_id == b.step_id
    &&& a.intent@ == b.intent@
    &&& a.expected_outcome@ == b.expected_outcome@
    &&& opt_view(a.assertion_type) == opt_view(b.assertion_type)
    &&& a.threshold == b.threshold
    &&& hint_view(a.hint) == hint_view(b.hint)
}

impl MacroStep {
    /// A copy of the step.
    pub fn duplicate(&self) -> (r: Self)
        ensures
            same_step(r, *self),
    {
        MacroStep {
            step_id: self.step_id,
            intent: self.intent.clone(),
            expected_outcome: self.expected_outcome.clone(),
            assertion_type: clone_opt(&self.assertion_type),
            threshold: self.threshold,
            hint: match &self.hint {
                Some(h) => Some(h.duplicate()),
                None => None,
            },
        }
    }

    pub fn new(step_id: usize, intent: &str, expected_outcome: &str) -> (r: Self)
        ensures
            r.step_id == step_id,
            r.intent@ == intent@,
            r.expected_outcome@ == expected_outcome@,
            r.assertion_type is None,
            r.threshold is None,
            r.hint is None,
    {
        MacroStep {
            step_id,
            intent: String::from_str(intent),
            expected_outcome: String::from_str(expected_outcome),
            assertion_type: None,
            threshold: None,
            hint: None,
        }
    }

    pub fn with_assertion_type(self, assertion_type: &str) -> (r: Self)
        ensures
            r.step_id == self.step_id,
            r.intent == self.intent,
            r.expected_outcome == self.expected_outcome,
            opt_view(r.assertion_type) == Some(assertion_type@),
            r.threshold == self.threshold,
            r.hint == self.hint,
    {
        let mut s = self;
        s.assertion_type = Some(String::from_str(assertion_type));
        s
    }

    pub fn with_threshold(self, threshold: Confidence) -> (r: Self)
        ensures
            r.step_id == self.step_id,
            r.intent == self.intent,
            r.expected_outcome == self.expected_outcome,
            r.assertion_type == self.assertion_type,
            r.threshold == Some(threshold),
            r.hint == self.hint,
    {
        let mut s = self;
        s.threshold = Some(threshold);
        s
    }

    pub fn with_hint(self, text: Option<String>, selector: Option<String>) -> (r: Self)
        ensures
            r.step_id == self.step_id,
            r.intent == self.intent,
            r.expected_outcome == self.expected_outcome,
            r.assertion_type == self.assertion_type,
            r.threshold == self.threshold,
            r.hint == Some(StepHint { text, selector }),
    {
        let mut s = self;
        s.hint = Some(StepHint { text, selector });
        s
    }
}

/// The primitive outputs of the fast engine.
#[derive(Debug, Clone, PartialEq, Eq)]
pub enum FastDecision {
    Choice { target_key: String, confidence: Confidence },
    Score { score: Confidence, confidence: Confidence },
    Probe { result: bool, probability: Confidence },
}

/// A primitive browser interaction.
#[derive(Debug, Clone, PartialEq, Eq)]
pub enum Action {
    Click { target_id: String },
    Fill { target_id: String, text: String },
    Scroll { x: i32, y: i32 },
    Wait { duration_ms: u64 },
    Navigate { url: String },
    Evaluate { script: String },
    /// A named custom action; `payload` is a JSON document as text.
    Custom { name: String, payload: String },
}

/// The contents of an action.
pub enum ActionView {
    Click { target_id: Seq<char> },
    Fill { target_id: Seq<char>, text: Seq<char> },
    Scroll { x: i32, y: i32 },
    Wait { duration_ms: u64 },
    Navigate { url: Seq<char> },
    Evaluate { script: Seq<char> },
    Custom { name: Seq<char>, payload: Seq<char> },
}

impl View for Action {
    type V = ActionView;

    open spec fn view(&self) -> ActionView {
        match self {
            Action::Click { target_id } => ActionView::Click { target_id: target_id@ },
            Action::Fill { target_id, text } => ActionView::Fill { target_id: target_id@, text: text@ },
            Action::Scroll { x, y } => ActionView::Scroll { x: *x, y: *y },
            Action::Wait { duration_ms } => ActionView::Wait { duration_ms: *duration_ms },
            Action::Navigate { url } => ActionView::Navigate { url: url@ },
            Action::Evaluate { script } => ActionView::Evaluate { script: script@ },
            Action::Custom { name, payload } => ActionView::Custom { name: name@, payload: payload@ },
        }
    }
}

pub open spec fn actions_view(v: Seq<Action>) -> Seq<ActionView> {
    v.map_values(|a: Action| a@)
}

impl Action {
    pub fn duplicate(&self) -> (r: Self)
        ensures
            r@ == self@,
    {
        match self {
            Action::Click { target_id } => Action::Click { target_id: target_id.clone() },
            Action::Fill { target_id, text } => Action::Fill { target_id: target_id.clone(), text: text.clone() },
            Action::Scroll { x, y } => Action::Scroll { x: *x, y: *y },
            Action::Wait { duration_ms } => Action::Wait { duration_ms: *duration_ms },
            Action::Navigate { url } => Action::Navigate { url: url.clone() },
            Action::Evaluate { script } => Action::Evaluate { script: script.clone() },
            Action::Custom { name, payload } => Action::Custom { name: name.clone(), payload: payload.clone() },
        }
    }
}

/// A snapshot of the page when a step fails: where it was, what it showed,
/// the last confidence and the best remaining candidates.
#[derive(Debug, Clone)]
pub struct FailureDiagnostics {
    pub page_url: String,
    pub page_text_preview: String,
    pub final_confidence: Confidence,
    /// `(node_id, semantic summary)` of the top candidates.
    pub top_candidates: Vec<(String, String)>,
    pub reason: String,
}

/// The outcome of one macro step.
#[derive(Debug)]
pub struct StepExecutionResult {
    pub step_id: usize,
    pub success: bool,
    pub actions_taken: Vec<Action>,
    pub final_confidence: Confidence,
    pub message: Option<String>,
    pub diagnostics: Option<FailureDiagnostics>,
}

impl StepExecutionResult {
    pub fn success(step_id: usize, confidence: Confidence, actions: Vec<Action>) -> (r: Self)
        ensures
            r.step_id == step_id,
            r.success,
            r.actions_taken == actions,
            r.final_confidence == confidence,
            r.message is None,
            r.diagnostics is None,
    {
        StepExecutionResult {
            step_id,
            success: true,
            actions_taken: actions,
            final_confidence: confidence,
            message: None,
            diagnostics: None,
        }
    }

    pub fn failure(step_id: usize, message: &str) -> (r: Self)
        ensures
            r.step_id == step_id,
            !r.success,
            r.actions_taken@.len() == 0,
            r.final_confidence == 0,
            opt_view(r.message) == Some(message@),
            r.diagnostics is None,
    {
        StepExecutionResult {
            step_id,
            success: false,
            actions_taken: Vec::new(),
            final_confidence: 0,
            message: Some(String::from_str(message)),
            diagnostics: None,
        }
    }

    /// Attaches a failure snapshot.
    pub fn with_diagnostics(self, diagnostics: FailureDiagnostics) -> (r: Self)
        ensures
            r.step_id == self.step_id,
            r.success == self.success,
            r.actions_taken == self.actions_taken,
            r.final_confidence == self.final_confidence,
            r.message == self.message,
            r.diagnostics == Some(diagnostics),
    {
        let mut s = self;
        s.diagnostics = Some(diagnostics);
        s
    }
}

/// The report of a whole goal.
#[derive(Debug)]
pub struct ExecutionReport {
    pub goal: String,
    pub steps: Vec<StepExecutionResult>,
    pub total_duration_ms: u64,
    pub overall_success: bool,
}

/// What blocks the page.
#[derive(Debug, Clone, Copy, PartialEq, Eq, Hash, Structural)]
pub enum BlockerClass {
    /// A marketing popup or mask layer.
    Overlay,
    /// The page or its data is still loading.
    Loading,
    /// Login or permission needed.
    Auth,
    /// A captcha challenge.
    Captcha,
    /// A paywall.
    Paywall,
    /// A stale element or an unresponsive page.
    Stale,
    /// Nothing blocks.
    Unblocked,
}

/// The classification keys of the blocker classes, in catalogue order.
pub open spec fn blocker_key(b: BlockerClass) -> Seq<char> {
    match b {
        BlockerClass::Overlay => "overlay"@,
        BlockerClass::Loading => "loading"@,
        BlockerClass::Auth => "auth"@,
        BlockerClass::Captcha => "captcha"@,
        BlockerClass::Paywall => "paywall"@,
        BlockerClass::Stale => "stale"@,
        BlockerClass::Unblocked => "none"@,
    }
}

/// The class whose key is `k`, or `BlockerClass::Unblocked` when no key matches.
pub open spec fn blocker_of_key(k: Seq<char>) -> BlockerClass {
    if k == "overlay"@ {
        BlockerClass::Overlay
    } else if k == "loading"@ {
        BlockerClass::Loading
    } else if k == "auth"@ {
        BlockerClass::Auth
    } else if k == "captcha"@ {
        BlockerClass::Captcha
    } else if k == "paywall"@ {
        BlockerClass::Paywall
    } else if k == "stale"@ {
        BlockerClass::Stale
    } else {
        BlockerClass::Unblocked
    }
}

impl BlockerClass {
    /// The full catalogue `(key, class, description)` used as choice criteria.
    pub fn all() -> (r: Vec<(&'static str, BlockerClass, &'static str)>)
        ensures
            r@.len() == 7,
            forall|i: int| 0 <= i < 7 ==> (#[trigger] r@[i]).0@ == blocker_key(r@[i].1),
            r@[0].1 == BlockerClass::Overlay,
            r@[1].1 == BlockerClass::Loading,
            r@[2].1 == BlockerClass::Auth,
            r@[3].1 == BlockerClass::Captcha,
            r@[4].1 == BlockerClass::Paywall,
            r@[5].1 == BlockerClass::Stale,
            r@[6].1 == BlockerClass::Unblocked,
    {
        let mut v = Vec::new();
        v.push(("overlay", BlockerClass::Overlay, "营销弹窗或遮罩层"));
        v.push(("loading", BlockerClass::Loading, "页面或数据仍在加载中"));
        v.push(("auth", BlockerClass::Auth, "需要登录或权限不足"));
        v.push(("captcha", BlockerClass::Captcha, "出现验证码挑战"));
        v.push(("paywall", BlockerClass::Paywall, "付费墙阻断内容"));
        v.push(("stale", BlockerClass::Stale, "元素过期或页面无响应"));
        v.push(("none", BlockerClass::Unblocked, "无任何阻塞"));
        v
    }

    /// The class named by a choice key; an unknown key means `None`.
    pub fn from_key(k: &str) -> (r: BlockerClass)
        ensures
            r == blocker_of_key(k@),
    {
        if str_eq(k, "overlay") {
            BlockerClass::Overlay
        } else if str_eq(k, "loading") {
            BlockerClass::Loading
        } else if str_eq(k, "auth") {
            BlockerClass::Auth
        } else if str_eq(k, "captcha") {
            BlockerClass::Captcha
        } else if str_eq(k, "paywall") {
            BlockerClass::Paywall
        } else if str_eq(k, "stale") {
            BlockerClass::Stale
        } else {
            BlockerClass::Unblocked
        }
    }
}

/// The kinds of recovery action.
#[derive(Debug, Clone, Copy, PartialEq, Eq, Hash, Structural)]
pub enum RecoveryKind {
    /// Retry the last action.
    Retry,
    /// Scroll to expose the element.
    Scroll,
    /// Wait for loading to finish.
    Wait,
    /// Reload the page.
    Refresh,
    /// Close a popup or mask.
    Dismiss,
    /// Go back one page.
    Back,
    /// Report to the slow engine.
    Escalate,
}

pub open spec fn recovery_key(k: RecoveryKind) -> Seq<char> {
    match k {
        RecoveryKind::Retry => "retry"@,
        RecoveryKind::Scroll => "scroll"@,
        RecoveryKind::Wait => "wait"@,
        RecoveryKind::Refresh => "refresh"@,
        RecoveryKind::Dismiss => "dismiss"@,
        RecoveryKind::Back => "back"@,
        RecoveryKind::Escalate => "escalate"@,
    }
}

/// The kind whose key is `k`, or `Escalate` when no key matches.
pub open spec fn recovery_of_key(k: Seq<char>) -> RecoveryKind {
    if k == "retry"@ {
        RecoveryKind::Retry
    } else if k == "scroll"@ {
        RecoveryKind::Scroll
    } else if k == "wait"@ {
        RecoveryKind::Wait
    } else if k == "refresh"@ {
        RecoveryKind::Refresh
    } else if k == "dismiss"@ {
        RecoveryKind::Dismiss
    } else if k == "back"@ {
        RecoveryKind::Back
    } else {
        RecoveryKind::Escalate
    }
}

impl RecoveryKind {
    pub fn all() -> (r: Vec<(&'static str, RecoveryKind, &'static str)>)
        ensures
            r@.len() == 7,
            forall|i: int| 0 <= i < 7 ==> (#[trigger] r@[i]).0@ == recovery_key(r@[i].1),
            r@[0].1 == RecoveryKind::Retry,
            r@[1].1 == RecoveryKind::Scroll,
            r@[2].1 == RecoveryKind::Wait,
            r@[3].1 == RecoveryKind::Refresh,
            r@[4].1 == RecoveryKind::Dismiss,
            r@[5].1 == RecoveryKind::Back,
            r@[6].1 == RecoveryKind::Escalate,
    {
        let mut v = Vec::new();
        v.push(("retry", RecoveryKind::Retry, "重试上一交互动作"));
        v.push(("scroll", RecoveryKind::Scroll, "滚动页面以暴露目标元素"));
        v.push(("wait", RecoveryKind::Wait, "等待页面加载完成"));
        v.push(("refresh", RecoveryKind::Refresh, "刷新当前页面"));
        v.push(("dismiss", RecoveryKind::Dismiss, "关闭弹窗或遮罩"));
        v.push(("back", RecoveryKind::Back, "后退到上一页面"));
        v.push(("escalate", RecoveryKind::Escalate, "无法自愈，上报慢引擎"));
        v
    }

    /// The kind named by a choice key; an unknown key means `Escalate`.
    pub fn from_key(k: &str) -> (r: RecoveryKind)
        ensures
            r == recovery_of_key(k@),
    {
        if str_eq(k, "retry") {
            RecoveryKind::Retry
        } else if str_eq(k, "scroll") {
            RecoveryKind::Scroll
        } else if str_eq(k, "wait") {
            RecoveryKind::Wait
        } else if str_eq(k, "refresh") {
            RecoveryKind::Refresh
        } else if str_eq(k, "dismiss") {
            RecoveryKind::Dismiss
        } else if str_eq(k, "back") {
            RecoveryKind::Back
        } else {
            RecoveryKind::Escalate
        }
    }
}

/// The full judgement of one recovery-graph inference.
#[derive(Debug)]
pub struct RecoveryVerdict {
    /// Contrastive goal-achieved judgement.
    pub achieved: (bool, Confidence),
    /// Contrastive blocked judgement.
    pub blocked: (bool, Confidence),
    pub blocker: (BlockerClass, Confidence),
    pub recovery: (RecoveryKind, Confidence),
    /// The interaction target, when there are candidates.
    pub target: Option<(String, Confidence)>,
    /// The target of the recovery action, when there are candidates.
    pub recovery_target: Option<(String, Confidence)>,
}

/// A contrastive memory entry: when a recovery applies, when it does not,
/// what to do and how often it worked.
#[derive(Debug)]
pub struct MemoryEntry {
    pub applicable_desc: String,
    pub inapplicable_desc: String,
    pub recovery: RecoveryKind,
    /// An element id or `"page"`.
    pub target: String,
    pub success_count: u32,
    pub failure_count: u32,
}

/// The success rate `s / (s + f)` in basis points, rounded down; zero when untried.
pub open spec fn rate_bp(s: u32, f: u32) -> int {
    if s + f == 0 {
        0
    } else {
        (s * (CONF_ONE as int)) / (s + f)
    }
}

/// The exact rate of `(s1, f1)` is below that of `(s2, f2)` (an untried entry has rate 0).
pub open spec fn rate_lt(s1: u32, f1: u32, s2: u32, f2: u32) -> bool {
    if s1 + f1 == 0 {
        s2 > 0
    } else if s2 + f2 == 0 {
        false
    } else {
        s1 * (s2 + f2) < s2 * (s1 + f1)
    }
}

impl MemoryEntry {
    /// The success rate in basis points.
    pub fn success_rate(&self) -> (r: Confidence)
        requires
            self.success_count + self.failure_count <= u32::MAX,
        ensures
            r == rate_bp(self.success_count, self.failure_count),
            r <= CONF_ONE,
    {
        let total: u64 = self.success_count as u64 + self.failure_count as u64;
        if total == 0 {
            return 0;
        }
        let num: u64 = self.success_count as u64 * 10000;
        proof {
            assert(self.success_count * 10000 <= total * 10000) by (nonlinear_arith)
                requires
                    self.success_count <= total,
            ;
            assert(num / total <= 10000) by (nonlinear_arith)
                requires
                    num <= total * 10000,
                    total > 0,
            ;
        }
        (num / total) as u32
    }

    /// Whether the entry worked at least half of the time.
    pub fn reliable(&self) -> (b: bool)
        ensures
            b == (self.success_count + self.failure_count > 0 && 2 * self.success_count >= self.success_count + self.failure_count),
    {
        let total: u64 = self.success_count as u64 + self.failure_count as u64;
        total > 0 && 2 * (self.success_count as u64) >= total
    }
}

/// Whether entry `a` has a strictly lower success rate than entry `b`.
pub fn rate_less(a: &MemoryEntry, b: &MemoryEntry) -> (r: bool)
    ensures
        r == rate_lt(a.success_count, a.failure_count, b.success_count, b.failure_count),
{
    let ta: u64 = a.success_count as u64 + a.failure_count as u64;
    let tb: u64 = b.success_count as u64 + b.failure_count as u64;
    if ta == 0 {
        b.success_count > 0
    } else if tb == 0 {
        false
    } else {
        let sa: u128 = a.success_count as u128;
        let sb: u128 = b.success_count as u128;
        proof {
            assert(sa * (tb as u128) <= 0xffff_ffff * 0x1_ffff_fffe) by (nonlinear_arith)
                requires sa <= 0xffff_ffff, tb <= 0x1_ffff_fffe;
            assert(sb * (ta as u128) <= 0xffff_ffff * 0x1_ffff_fffe) by (nonlinear_arith)
                requires sb <= 0xffff_ffff, ta <= 0x1_ffff_fffe;
        }
        sa * (tb as u128) < sb * (ta as u128)
    }
}

} // verus!
