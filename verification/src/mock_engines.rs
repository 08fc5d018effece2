//! In-memory fast and slow engines for unit tests and deterministic regression
//! runs: their answers are set beforehand, by default or by a fragment of the
//! instruction, assertion, goal or intent they are asked about.
use vstd::prelude::*;
use vstd::string::*;
use crate::dom::StrMap;
use crate::table::{first_key_in, lemma_first_key_in, lemma_map_insert, lemma_map_keys, map_vals, table_insert, FragmentTable};
use crate::types::{same_step, BlockerClass, Confidence, MacroStep, RecoveryKind, RecoveryVerdict};

verus! {

/// A choice answer's contents.
pub open spec fn choice_of(c: (String, Confidence)) -> (Seq<char>, Confidence) {
    (c.0@, c.1)
}

pub open spec fn opt_choice_of(o: Option<(String, Confidence)>) -> Option<(Seq<char>, Confidence)> {
    match o {
        Some(c) => Some(choice_of(c)),
        None => None,
    }
}

/// What a mock fast engine holds.
pub struct MockFastView {
    pub default_choice: Option<(Seq<char>, Confidence)>,
    pub default_probe: Option<(bool, Confidence)>,
    pub default_score: Option<(Confidence, Confidence)>,
    /// Choices by instruction fragment.
    pub choice_map: Seq<(Seq<char>, (Seq<char>, Confidence))>,
    /// Probe answers by assertion fragment.
    pub probe_map: Seq<(Seq<char>, (bool, Confidence))>,
    /// Scores by instruction fragment.
    pub score_map: Seq<(Seq<char>, (Confidence, Confidence))>,
    /// Probe answers handed out one per call, the last one repeated.
    pub probe_sequence: Seq<(bool, Confidence)>,
    pub probe_calls: usize,
    pub blocked_override: Option<(bool, Confidence)>,
    /// Blocked judgements handed out one per recovery graph, the last one repeated.
    pub blocked_sequence: Seq<(bool, Confidence)>,
    pub blocked_calls: usize,
    pub recovery_override: Option<(RecoveryKind, Confidence)>,
}

/// A mock fast engine.
pub struct MockFastEngine {
    default_choice: Option<(String, Confidence)>,
    default_probe: Option<(bool, Confidence)>,
    default_score: Option<(Confidence, Confidence)>,
    choice_map: FragmentTable<(String, Confidence)>,
    probe_map: FragmentTable<(bool, Confidence)>,
    score_map: FragmentTable<(Confidence, Confidence)>,
    probe_sequence: Vec<(bool, Confidence)>,
    probe_call_count: usize,
    blocked_override: Option<(bool, Confidence)>,
    blocked_sequence: Vec<(bool, Confidence)>,
    blocked_call_count: usize,
    recovery_override: Option<(RecoveryKind, Confidence)>,
}

impl View for MockFastEngine {
    type V = MockFastView;

    closed spec fn view(&self) -> MockFastView {
        MockFastView {
            default_choice: opt_choice_of(self.default_choice),
            default_probe: self.default_probe,
            default_score: self.default_score,
            choice_map: map_vals(self.choice_map@, |c: (String, Confidence)| choice_of(c)),
            probe_map: self.probe_map@,
            score_map: self.score_map@,
            probe_sequence: self.probe_sequence@,
            probe_calls: self.probe_call_count,
            blocked_override: self.blocked_override,
            blocked_sequence: self.blocked_sequence@,
            blocked_calls: self.blocked_call_count,
            recovery_override: self.recovery_override,
        }
    }
}

/// The answer of a sequence at a call: its element there, or its last one.
pub open spec fn sequence_answer(s: Seq<(bool, Confidence)>, call: int) -> (bool, Confidence) {
    if call < s.len() {
        s[call]
    } else {
        s.last()
    }
}

/// A call counter after one more call (it wraps around at the top).
pub open spec fn next_count(c: usize) -> usize {
    if c < usize::MAX {
        (c + 1) as usize
    } else {
        0
    }
}

/// The choice answered for an instruction: by the first fragment it contains,
/// else the default, else the first candidate key with confidence 0.90.
pub open spec fn choice_answer(v: MockFastView, instructions: Seq<char>, criteria: Seq<(Seq<char>, Seq<char>)>) -> (
    Seq<char>,
    Confidence,
) {
    match first_key_in(v.choice_map, instructions) {
        Some(i) => v.choice_map[i].1,
        None => match v.default_choice {
            Some(c) => c,
            None => (if criteria.len() > 0 { criteria[0].0 } else { Seq::<char>::empty() }, 9000),
        },
    }
}

/// The probe answered for an assertion: the sequence when there is one, else
/// by the first fragment it contains, else the default, else true at 0.95.
pub open spec fn probe_answer(v: MockFastView, assertion: Seq<char>) -> (bool, Confidence) {
    if v.probe_sequence.len() > 0 {
        sequence_answer(v.probe_sequence, v.probe_calls as int)
    } else {
        match first_key_in(v.probe_map, assertion) {
            Some(i) => v.probe_map[i].1,
            None => match v.default_probe {
                Some(p) => p,
                None => (true, 9500),
            },
        }
    }
}

/// The engine after answering a probe: a sequence advances by one call.
pub open spec fn after_probe(v: MockFastView) -> MockFastView {
    if v.probe_sequence.len() > 0 {
        MockFastView { probe_calls: next_count(v.probe_calls), ..v }
    } else {
        v
    }
}

/// The score answered for an instruction: by fragment, else the default, else 5 at 0.90.
pub open spec fn score_answer(v: MockFastView, instructions: Seq<char>) -> (Confidence, Confidence) {
    match first_key_in(v.score_map, instructions) {
        Some(i) => v.score_map[i].1,
        None => match v.default_score {
            Some(s) => s,
            None => (50000, 9000),
        },
    }
}

/// The blocked judgement of a recovery graph: the sequence when there is one,
/// else the one set, else not blocked at 0.95.
pub open spec fn blocked_answer(v: MockFastView) -> (bool, Confidence) {
    if v.blocked_sequence.len() > 0 {
        sequence_answer(v.blocked_sequence, v.blocked_calls as int)
    } else {
        match v.blocked_override {
            Some(b) => b,
            None => (false, 9500),
        }
    }
}

/// The instruction of the target choice of a recovery graph.
pub open spec fn target_instruction() -> Seq<char> {
    "哪个元素是推进当前任务目标最匹配的交互项？"@
}

/// The instruction of the recovery-target choice of a recovery graph.
pub open spec fn recovery_target_instruction() -> Seq<char> {
    "恢复动作（如关闭弹窗、解除遮罩）应作用于哪个元素？"@
}

fn copy_choice(c: &(String, Confidence)) -> (r: (String, Confidence))
    ensures
        choice_of(r) == choice_of(*c),
{
    (c.0.clone(), c.1)
}

impl MockFastEngine {
    /// An engine with nothing set: every answer is its fallback.
    pub fn new() -> (e: Self)
        ensures
            e@.default_choice is None,
            e@.default_probe is None,
            e@.default_score is None,
            e@.choice_map.len() == 0,
            e@.probe_map.len() == 0,
            e@.score_map.len() == 0,
            e@.probe_sequence.len() == 0,
            e@.probe_calls == 0,
            e@.blocked_override is None,
            e@.blocked_sequence.len() == 0,
            e@.blocked_calls == 0,
            e@.recovery_override is None,
    {
        let e = MockFastEngine {
            default_choice: None,
            default_probe: None,
            default_score: None,
            choice_map: FragmentTable::new(),
            probe_map: FragmentTable::new(),
            score_map: FragmentTable::new(),
            probe_sequence: Vec::new(),
            probe_call_count: 0,
            blocked_override: None,
            blocked_sequence: Vec::new(),
            blocked_call_count: 0,
            recovery_override: None,
        };
        e
    }

    pub fn with_choice(self, choice: &str, confidence: Confidence) -> (e: Self)
        ensures
            e@ == (MockFastView { default_choice: Some((choice@, confidence)), ..self@ }),
    {
        let mut e = self;
        e.set_default_choice(choice, confidence);
        e
    }

    pub fn with_probe(self, result: bool, probability: Confidence) -> (e: Self)
        ensures
            e@ == (MockFastView { default_probe: Some((result, probability)), ..self@ }),
    {
        let mut e = self;
        e.set_default_probe(result, probability);
        e
    }

    pub fn set_default_choice(&mut self, choice: &str, confidence: Confidence)
        ensures
            final(self)@ == (MockFastView { default_choice: Some((choice@, confidence)), ..old(self)@ }),
    {
        self.default_choice = Some((String::from_str(choice), confidence));
    }

    pub fn set_default_probe(&mut self, result: bool, probability: Confidence)
        ensures
            final(self)@ == (MockFastView { default_probe: Some((result, probability)), ..old(self)@ }),
    {
        self.default_probe = Some((result, probability));
    }

    pub fn set_default_score(&mut self, score: Confidence, confidence: Confidence)
        ensures
            final(self)@ == (MockFastView { default_score: Some((score, confidence)), ..old(self)@ }),
    {
        self.default_score = Some((score, confidence));
    }

    /// Answers `choice` to every instruction containing `instruction_substring`.
    pub fn map_choice_by_instruction(&mut self, instruction_substring: &str, choice: &str, confidence: Confidence)
        ensures
            final(self)@ == (MockFastView {
                choice_map: table_insert(old(self)@.choice_map, instruction_substring@, (choice@, confidence)),
                ..old(self)@
            }),
    {
        let v = (String::from_str(choice), confidence);
        proof {
            lemma_map_insert(self.choice_map@, |c: (String, Confidence)| choice_of(c), instruction_substring@, v);
        }
        self.choice_map.insert(instruction_substring, v);
    }

    /// Answers `(result, probability)` to every assertion containing `assertion_substring`.
    pub fn map_probe_by_assertion(&mut self, assertion_substring: &str, result: bool, probability: Confidence)
        ensures
            final(self)@ == (MockFastView {
                probe_map: table_insert(old(self)@.probe_map, assertion_substring@, (result, probability)),
                ..old(self)@
            }),
    {
        self.probe_map.insert(assertion_substring, (result, probability));
    }

    /// Hands out the probe answers in order (the call count is kept).
    pub fn with_probe_sequence(self, sequence: Vec<(bool, Confidence)>) -> (e: Self)
        ensures
            e@ == (MockFastView { probe_sequence: sequence@, ..self@ }),
    {
        let mut e = self;
        e.probe_sequence = sequence;
        e
    }

    /// Hands out the probe answers in order, from the first.
    pub fn set_probe_sequence(&mut self, sequence: Vec<(bool, Confidence)>)
        ensures
            final(self)@ == (MockFastView { probe_sequence: sequence@, probe_calls: 0, ..old(self)@ }),
    {
        self.probe_sequence = sequence;
        self.probe_call_count = 0;
    }

    /// The blocked judgement every recovery graph returns.
    pub fn set_blocked(&mut self, blocked: bool, confidence: Confidence)
        ensures
            final(self)@ == (MockFastView { blocked_override: Some((blocked, confidence)), ..old(self)@ }),
    {
        self.blocked_override = Some((blocked, confidence));
    }

    /// The recovery every recovery graph returns.
    pub fn set_recovery(&mut self, kind: RecoveryKind, confidence: Confidence)
        ensures
            final(self)@ == (MockFastView { recovery_override: Some((kind, confidence)), ..old(self)@ }),
    {
        self.recovery_override = Some((kind, confidence));
    }

    /// Hands out the blocked judgements in order, from the first.
    pub fn set_blocked_sequence(&mut self, sequence: Vec<(bool, Confidence)>)
        ensures
            final(self)@ == (MockFastView { blocked_sequence: sequence@, blocked_calls: 0, ..old(self)@ }),
    {
        self.blocked_sequence = sequence;
        self.blocked_call_count = 0;
    }

    /// Picks a candidate (see `choice_answer`).
    pub fn choice(&self, instructions: &str, criteria: &StrMap) -> (r: (String, Confidence))
        ensures
            choice_of(r) == choice_answer(self@, instructions@, criteria.view()),
    {
        proof {
            lemma_map_keys(self.choice_map@, |c: (String, Confidence)| choice_of(c), Seq::<char>::empty(), instructions@);
            lemma_first_key_in(self.choice_map@, instructions@);
        }
        match self.choice_map.lookup(instructions) {
            Some(c) => copy_choice(c),
            None => match &self.default_choice {
                Some(c) => copy_choice(c),
                None => {
                    if criteria.len() > 0 {
                        let (k, _) = criteria.entry(0);
                        (String::from_str(k), 9000)
                    } else {
                        (String::new(), 9000)
                    }
                },
            },
        }
    }

    /// Answers an assertion (see `probe_answer`); a sequence advances.
    pub fn probe(&mut self, assertion: &str) -> (r: (bool, Confidence))
        ensures
            r == probe_answer(old(self)@, assertion@),
            final(self)@ == after_probe(old(self)@),
    {
        if self.probe_sequence.len() > 0 {
            let idx = self.probe_call_count;
            self.probe_call_count = if idx < usize::MAX { idx + 1 } else { 0 };
            let n = self.probe_sequence.len();
            if idx < n {
                self.probe_sequence[idx]
            } else {
                self.probe_sequence[n - 1]
            }
        } else {
            match self.probe_map.lookup(assertion) {
                Some(p) => *p,
                None => match self.default_probe {
                    Some(p) => p,
                    None => (true, 9500),
                },
            }
        }
    }

    /// Scores an instruction (see `score_answer`).
    pub fn score(&self, instructions: &str) -> (r: (Confidence, Confidence))
        ensures
            r == score_answer(self@, instructions@),
    {
        match self.score_map.lookup(instructions) {
            Some(s) => *s,
            None => match self.default_score {
                Some(s) => s,
                None => (50000, 9000),
            },
        }
    }

    fn next_blocked(&mut self) -> (r: (bool, Confidence))
        ensures
            r == blocked_answer(old(self)@),
            final(self)@ == (if old(self)@.blocked_sequence.len() > 0 {
                MockFastView { blocked_calls: next_count(old(self)@.blocked_calls), ..old(self)@ }
            } else {
                old(self)@
            }),
    {
        if self.blocked_sequence.len() > 0 {
            let idx = self.blocked_call_count;
            self.blocked_call_count = if idx < usize::MAX { idx + 1 } else { 0 };
            let n = self.blocked_sequence.len();
            if idx < n {
                self.blocked_sequence[idx]
            } else {
                self.blocked_sequence[n - 1]
            }
        } else {
            match self.blocked_override {
                Some(b) => b,
                None => (false, 9500),
            }
        }
    }

    /// One recovery-graph judgement: achieved by a probe of the expected
    /// outcome, blocked by the blocked sequence or setting, no blocker class,
    /// the recovery set (retry at 0.90 by default), and the two target choices
    /// when there are candidates.
    pub fn recovery_graph(&mut self, expected_outcome: &str, criteria: &StrMap) -> (v: RecoveryVerdict)
        ensures
            v.achieved == probe_answer(old(self)@, expected_outcome@),
            v.blocked == blocked_answer(after_probe(old(self)@)),
            v.blocker == (BlockerClass::Unblocked, 9500u32),
            v.recovery == (match old(self)@.recovery_override {
                Some(r) => r,
                None => (RecoveryKind::Retry, 9000u32),
            }),
            criteria.view().len() == 0 ==> v.target is None && v.recovery_target is None,
            criteria.view().len() > 0 ==> opt_choice_of(v.target) == Some(
                choice_answer(old(self)@, target_instruction(), criteria.view()),
            ) && opt_choice_of(v.recovery_target) == Some(
                choice_answer(old(self)@, recovery_target_instruction(), criteria.view()),
            ),
            final(self)@ == (MockFastView {
                probe_calls: after_probe(old(self)@).probe_calls,
                blocked_calls: if old(self)@.blocked_sequence.len() > 0 {
                    next_count(old(self)@.blocked_calls)
                } else {
                    old(self)@.blocked_calls
                },
                ..old(self)@
            }),
    {
        let achieved = self.probe(expected_outcome);
        let blocked = self.next_blocked();
        let recovery = match self.recovery_override {
            Some(r) => r,
            None => (RecoveryKind::Retry, 9000),
        };
        let (target, recovery_target) = if criteria.len() == 0 {
            (None, None)
        } else {
            let t = self.choice("哪个元素是推进当前任务目标最匹配的交互项？", criteria);
            let rt = self.choice("恢复动作（如关闭弹窗、解除遮罩）应作用于哪个元素？", criteria);
            (Some(t), Some(rt))
        };
        RecoveryVerdict {
            achieved,
            blocked,
            blocker: (BlockerClass::Unblocked, 9500),
            recovery,
            target,
            recovery_target,
        }
    }

    /// A mock engine remembers nothing: no memory entry ever matches.
    pub fn match_memory(&self) -> (r: Option<(usize, Confidence)>)
        ensures
            r is None,
    {
        None
    }
}

// ---------------------------------------------------------------------------
// The slow engine
// ---------------------------------------------------------------------------

/// Two plans say the same thing.
pub open spec fn same_steps(a: Seq<MacroStep>, b: Seq<MacroStep>) -> bool {
    a.len() == b.len() && forall|i: int| 0 <= i < a.len() ==> same_step(#[trigger] a[i], b[i])
}

/// What a mock slow engine holds.
pub struct MockSlowView {
    pub default_steps: Seq<MacroStep>,
    /// Plans by goal fragment.
    pub plan_map: Seq<(Seq<char>, Seq<MacroStep>)>,
    pub default_arbitration: Seq<char>,
    /// Arbitrations by intent fragment.
    pub arbitration_map: Seq<(Seq<char>, Seq<char>)>,
}

/// A mock slow engine.
pub struct MockSlowEngine {
    default_steps: Vec<MacroStep>,
    plan_map: FragmentTable<Vec<MacroStep>>,
    default_arbitration: String,
    arbitration_map: FragmentTable<String>,
}

impl View for MockSlowEngine {
    type V = MockSlowView;

    closed spec fn view(&self) -> MockSlowView {
        MockSlowView {
            default_steps: self.default_steps@,
            plan_map: map_vals(self.plan_map@, |v: Vec<MacroStep>| v@),
            default_arbitration: self.default_arbitration@,
            arbitration_map: map_vals(self.arbitration_map@, |s: String| s@),
        }
    }
}

/// The arbitration for an intent: by the first fragment it contains, else the
/// default when one is set, else `btn-confirm`.
pub open spec fn arbitration_answer(v: MockSlowView, intent: Seq<char>) -> Seq<char> {
    match first_key_in(v.arbitration_map, intent) {
        Some(i) => v.arbitration_map[i].1,
        None => if v.default_arbitration.len() > 0 {
            v.default_arbitration
        } else {
            "btn-confirm"@
        },
    }
}

fn copy_steps(s: &Vec<MacroStep>) -> (r: Vec<MacroStep>)
    ensures
        same_steps(r@, s@),
{
    let mut out: Vec<MacroStep> = Vec::new();
    let mut i: usize = 0;
    while i < s.len()
        invariant
            i <= s@.len(),
            out@.len() == i,
            forall|j: int| 0 <= j < i ==> same_step(#[trigger] out@[j], s@[j]),
        decreases s@.len() - i,
    {
        out.push(s[i].duplicate());
        i += 1;
    }
    out
}

impl MockSlowEngine {
    /// An engine with nothing set.
    pub fn new() -> (e: Self)
        ensures
            e@.default_steps.len() == 0,
            e@.plan_map.len() == 0,
            e@.default_arbitration.len() == 0,
            e@.arbitration_map.len() == 0,
    {
        MockSlowEngine {
            default_steps: Vec::new(),
            plan_map: FragmentTable::new(),
            default_arbitration: String::new(),
            arbitration_map: FragmentTable::new(),
        }
    }

    pub fn with_steps(self, steps: Vec<MacroStep>) -> (e: Self)
        ensures
            e@ == (MockSlowView { default_steps: steps@, ..self@ }),
    {
        let mut e = self;
        e.set_default_steps(steps);
        e
    }

    /// The plan for goals that no fragment matches.
    pub fn set_default_steps(&mut self, steps: Vec<MacroStep>)
        ensures
            final(self)@ == (MockSlowView { default_steps: steps@, ..old(self)@ }),
    {
        self.default_steps = steps;
    }

    /// The plan for every goal containing `goal_substring`.
    pub fn map_plan(&mut self, goal_substring: &str, steps: Vec<MacroStep>)
        ensures
            final(self)@ == (MockSlowView {
                plan_map: table_insert(old(self)@.plan_map, goal_substring@, steps@),
                ..old(self)@
            }),
    {
        proof {
            lemma_map_insert(self.plan_map@, |v: Vec<MacroStep>| v@, goal_substring@, steps);
        }
        self.plan_map.insert(goal_substring, steps);
    }

    /// The arbitration for intents that no fragment matches.
    pub fn set_default_arbitration(&mut self, arbitration: &str)
        ensures
            final(self)@ == (MockSlowView { default_arbitration: arbitration@, ..old(self)@ }),
    {
        self.default_arbitration = String::from_str(arbitration);
    }

    /// The arbitration for every intent containing `intent_substring`.
    pub fn map_arbitration(&mut self, intent_substring: &str, arbitration: &str)
        ensures
            final(self)@ == (MockSlowView {
                arbitration_map: table_insert(old(self)@.arbitration_map, intent_substring@, arbitration@),
                ..old(self)@
            }),
    {
        let a = String::from_str(arbitration);
        proof {
            lemma_map_insert(self.arbitration_map@, |s: String| s@, intent_substring@, a);
        }
        self.arbitration_map.insert(intent_substring, a);
    }

    /// Plans a goal: the plan of the first fragment it contains, else the
    /// default plan when there is one, else the single step
    /// `(1, goal, "Target page state achieved")`.
    pub fn plan(&self, user_goal: &str) -> (r: Vec<MacroStep>)
        ensures
            match first_key_in(self@.plan_map, user_goal@) {
                Some(i) => same_steps(r@, self@.plan_map[i].1),
                None => if self@.default_steps.len() > 0 {
                    same_steps(r@, self@.default_steps)
                } else {
                    r@.len() == 1 && r@[0].step_id == 1 && r@[0].intent@ == user_goal@ && r@[0].expected_outcome@
                        == "Target page state achieved"@ && r@[0].assertion_type is None && r@[0].threshold is None
                        && r@[0].hint is None
                },
            },
    {
        proof {
            lemma_map_keys(self.plan_map@, |v: Vec<MacroStep>| v@, Seq::<char>::empty(), user_goal@);
            lemma_first_key_in(self.plan_map@, user_goal@);
        }
        match self.plan_map.lookup(user_goal) {
            Some(steps) => copy_steps(steps),
            None => {
                if self.default_steps.len() > 0 {
                    copy_steps(&self.default_steps)
                } else {
                    let mut v: Vec<MacroStep> = Vec::new();
                    v.push(MacroStep::new(1, user_goal, "Target page state achieved"));
                    v
                }
            },
        }
    }

    /// Arbitrates a stuck step (see `arbitration_answer`).
    pub fn arbitrate(&self, step_intent: &str) -> (r: String)
        ensures
            r@ == arbitration_answer(self@, step_intent@),
    {
        proof {
            lemma_map_keys(self.arbitration_map@, |s: String| s@, Seq::<char>::empty(), step_intent@);
            lemma_first_key_in(self.arbitration_map@, step_intent@);
        }
        match self.arbitration_map.lookup(step_intent) {
            Some(a) => a.clone(),
            None => {
                if self.default_arbitration.unicode_len() > 0 {
                    self.default_arbitration.clone()
                } else {
                    String::from_str("btn-confirm")
                }
            },
        }
    }
}

} // verus!
