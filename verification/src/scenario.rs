//! The declarative browser scenario language: scripts, steps, atomic actions,
//! variable interpolation, node location, and what each action does.
use vstd::prelude::*;
use vstd::string::*;
use crate::dom::{lookup, DOMElementNode, NodeView, StrMap};
use crate::supervisor::{json_literal, json_quote, strip_trailing};
use crate::text::{
    chars_of, contains, contains_chars, replace_all, replace_chars, slice_range, str_contains, str_eq,
    string_of, trim, trim_chars,
};

verus! {

/// A form fill: where and what.
#[derive(Debug, Clone)]
pub struct FillAction {
    pub target: String,
    pub value: String,
}

/// An atomic browser action of a scenario.
#[derive(Debug, Clone)]
pub enum ScenarioAction {
    Navigate { navigate: String },
    /// Click by CSS selector, text, placeholder or id.
    Click { click: String },
    Fill { fill: FillAction },
    Hover { hover: String },
    Clear { clear: String },
    /// A key such as "Enter", "Tab", "Escape".
    PressKey { press_key: String },
    /// Wait until an element or text appears.
    WaitFor { wait_for: String },
    Sleep { sleep: u64 },
    Evaluate { evaluate: String },
    AssertText { assert_text: String },
    AssertNotText { assert_not_text: String },
    AssertExists { assert_exists: String },
    AssertNotExists { assert_not_exists: String },
    AssertTitle { assert_title: String },
    AssertUrl { assert_url: String },
    BustOverlays { bust_overlays: bool },
    Screenshot { screenshot: Option<String> },
}

/// A named step: its actions, then the flat shortcut fields.
#[derive(Debug, Clone)]
pub struct ScenarioStep {
    pub name: String,
    pub actions: Vec<ScenarioAction>,
    pub navigate: Option<String>,
    pub click: Option<String>,
    pub fill: Option<FillAction>,
    pub wait_for: Option<String>,
    pub assert_text: Option<String>,
    pub assert_exists: Option<String>,
    pub sleep_ms: Option<u64>,
}

/// A browser operation scenario.
#[derive(Debug, Clone)]
pub struct Scenario {
    pub version: String,
    pub name: String,
    pub description: Option<String>,
    pub base_url: Option<String>,
    /// Variables substituted for `${name}` in action arguments.
    pub variables: StrMap,
    pub steps: Vec<ScenarioStep>,
}

#[derive(Debug, Clone)]
pub struct StepResult {
    pub step_name: String,
    pub success: bool,
    pub elapsed_ms: u128,
    pub error: Option<String>,
}

#[derive(Debug, Clone)]
pub struct ScenarioReport {
    pub scenario_name: String,
    pub total_steps: usize,
    pub passed_steps: usize,
    pub failed_steps: usize,
    pub elapsed_ms: u128,
    pub step_results: Vec<StepResult>,
}

/// The default scenario version.
pub fn default_version() -> (r: String)
    ensures
        r@ == "1.0"@,
{
    String::from_str("1.0")
}

/// The step navigates first: a `navigate` shortcut or a leading navigate action.
pub open spec fn step_navigates(s: ScenarioStep) -> bool {
    s.navigate is Some || (s.actions@.len() > 0 && s.actions@[0] is Navigate)
}

/// The base URL to open before the steps: only when the first step does not navigate itself.
pub fn initial_navigation(scenario: &Scenario) -> (r: Option<&str>)
    ensures
        match scenario.base_url {
            Some(b) => if scenario.steps@.len() > 0 && step_navigates(scenario.steps@[0]) {
                r is None
            } else {
                r matches Some(u) && u@ == b@
            },
            None => r is None,
        },
{
    match &scenario.base_url {
        Some(b) => {
            let navigates = if scenario.steps.len() > 0 {
                let s = &scenario.steps[0];
                s.navigate.is_some() || (s.actions.len() > 0 && matches!(s.actions[0], ScenarioAction::Navigate { .. }))
            } else {
                false
            };
            if navigates {
                None
            } else {
                Some(b.as_str())
            }
        },
        None => None,
    }
}

/// Appends the element when there is one.
pub open spec fn then_opt(acc: Seq<ScenarioAction>, o: Option<ScenarioAction>) -> Seq<ScenarioAction> {
    match o {
        Some(a) => acc.push(a),
        None => acc,
    }
}

/// Everything a step performs: its action list, then its shortcuts in the
/// order navigate, fill, click, wait, text assertion, existence assertion, sleep.
pub open spec fn all_actions(s: ScenarioStep) -> Seq<ScenarioAction> {
    let a1 = then_opt(s.actions@, match s.navigate {
        Some(n) => Some(ScenarioAction::Navigate { navigate: n }),
        None => None,
    });
    let a2 = then_opt(a1, match s.fill {
        Some(f) => Some(ScenarioAction::Fill { fill: f }),
        None => None,
    });
    let a3 = then_opt(a2, match s.click {
        Some(c) => Some(ScenarioAction::Click { click: c }),
        None => None,
    });
    let a4 = then_opt(a3, match s.wait_for {
        Some(w) => Some(ScenarioAction::WaitFor { wait_for: w }),
        None => None,
    });
    let a5 = then_opt(a4, match s.assert_text {
        Some(t) => Some(ScenarioAction::AssertText { assert_text: t }),
        None => None,
    });
    let a6 = then_opt(a5, match s.assert_exists {
        Some(e) => Some(ScenarioAction::AssertExists { assert_exists: e }),
        None => None,
    });
    then_opt(a6, match s.sleep_ms {
        Some(ms) => Some(ScenarioAction::Sleep { sleep: ms }),
        None => None,
    })
}

/// The kind of an action, independent of its strings.
pub open spec fn kind_of(a: ScenarioAction) -> int {
    match a {
        ScenarioAction::Navigate { .. } => 0,
        ScenarioAction::Click { .. } => 1,
        ScenarioAction::Fill { .. } => 2,
        ScenarioAction::Hover { .. } => 3,
        ScenarioAction::Clear { .. } => 4,
        ScenarioAction::PressKey { .. } => 5,
        ScenarioAction::WaitFor { .. } => 6,
        ScenarioAction::Sleep { .. } => 7,
        ScenarioAction::Evaluate { .. } => 8,
        ScenarioAction::AssertText { .. } => 9,
        ScenarioAction::AssertNotText { .. } => 10,
        ScenarioAction::AssertExists { .. } => 11,
        ScenarioAction::AssertNotExists { .. } => 12,
        ScenarioAction::AssertTitle { .. } => 13,
        ScenarioAction::AssertUrl { .. } => 14,
        ScenarioAction::BustOverlays { .. } => 15,
        ScenarioAction::Screenshot { .. } => 16,
    }
}

/// The main argument of an action as text (empty for sleeps, overlay busting and screenshots).
pub open spec fn arg_of(a: ScenarioAction) -> Seq<char> {
    match a {
        ScenarioAction::Navigate { navigate } => navigate@,
        ScenarioAction::Click { click } => click@,
        ScenarioAction::Fill { fill } => fill.target@,
        ScenarioAction::Hover { hover } => hover@,
        ScenarioAction::Clear { clear } => clear@,
        ScenarioAction::PressKey { press_key } => press_key@,
        ScenarioAction::WaitFor { wait_for } => wait_for@,
        ScenarioAction::Evaluate { evaluate } => evaluate@,
        ScenarioAction::AssertText { assert_text } => assert_text@,
        ScenarioAction::AssertNotText { assert_not_text } => assert_not_text@,
        ScenarioAction::AssertExists { assert_exists } => assert_exists@,
        ScenarioAction::AssertNotExists { assert_not_exists } => assert_not_exists@,
        ScenarioAction::AssertTitle { assert_title } => assert_title@,
        ScenarioAction::AssertUrl { assert_url } => assert_url@,
        _ => Seq::<char>::empty(),
    }
}

/// Two actions say the same thing.
pub open spec fn same_action(a: ScenarioAction, b: ScenarioAction) -> bool {
    &&& kind_of(a) == kind_of(b)
    &&& arg_of(a) == arg_of(b)
    &&& (a matches ScenarioAction::Fill { fill: fa } ==> b matches ScenarioAction::Fill { fill: fb } && fa.value@ == fb.value@)
    &&& (a matches ScenarioAction::Sleep { sleep: x } ==> b matches ScenarioAction::Sleep { sleep: y } && x == y)
    &&& (a matches ScenarioAction::BustOverlays { bust_overlays: x } ==> b matches ScenarioAction::BustOverlays {
        bust_overlays: y,
    } && x == y)
    &&& (a matches ScenarioAction::Screenshot { screenshot: x } ==> b matches ScenarioAction::Screenshot {
        screenshot: y,
    } && crate::types::opt_view(x) == crate::types::opt_view(y))
}

pub open spec fn same_actions(a: Seq<ScenarioAction>, b: Seq<ScenarioAction>) -> bool {
    a.len() == b.len() && forall|i: int| 0 <= i < a.len() ==> same_action(#[trigger] a[i], b[i])
}

fn copy_fill(f: &FillAction) -> (r: FillAction)
    ensures
        r.target@ == f.target@,
        r.value@ == f.value@,
{
    FillAction { target: f.target.clone(), value: f.value.clone() }
}

fn copy_action(a: &ScenarioAction) -> (r: ScenarioAction)
    ensures
        same_action(*a, r),
{
    match a {
        ScenarioAction::Navigate { navigate } => ScenarioAction::Navigate { navigate: navigate.clone() },
        ScenarioAction::Click { click } => ScenarioAction::Click { click: click.clone() },
        ScenarioAction::Fill { fill } => ScenarioAction::Fill { fill: copy_fill(fill) },
        ScenarioAction::Hover { hover } => ScenarioAction::Hover { hover: hover.clone() },
        ScenarioAction::Clear { clear } => ScenarioAction::Clear { clear: clear.clone() },
        ScenarioAction::PressKey { press_key } => ScenarioAction::PressKey { press_key: press_key.clone() },
        ScenarioAction::WaitFor { wait_for } => ScenarioAction::WaitFor { wait_for: wait_for.clone() },
        ScenarioAction::Sleep { sleep } => ScenarioAction::Sleep { sleep: *sleep },
        ScenarioAction::Evaluate { evaluate } => ScenarioAction::Evaluate { evaluate: evaluate.clone() },
        ScenarioAction::AssertText { assert_text } => ScenarioAction::AssertText { assert_text: assert_text.clone() },
        ScenarioAction::AssertNotText { assert_not_text } => ScenarioAction::AssertNotText {
            assert_not_text: assert_not_text.clone(),
        },
        ScenarioAction::AssertExists { assert_exists } => ScenarioAction::AssertExists {
            assert_exists: assert_exists.clone(),
        },
        ScenarioAction::AssertNotExists { assert_not_exists } => ScenarioAction::AssertNotExists {
            assert_not_exists: assert_not_exists.clone(),
        },
        ScenarioAction::AssertTitle { assert_title } => ScenarioAction::AssertTitle { assert_title: assert_title.clone() },
        ScenarioAction::AssertUrl { assert_url } => ScenarioAction::AssertUrl { assert_url: assert_url.clone() },
        ScenarioAction::BustOverlays { bust_overlays } => ScenarioAction::BustOverlays { bust_overlays: *bust_overlays },
        ScenarioAction::Screenshot { screenshot } => ScenarioAction::Screenshot {
            screenshot: crate::types::clone_opt(screenshot),
        },
    }
}

proof fn lemma_same_push(a: Seq<ScenarioAction>, b: Seq<ScenarioAction>, x: ScenarioAction, y: ScenarioAction)
    requires
        same_actions(a, b),
        same_action(x, y),
    ensures
        same_actions(a.push(x), b.push(y)),
{
    assert forall|i: int| 0 <= i < a.len() + 1 implies same_action(#[trigger] a.push(x)[i], b.push(y)[i]) by {
        if i < a.len() {
            assert(a.push(x)[i] == a[i]);
            assert(b.push(y)[i] == b[i]);
        }
    }
}

fn copy_actions(src: &Vec<ScenarioAction>) -> (r: Vec<ScenarioAction>)
    ensures
        same_actions(r@, src@),
{
    let mut out: Vec<ScenarioAction> = Vec::new();
    let mut i: usize = 0;
    while i < src.len()
        invariant
            i <= src@.len(),
            same_actions(out@, src@.subrange(0, i as int)),
        decreases src@.len() - i,
    {
        let a = copy_action(&src[i]);
        proof {
            lemma_same_push(out@, src@.subrange(0, i as int), a, src@[i as int]);
            assert(src@.subrange(0, i as int).push(src@[i as int]) =~= src@.subrange(0, i + 1));
        }
        out.push(a);
        i += 1;
    }
    assert(src@.subrange(0, src@.len() as int) =~= src@);
    out
}

/// The actions a step performs: its action list followed by its shortcuts;
/// a step with none at all is an error.
pub fn step_actions(step: &ScenarioStep) -> (r: Result<Vec<ScenarioAction>, String>)
    ensures
        match r {
            Ok(v) => v@.len() > 0 && same_actions(v@, all_actions(*step)),
            Err(m) => all_actions(*step).len() == 0 && m@ == "步骤 '"@ + step.name@ + "' 未定义任何动作"@,
        },
{
    let mut out = copy_actions(&step.actions);
    let ghost mut acc = step.actions@;
    if let Some(nav) = &step.navigate {
        let a = ScenarioAction::Navigate { navigate: nav.clone() };
        proof {
            lemma_same_push(out@, acc, a, ScenarioAction::Navigate { navigate: *nav });
            acc = acc.push(ScenarioAction::Navigate { navigate: *nav });
        }
        out.push(a);
    }
    if let Some(fill) = &step.fill {
        let a = ScenarioAction::Fill { fill: copy_fill(fill) };
        proof {
            lemma_same_push(out@, acc, a, ScenarioAction::Fill { fill: *fill });
            acc = acc.push(ScenarioAction::Fill { fill: *fill });
        }
        out.push(a);
    }
    if let Some(c) = &step.click {
        let a = ScenarioAction::Click { click: c.clone() };
        proof {
            lemma_same_push(out@, acc, a, ScenarioAction::Click { click: *c });
            acc = acc.push(ScenarioAction::Click { click: *c });
        }
        out.push(a);
    }
    if let Some(w) = &step.wait_for {
        let a = ScenarioAction::WaitFor { wait_for: w.clone() };
        proof {
            lemma_same_push(out@, acc, a, ScenarioAction::WaitFor { wait_for: *w });
            acc = acc.push(ScenarioAction::WaitFor { wait_for: *w });
        }
        out.push(a);
    }
    if let Some(t) = &step.assert_text {
        let a = ScenarioAction::AssertText { assert_text: t.clone() };
        proof {
            lemma_same_push(out@, acc, a, ScenarioAction::AssertText { assert_text: *t });
            acc = acc.push(ScenarioAction::AssertText { assert_text: *t });
        }
        out.push(a);
    }
    if let Some(e) = &step.assert_exists {
        let a = ScenarioAction::AssertExists { assert_exists: e.clone() };
        proof {
            lemma_same_push(out@, acc, a, ScenarioAction::AssertExists { assert_exists: *e });
            acc = acc.push(ScenarioAction::AssertExists { assert_exists: *e });
        }
        out.push(a);
    }
    if let Some(ms) = step.sleep_ms {
        let a = ScenarioAction::Sleep { sleep: ms };
        proof {
            lemma_same_push(out@, acc, a, ScenarioAction::Sleep { sleep: ms });
            acc = acc.push(ScenarioAction::Sleep { sleep: ms });
        }
        out.push(a);
    }
    assert(acc == all_actions(*step));
    if out.len() == 0 {
        let mut m = String::from_str("步骤 '");
        m.append(step.name.as_str());
        m.append("' 未定义任何动作");
        return Err(m);
    }
    Ok(out)
}

/// `${name}` for a variable name.
pub open spec fn placeholder_of(k: Seq<char>) -> Seq<char> {
    "${"@ + k + "}"@
}

/// Substitutes the variables one after the other, in map order.
pub open spec fn substitute(s: Seq<char>, vars: Seq<(Seq<char>, Seq<char>)>) -> Seq<char>
    decreases vars.len(),
{
    if vars.len() == 0 {
        s
    } else {
        replace_all(substitute(s, vars.drop_last()), placeholder_of(vars.last().0), vars.last().1)
    }
}

/// Interpolation: `${base_url}` becomes the base URL without trailing slashes,
/// then every `${name}` becomes its variable's value.
pub open spec fn interpolated(input: Seq<char>, vars: Seq<(Seq<char>, Seq<char>)>, base: Option<Seq<char>>) -> Seq<char> {
    let b = match base {
        Some(b) => replace_all(input, "${base_url}"@, strip_trailing(b, seq!['/'])),
        None => input,
    };
    substitute(b, vars)
}

pub open spec fn opt_str(o: Option<&str>) -> Option<Seq<char>> {
    match o {
        Some(s) => Some(s@),
        None => None,
    }
}

fn strip_trailing_slashes(s: &str) -> (r: Vec<char>)
    ensures
        r@ == strip_trailing(s@, seq!['/']),
{
    let c = chars_of(s);
    let slash = vec!['/'];
    assert(slash@ =~= seq!['/']);
    crate::supervisor::strip_trailing_chars(&c, &slash)
}

pub fn interpolate(input: &str, variables: &StrMap, base_url: Option<&str>) -> (r: String)
    ensures
        r@ == interpolated(input@, variables.view(), opt_str(base_url)),
{
    let mut cur = chars_of(input);
    match base_url {
        Some(b) => {
            let pat = chars_of("${base_url}");
            proof {
                reveal_strlit("${base_url}");
            }
            let rep = strip_trailing_slashes(b);
            cur = replace_chars(&cur, &pat, &rep);
        },
        None => {},
    }
    let ghost start = cur@;
    let n = variables.len();
    let mut i: usize = 0;
    while i < n
        invariant
            n == variables.view().len(),
            i <= n,
            cur@ == substitute(start, variables.view().subrange(0, i as int)),
        decreases n - i,
    {
        let (k, v) = variables.entry(i);
        let mut p = chars_of("${");
        let kc = chars_of(k);
        crate::text::push_all(&mut p, &kc);
        p.push('}');
        proof {
            reveal_strlit("${");
            reveal_strlit("}");
            assert(p@ =~= placeholder_of(k@));
            let t = variables.view().subrange(0, i + 1);
            assert(t.drop_last() =~= variables.view().subrange(0, i as int));
            assert(t.last() == variables.view()[i as int]);
        }
        let vc = chars_of(v);
        cur = replace_chars(&cur, &p, &vc);
        i += 1;
    }
    assert(variables.view().subrange(0, n as int) =~= variables.view());
    string_of(&cur)
}

/// A navigation target beginning with `/` is resolved against the base URL.
pub open spec fn resolved_url(url: Seq<char>, base: Option<Seq<char>>) -> Seq<char> {
    if url.len() > 0 && url[0] == '/' {
        match base {
            Some(b) => strip_trailing(b, seq!['/']) + url,
            None => url,
        }
    } else {
        url
    }
}

pub fn resolve_url(url: String, base_url: Option<&str>) -> (r: String)
    ensures
        r@ == resolved_url(url@, opt_str(base_url)),
{
    let u = chars_of(url.as_str());
    if u.len() > 0 && u[0] == '/' {
        match base_url {
            Some(b) => {
                let mut bc = strip_trailing_slashes(b);
                crate::text::push_all(&mut bc, &u);
                string_of(&bc)
            },
            None => url,
        }
    } else {
        url
    }
}

/// How a target names a node, in order of preference.
pub open spec fn by_id(n: NodeView, t: Seq<char>) -> bool {
    n.node_id == t
}

pub open spec fn by_text(n: NodeView, t: Seq<char>) -> bool {
    trim(n.text) == t
}

pub open spec fn by_placeholder(n: NodeView, t: Seq<char>) -> bool {
    match lookup(n.attrs, "placeholder"@) {
        Some(p) => trim(p) == t,
        None => false,
    }
}

pub open spec fn by_text_part(n: NodeView, t: Seq<char>) -> bool {
    contains(n.text, t)
}

pub open spec fn by_placeholder_part(n: NodeView, t: Seq<char>) -> bool {
    match lookup(n.attrs, "placeholder"@) {
        Some(p) => contains(p, t),
        None => false,
    }
}

pub open spec fn matches_rule(n: NodeView, t: Seq<char>, rule: int) -> bool {
    if rule == 0 {
        by_id(n, t)
    } else if rule == 1 {
        by_text(n, t)
    } else if rule == 2 {
        by_placeholder(n, t)
    } else if rule == 3 {
        by_text_part(n, t)
    } else {
        by_placeholder_part(n, t)
    }
}

/// Node `k` is the first that the rule accepts.
pub open spec fn first_at(es: Seq<DOMElementNode>, t: Seq<char>, rule: int, k: int) -> bool {
    &&& 0 <= k < es.len()
    &&& matches_rule(es[k]@, t, rule)
    &&& forall|j: int| 0 <= j < k ==> !matches_rule(#[trigger] es[j]@, t, rule)
}

#[verifier::opaque]
pub open spec fn first_match(es: Seq<DOMElementNode>, t: Seq<char>, rule: int) -> Option<int> {
    if exists|i: int| 0 <= i < es.len() && matches_rule(#[trigger] es[i]@, t, rule) {
        Some(choose|k: int| first_at(es, t, rule, k))
    } else {
        None
    }
}

/// The node a target names: by exact id, exact text, exact placeholder, text
/// containment, then placeholder containment (the first rule with a match wins,
/// the first node within it).
pub open spec fn located(es: Seq<DOMElementNode>, target: Seq<char>) -> Option<int> {
    let t = trim(target);
    match first_match(es, t, 0) {
        Some(i) => Some(i),
        None => match first_match(es, t, 1) {
            Some(i) => Some(i),
            None => match first_match(es, t, 2) {
                Some(i) => Some(i),
                None => match first_match(es, t, 3) {
                    Some(i) => Some(i),
                    None => first_match(es, t, 4),
                },
            },
        },
    }
}

fn rule_holds(e: &DOMElementNode, t: &Vec<char>, rule: u8) -> (b: bool)
    requires
        rule < 5,
    ensures
        b == matches_rule(e@, t@, rule as int),
{
    if rule == 0 {
        let id = chars_of(e.node_id.as_str());
        crate::text::chars_eq(&id, t)
    } else if rule == 1 {
        let tc = chars_of(e.text.as_str());
        let tt = trim_chars(&tc);
        crate::text::chars_eq(&tt, t)
    } else if rule == 2 {
        match e.get_attribute("placeholder") {
            Some(p) => {
                let pc = chars_of(p);
                let pt = trim_chars(&pc);
                crate::text::chars_eq(&pt, t)
            },
            None => false,
        }
    } else if rule == 3 {
        let tc = chars_of(e.text.as_str());
        contains_chars(&tc, t)
    } else {
        match e.get_attribute("placeholder") {
            Some(p) => {
                let pc = chars_of(p);
                contains_chars(&pc, t)
            },
            None => false,
        }
    }
}

fn first_by_rule(es: &[DOMElementNode], t: &Vec<char>, rule: u8) -> (r: Option<usize>)
    requires
        rule < 5,
    ensures
        match first_match(es@, t@, rule as int) {
            Some(i) => r matches Some(k) && k == i,
            None => r is None,
        },
        r matches Some(k) ==> k < es@.len(),
{
    let mut i: usize = 0;
    while i < es.len()
        invariant
            rule < 5,
            i <= es@.len(),
            forall|j: int| 0 <= j < i ==> !matches_rule(es@[j]@, t@, rule as int),
        decreases es@.len() - i,
    {
        if rule_holds(&es[i], t, rule) {
            proof {
                assert(first_at(es@, t@, rule as int, i as int));
                let w = choose|k: int| first_at(es@, t@, rule as int, k);
                assert(first_at(es@, t@, rule as int, w));
                if w < i {
                    assert(!matches_rule(es@[w]@, t@, rule as int));
                } else if w > i {
                    assert(!matches_rule(es@[i as int]@, t@, rule as int));
                }
                reveal(first_match);
            }
            return Some(i);
        }
        i += 1;
    }
    proof {
        reveal(first_match);
    }
    None
}

proof fn lemma_first_match_at(es: Seq<DOMElementNode>, t: Seq<char>, rule: int, k: int)
    requires
        first_at(es, t, rule, k),
    ensures
        first_match(es, t, rule) == Some(k),
{
    reveal(first_match);
    assert(matches_rule(es[k]@, t, rule));
    let c = choose|c: int| first_at(es, t, rule, c);
    assert(first_at(es, t, rule, c));
    if c < k {
        assert(!matches_rule(es[c]@, t, rule));
    } else if c > k {
        assert(!matches_rule(es[k]@, t, rule));
    }
}

proof fn lemma_first_match_none(es: Seq<DOMElementNode>, t: Seq<char>, rule: int)
    requires
        forall|j: int| 0 <= j < es.len() ==> !matches_rule(#[trigger] es[j]@, t, rule),
    ensures
        first_match(es, t, rule) is None,
{
    reveal(first_match);
}

proof fn lemma_first_exists(es: Seq<DOMElementNode>, t: Seq<char>, rule: int, i: int)
    requires
        0 <= i < es.len(),
        matches_rule(es[i]@, t, rule),
    ensures
        exists|k: int| first_at(es, t, rule, k),
    decreases i,
{
    if exists|j: int| 0 <= j < i && matches_rule(#[trigger] es[j]@, t, rule) {
        let j = choose|j: int| 0 <= j < i && matches_rule(#[trigger] es[j]@, t, rule);
        lemma_first_exists(es, t, rule, j);
    } else {
        assert(first_at(es, t, rule, i));
    }
}

/// Location order: a node whose id is the trimmed target is named first (the
/// first such node); without one, the first node whose trimmed text is the
/// target is named, before any placeholder or partial match; and a node found
/// by an exact text never precedes an earlier node with the same text.
pub proof fn law_locate_exact_first(es: Seq<DOMElementNode>, target: Seq<char>)
    ensures
        (exists|i: int| 0 <= i < es.len() && (#[trigger] es[i])@.node_id == trim(target)) ==> (located(es, target) matches Some(
            k,
        ) && 0 <= k < es.len() && es[k]@.node_id == trim(target) && forall|j: int|
            0 <= j < k ==> (#[trigger] es[j])@.node_id != trim(target)),
        ((forall|j: int| 0 <= j < es.len() ==> (#[trigger] es[j])@.node_id != trim(target)) && exists|i: int|
            0 <= i < es.len() && trim((#[trigger] es[i])@.text) == trim(target)) ==> (located(es, target) matches Some(k)
            && 0 <= k < es.len() && trim(es[k]@.text) == trim(target) && forall|j: int|
            0 <= j < k ==> trim((#[trigger] es[j])@.text) != trim(target)),
{
    let t = trim(target);
    if exists|i: int| 0 <= i < es.len() && (#[trigger] es[i])@.node_id == t {
        let i = choose|i: int| 0 <= i < es.len() && (#[trigger] es[i])@.node_id == t;
        assert(matches_rule(es[i]@, t, 0));
        lemma_first_exists(es, t, 0, i);
        let k = choose|k: int| first_at(es, t, 0, k);
        lemma_first_match_at(es, t, 0, k);
        assert forall|j: int| 0 <= j < k implies (#[trigger] es[j])@.node_id != t by {
            assert(!matches_rule(es[j]@, t, 0));
        }
    }
    if (forall|j: int| 0 <= j < es.len() ==> (#[trigger] es[j])@.node_id != t) && exists|i: int|
        0 <= i < es.len() && trim((#[trigger] es[i])@.text) == t {
        assert forall|j: int| 0 <= j < es.len() implies !matches_rule(#[trigger] es[j]@, t, 0) by {
            assert(es[j]@.node_id != t);
        }
        lemma_first_match_none(es, t, 0);
        let i = choose|i: int| 0 <= i < es.len() && trim((#[trigger] es[i])@.text) == t;
        assert(matches_rule(es[i]@, t, 1));
        lemma_first_exists(es, t, 1, i);
        let k = choose|k: int| first_at(es, t, 1, k);
        lemma_first_match_at(es, t, 1, k);
        assert forall|j: int| 0 <= j < k implies trim((#[trigger] es[j])@.text) != t by {
            assert(!matches_rule(es[j]@, t, 1));
        }
    }
}

/// Finds the node a scenario target names among the interactive elements
/// (without the CSS-selector fallback, which needs the page).
pub fn locate(elements: &[DOMElementNode], target: &str) -> (r: Option<usize>)
    ensures
        match located(elements@, target@) {
            Some(i) => r matches Some(k) && k == i,
            None => r is None,
        },
        r matches Some(k) ==> k < elements@.len(),
{
    let tc = chars_of(target);
    let t = trim_chars(&tc);
    if let Some(i) = first_by_rule(elements, &t, 0) {
        return Some(i);
    }
    if let Some(i) = first_by_rule(elements, &t, 1) {
        return Some(i);
    }
    if let Some(i) = first_by_rule(elements, &t, 2) {
        return Some(i);
    }
    if let Some(i) = first_by_rule(elements, &t, 3) {
        return Some(i);
    }
    first_by_rule(elements, &t, 4)
}

/// The page script that resolves a CSS selector to a node id.
pub open spec fn css_lookup_script(target: Seq<char>) -> Seq<char> {
    "(() => {\n                try {\n                    const el = document.querySelector("@ + json_literal(trim(target))
        + ");\n                    if (el) {\n                        return el.getAttribute('data-munin-id') || el.id || '';\n                    }\n                } catch (e) {}\n                return '';\n            })()"@
}

pub fn css_lookup(target: &str) -> (r: String)
    ensures
        r@ == css_lookup_script(target@),
{
    let tc = chars_of(target);
    let t = trim_chars(&tc);
    let ts = string_of(&t);
    let q = json_quote(ts.as_str());
    let mut s = String::from_str("(() => {\n                try {\n                    const el = document.querySelector(");
    s.append(q.as_str());
    s.append(");\n                    if (el) {\n                        return el.getAttribute('data-munin-id') || el.id || '';\n                    }\n                } catch (e) {}\n                return '';\n            })()");
    s
}

/// The error of a target that could not be located.
pub fn not_located(target: &str) -> (r: String)
    ensures
        r@ == "未能定位目标交互元素: '"@ + target@ + "' (已检索语义文本、Placeholder、ID 与 CSS 选择器)"@,
{
    let mut s = String::from_str("未能定位目标交互元素: '");
    s.append(target);
    s.append("' (已检索语义文本、Placeholder、ID 与 CSS 选择器)");
    s
}

/// The script testing whether the page text includes `text`.
pub open spec fn text_probe_script(text: Seq<char>) -> Seq<char> {
    "document.body.innerText.includes("@ + json_literal(text) + ")"@
}

/// The script used while waiting: a body must exist and include `text`.
pub open spec fn wait_text_script(text: Seq<char>) -> Seq<char> {
    "document.body && document.body.innerText.includes("@ + json_literal(text) + ")"@
}

pub open spec fn exists_script(sel: Seq<char>) -> Seq<char> {
    "document.querySelector("@ + json_literal(sel) + ") !== null"@
}

pub open spec fn key_script(key: Seq<char>) -> Seq<char> {
    "document.activeElement.dispatchEvent(new KeyboardEvent('keydown', { key: "@ + json_literal(key) + ", bubbles: true }))"@
}

pub open spec fn hover_script(id: Seq<char>) -> Seq<char> {
    "(() => {\n                        const el = document.querySelector('[data-munin-id=\""@ + id
        + "\"]') || document.getElementById('"@ + id
        + "');\n                        if (el) {\n                            el.dispatchEvent(new MouseEvent('mouseenter', { bubbles: true }));\n                            el.dispatchEvent(new MouseEvent('mouseover', { bubbles: true }));\n                            return true;\n                        }\n                        return false;\n                    })()"@
}

fn wrap_quoted(prefix: &str, arg: &str, suffix: &str) -> (r: String)
    ensures
        r@ == prefix@ + json_literal(arg@) + suffix@,
{
    let mut s = String::from_str(prefix);
    let q = json_quote(arg);
    s.append(q.as_str());
    s.append(suffix);
    s
}

/// What an action amounts to once its arguments are interpolated.
pub enum ActionPlan {
    /// Navigate to the URL, then settle for a second.
    Goto { url: String },
    /// Locate the target and click it.
    Click { target: String },
    /// Locate the target and fill it.
    Fill { target: String, value: String },
    /// Locate the target, then run the hover script on its id.
    Hover { target: String },
    /// Locate the target and fill it with nothing.
    Clear { target: String },
    /// Dispatch a keydown on the focused element.
    Script { script: String },
    /// Poll (10 s) until the target is located or the page text includes it.
    WaitFor { target: String, text_script: String },
    Sleep { ms: u64 },
    /// Poll (4 s) until the script is true; fail with the message otherwise.
    Eventually { script: String, failure: String },
    /// After 200 ms the script must be false; fail with the message otherwise.
    Never { script: String, failure: String },
    /// Check once that the script is false.
    Absent { script: String, failure: String },
    /// The page title must contain the text.
    TitleContains { expected: String },
    /// The page URL must contain the text.
    UrlContains { expected: String },
    /// A short pause (overlay busting is left to the supervisor).
    Pause { ms: u64 },
    /// Save a screenshot at the path.
    Screenshot { path: String },
}

fn concat3(a: &str, b: &str, c: &str) -> (r: String)
    ensures
        r@ == a@ + b@ + c@,
{
    let mut s = String::from_str(a);
    s.append(b);
    s.append(c);
    s
}

/// Plans one action: interpolate its arguments and choose its checks.
pub fn plan_action(action: &ScenarioAction, variables: &StrMap, base_url: Option<&str>) -> (p: ActionPlan)
    ensures
        match *action {
            ScenarioAction::Navigate { navigate } => p matches ActionPlan::Goto { url } && url@ == resolved_url(
                interpolated(navigate@, variables.view(), opt_str(base_url)),
                opt_str(base_url),
            ),
            ScenarioAction::Click { click } => p matches ActionPlan::Click { target } && target@ == interpolated(
                click@,
                variables.view(),
                opt_str(base_url),
            ),
            ScenarioAction::Fill { fill } => p matches ActionPlan::Fill { target, value } && target@ == interpolated(
                fill.target@,
                variables.view(),
                opt_str(base_url),
            ) && value@ == interpolated(fill.value@, variables.view(), opt_str(base_url)),
            ScenarioAction::Hover { hover } => p matches ActionPlan::Hover { target } && target@ == interpolated(
                hover@,
                variables.view(),
                opt_str(base_url),
            ),
            ScenarioAction::Clear { clear } => p matches ActionPlan::Clear { target } && target@ == interpolated(
                clear@,
                variables.view(),
                opt_str(base_url),
            ),
            ScenarioAction::PressKey { press_key } => p matches ActionPlan::Script { script } && script@ == key_script(
                press_key@,
            ),
            ScenarioAction::WaitFor { wait_for } => p matches ActionPlan::WaitFor { target, text_script } && target@
                == interpolated(wait_for@, variables.view(), opt_str(base_url)) && text_script@ == wait_text_script(
                target@,
            ),
            ScenarioAction::Sleep { sleep } => p == (ActionPlan::Sleep { ms: sleep }),
            ScenarioAction::Evaluate { evaluate } => p matches ActionPlan::Script { script } && script@ == interpolated(
                evaluate@,
                variables.view(),
                opt_str(base_url),
            ),
            ScenarioAction::AssertText { assert_text } => p matches ActionPlan::Eventually { script, failure } && {
                let t = interpolated(assert_text@, variables.view(), opt_str(base_url));
                script@ == text_probe_script(t) && failure@ == "断言失败：页面未出现预期文本 '"@ + t + "'"@
            },
            ScenarioAction::AssertNotText { assert_not_text } => p matches ActionPlan::Never { script, failure } && {
                let t = interpolated(assert_not_text@, variables.view(), opt_str(base_url));
                script@ == text_probe_script(t) && failure@ == "断言失败：页面意外包含了不应出现的文本 '"@ + t + "'"@
            },
            ScenarioAction::AssertExists { assert_exists } => p matches ActionPlan::Eventually { script, failure } && {
                let t = interpolated(assert_exists@, variables.view(), opt_str(base_url));
                script@ == exists_script(t) && failure@ == "断言失败：未检索到符合选择器的 DOM 元素 '"@ + t + "'"@
            },
            ScenarioAction::AssertNotExists { assert_not_exists } => p matches ActionPlan::Absent { script, failure } && {
                let t = interpolated(assert_not_exists@, variables.view(), opt_str(base_url));
                script@ == exists_script(t) && failure@ == "断言失败：页面不应存在选择器元素 '"@ + t + "'"@
            },
            ScenarioAction::AssertTitle { assert_title } => p matches ActionPlan::TitleContains { expected } && expected@
                == interpolated(assert_title@, variables.view(), opt_str(base_url)),
            ScenarioAction::AssertUrl { assert_url } => p matches ActionPlan::UrlContains { expected } && expected@
                == interpolated(assert_url@, variables.view(), opt_str(base_url)),
            ScenarioAction::BustOverlays { .. } => p == (ActionPlan::Pause { ms: 50 }),
            ScenarioAction::Screenshot { screenshot } => p matches ActionPlan::Screenshot { path } && path@ == (match screenshot {
                Some(s) => s@,
                None => "target/screenshot.png"@,
            }),
        },
{
    match action {
        ScenarioAction::Navigate { navigate } => {
            let url = interpolate(navigate.as_str(), variables, base_url);
            ActionPlan::Goto { url: resolve_url(url, base_url) }
        },
        ScenarioAction::Click { click } => ActionPlan::Click { target: interpolate(click.as_str(), variables, base_url) },
        ScenarioAction::Fill { fill } => ActionPlan::Fill {
            target: interpolate(fill.target.as_str(), variables, base_url),
            value: interpolate(fill.value.as_str(), variables, base_url),
        },
        ScenarioAction::Hover { hover } => ActionPlan::Hover { target: interpolate(hover.as_str(), variables, base_url) },
        ScenarioAction::Clear { clear } => ActionPlan::Clear { target: interpolate(clear.as_str(), variables, base_url) },
        ScenarioAction::PressKey { press_key } => ActionPlan::Script {
            script: wrap_quoted(
                "document.activeElement.dispatchEvent(new KeyboardEvent('keydown', { key: ",
                press_key.as_str(),
                ", bubbles: true }))",
            ),
        },
        ScenarioAction::WaitFor { wait_for } => {
            let target = interpolate(wait_for.as_str(), variables, base_url);
            let text_script = wrap_quoted("document.body && document.body.innerText.includes(", target.as_str(), ")");
            ActionPlan::WaitFor { target, text_script }
        },
        ScenarioAction::Sleep { sleep } => ActionPlan::Sleep { ms: *sleep },
        ScenarioAction::Evaluate { evaluate } => ActionPlan::Script { script: interpolate(evaluate.as_str(), variables, base_url) },
        ScenarioAction::AssertText { assert_text } => {
            let t = interpolate(assert_text.as_str(), variables, base_url);
            let script = wrap_quoted("document.body.innerText.includes(", t.as_str(), ")");
            let failure = concat3("断言失败：页面未出现预期文本 '", t.as_str(), "'");
            ActionPlan::Eventually { script, failure }
        },
        ScenarioAction::AssertNotText { assert_not_text } => {
            let t = interpolate(assert_not_text.as_str(), variables, base_url);
            let script = wrap_quoted("document.body.innerText.includes(", t.as_str(), ")");
            let failure = concat3("断言失败：页面意外包含了不应出现的文本 '", t.as_str(), "'");
            ActionPlan::Never { script, failure }
        },
        ScenarioAction::AssertExists { assert_exists } => {
            let t = interpolate(assert_exists.as_str(), variables, base_url);
            let script = wrap_quoted("document.querySelector(", t.as_str(), ") !== null");
            let failure = concat3("断言失败：未检索到符合选择器的 DOM 元素 '", t.as_str(), "'");
            ActionPlan::Eventually { script, failure }
        },
        ScenarioAction::AssertNotExists { assert_not_exists } => {
            let t = interpolate(assert_not_exists.as_str(), variables, base_url);
            let script = wrap_quoted("document.querySelector(", t.as_str(), ") !== null");
            let failure = concat3("断言失败：页面不应存在选择器元素 '", t.as_str(), "'");
            ActionPlan::Absent { script, failure }
        },
        ScenarioAction::AssertTitle { assert_title } => ActionPlan::TitleContains {
            expected: interpolate(assert_title.as_str(), variables, base_url),
        },
        ScenarioAction::AssertUrl { assert_url } => ActionPlan::UrlContains {
            expected: interpolate(assert_url.as_str(), variables, base_url),
        },
        ScenarioAction::BustOverlays { .. } => ActionPlan::Pause { ms: 50 },
        ScenarioAction::Screenshot { screenshot } => ActionPlan::Screenshot {
            path: match screenshot {
                Some(s) => s.clone(),
                None => String::from_str("target/screenshot.png"),
            },
        },
    }
}

/// The hover script for a located node.
pub fn hover_script_for(node_id: &str) -> (r: String)
    ensures
        r@ == hover_script(node_id@),
{
    let mut s = String::from_str("(() => {\n                        const el = document.querySelector('[data-munin-id=\"");
    s.append(node_id);
    s.append("\"]') || document.getElementById('");
    s.append(node_id);
    s.append("');\n                        if (el) {\n                            el.dispatchEvent(new MouseEvent('mouseenter', { bubbles: true }));\n                            el.dispatchEvent(new MouseEvent('mouseover', { bubbles: true }));\n                            return true;\n                        }\n                        return false;\n                    })()");
    s
}

/// The verdict of a title assertion: passes when the title contains the expected text.
pub fn check_title(current: &str, expected: &str) -> (r: Result<(), String>)
    ensures
        r is Ok <==> contains(current@, expected@),
        r matches Err(m) ==> m@ == "断言失败：页面标题 '"@ + current@ + "' 未包含预期文本 '"@ + expected@ + "'"@,
{
    if str_contains(current, expected) {
        Ok(())
    } else {
        let mut m = String::from_str("断言失败：页面标题 '");
        m.append(current);
        m.append("' 未包含预期文本 '");
        m.append(expected);
        m.append("'");
        Err(m)
    }
}

/// The verdict of a URL assertion: passes when the URL contains the expected text.
pub fn check_url(current: &str, expected: &str) -> (r: Result<(), String>)
    ensures
        r is Ok <==> contains(current@, expected@),
        r matches Err(m) ==> m@ == "断言失败：当前 URL '"@ + current@ + "' 未包含预期文本 '"@ + expected@ + "'"@,
{
    if str_contains(current, expected) {
        Ok(())
    } else {
        let mut m = String::from_str("断言失败：当前 URL '");
        m.append(current);
        m.append("' 未包含预期文本 '");
        m.append(expected);
        m.append("'");
        Err(m)
    }
}

/// The error of a wait that timed out.
pub fn wait_timeout(target: &str) -> (r: String)
    ensures
        r@ == "等待超时：未能等到目标出现 '"@ + target@ + "'"@,
{
    concat3("等待超时：未能等到目标出现 '", target, "'")
}

pub open spec fn count_passed(rs: Seq<StepResult>) -> int
    decreases rs.len(),
{
    if rs.len() == 0 {
        0
    } else {
        count_passed(rs.drop_last()) + if rs.last().success { 1int } else { 0int }
    }
}

proof fn lemma_count_passed_bound(rs: Seq<StepResult>)
    ensures
        0 <= count_passed(rs) <= rs.len(),
    decreases rs.len(),
{
    if rs.len() > 0 {
        lemma_count_passed_bound(rs.drop_last());
    }
}

/// The report of a finished scenario: every step counted as passed or failed.
pub fn build_report(name: String, step_results: Vec<StepResult>, elapsed_ms: u128) -> (r: ScenarioReport)
    ensures
        r.scenario_name == name,
        r.total_steps == step_results@.len(),
        r.passed_steps == count_passed(step_results@),
        r.failed_steps == step_results@.len() - count_passed(step_results@),
        r.passed_steps + r.failed_steps == r.total_steps,
        r.elapsed_ms == elapsed_ms,
        r.step_results == step_results,
{
    let mut passed: usize = 0;
    let mut i: usize = 0;
    while i < step_results.len()
        invariant
            i <= step_results@.len(),
            passed == count_passed(step_results@.subrange(0, i as int)),
            passed <= i,
        decreases step_results@.len() - i,
    {
        proof {
            let t = step_results@.subrange(0, i + 1);
            assert(t.drop_last() =~= step_results@.subrange(0, i as int));
            assert(t.last() == step_results@[i as int]);
        }
        if step_results[i].success {
            passed += 1;
        }
        i += 1;
    }
    assert(step_results@.subrange(0, step_results@.len() as int) =~= step_results@);
    let total = step_results.len();
    ScenarioReport {
        scenario_name: name,
        total_steps: total,
        passed_steps: passed,
        failed_steps: total - passed,
        elapsed_ms,
        step_results,
    }
}

/// How a scenario file is read.
#[derive(Debug, Clone, Copy, PartialEq, Eq, Structural)]
pub enum ScenarioFormat {
    Yaml,
    Toml,
    Json,
    /// YAML, else TOML, else JSON.
    Guess,
}

/// The format of a scenario file by its extension: `yaml`/`yml`, `toml` and
/// `json` name theirs, another extension is guessed, and none means YAML.
pub fn scenario_format(extension: Option<&str>) -> (f: ScenarioFormat)
    ensures
        f == (match extension {
            Some(e) => if e@ == "yaml"@ || e@ == "yml"@ {
                ScenarioFormat::Yaml
            } else if e@ == "toml"@ {
                ScenarioFormat::Toml
            } else if e@ == "json"@ {
                ScenarioFormat::Json
            } else {
                ScenarioFormat::Guess
            },
            None => ScenarioFormat::Yaml,
        }),
{
    match extension {
        Some(e) => {
            if str_eq(e, "yaml") || str_eq(e, "yml") {
                ScenarioFormat::Yaml
            } else if str_eq(e, "toml") {
                ScenarioFormat::Toml
            } else if str_eq(e, "json") {
                ScenarioFormat::Json
            } else {
                ScenarioFormat::Guess
            }
        },
        None => ScenarioFormat::Yaml,
    }
}

} // verus!
