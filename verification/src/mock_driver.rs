//! An in-memory browser driver for tests, CI and machines without a display:
//! it records every interaction and answers scripts from a table.
use vstd::prelude::*;
use vstd::string::*;
use crate::dom::{attr_insert, keys_distinct, AttrSeq, DOMElementNode, NodeView, StrMap};
use crate::supervisor::{json_literal, json_quote};
use crate::text::{contains, str_contains};
use crate::types::{actions_view, Action, ActionView};

verus! {

/// The nodes' contents.
pub open spec fn nodes_view(s: Seq<DOMElementNode>) -> Seq<NodeView> {
    s.map_values(|n: DOMElementNode| n@)
}

/// What a mock driver holds.
pub struct MockDriverView {
    pub launched: bool,
    pub url: Seq<char>,
    pub elements: Seq<NodeView>,
    pub actions: Seq<ActionView>,
    /// Script fragments and the JSON text answered to a script containing them, in the order set.
    pub js_results: AttrSeq,
    /// The JSON text answered to any other script.
    pub default_js: Option<Seq<char>>,
    pub screenshot: Seq<u8>,
}

/// An in-memory browser driver.
pub struct MockDriver {
    is_launched: bool,
    current_url: String,
    elements: Vec<DOMElementNode>,
    actions: Vec<Action>,
    js_results: StrMap,
    default_js_result: Option<String>,
    screenshot: Vec<u8>,
}

impl View for MockDriver {
    type V = MockDriverView;

    closed spec fn view(&self) -> MockDriverView {
        MockDriverView {
            launched: self.is_launched,
            url: self.current_url@,
            elements: nodes_view(self.elements@),
            actions: actions_view(self.actions@),
            js_results: self.js_results.view(),
            default_js: crate::types::opt_view(self.default_js_result),
            screenshot: self.screenshot@,
        }
    }
}

/// The first script fragment, in the order set, that `script` contains.
pub open spec fn first_fragment(js: AttrSeq, script: Seq<char>) -> Option<int>
    decreases js.len(),
{
    if js.len() == 0 {
        None
    } else {
        match first_fragment(js.drop_last(), script) {
            Some(i) => Some(i),
            None => if contains(script, js.last().0) {
                Some(js.len() - 1)
            } else {
                None
            },
        }
    }
}

/// The JSON text a mock answers to a script: the result set for the first
/// fragment it contains, else the default, else the string
/// `mock_eval_result_for: ` followed by the script.
pub open spec fn js_answer(v: MockDriverView, script: Seq<char>) -> Seq<char> {
    match first_fragment(v.js_results, script) {
        Some(i) => v.js_results[i].1,
        None => match v.default_js {
            Some(d) => d,
            None => json_literal("mock_eval_result_for: "@ + script),
        },
    }
}

/// The bytes of a PNG signature: the screenshot of a mock that was given none.
pub open spec fn png_signature() -> Seq<u8> {
    seq![0x89u8, 0x50u8, 0x4Eu8, 0x47u8, 0x0Du8, 0x0Au8, 0x1Au8, 0x0Au8]
}

proof fn lemma_first_fragment(js: AttrSeq, script: Seq<char>)
    ensures
        match first_fragment(js, script) {
            Some(i) => 0 <= i < js.len() && contains(script, js[i].0) && forall|j: int|
                0 <= j < i ==> !contains(script, #[trigger] js[j].0),
            None => forall|j: int| 0 <= j < js.len() ==> !contains(script, #[trigger] js[j].0),
        },
    decreases js.len(),
{
    if js.len() > 0 {
        lemma_first_fragment(js.drop_last(), script);
        assert forall|j: int| 0 <= j < js.len() - 1 implies js.drop_last()[j] == js[j] by {}
    }
}

fn copy_nodes(s: &Vec<DOMElementNode>) -> (r: Vec<DOMElementNode>)
    ensures
        nodes_view(r@) == nodes_view(s@),
{
    let mut out: Vec<DOMElementNode> = Vec::new();
    let mut i: usize = 0;
    while i < s.len()
        invariant
            i <= s@.len(),
            nodes_view(out@) == nodes_view(s@.subrange(0, i as int)),
        decreases s@.len() - i,
    {
        let n = s[i].duplicate();
        proof {
            assert(nodes_view(out@.push(n)) =~= nodes_view(out@).push(n@));
            assert(nodes_view(s@.subrange(0, i + 1)) =~= nodes_view(s@.subrange(0, i as int)).push(s@[i as int]@));
        }
        out.push(n);
        i += 1;
    }
    assert(s@.subrange(0, s@.len() as int) =~= s@);
    out
}

impl MockDriver {
    /// A driver that is not launched, is nowhere, shows nothing and has recorded nothing.
    pub fn new() -> (d: Self)
        ensures
            !d@.launched,
            d@.url.len() == 0,
            d@.elements.len() == 0,
            d@.actions.len() == 0,
            d@.js_results.len() == 0,
            d@.default_js is None,
            d@.screenshot.len() == 0,
    {
        let d = MockDriver {
            is_launched: false,
            current_url: String::new(),
            elements: Vec::new(),
            actions: Vec::new(),
            js_results: StrMap::new(),
            default_js_result: None,
            screenshot: Vec::new(),
        };
        proof {
            assert(nodes_view(d.elements@) =~= Seq::<NodeView>::empty());
            assert(actions_view(d.actions@) =~= Seq::<ActionView>::empty());
        }
        d
    }

    pub fn with_elements(self, elements: Vec<DOMElementNode>) -> (d: Self)
        ensures
            d@ == (MockDriverView { elements: nodes_view(elements@), ..self@ }),
    {
        let mut d = self;
        d.set_elements(elements);
        d
    }

    /// Replaces the page's interactive elements.
    pub fn set_elements(&mut self, elements: Vec<DOMElementNode>)
        ensures
            final(self)@ == (MockDriverView { elements: nodes_view(elements@), ..old(self)@ }),
    {
        self.elements = elements;
    }

    /// Adds an interactive element to the page.
    pub fn add_element(&mut self, element: DOMElementNode)
        ensures
            final(self)@ == (MockDriverView { elements: old(self)@.elements.push(element@), ..old(self)@ }),
    {
        proof {
            assert(nodes_view(self.elements@.push(element)) =~= nodes_view(self.elements@).push(element@));
        }
        self.elements.push(element);
    }

    /// The interactions recorded so far, in order.
    pub fn recorded_actions(&self) -> (r: Vec<Action>)
        ensures
            actions_view(r@) == self@.actions,
    {
        let mut out: Vec<Action> = Vec::new();
        let mut i: usize = 0;
        while i < self.actions.len()
            invariant
                i <= self.actions@.len(),
                actions_view(out@) == actions_view(self.actions@.subrange(0, i as int)),
            decreases self.actions@.len() - i,
        {
            let a = self.actions[i].duplicate();
            proof {
                assert(actions_view(out@.push(a)) =~= actions_view(out@).push(a@));
                assert(actions_view(self.actions@.subrange(0, i + 1)) =~= actions_view(
                    self.actions@.subrange(0, i as int),
                ).push(self.actions@[i as int]@));
            }
            out.push(a);
            i += 1;
        }
        assert(self.actions@.subrange(0, self.actions@.len() as int) =~= self.actions@);
        out
    }

    /// Forgets the recorded interactions.
    pub fn clear_actions(&mut self)
        ensures
            final(self)@ == (MockDriverView { actions: Seq::<ActionView>::empty(), ..old(self)@ }),
    {
        self.actions = Vec::new();
        assert(actions_view(self.actions@) =~= Seq::<ActionView>::empty());
    }

    /// Answers `result` (JSON text) to every script containing `key_contains`.
    pub fn set_js_result(&mut self, key_contains: &str, result: &str)
        ensures
            final(self)@ == (MockDriverView {
                js_results: attr_insert(old(self)@.js_results, key_contains@, result@),
                ..old(self)@
            }),
    {
        self.js_results.insert(key_contains, result);
    }

    /// Answers `result` (JSON text) to scripts that no fragment matches.
    pub fn set_default_js_result(&mut self, result: &str)
        ensures
            final(self)@ == (MockDriverView { default_js: Some(result@), ..old(self)@ }),
    {
        self.default_js_result = Some(String::from_str(result));
    }

    pub fn set_screenshot(&mut self, bytes: Vec<u8>)
        ensures
            final(self)@ == (MockDriverView { screenshot: bytes@, ..old(self)@ }),
    {
        self.screenshot = bytes;
    }

    pub fn current_url(&self) -> (r: String)
        ensures
            r@ == self@.url,
    {
        self.current_url.clone()
    }

    pub fn is_launched(&self) -> (b: bool)
        ensures
            b == self@.launched,
    {
        self.is_launched
    }

    /// Starts the browser (headless or not makes no difference here).
    pub fn launch(&mut self, headless: bool)
        ensures
            final(self)@ == (MockDriverView { launched: true, ..old(self)@ }),
    {
        self.is_launched = true;
    }

    /// Opens `url`, launching first if needed, and records the navigation.
    pub fn goto(&mut self, url: &str)
        ensures
            final(self)@ == (MockDriverView {
                launched: true,
                url: url@,
                actions: old(self)@.actions.push(ActionView::Navigate { url: url@ }),
                ..old(self)@
            }),
    {
        self.is_launched = true;
        self.current_url = String::from_str(url);
        let a = Action::Navigate { url: String::from_str(url) };
        proof {
            assert(actions_view(self.actions@.push(a)) =~= actions_view(self.actions@).push(a@));
        }
        self.actions.push(a);
    }

    /// The page's interactive elements.
    pub fn get_interactive_elements(&self) -> (r: Vec<DOMElementNode>)
        ensures
            nodes_view(r@) == self@.elements,
    {
        copy_nodes(&self.elements)
    }

    /// Records a click; clicking the empty id fails unless some element has it.
    pub fn click(&mut self, node_id: &str) -> (r: Result<(), String>)
        ensures
            final(self)@ == (MockDriverView {
                actions: old(self)@.actions.push(ActionView::Click { target_id: node_id@ }),
                ..old(self)@
            }),
            r is Err <==> (node_id@.len() == 0 && forall|i: int|
                0 <= i < old(self)@.elements.len() ==> (#[trigger] old(self)@.elements[i]).node_id != node_id@),
            r matches Err(m) ==> m@ == "Cannot click on empty node_id"@,
    {
        let mut found = false;
        let mut i: usize = 0;
        while i < self.elements.len()
            invariant
                i <= self.elements@.len(),
                found == exists|j: int| 0 <= j < i && (#[trigger] nodes_view(self.elements@)[j]).node_id == node_id@,
            decreases self.elements@.len() - i,
        {
            if crate::text::str_eq(self.elements[i].node_id.as_str(), node_id) {
                found = true;
            }
            proof {
                assert(nodes_view(self.elements@)[i as int] == self.elements@[i as int]@);
            }
            i += 1;
        }
        let a = Action::Click { target_id: String::from_str(node_id) };
        proof {
            assert(actions_view(self.actions@.push(a)) =~= actions_view(self.actions@).push(a@));
        }
        self.actions.push(a);
        if !found && node_id.unicode_len() == 0 {
            return Err(String::from_str("Cannot click on empty node_id"));
        }
        Ok(())
    }

    /// Records a fill.
    pub fn fill(&mut self, node_id: &str, text: &str)
        ensures
            final(self)@ == (MockDriverView {
                actions: old(self)@.actions.push(ActionView::Fill { target_id: node_id@, text: text@ }),
                ..old(self)@
            }),
    {
        let a = Action::Fill { target_id: String::from_str(node_id), text: String::from_str(text) };
        proof {
            assert(actions_view(self.actions@.push(a)) =~= actions_view(self.actions@).push(a@));
        }
        self.actions.push(a);
    }

    /// The JSON text a script evaluates to (see `js_answer`).
    pub fn evaluate_js(&self, script: &str) -> (r: String)
        ensures
            r@ == js_answer(self@, script@),
    {
        let n = self.js_results.len();
        let mut i: usize = 0;
        while i < n
            invariant
                n == self@.js_results.len(),
                i <= n,
                first_fragment(self@.js_results.subrange(0, i as int), script@) is None,
            decreases n - i,
        {
            let (k, v) = self.js_results.entry(i);
            proof {
                let t = self@.js_results.subrange(0, i + 1);
                assert(t.drop_last() =~= self@.js_results.subrange(0, i as int));
                assert(t.last() == self@.js_results[i as int]);
            }
            if str_contains(script, k) {
                proof {
                    lemma_first_fragment_prefix(self@.js_results, script@, i as int + 1);
                }
                return String::from_str(v);
            }
            i += 1;
        }
        assert(self@.js_results.subrange(0, n as int) =~= self@.js_results);
        match &self.default_js_result {
            Some(d) => d.clone(),
            None => {
                let mut s = String::from_str("mock_eval_result_for: ");
                s.append(script);
                json_quote(s.as_str())
            },
        }
    }

    /// The screenshot set, or a PNG signature when none was.
    pub fn take_screenshot(&self) -> (r: Vec<u8>)
        ensures
            r@ == (if self@.screenshot.len() == 0 { png_signature() } else { self@.screenshot }),
    {
        if self.screenshot.len() == 0 {
            let v = vec![0x89u8, 0x50u8, 0x4Eu8, 0x47u8, 0x0Du8, 0x0Au8, 0x1Au8, 0x0Au8];
            assert(v@ =~= png_signature());
            v
        } else {
            self.screenshot.clone()
        }
    }
}

/// `first_fragment` of a prefix agrees with the whole once the prefix has a match.
proof fn lemma_first_fragment_prefix(js: AttrSeq, script: Seq<char>, k: int)
    requires
        0 <= k <= js.len(),
    ensures
        first_fragment(js.subrange(0, k), script) is Some ==> first_fragment(js, script) == first_fragment(
            js.subrange(0, k),
            script,
        ),
    decreases js.len() - k,
{
    if k < js.len() {
        lemma_first_fragment_prefix(js, script, k + 1);
        let t = js.subrange(0, k + 1);
        assert(t.drop_last() =~= js.subrange(0, k));
    } else {
        assert(js.subrange(0, k) =~= js);
    }
}

/// A result set for a fragment is what a script containing that fragment, and
/// no fragment set before it, evaluates to.
pub proof fn law_js_result_read_back(v: MockDriverView, key: Seq<char>, result: Seq<char>, script: Seq<char>)
    requires
        keys_distinct(v.js_results),
        contains(script, key),
        forall|j: int| 0 <= j < v.js_results.len() && (#[trigger] v.js_results[j]).0 != key ==> !contains(script, v.js_results[j].0),
    ensures
        js_answer(MockDriverView { js_results: attr_insert(v.js_results, key, result), ..v }, script) == result,
{
    let s = v.js_results;
    let t = attr_insert(s, key, result);
    lemma_first_fragment(t, script);
    if exists|i: int| 0 <= i < s.len() && s[i].0 == key {
        let i = choose|i: int| 0 <= i < s.len() && s[i].0 == key;
        assert(t == s.update(i, (key, result)));
        assert(t[i].0 == key);
        assert(contains(script, t[i].0));
        match first_fragment(t, script) {
            Some(f) => {
                if f != i {
                    assert(t[f] == s[f]);
                    assert(s[f].0 != key);
                }
            },
            None => {
                assert(false);
            },
        }
    } else {
        assert(t == s.push((key, result)));
        let last = s.len() as int;
        assert(t[last].0 == key);
        assert(contains(script, t[last].0));
        match first_fragment(t, script) {
            Some(f) => {
                if f != last {
                    assert(t[f] == s[f]);
                    assert(s[f].0 != key);
                }
            },
            None => {
                assert(false);
            },
        }
    }
}

} // verus!
