//! Form mapping: align a business field ("username", "手机号") with an input node.
use vstd::prelude::*;
use vstd::string::*;
use crate::dom::{attr_insert, lookup, spec_is_input, spec_summary, DOMElementNode, NodeView, StrMap};
use crate::text::{chars_of, contains, contains_chars, lowercase, to_lower};

verus! {

/// Maps business fields onto form inputs.
#[derive(Debug, Clone, Copy)]
pub struct FormMapper;

pub open spec fn lower_attr_has(n: NodeView, key: Seq<char>, f: Seq<char>) -> bool {
    match lookup(n.attrs, key) {
        Some(v) => contains(lowercase(v), f),
        None => false,
    }
}

/// An input node matches a field when its id, name, placeholder, ARIA label or
/// text, lower-cased, contains the lower-cased field.
pub open spec fn field_match(n: NodeView, field: Seq<char>) -> bool {
    let f = lowercase(field);
    &&& spec_is_input(n)
    &&& (lower_attr_has(n, "id"@, f) || lower_attr_has(n, "name"@, f) || lower_attr_has(n, "placeholder"@, f)
        || lower_attr_has(n, "aria-label"@, f) || contains(lowercase(n.text), f))
}

pub open spec fn input_criteria(es: Seq<DOMElementNode>) -> Seq<(Seq<char>, Seq<char>)>
    decreases es.len(),
{
    if es.len() == 0 {
        seq![]
    } else if spec_is_input(es.last()@) {
        attr_insert(input_criteria(es.drop_last()), es.last()@.node_id, spec_summary(es.last()@))
    } else {
        input_criteria(es.drop_last())
    }
}

pub open spec fn has_input(es: Seq<DOMElementNode>) -> bool {
    exists|i: int| 0 <= i < es.len() && spec_is_input(es[i]@)
}

fn attr_has(e: &DOMElementNode, key: &str, f: &Vec<char>) -> (b: bool)
    ensures
        b == lower_attr_has(e@, key@, f@),
{
    match e.get_attribute(key) {
        Some(v) => {
            let l = to_lower(v);
            let lc = chars_of(l.as_str());
            contains_chars(&lc, f)
        },
        None => false,
    }
}

impl FormMapper {
    pub fn new() -> (r: Self)
        ensures
            r == FormMapper,
    {
        FormMapper
    }

    /// The first input node matching the field heuristically.
    pub fn match_field_heuristically<'a>(&self, elements: &'a [DOMElementNode], field_intent: &str) -> (r: Option<&'a DOMElementNode>)
        ensures
            match r {
                Some(e) => exists|i: int|
                    0 <= i < elements@.len() && *e == elements@[i] && field_match(elements@[i]@, field_intent@)
                        && forall|j: int| 0 <= j < i ==> !field_match(elements@[j]@, field_intent@),
                None => forall|i: int| 0 <= i < elements@.len() ==> !field_match(elements@[i]@, field_intent@),
            },
    {
        let fl = to_lower(field_intent);
        let f = chars_of(fl.as_str());
        let mut i: usize = 0;
        while i < elements.len()
            invariant
                i <= elements@.len(),
                f@ == lowercase(field_intent@),
                forall|j: int| 0 <= j < i ==> !field_match(elements@[j]@, field_intent@),
            decreases elements@.len() - i,
        {
            let e = &elements[i];
            if e.is_input() {
                let tl = to_lower(e.text.as_str());
                let tc = chars_of(tl.as_str());
                if attr_has(e, "id", &f) || attr_has(e, "name", &f) || attr_has(e, "placeholder", &f)
                    || attr_has(e, "aria-label", &f) || contains_chars(&tc, &f) {
                    return Some(e);
                }
            }
            i += 1;
        }
        None
    }

    /// The choice criteria for engine-assisted matching: each input's id with its
    /// semantic summary; `None` when the page has no input at all.
    pub fn input_criteria(elements: &[DOMElementNode]) -> (r: Option<StrMap>)
        ensures
            has_input(elements@) ==> (r matches Some(m) && m.view() == input_criteria(elements@)),
            !has_input(elements@) ==> r is None,
    {
        let mut m = StrMap::new();
        let mut any = false;
        let mut i: usize = 0;
        while i < elements.len()
            invariant
                i <= elements@.len(),
                m.view() == input_criteria(elements@.subrange(0, i as int)),
                any == has_input(elements@.subrange(0, i as int)),
            decreases elements@.len() - i,
        {
            proof {
                let t = elements@.subrange(0, i + 1);
                assert(t.drop_last() =~= elements@.subrange(0, i as int));
                assert(t.last() == elements@[i as int]);
                if has_input(t) && !spec_is_input(elements@[i as int]@) {
                    let k = choose|k: int| 0 <= k < t.len() && spec_is_input(t[k]@);
                    assert(elements@.subrange(0, i as int)[k] == t[k]);
                }
                if has_input(elements@.subrange(0, i as int)) {
                    let k = choose|k: int| 0 <= k < i && spec_is_input(elements@.subrange(0, i as int)[k]@);
                    assert(t[k] == elements@.subrange(0, i as int)[k]);
                }
                if spec_is_input(elements@[i as int]@) {
                    assert(t[i as int] == elements@[i as int]);
                }
            }
            let e = &elements[i];
            if e.is_input() {
                let s = e.semantic_summary();
                m.insert(e.node_id.as_str(), s.as_str());
                any = true;
            }
            i += 1;
        }
        assert(elements@.subrange(0, elements@.len() as int) =~= elements@);
        if any {
            Some(m)
        } else {
            None
        }
    }

    /// The question asked of the fast engine for a field.
    pub fn field_instructions(field_intent: &str) -> (r: String)
        ensures
            r@ == "哪个输入框是用于输入 '"@ + field_intent@ + "' 的？"@,
    {
        let mut s = String::from_str("哪个输入框是用于输入 '");
        s.append(field_intent);
        s.append("' 的？");
        s
    }
}

} // verus!
