//! The planning engines' text rules: prompts, reply cleaning, screenshots as
//! base64, endpoints, and the JSON-RPC planner's replies and step records.
use vstd::prelude::*;
use vstd::string::*;
use crate::supervisor::{decimal, decimal_u64, strip_leading, strip_trailing, strip_trailing_chars};
use crate::text::{chars_of, matches_at, starts_with, ends_with, string_of, trim, trim_chars};
use crate::types::MacroStep;

verus! {

// ---------------------------------------------------------------------------
// Replies and prompts of a chat-completions planner
// ---------------------------------------------------------------------------

/// A reply fenced as a Markdown code block (` ```json ` or ` ``` `) is
/// unwrapped and trimmed; anything else is only trimmed. A reply opening with
/// ` ```json ` but not closed by ` ``` ` stays as it is (trimmed).
pub open spec fn cleaned_reply(text: Seq<char>) -> Seq<char> {
    let t = trim(text);
    if starts_with(t, "```json"@) {
        let s = t.subrange(7, t.len() as int);
        if ends_with(s, "```"@) {
            trim(s.subrange(0, s.len() - 3))
        } else {
            t
        }
    } else if starts_with(t, "```"@) {
        let s = t.subrange(3, t.len() as int);
        if ends_with(s, "```"@) {
            trim(s.subrange(0, s.len() - 3))
        } else {
            t
        }
    } else {
        t
    }
}

/// Unwraps a planner reply from its Markdown code fence.
pub fn clean_json_markdown(text: &str) -> (r: String)
    ensures
        r@ == cleaned_reply(text@),
{
    let c = chars_of(text);
    let t = trim_chars(&c);
    let json_fence = chars_of("```json");
    let fence = chars_of("```");
    proof {
        reveal_strlit("```json");
        reveal_strlit("```");
    }
    let n = t.len();
    if matches_at(&t, &json_fence, 0) {
        let s = crate::text::slice_range(&t, 7, n);
        let m = s.len();
        if m >= 3 && matches_at(&s, &fence, m - 3) {
            let inner = crate::text::slice_range(&s, 0, m - 3);
            let it = trim_chars(&inner);
            return string_of(&it);
        }
        string_of(&t)
    } else if matches_at(&t, &fence, 0) {
        let s = crate::text::slice_range(&t, 3, n);
        let m = s.len();
        if m >= 3 && matches_at(&s, &fence, m - 3) {
            let inner = crate::text::slice_range(&s, 0, m - 3);
            let it = trim_chars(&inner);
            return string_of(&it);
        }
        string_of(&t)
    } else {
        string_of(&t)
    }
}

/// The planner's system prompt.
pub fn plan_system_prompt() -> (r: String)
    ensures
        r@ == "You are an expert browser automation planner (System 2).\nGiven a high-level user goal and current context, decompose the goal into a minimal, sequential list of macro steps.\nOutput strictly a valid JSON array of objects with the following schema:\n[\n  {\n    \"step_id\": 1,\n    \"intent\": \"Brief description of what to do in this phase\",\n    \"expected_outcome\": \"Condition or indicator that confirms this step succeeded\"\n  }\n]\nDo not output any introductory or concluding text. Output JSON only."@,
{
    String::from_str(
        "You are an expert browser automation planner (System 2).\nGiven a high-level user goal and current context, decompose the goal into a minimal, sequential list of macro steps.\nOutput strictly a valid JSON array of objects with the following schema:\n[\n  {\n    \"step_id\": 1,\n    \"intent\": \"Brief description of what to do in this phase\",\n    \"expected_outcome\": \"Condition or indicator that confirms this step succeeded\"\n  }\n]\nDo not output any introductory or concluding text. Output JSON only.",
    )
}

/// The arbitrator's system prompt.
pub fn arbitrate_system_prompt() -> (r: String)
    ensures
        r@ == "You are an expert browser automation supervisor and arbitrator (System 2).\nThe fast reflex engine encountered low confidence or stalled on the current step.\nAnalyze the provided DOM interactive elements and optional screenshot.\nOutput a concise resolution: state the exact node ID to click or fill, or describe the specific corrective action required."@,
{
    String::from_str(
        "You are an expert browser automation supervisor and arbitrator (System 2).\nThe fast reflex engine encountered low confidence or stalled on the current step.\nAnalyze the provided DOM interactive elements and optional screenshot.\nOutput a concise resolution: state the exact node ID to click or fill, or describe the specific corrective action required.",
    )
}

/// The user message of a planning request.
pub fn plan_prompt(user_goal: &str, context: &str) -> (r: String)
    ensures
        r@ == "User Goal: "@ + user_goal@ + "\nCurrent Context: "@ + context@,
{
    let mut s = String::from_str("User Goal: ");
    s.append(user_goal);
    s.append("\nCurrent Context: ");
    s.append(context);
    s
}

/// The user message of an arbitration request.
pub fn arbitrate_prompt(step_intent: &str, current_dom_desc: &str) -> (r: String)
    ensures
        r@ == "Current Step Intent: "@ + step_intent@ + "\nCandidate Elements Description:\n"@ + current_dom_desc@,
{
    let mut s = String::from_str("Current Step Intent: ");
    s.append(step_intent);
    s.append("\nCandidate Elements Description:\n");
    s.append(current_dom_desc);
    s
}

/// An arbitration reply is its content, trimmed.
pub fn arbitration_reply(content: &str) -> (r: String)
    ensures
        r@ == trim(content@),
{
    let c = chars_of(content);
    let t = trim_chars(&c);
    string_of(&t)
}

// ---------------------------------------------------------------------------
// Screenshots
// ---------------------------------------------------------------------------

/// The standard base64 alphabet: `A`..`Z`, `a`..`z`, `0`..`9`, `+`, `/`.
pub open spec fn b64_symbol(n: int) -> char {
    if n < 26 {
        (('A' as u32) + n) as char
    } else if n < 52 {
        (('a' as u32) + (n - 26)) as char
    } else if n < 62 {
        (('0' as u32) + (n - 52)) as char
    } else if n == 62 {
        '+'
    } else {
        '/'
    }
}

/// What `base64::prelude::BASE64_STANDARD.encode` gives for a byte sequence:
/// each group of three bytes as four 6-bit symbols of the standard alphabet; a
/// last group of one or two bytes is zero-filled and padded with `=` to four.
pub open spec fn base64_standard(bytes: Seq<u8>) -> Seq<char>
    decreases bytes.len(),
{
    if bytes.len() == 0 {
        seq![]
    } else if bytes.len() == 1 {
        let a = bytes[0] as int;
        seq![b64_symbol(a / 4), b64_symbol((a % 4) * 16), '=', '=']
    } else if bytes.len() == 2 {
        let (a, b) = (bytes[0] as int, bytes[1] as int);
        seq![b64_symbol(a / 4), b64_symbol((a % 4) * 16 + b / 16), b64_symbol((b % 16) * 4), '=']
    } else {
        let (a, b, c) = (bytes[0] as int, bytes[1] as int, bytes[2] as int);
        seq![b64_symbol(a / 4), b64_symbol((a % 4) * 16 + b / 16), b64_symbol((b % 16) * 4 + c / 64), b64_symbol(c % 64)]
            + base64_standard(bytes.subrange(3, bytes.len() as int))
    }
}

/// The length of the padded encoding of `n` bytes.
pub open spec fn encoded_len(n: nat) -> nat {
    4 * ((n + 2) / 3)
}

proof fn lemma_base64_len(bytes: Seq<u8>)
    ensures
        base64_standard(bytes).len() == encoded_len(bytes.len()),
    decreases bytes.len(),
{
    if bytes.len() >= 3 {
        lemma_base64_len(bytes.subrange(3, bytes.len() as int));
    }
}

/// Encodes bytes with `base64`'s standard engine (standard alphabet, padded;
/// see `base64_standard`). The crate panics when the encoded length exceeds
/// `usize`, which the precondition rules out.
#[verifier::external_body]
fn base64_encode(bytes: &[u8]) -> (r: String)
    requires
        encoded_len(bytes@.len()) <= usize::MAX,
    ensures
        r@ == base64_standard(bytes@),
{
    base64::Engine::encode(&base64::prelude::BASE64_STANDARD, bytes)
}

/// A screenshot in base64, as the RPC server and the RPC planner send it.
pub fn encode_screenshot(bytes: &[u8]) -> (r: String)
    requires
        encoded_len(bytes@.len()) <= usize::MAX,
    ensures
        r@ == base64_standard(bytes@),
        r@.len() == encoded_len(bytes@.len()),
{
    proof {
        lemma_base64_len(bytes@);
    }
    base64_encode(bytes)
}

/// The image a chat-completions arbitration attaches: a PNG data URL, only for
/// a screenshot that is there and not empty.
pub fn screenshot_data_url(screenshot: Option<&[u8]>) -> (r: Option<String>)
    requires
        screenshot matches Some(b) ==> encoded_len(b@.len()) <= usize::MAX,
    ensures
        match screenshot {
            Some(b) => if b@.len() > 0 {
                r matches Some(u) && u@ == "data:image/png;base64,"@ + base64_standard(b@)
            } else {
                r is None
            },
            None => r is None,
        },
{
    match screenshot {
        Some(b) => {
            if b.len() > 0 {
                let enc = base64_encode(b);
                let mut s = String::from_str("data:image/png;base64,");
                s.append(enc.as_str());
                Some(s)
            } else {
                None
            }
        },
        None => None,
    }
}

// ---------------------------------------------------------------------------
// Endpoints
// ---------------------------------------------------------------------------

/// A base URL without its trailing slashes.
pub fn trim_base_url(url: &str) -> (r: String)
    ensures
        r@ == strip_trailing(url@, seq!['/']),
{
    let c = chars_of(url);
    let slash = vec!['/'];
    assert(slash@ =~= seq!['/']);
    let t = strip_trailing_chars(&c, &slash);
    string_of(&t)
}

/// `base` followed by `path`.
pub fn endpoint_url(base: &str, path: &str) -> (r: String)
    ensures
        r@ == base@ + path@,
{
    let mut s = String::from_str(base);
    s.append(path);
    s
}

// ---------------------------------------------------------------------------
// The JSON-RPC planner
// ---------------------------------------------------------------------------

/// One planned step as the RPC planner returned it, field by field.
pub struct RpcPlanItem {
    /// `step_id`, when it is an unsigned integer.
    pub step_id: Option<u64>,
    /// `intent`: absent, or present with its string (if it is one).
    pub intent: Option<Option<String>>,
    /// `description`, when it is a string.
    pub description: Option<String>,
    /// `expected_outcome`, when it is a string.
    pub expected_outcome: Option<String>,
}

pub open spec fn str_or_empty(o: Option<String>) -> Seq<char> {
    match o {
        Some(s) => s@,
        None => Seq::<char>::empty(),
    }
}

/// The intent of an item: `intent` when the field is there (empty when it is
/// not a string), else `description`, else empty.
pub open spec fn item_intent(item: RpcPlanItem) -> Seq<char> {
    match item.intent {
        Some(i) => str_or_empty(i),
        None => str_or_empty(item.description),
    }
}

/// The `i`-th step of a plan: its own id, or its 1-based position when it has none.
pub open spec fn item_step_ok(item: RpcPlanItem, i: int, s: MacroStep) -> bool {
    &&& s.step_id == (match item.step_id {
        Some(id) => id as usize,
        None => (i + 1) as usize,
    })
    &&& s.intent@ == item_intent(item)
    &&& s.expected_outcome@ == str_or_empty(item.expected_outcome)
    &&& s.assertion_type is None
    &&& s.threshold is None
    &&& s.hint is None
}

fn take_str(o: Option<String>) -> (r: String)
    ensures
        r@ == str_or_empty(o),
{
    match o {
        Some(s) => s,
        None => String::new(),
    }
}

/// The steps of an RPC plan.
pub fn plan_steps(items: Vec<RpcPlanItem>) -> (r: Vec<MacroStep>)
    ensures
        r@.len() == items@.len(),
        forall|i: int| 0 <= i < items@.len() ==> item_step_ok(items@[i], i, #[trigger] r@[i]),
{
    let ghost orig = items@;
    let mut rest = items;
    let mut out: Vec<MacroStep> = Vec::new();
    let total = rest.len();
    while rest.len() > 0
        invariant
            total == orig.len(),
            out@.len() + rest@.len() == orig.len(),
            rest@ == orig.subrange(out@.len() as int, orig.len() as int),
            forall|i: int| 0 <= i < out@.len() ==> item_step_ok(orig[i], i, #[trigger] out@[i]),
        decreases rest@.len(),
    {
        let idx = out.len();
        let item = rest.remove(0);
        assert(item == orig[idx as int]);
        let step_id: usize = match item.step_id {
            Some(id) => #[verifier::truncate] (id as usize),
            None => idx + 1,
        };
        let intent = match item.intent {
            Some(i) => take_str(i),
            None => take_str(item.description),
        };
        let expected = take_str(item.expected_outcome);
        let step = MacroStep {
            step_id,
            intent,
            expected_outcome: expected,
            assertion_type: None,
            threshold: None,
            hint: None,
        };
        out.push(step);
        assert(rest@ =~= orig.subrange(out@.len() as int, orig.len() as int));
    }
    out
}

/// The plan an RPC planner replied: its steps when the result held an array
/// of steps (directly or under `steps`), else an error quoting the result.
pub fn plan_result(items: Option<Vec<RpcPlanItem>>, result_json: &str) -> (r: Result<Vec<MacroStep>, String>)
    ensures
        match items {
            Some(v) => r matches Ok(s) && s@.len() == v@.len() && forall|i: int|
                0 <= i < v@.len() ==> item_step_ok(v@[i], i, #[trigger] s@[i]),
            None => r matches Err(m) && m@
                == "Unexpected RPC plan response: expected array or {'steps': [...]}, got: "@ + result_json@,
        },
{
    match items {
        Some(v) => Ok(plan_steps(v)),
        None => {
            let mut m = String::from_str("Unexpected RPC plan response: expected array or {'steps': [...]}, got: ");
            m.append(result_json);
            Err(m)
        },
    }
}

/// The arbitration an RPC planner replied: the result when it is a string,
/// else its `action` string, else the result's JSON text.
pub fn rpc_arbitration(text: Option<String>, action: Option<String>, result_json: String) -> (r: String)
    ensures
        r@ == (match text {
            Some(t) => t@,
            None => match action {
                Some(a) => a@,
                None => result_json@,
            },
        }),
{
    match text {
        Some(t) => t,
        None => match action {
            Some(a) => a,
            None => result_json,
        },
    }
}

/// A signed integer in decimal.
pub open spec fn signed_decimal(n: int) -> Seq<char> {
    if n < 0 {
        "-"@ + decimal((-n) as nat)
    } else {
        decimal(n as nat)
    }
}

fn signed_decimal_string(n: i64) -> (r: String)
    ensures
        r@ == signed_decimal(n as int),
{
    if n < 0 {
        let m: u64 = (-(n as i128)) as u64;
        let d = decimal_u64(m);
        let ds = string_of(&d);
        let mut s = String::from_str("-");
        s.append(ds.as_str());
        s
    } else {
        let d = decimal_u64(n as u64);
        string_of(&d)
    }
}

/// The error object of a JSON-RPC reply: its code and message when they have the right types.
pub struct RpcErrorObject {
    pub code: Option<i64>,
    pub message: Option<String>,
}

/// Reads a JSON-RPC reply: a server error (code -1 and "Unknown RPC error" by
/// default), else the result's JSON text, else a malformed-reply error.
pub fn rpc_reply(error: Option<RpcErrorObject>, result_json: Option<String>) -> (r: Result<String, String>)
    ensures
        match error {
            Some(e) => r matches Err(m) && m@ == "JSON-RPC Server Error (code "@ + signed_decimal(
                match e.code {
                    Some(c) => c as int,
                    None => -1,
                },
            ) + "): "@ + (match e.message {
                Some(s) => s@,
                None => "Unknown RPC error"@,
            }),
            None => match result_json {
                Some(j) => r matches Ok(t) && t@ == j@,
                None => r matches Err(m) && m@ == "Malformed JSON-RPC response: missing 'result' field"@,
            },
        },
{
    match error {
        Some(e) => {
            let code: i64 = match e.code {
                Some(c) => c,
                None => -1,
            };
            let cs = signed_decimal_string(code);
            let mut m = String::from_str("JSON-RPC Server Error (code ");
            m.append(cs.as_str());
            m.append("): ");
            match e.message {
                Some(s) => m.append(s.as_str()),
                None => m.append("Unknown RPC error"),
            }
            Err(m)
        },
        None => match result_json {
            Some(j) => Ok(j),
            None => Err(String::from_str("Malformed JSON-RPC response: missing 'result' field")),
        },
    }
}

/// The error of a JSON-RPC reply with a failing HTTP status.
pub fn http_error_message(status: &str, body: &str) -> (r: String)
    ensures
        r@ == "JSON-RPC server returned HTTP error "@ + status@ + ": "@ + body@,
{
    let mut m = String::from_str("JSON-RPC server returned HTTP error ");
    m.append(status);
    m.append(": ");
    m.append(body);
    m
}

} // verus!
