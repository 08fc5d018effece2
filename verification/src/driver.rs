//! Rules shared by every browser driver: how a script is wrapped before it is
//! evaluated, when an element has reached the state waited for, and when the
//! network counts as idle.
use vstd::prelude::*;
use vstd::string::*;
use crate::supervisor::{decimal, decimal_u64, json_literal, json_quote};
use crate::text::{chars_of, contains, matches_at, starts_with, str_contains, str_eq, string_of, trim, trim_chars};

verus! {

/// The script opens with a function expression that evaluates itself.
pub open spec fn self_invoking(s: Seq<char>) -> bool {
    starts_with(s, "(() =>"@) || starts_with(s, "(function"@)
}

/// The script is a statement or a block rather than an expression.
pub open spec fn is_statement(s: Seq<char>) -> bool {
    ||| contains(s, ";"@) || contains(s, "\n"@)
    ||| starts_with(s, "const "@) || starts_with(s, "let "@) || starts_with(s, "var "@)
    ||| starts_with(s, "if "@) || starts_with(s, "for "@) || starts_with(s, "while "@)
}

/// The script a driver evaluates for `script`: trimmed; a self-invoking function
/// as it is; statements inside an arrow function; an expression returned from
/// an arrow function that turns an exception into `null`.
pub open spec fn wrapped_script(script: Seq<char>) -> Seq<char> {
    let t = trim(script);
    if self_invoking(t) {
        t
    } else if is_statement(t) {
        "(() => { "@ + t + " })()"@
    } else {
        "(() => { try { return ("@ + t + "); } catch(e) { return null; } })()"@
    }
}

fn begins(s: &Vec<char>, p: &str) -> (b: bool)
    ensures
        b == starts_with(s@, p@),
{
    let pc = chars_of(p);
    matches_at(s, &pc, 0)
}

pub fn wrap_script(script: &str) -> (r: String)
    ensures
        r@ == wrapped_script(script@),
{
    let c = chars_of(script);
    let t = trim_chars(&c);
    let ts = string_of(&t);
    if begins(&t, "(() =>") || begins(&t, "(function") {
        ts
    } else if str_contains(ts.as_str(), ";") || str_contains(ts.as_str(), "\n") || begins(&t, "const ") || begins(
        &t,
        "let ",
    ) || begins(&t, "var ") || begins(&t, "if ") || begins(&t, "for ") || begins(&t, "while ") {
        let mut s = String::from_str("(() => { ");
        s.append(ts.as_str());
        s.append(" })()");
        s
    } else {
        let mut s = String::from_str("(() => { try { return (");
        s.append(ts.as_str());
        s.append("); } catch(e) { return null; } })()");
        s
    }
}

/// Whether an element in the given state satisfies what is waited for
/// (`None` for a state name that is not one of the four).
pub open spec fn state_reached_spec(state: Seq<char>, attached: bool, visible: bool) -> Option<bool> {
    if state == "visible"@ {
        Some(visible)
    } else if state == "hidden"@ {
        Some(attached && !visible || !attached)
    } else if state == "attached"@ {
        Some(attached)
    } else if state == "detached"@ {
        Some(!attached)
    } else {
        None
    }
}

/// Decides one poll of `wait_for`: reached or not, or an unknown state.
pub fn state_reached(state: &str, attached: bool, visible: bool) -> (r: Result<bool, String>)
    ensures
        match state_reached_spec(state@, attached, visible) {
            Some(b) => r == Ok::<bool, String>(b),
            None => r matches Err(m) && m@ == "wait_for: unknown state '"@ + state@ + "'"@,
        },
{
    if str_eq(state, "visible") {
        Ok(visible)
    } else if str_eq(state, "hidden") {
        Ok(attached && !visible || !attached)
    } else if str_eq(state, "attached") {
        Ok(attached)
    } else if str_eq(state, "detached") {
        Ok(!attached)
    } else {
        let mut m = String::from_str("wait_for: unknown state '");
        m.append(state);
        m.append("'");
        Err(m)
    }
}

/// The script that reports whether the element a selector finds is attached and visible.
pub open spec fn wait_probe_script(selector: Seq<char>) -> Seq<char> {
    "(() => {\n                    const el = document.querySelector("@ + json_literal(selector)
        + ");\n                    const visible = !!el && (el.offsetWidth > 0 || el.offsetHeight > 0) && getComputedStyle(el).visibility !== 'hidden';\n                    return { attached: !!el, visible: visible };\n                })()"@
}

pub fn wait_probe(selector: &str) -> (r: String)
    ensures
        r@ == wait_probe_script(selector@),
{
    let q = json_quote(selector);
    let mut s = String::from_str("(() => {\n                    const el = document.querySelector(");
    s.append(q.as_str());
    s.append(
        ");\n                    const visible = !!el && (el.offsetWidth > 0 || el.offsetHeight > 0) && getComputedStyle(el).visibility !== 'hidden';\n                    return { attached: !!el, visible: visible };\n                })()",
    );
    s
}

/// The error of a wait that ran out of time.
pub fn wait_timeout_message(timeout_ms: u64, selector: &str, state: &str) -> (r: String)
    ensures
        r@ == "wait_for timeout after "@ + decimal(timeout_ms as nat) + "ms: selector '"@ + selector@
            + "' never reached state '"@ + state@ + "'"@,
{
    let d = decimal_u64(timeout_ms);
    let ds = string_of(&d);
    let mut s = String::from_str("wait_for timeout after ");
    s.append(ds.as_str());
    s.append("ms: selector '");
    s.append(selector);
    s.append("' never reached state '");
    s.append(state);
    s.append("'");
    s
}

/// The error of a network that did not fall idle in time.
pub fn idle_timeout_message(timeout_ms: u64) -> (r: String)
    ensures
        r@ == "wait_for_network_idle timeout after "@ + decimal(timeout_ms as nat) + "ms"@,
{
    let d = decimal_u64(timeout_ms);
    let ds = string_of(&d);
    let mut s = String::from_str("wait_for_network_idle timeout after ");
    s.append(ds.as_str());
    s.append("ms");
    s
}

/// One poll of the loaded-resource count while waiting for network idleness.
#[derive(Debug, Clone, Copy, PartialEq, Eq, Structural)]
pub enum IdleStep {
    /// The count moved: remember it and start the quiet period again.
    Changed,
    /// The count held still for the whole idle period: the network is idle.
    Idle,
    /// The count held still, but not yet for long enough.
    Quiet,
}

/// Decides one poll: `last_count` is the count seen before (-1 at first),
/// `quiet_ms` how long it has held.
pub fn idle_step(last_count: i64, count: i64, quiet_ms: u64, idle_ms: u64) -> (r: IdleStep)
    ensures
        r == (if count != last_count {
            IdleStep::Changed
        } else if quiet_ms >= idle_ms {
            IdleStep::Idle
        } else {
            IdleStep::Quiet
        }),
{
    if count != last_count {
        IdleStep::Changed
    } else if quiet_ms >= idle_ms {
        IdleStep::Idle
    } else {
        IdleStep::Quiet
    }
}

/// What the opening script of a dropdown reported: a missing element or
/// option is an error, a native select is done, anything else opened a panel
/// whose option must still be clicked (`Ok(false)`).
pub open spec fn select_outcome(status: Seq<char>, node_id: Seq<char>, label: Seq<char>) -> Result<bool, Seq<char>> {
    if status == "not-found"@ {
        Err("select_option: element '"@ + node_id + "' not found"@)
    } else if status == "option-not-found"@ {
        Err("select_option: no option matching '"@ + label + "' in native select '"@ + node_id + "'"@)
    } else if status == "native-ok"@ {
        Ok(true)
    } else {
        Ok(false)
    }
}

pub fn select_stage(status: &str, node_id: &str, label: &str) -> (r: Result<bool, String>)
    ensures
        match (r, select_outcome(status@, node_id@, label@)) {
            (Ok(a), Ok(b)) => a == b,
            (Err(m), Err(n)) => m@ == n,
            _ => false,
        },
{
    if str_eq(status, "not-found") {
        let mut m = String::from_str("select_option: element '");
        m.append(node_id);
        m.append("' not found");
        Err(m)
    } else if str_eq(status, "option-not-found") {
        let mut m = String::from_str("select_option: no option matching '");
        m.append(label);
        m.append("' in native select '");
        m.append(node_id);
        m.append("'");
        Err(m)
    } else if str_eq(status, "native-ok") {
        Ok(true)
    } else {
        Ok(false)
    }
}

// ---------------------------------------------------------------------------
// Page scripts of the DevTools driver
// ---------------------------------------------------------------------------

/// Lists the interactive elements with their attributes, tags each with a Munin id,
/// marks whether it lies in the topmost open layer, and records a fingerprint
/// that finds it again.
pub const ELEMENTS_SCRIPT: &'static str = r#"(() => {
    const selector = 'button, a, input, select, textarea, [role="button"], [role="link"], [onclick]';
    const elements = Array.from(document.querySelectorAll(selector));
    const layerSel = '[aria-modal="true"], [role="dialog"], .ant-modal-wrap, .ant-drawer-open, .ant-select-dropdown, .ant-picker-dropdown, .ant-popconfirm, .ant-popover, .ant-tooltip, .el-dialog__wrapper, .el-drawer__wrapper, .el-select-dropdown, .el-popper';
    const zOf = (l) => {
        const z = parseInt(getComputedStyle(l).zIndex, 10);
        return isNaN(z) ? 0 : z;
    };
    const activeLayers = Array.from(document.querySelectorAll(layerSel))
        .filter(l => {
            const s = getComputedStyle(l);
            return s.display !== 'none' && s.visibility !== 'hidden';
        });
    const topZ = activeLayers.length > 0 ? Math.max(...activeLayers.map(zOf)) : 0;
    const topLayers = activeLayers.filter(l => zOf(l) === topZ);
    const inTopLayer = (el) => topLayers.some(l => l.contains(el) || l === el);
    const layerActive = activeLayers.length > 0;
    return elements.map((el, idx) => {
        let id = el.getAttribute('data-munin-id') || el.id;
        if (!id) {
            id = 'munin-node-' + idx;
            el.setAttribute('data-munin-id', id);
        }
        const attrs = {};
        for (const attr of el.attributes) {
            attrs[attr.name] = attr.value;
        }
        const rawText = (el.innerText || el.textContent || el.value || el.placeholder || '').trim();
        attrs['data-munin-text-normalized'] = rawText.replace(/\s+/g, '');
        attrs['data-munin-layer'] = inTopLayer(el) ? 'active' : (layerActive ? 'buried' : 'normal');
        (window.__munin_registry = window.__munin_registry || {})[id] = {
            tag: el.tagName.toLowerCase(),
            text: rawText.replace(/\s+/g, ''),
            id_attr: el.id || '',
            name: el.getAttribute('name') || '',
            aria: el.getAttribute('aria-label') || '',
            placeholder: el.getAttribute('placeholder') || '',
            type: el.getAttribute('type') || ''
        };
        return {
            node_id: id,
            tag: el.tagName.toLowerCase(),
            text: rawText,
            attributes: attrs
        };
    });
})()"#;

/// Resolves once no animation runs any more, or after three seconds.
pub const STABLE_SCRIPT: &'static str = r#"(() => {
    return new Promise((resolve) => {
        let timer = null;
        const check = () => {
            const running = document.getAnimations().some(a => a.playState === 'running');
            if (!running) {
                clearTimeout(timer);
                resolve(true);
            } else {
                timer = setTimeout(check, 100);
            }
        };
        setTimeout(check, 50);
        setTimeout(() => resolve(true), 3000);
    });
})()"#;

/// The start of a script about one node, up to its id as a JSON string.
pub const NODE_SCRIPT_HEAD: &'static str = r#"(() => {
    const id = "#;

/// The rest of the click script: find the node by its Munin id or DOM id, else
/// by its recorded fingerprint; scroll it into view, click it, and answer
/// whether a node was clicked.
pub const CLICK_SCRIPT_TAIL: &'static str = r#";
    let el = document.querySelector('[data-munin-id="' + id + '"]') || document.getElementById(id);
    if (!el) {
        const fp = (window.__munin_registry || {})[id];
        if (fp) {
            const cand = Array.from(document.querySelectorAll(fp.tag));
            let best = null, bestScore = 0;
            for (const c of cand) {
                let s = 0;
                if (fp.id_attr && c.id === fp.id_attr) s += 100;
                if (fp.name && c.getAttribute('name') === fp.name) s += 50;
                if (fp.aria && c.getAttribute('aria-label') === fp.aria) s += 40;
                if (fp.placeholder && c.getAttribute('placeholder') === fp.placeholder) s += 40;
                if (fp.text) {
                    const ct = (c.innerText || c.textContent || c.value || '').replace(/\s+/g, '');
                    if (ct === fp.text) s += 30;
                    else if (ct && fp.text && (ct.includes(fp.text) || fp.text.includes(ct))) s += 15;
                }
                if (s > bestScore) { bestScore = s; best = c; }
            }
            if (best && bestScore >= 30) { el = best; }
        }
    }
    if (el) {
        el.scrollIntoView({ behavior: 'instant', block: 'center' });
        el.click();
        return true;
    }
    return false;
})()"#;

/// Between the node id and the text in the fill script.
pub const FILL_SCRIPT_TEXT: &'static str = r#";
    const text = "#;

/// The rest of the fill script: find the node as the click script does, set its
/// value through the native setter, and fire the key, input and change events.
pub const FILL_SCRIPT_TAIL: &'static str = r#";
    let el = document.querySelector('[data-munin-id="' + id + '"]') || document.getElementById(id);
    if (!el) {
        const fp = (window.__munin_registry || {})[id];
        if (fp) {
            const cand = Array.from(document.querySelectorAll(fp.tag + ', input, textarea, select'));
            let best = null, bestScore = 0;
            for (const c of cand) {
                let s = 0;
                if (fp.id_attr && c.id === fp.id_attr) s += 100;
                if (fp.name && c.getAttribute('name') === fp.name) s += 50;
                if (fp.aria && c.getAttribute('aria-label') === fp.aria) s += 40;
                if (fp.placeholder && c.getAttribute('placeholder') === fp.placeholder) s += 40;
                if (s > bestScore) { bestScore = s; best = c; }
            }
            if (best && bestScore >= 40) { el = best; }
        }
    }
    if (!el) return false;
    el.focus();
    const proto = el instanceof HTMLTextAreaElement
        ? HTMLTextAreaElement.prototype
        : el instanceof HTMLSelectElement
            ? HTMLSelectElement.prototype
            : HTMLInputElement.prototype;
    const nativeSetter = Object.getOwnPropertyDescriptor(proto, 'value');
    if (nativeSetter && nativeSetter.set) {
        nativeSetter.set.call(el, text);
    } else {
        el.value = text;
    }
    el.dispatchEvent(new KeyboardEvent('keydown', { bubbles: true }));
    el.dispatchEvent(new Event('input', { bubbles: true }));
    el.dispatchEvent(new Event('change', { bubbles: true }));
    el.blur();
    return true;
})()"#;

/// Between the node id and the date in the date-picker script.
pub const DATE_SCRIPT_DATE: &'static str = r#";
    const date = "#;

/// The rest of the date-picker script: open the picker, then click the cell titled with the date.
pub const DATE_SCRIPT_TAIL: &'static str = r#";
    const el = document.querySelector('[data-munin-id="' + id + '"]') || document.getElementById(id);
    if (!el) return false;
    el.dispatchEvent(new MouseEvent('mousedown', { bubbles: true }));
    el.click();
    setTimeout(() => {
        const cell = document.querySelector('.ant-picker-cell[title="' + date + '"]')
            || document.querySelector('.ant-picker-cell-in-view[title="' + date + '"]');
        if (cell) {
            cell.dispatchEvent(new MouseEvent('mousedown', { bubbles: true }));
            cell.click();
        }
    }, 200);
    return true;
})()"#;

/// Between the node id and the label in the dropdown-opening script.
pub const SELECT_SCRIPT_LABEL: &'static str = r#";
    const label = "#;

/// The rest of the dropdown-opening script: pick the option of a native select
/// (`native-ok`, `option-not-found`), else open the component's dropdown
/// (`opened`); `not-found` without the node.
pub const SELECT_SCRIPT_TAIL: &'static str = r#";
    const squash = (s) => (s || '').replace(/\s+/g, '');
    const labelSq = squash(label);
    const el = document.querySelector('[data-munin-id="' + id + '"]') || document.getElementById(id);
    if (!el) return 'not-found';
    if (el.tagName === 'SELECT') {
        const opts = Array.from(el.options);
        const hit = opts.find(o => o.text.trim() === label || o.value === label)
            || opts.find(o => squash(o.text) === labelSq)
            || opts.find(o => squash(o.text).includes(labelSq));
        if (!hit) return 'option-not-found';
        el.value = hit.value;
        el.dispatchEvent(new Event('input', { bubbles: true }));
        el.dispatchEvent(new Event('change', { bubbles: true }));
        return 'native-ok';
    }
    const trigger = el.closest('.ant-select-selector')
        || el.closest('.ant-select, .el-select')
        || el;
    trigger.dispatchEvent(new MouseEvent('mousedown', { bubbles: true }));
    trigger.click();
    return 'opened';
})()"#;

/// The start of the option-picking script, up to the label as a JSON string.
pub const OPTION_SCRIPT_HEAD: &'static str = r#"(() => {
    const label = "#;

/// The rest of the option-picking script: click the visible dropdown option
/// whose text or title is the label (exactly, without blanks, or containing it).
pub const OPTION_SCRIPT_TAIL: &'static str = r#";
    const squash = (s) => (s || '').replace(/\s+/g, '');
    const labelSq = squash(label);
    const opts = Array.from(document.querySelectorAll(
        '.ant-select-dropdown:not(.ant-select-dropdown-hidden) .ant-select-item-option, ' +
        '.el-select-dropdown:not([style*="display: none"]) .el-select-dropdown__item'
    )).filter(o => o.offsetParent !== null);
    const hit = opts.find(o => o.textContent.trim() === label || o.getAttribute('title') === label)
        || opts.find(o => squash(o.textContent) === labelSq)
        || opts.find(o => labelSq && squash(o.textContent).includes(labelSq));
    if (!hit) return false;
    hit.dispatchEvent(new MouseEvent('mousedown', { bubbles: true }));
    hit.click();
    return true;
})()"#;

/// The script that clicks a node.
pub fn click_script(node_id: &str) -> (r: String)
    ensures
        r@ == NODE_SCRIPT_HEAD@ + json_literal(node_id@) + CLICK_SCRIPT_TAIL@,
{
    let mut s = String::from_str(NODE_SCRIPT_HEAD);
    let q = json_quote(node_id);
    s.append(q.as_str());
    s.append(CLICK_SCRIPT_TAIL);
    s
}

/// The script that types `text` into a node.
pub fn fill_script(node_id: &str, text: &str) -> (r: String)
    ensures
        r@ == NODE_SCRIPT_HEAD@ + json_literal(node_id@) + FILL_SCRIPT_TEXT@ + json_literal(text@) + FILL_SCRIPT_TAIL@,
{
    let mut s = String::from_str(NODE_SCRIPT_HEAD);
    let q = json_quote(node_id);
    s.append(q.as_str());
    s.append(FILL_SCRIPT_TEXT);
    let t = json_quote(text);
    s.append(t.as_str());
    s.append(FILL_SCRIPT_TAIL);
    s
}

/// The script that picks `date` in a date picker.
pub fn pick_date_script(node_id: &str, date: &str) -> (r: String)
    ensures
        r@ == NODE_SCRIPT_HEAD@ + json_literal(node_id@) + DATE_SCRIPT_DATE@ + json_literal(date@) + DATE_SCRIPT_TAIL@,
{
    let mut s = String::from_str(NODE_SCRIPT_HEAD);
    let q = json_quote(node_id);
    s.append(q.as_str());
    s.append(DATE_SCRIPT_DATE);
    let d = json_quote(date);
    s.append(d.as_str());
    s.append(DATE_SCRIPT_TAIL);
    s
}

/// The script that opens a dropdown, or picks `label` in a native select.
pub fn open_select_script(node_id: &str, label: &str) -> (r: String)
    ensures
        r@ == NODE_SCRIPT_HEAD@ + json_literal(node_id@) + SELECT_SCRIPT_LABEL@ + json_literal(label@) + SELECT_SCRIPT_TAIL@,
{
    let mut s = String::from_str(NODE_SCRIPT_HEAD);
    let q = json_quote(node_id);
    s.append(q.as_str());
    s.append(SELECT_SCRIPT_LABEL);
    let l = json_quote(label);
    s.append(l.as_str());
    s.append(SELECT_SCRIPT_TAIL);
    s
}

/// The script that clicks the open dropdown's option `label`.
pub fn pick_option_script(label: &str) -> (r: String)
    ensures
        r@ == OPTION_SCRIPT_HEAD@ + json_literal(label@) + OPTION_SCRIPT_TAIL@,
{
    let mut s = String::from_str(OPTION_SCRIPT_HEAD);
    let l = json_quote(label);
    s.append(l.as_str());
    s.append(OPTION_SCRIPT_TAIL);
    s
}

} // verus!
