//! Small decisions of the command-line front end.
use vstd::prelude::*;
use vstd::string::*;
use crate::supervisor::{decimal, decimal_chars};
use crate::text::{chars_of, eq_ignore_ascii, occurs_at, slice_range, starts_with, str_eq_ignore_ascii, string_of, trim, trim_chars};

verus! {

/// A URL without an `http://` or `https://` scheme gets `https://` prepended.
pub open spec fn normalized_url(url: Seq<char>) -> Seq<char> {
    if !starts_with(url, "http://"@) && !starts_with(url, "https://"@) {
        "https://"@ + url
    } else {
        url
    }
}

pub fn normalize_url(url: String) -> (r: String)
    ensures
        r@ == normalized_url(url@),
{
    let u = chars_of(url.as_str());
    let p1 = chars_of("http://");
    let p2 = chars_of("https://");
    if !crate::text::matches_at(&u, &p1, 0) && !crate::text::matches_at(&u, &p2, 0) {
        let mut s = String::from_str("https://");
        s.append(url.as_str());
        s
    } else {
        url
    }
}

/// `--headed` wins over `--headless`; neither leaves the choice to the configuration.
pub fn headless_opt(headless: bool, headed: bool) -> (r: Option<bool>)
    ensures
        r == (if headed { Some(false) } else if headless { Some(true) } else { None }),
{
    if headed {
        Some(false)
    } else if headless {
        Some(true)
    } else {
        None
    }
}

/// The last `:`-separated segment of a listen address (its port), or the whole address.
pub open spec fn port_of(listen: Seq<char>) -> Seq<char>
    decreases listen.len(),
{
    if listen.len() == 0 {
        listen
    } else if listen.last() == ':' {
        seq![]
    } else {
        port_of(listen.drop_last()).push(listen.last())
    }
}

pub fn serve_port(listen: &str) -> (r: String)
    ensures
        r@ == port_of(listen@),
{
    let c = chars_of(listen);
    let n = c.len();
    let mut start: usize = n;
    assert(c@.subrange(0, n as int) =~= c@);
    assert(port_of(c@) + c@.subrange(n as int, n as int) =~= port_of(c@));
    while start > 0 && c[start - 1] != ':'
        invariant
            start <= n,
            n == c@.len(),
            port_of(c@) == port_of(c@.subrange(0, start as int)) + c@.subrange(start as int, n as int),
        decreases start,
    {
        proof {
            let t = c@.subrange(0, start as int);
            assert(t.drop_last() =~= c@.subrange(0, start - 1));
            assert(t.last() == c@[start - 1]);
            assert(port_of(t) == port_of(t.drop_last()).push(t.last()));
            assert(port_of(c@.subrange(0, start - 1)).push(c@[start - 1]) + c@.subrange(start as int, n as int)
                =~= port_of(c@.subrange(0, start - 1)) + c@.subrange(start - 1, n as int));
        }
        start -= 1;
    }
    proof {
        let t = c@.subrange(0, start as int);
        assert(port_of(t) == Seq::<char>::empty()) by {
            if start > 0 {
                assert(t.last() == c@[start - 1]);
            }
        }
        assert(Seq::<char>::empty() + c@.subrange(start as int, n as int) =~= c@.subrange(start as int, n as int));
    }
    let p = slice_range(&c, start, n);
    string_of(&p)
}

/// The file recording a served instance, named by its port.
pub fn serve_record_name(listen: &str) -> (r: String)
    ensures
        r@ == "munin-serve-"@ + port_of(listen@) + ".json"@,
{
    let p = serve_port(listen);
    let mut s = String::from_str("munin-serve-");
    s.append(p.as_str());
    s.append(".json");
    s
}

/// The log file of a restarted instance, named by its port.
pub fn serve_log_name(listen: &str) -> (r: String)
    ensures
        r@ == "munin-serve-"@ + port_of(listen@) + ".log"@,
{
    let p = serve_port(listen);
    let mut s = String::from_str("munin-serve-");
    s.append(p.as_str());
    s.append(".log");
    s
}

/// A setting from the environment, else from the configuration, else its default.
pub fn resolve_setting(env: Option<String>, config: Option<String>, default: &str) -> (r: String)
    ensures
        r@ == (match env {
            Some(e) => e@,
            None => match config {
                Some(c) => c@,
                None => default@,
            },
        }),
{
    match env {
        Some(e) => e,
        None => match config {
            Some(c) => c,
            None => String::from_str(default),
        },
    }
}

/// The planner's API key, from the environment or else the configuration; none is an error.
pub fn resolve_api_key(env: Option<String>, config: Option<String>) -> (r: Result<String, String>)
    ensures
        match env {
            Some(e) => r matches Ok(k) && k@ == e@,
            None => match config {
                Some(c) => r matches Ok(k) && k@ == c@,
                None => r matches Err(m) && m@
                    == "OPENAI_API_KEY is not set in env or munin.toml. Pass --mock or configure RPC."@,
            },
        },
{
    match env {
        Some(e) => Ok(e),
        None => match config {
            Some(c) => Ok(c),
            None => Err(String::from_str("OPENAI_API_KEY is not set in env or munin.toml. Pass --mock or configure RPC.")),
        },
    }
}

/// An interactive answer: the line typed, trimmed, or the default when
/// nothing was read or the line was blank.
pub fn prompt_answer(input: Option<&str>, default: &str) -> (r: String)
    ensures
        r@ == (match input {
            Some(l) => if trim(l@).len() > 0 { trim(l@) } else { default@ },
            None => default@,
        }),
{
    match input {
        Some(l) => {
            let c = chars_of(l);
            let t = trim_chars(&c);
            if t.len() > 0 {
                string_of(&t)
            } else {
                String::from_str(default)
            }
        },
        None => String::from_str(default),
    }
}

/// A yes to headless mode: the answer is `true` in any ASCII case, blanks aside.
pub fn headless_answer(answer: &str) -> (b: bool)
    ensures
        b == eq_ignore_ascii(trim(answer@), "true"@),
{
    let c = chars_of(answer);
    let t = trim_chars(&c);
    let tt = chars_of("true");
    crate::text::eq_ignore_ascii_chars(&t, &tt)
}

/// The outcome of a scenario run: it fails when any step failed.
pub fn suite_verdict(failed_steps: usize) -> (r: Result<(), String>)
    ensures
        failed_steps == 0 ==> r is Ok,
        failed_steps > 0 ==> (r matches Err(m) && m@ == "Scenario test suite failed: "@ + decimal(failed_steps as nat)
            + " step(s) failed"@),
{
    if failed_steps > 0 {
        let d = decimal_chars(failed_steps);
        let ds = string_of(&d);
        let mut m = String::from_str("Scenario test suite failed: ");
        m.append(ds.as_str());
        m.append(" step(s) failed");
        Err(m)
    } else {
        Ok(())
    }
}

} // verus!
