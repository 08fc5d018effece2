//! State probing: snapshot the page text and phrase the outcome assertion.
use vstd::prelude::*;
use vstd::string::*;
use crate::supervisor::{decimal, decimal_chars};
use crate::text::string_of;
use crate::types::Confidence;

verus! {

/// Probes whether the page shows an expected outcome.
#[derive(Debug, Clone)]
pub struct StateProbe {
    pub max_text_length: usize,
    pub default_confidence_threshold: Confidence,
}

impl Default for StateProbe {
    fn default() -> (r: Self)
        ensures
            r.max_text_length == 1000,
            r.default_confidence_threshold == 8500,
    {
        StateProbe { max_text_length: 1000, default_confidence_threshold: 8500 }
    }
}

/// The script reading at most `n` characters of the page's visible text.
pub open spec fn snapshot_script_spec(n: nat) -> Seq<char> {
    "(() => { const t = (document.body && document.body.innerText) || ''; return t.slice(0, "@ + decimal(n)
        + "); })()"@
}

/// The assertion probed for an expected outcome.
pub open spec fn outcome_assertion(outcome: Seq<char>) -> Seq<char> {
    "页面内容是否已表明："@ + outcome + "？"@
}

impl StateProbe {
    pub fn new() -> (r: Self)
        ensures
            r.max_text_length == 1000,
            r.default_confidence_threshold == 8500,
    {
        Self::default()
    }

    pub fn with_threshold(self, threshold: Confidence) -> (r: Self)
        ensures
            r.max_text_length == self.max_text_length,
            r.default_confidence_threshold == threshold,
    {
        StateProbe { max_text_length: self.max_text_length, default_confidence_threshold: threshold }
    }

    /// The page-text snapshot script.
    pub fn snapshot_script(&self) -> (r: String)
        ensures
            r@ == snapshot_script_spec(self.max_text_length as nat),
    {
        let mut s = String::from_str("(() => { const t = (document.body && document.body.innerText) || ''; return t.slice(0, ");
        let d = decimal_chars(self.max_text_length);
        let ds = string_of(&d);
        s.append(ds.as_str());
        s.append("); })()");
        s
    }

    pub fn assertion(expected_outcome: &str) -> (r: String)
        ensures
            r@ == outcome_assertion(expected_outcome@),
    {
        let mut s = String::from_str("页面内容是否已表明：");
        s.append(expected_outcome);
        s.append("？");
        s
    }

    /// Whether a probe result confirms the outcome at this probe's threshold.
    pub fn confirmed(&self, result: (bool, Confidence)) -> (b: bool)
        ensures
            b == (result.0 && result.1 >= self.default_confidence_threshold),
    {
        result.0 && result.1 >= self.default_confidence_threshold
    }
}

} // verus!
