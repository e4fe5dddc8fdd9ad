//! Batch processing of prompts: what is recorded for each prompt, when the
//! run stops, and what it reports at the end.

use vstd::prelude::*;
use crate::text::decimal;
use crate::text::decimal_text;

verus! {

/// The outcome of one prompt of a batch.
pub struct BatchResult {
    /// The prompt's position in the input.
    pub index: usize,
    pub prompt: String,
    /// The agent's answer, when it gave one.
    pub response: Option<String>,
    /// The error's text, when the prompt failed.
    pub error: Option<String>,
    pub duration_ms: u64,
}

/// The number of failed results.
pub open spec fn failures(rs: Seq<BatchResult>) -> nat
    decreases rs.len(),
{
    if rs.len() == 0 {
        0
    } else {
        failures(rs.drop_last()) + if rs.last().error is Some {
            1nat
        } else {
            0nat
        }
    }
}

/// A batch run in progress.
pub struct BatchRun {
    pub results: Vec<BatchResult>,
    /// How many prompts failed.
    pub failed: usize,
    /// Whether the first failure ends the run.
    pub stop_on_error: bool,
}

impl BatchRun {
    /// The failure count matches the recorded results.
    pub open spec fn wf(&self) -> bool {
        self.failed == failures(self.results@)
    }

    /// A run that has recorded nothing yet.
    pub fn new(stop_on_error: bool) -> (r: Self)
        ensures
            r.wf(),
            r.results@.len() == 0,
            r.stop_on_error == stop_on_error,
    {
        BatchRun { results: Vec::new(), failed: 0, stop_on_error }
    }

    /// Records a prompt's outcome (its answer, or its error's text) and says
    /// whether the run goes on: it stops after a failure when
    /// `stop_on_error` is set.
    pub fn record(&mut self, index: usize, prompt: String, outcome: Result<String, String>, duration_ms: u64) -> (go_on: bool)
        requires
            old(self).wf(),
            old(self).results@.len() < usize::MAX,
        ensures
            final(self).wf(),
            final(self).stop_on_error == old(self).stop_on_error,
            final(self).results@.len() == old(self).results@.len() + 1,
            final(self).results@.take(old(self).results@.len() as int) == old(self).results@,
            ({
                let r = final(self).results@.last();
                &&& r.index == index
                &&& r.prompt == prompt
                &&& r.duration_ms == duration_ms
                &&& match outcome {
                    Ok(c) => r.response == Some(c) && r.error is None,
                    Err(e) => r.response is None && r.error == Some(e),
                }
            }),
            go_on == !(outcome is Err && old(self).stop_on_error),
    {
        let ghost before = self.results@;
        let failed_now = outcome.is_err();
        let r = match outcome {
            Ok(c) => BatchResult { index, prompt, response: Some(c), error: None, duration_ms },
            Err(e) => BatchResult { index, prompt, response: None, error: Some(e), duration_ms },
        };
        proof {
            lemma_failures_bound(before);
        }
        self.results.push(r);
        assert(self.results@.drop_last() =~= before);
        assert(self.results@.take(before.len() as int) =~= before);
        if failed_now {
            self.failed = self.failed + 1;
        }
        !(failed_now && self.stop_on_error)
    }
}

proof fn lemma_failures_bound(rs: Seq<BatchResult>)
    ensures
        failures(rs) <= rs.len(),
    decreases rs.len(),
{
    if rs.len() > 0 {
        lemma_failures_bound(rs.drop_last());
    }
}

/// The chat id of a batch prompt.
pub fn batch_chat_id(index: usize) -> (r: String)
    ensures
        r@ == "batch-"@ + decimal(index as nat),
{
    let mut r = String::from_str("batch-");
    let d = decimal_text(index as u64);
    r.append(d.as_str());
    r
}

/// Whether prompts are streamed: when asked for, or by default in the
/// configuration.
pub fn use_streaming(flag: bool, configured: bool) -> (b: bool)
    ensures
        b == (flag || configured),
{
    flag || configured
}

/// The line printed after writing the results to a file.
pub fn written_text(count: usize, path: &str) -> (r: String)
    ensures
        r@ == "Wrote "@ + decimal(count as nat) + " result(s) to "@ + path@,
{
    let mut r = String::from_str("Wrote ");
    let d = decimal_text(count as u64);
    r.append(d.as_str());
    r.append(" result(s) to ");
    r.append(path);
    r
}

/// The error that ends a batch with failures.
pub fn failure_text(failed: usize) -> (r: Option<String>)
    ensures
        failed == 0 ==> r is None,
        failed > 0 ==> (r matches Some(t) && t@ == decimal(failed as nat)
            + " prompt(s) failed during batch processing"@),
{
    if failed == 0 {
        return None;
    }
    let mut r = decimal_text(failed as u64);
    r.append(" prompt(s) failed during batch processing");
    Some(r)
}

} // verus!
