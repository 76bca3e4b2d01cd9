//! The batch action processor: aggregates the per-entry outcomes of one
//! mutating action over a collection into a single report, with
//! all-attempt semantics — outcomes are independent and one entry's
//! failure never hides another's. The processor never mutates the
//! authoritative collection; the session applies the state change for the
//! entries whose outcome was success.
use vstd::prelude::*;
use vstd::string::StringExecFns;
use crate::actions::enable_rejected;
use crate::logger::ActionLogger;
use crate::models::{Action, ActionFailure, StartupEntry};
use crate::text::{dec_digits, rate_tenths, ratio_tenths, tenths_string, tenths_view};
use crate::text::u64_to_string;

verus! {

/// What one backend call reported for one entry.
pub type ActionOutcome = Result<(), ActionFailure>;

/// Whether the attempt on entry `i` fails. An `Enable` attempt fails for
/// every entry, whatever the backend would say; otherwise the backend's
/// outcome decides.
pub open spec fn attempt_fails(action: Action, outcomes: Seq<ActionOutcome>, i: int) -> bool {
    action == Action::Enable || outcomes[i] is Err
}

/// The message of the failed attempt on entry `i`.
pub open spec fn attempt_message(action: Action, outcomes: Seq<ActionOutcome>, i: int) -> Seq<
    char,
> {
    if action == Action::Enable {
        "Enable action not yet implemented"@
    } else {
        outcomes[i]->Err_0.message@
    }
}

/// How many of the first `n` attempts succeed.
pub open spec fn successes_upto(action: Action, outcomes: Seq<ActionOutcome>, n: int) -> int
    decreases n,
{
    if n <= 0 {
        0
    } else {
        successes_upto(action, outcomes, n - 1) + if attempt_fails(action, outcomes, n - 1) {
            0int
        } else {
            1int
        }
    }
}

/// The error lines of the first `n` attempts, in entry order, each
/// formatted as `<name>: <message>`.
pub open spec fn errors_upto(
    entries: Seq<StartupEntry>,
    action: Action,
    outcomes: Seq<ActionOutcome>,
    n: int,
) -> Seq<Seq<char>>
    decreases n,
{
    if n <= 0 {
        Seq::empty()
    } else {
        errors_upto(entries, action, outcomes, n - 1) + if attempt_fails(action, outcomes, n - 1) {
            seq![entries[n - 1].name@ + ": "@ + attempt_message(action, outcomes, n - 1)]
        } else {
            Seq::empty()
        }
    }
}

/// The aggregated report of one batch: how many attempts were made, how
/// many succeeded and failed, and the per-entry error lines in order.
/// Derived and immutable once constructed.
#[derive(Debug)]
pub struct BatchResult {
    pub total: usize,
    pub success: usize,
    pub failed: usize,
    pub errors: Vec<String>,
}

/// The counts of a report are consistent: every attempt either succeeded
/// or failed, and each failure contributed one error line.
pub open spec fn batch_result_wf(b: BatchResult) -> bool {
    b.success + b.failed == b.total && b.errors@.len() == b.failed
}

/// The operator-facing one-line summary of a report.
pub open spec fn summary_view(b: BatchResult) -> Seq<char> {
    "Batch operation completed: "@ + dec_digits(b.success as nat) + " successful, "@ + dec_digits(
        b.failed as nat,
    ) + " failed out of "@ + dec_digits(b.total as nat) + " total ("@ + tenths_view(
        rate_tenths(b.success as nat, b.total as nat),
    ) + "% success rate)"@
}

impl Clone for BatchResult {
    fn clone(&self) -> (r: Self)
        ensures
            r.total == self.total,
            r.success == self.success,
            r.failed == self.failed,
            r.errors@ == self.errors@,
    {
        let errors = self.errors.clone();
        proof {
            assert forall|i: int| 0 <= i < errors@.len() implies errors@[i] == self.errors@[i] by {
                assert(vstd::pervasive::cloned::<String>(self.errors[i], errors[i]));
            }
            assert(errors@ =~= self.errors@);
        }
        BatchResult { total: self.total, success: self.success, failed: self.failed, errors }
    }
}

impl BatchResult {
    /// The success rate in tenths of a percent (so one decimal place),
    /// rounded to the nearest tenth; 0 when the batch was empty.
    pub fn success_rate_tenths(&self) -> (r: u64)
        requires
            self.success <= self.total,
        ensures
            r as nat == rate_tenths(self.success as nat, self.total as nat),
    {
        ratio_tenths(self.success, self.total)
    }

    /// The operator-facing summary: successes, failures, total, and the
    /// success rate with one decimal place.
    pub fn summary(&self) -> (r: String)
        requires
            self.success <= self.total,
        ensures
            r@ == summary_view(*self),
    {
        let tenths = self.success_rate_tenths();
        let mut s = String::new();
        s.append("Batch operation completed: ");
        let succ = u64_to_string(self.success as u64);
        s.append(succ.as_str());
        s.append(" successful, ");
        let fail = u64_to_string(self.failed as u64);
        s.append(fail.as_str());
        s.append(" failed out of ");
        let tot = u64_to_string(self.total as u64);
        s.append(tot.as_str());
        s.append(" total (");
        let rate = tenths_string(tenths);
        s.append(rate.as_str());
        s.append("% success rate)");
        s
    }
}

/// Runs one action over many entries and aggregates the outcomes. The
/// processor holds no state of its own beyond an optional logger identity;
/// the host writes the log records.
pub struct BatchProcessor {
    logger: Option<ActionLogger>,
}

impl BatchProcessor {
    pub fn new(logger: Option<ActionLogger>) -> (r: Self) {
        BatchProcessor { logger }
    }

    /// Aggregates the per-entry outcomes of `action` over `entries` into a
    /// report. Every entry is accounted for, in the order supplied — one
    /// failure never hides a later attempt. An `Enable` action fails for
    /// every entry with the `NotSupported` refusal, whatever the outcomes
    /// say; for the other actions the backend outcome of each entry
    /// decides. Each failure appends `<name>: <message>` to the error
    /// list, preserving entry order.
    pub fn process_batch(
        &self,
        entries: &Vec<StartupEntry>,
        action: Action,
        outcomes: &Vec<ActionOutcome>,
    ) -> (r: BatchResult)
        requires
            action != Action::Enable ==> outcomes@.len() == entries@.len(),
        ensures
            r.total == entries@.len(),
            r.success == successes_upto(action, outcomes@, entries@.len() as int),
            r.success + r.failed == r.total,
            r.errors@.map_values(|s: String| s@) == errors_upto(
                entries@,
                action,
                outcomes@,
                entries@.len() as int,
            ),
            r.errors@.len() == r.failed,
            batch_result_wf(r),
            action == Action::Enable ==> r.failed == r.total && r.success == 0,
    {
        let mut success: usize = 0;
        let mut failed: usize = 0;
        let mut errors: Vec<String> = Vec::new();
        let mut i: usize = 0;
        while i < entries.len()
            invariant
                i <= entries.len(),
                action != Action::Enable ==> outcomes@.len() == entries@.len(),
                success == successes_upto(action, outcomes@, i as int),
                success + failed == i,
                errors@.map_values(|s: String| s@) == errors_upto(
                    entries@,
                    action,
                    outcomes@,
                    i as int,
                ),
                errors@.len() == failed,
                action == Action::Enable ==> success == 0,
            decreases entries.len() - i,
        {
            let fail_message: Option<String> = if action == Action::Enable {
                Some(enable_rejected().message)
            } else {
                match &outcomes[i] {
                    Ok(_) => None,
                    Err(f) => Some(f.message.clone()),
                }
            };
            match fail_message {
                None => {
                    success += 1;
                },
                Some(m) => {
                    failed += 1;
                    let mut line = entries[i].name.clone();
                    line.append(": ");
                    line.append(m.as_str());
                    errors.push(line);
                    proof {
                        assert(errors@.map_values(|s: String| s@) =~= errors_upto(
                            entries@,
                            action,
                            outcomes@,
                            i as int,
                        ).push(line@));
                        assert(errors_upto(entries@, action, outcomes@, i + 1) =~= errors_upto(
                            entries@,
                            action,
                            outcomes@,
                            i as int,
                        ).push(line@));
                    }
                },
            }
            proof {
                if !attempt_fails(action, outcomes@, i as int) {
                    assert(errors_upto(entries@, action, outcomes@, i + 1) =~= errors_upto(
                        entries@,
                        action,
                        outcomes@,
                        i as int,
                    ));
                }
            }
            i += 1;
        }
        BatchResult { total: entries.len(), success, failed, errors }
    }
}

} // verus!
