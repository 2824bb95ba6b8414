//! Size budget enforcement for CI/CD.
//!
//! Three tiers: a target (informational), a warning threshold (passes with a
//! warning) and a hard maximum (fails the build). Sizes are measured in bytes and
//! compared with thresholds given in KB (1024 bytes).
use vstd::prelude::*;
use vstd::string::*;
use crate::analyzer::report_utils::{decimal2, push_decimal2};
use crate::text::{dec, push_dec_wide, push_str};

verus! {

broadcast use vstd::string::group_string_axioms;

/// The configured size thresholds, each in KB and each optional.
#[derive(Debug, Clone, Copy, PartialEq, Eq)]
pub struct SizeBudget {
    /// Ideal size.
    pub target_size_kb: Option<u64>,
    /// Size above which a warning is given.
    pub warn_threshold_kb: Option<u64>,
    /// Size above which the check fails.
    pub max_size_kb: Option<u64>,
}

/// Status of a size budget check.
#[derive(Debug, Clone, Copy, PartialEq, Eq, Structural)]
pub enum BudgetStatus {
    /// At or under the target size.
    UnderTarget,
    /// Above the target, within the warning and maximum limits.
    AboveTarget,
    /// Above the warning threshold, within the maximum.
    Warning,
    /// Above the maximum.
    OverBudget,
}

/// Result of a budget check.
#[derive(Debug, Clone)]
pub struct BudgetResult {
    /// Budget status.
    pub status: BudgetStatus,
    /// The checked size in bytes.
    pub size_bytes: u64,
    /// Target size if set.
    pub target_kb: Option<u64>,
    /// Warning threshold if set.
    pub warn_threshold_kb: Option<u64>,
    /// Maximum allowed size if set.
    pub max_size_kb: Option<u64>,
    /// Human-readable message.
    pub message: String,
}

/// Checks sizes against one budget.
pub struct BudgetChecker {
    pub budget: SizeBudget,
}

/// A size of `size_bytes` bytes is larger than `limit_kb` KB.
pub open spec fn exceeds(size_bytes: u64, limit_kb: u64) -> bool {
    size_bytes > limit_kb * 1024
}

/// The status of a size under a budget. The maximum is looked at first, then the
/// warning threshold, then the target; with no target the size is above target
/// when some limit is set and under it when none is.
pub open spec fn status_for(b: SizeBudget, size_bytes: u64) -> BudgetStatus {
    if b.max_size_kb is Some && exceeds(size_bytes, b.max_size_kb.unwrap()) {
        BudgetStatus::OverBudget
    } else if b.warn_threshold_kb is Some && exceeds(size_bytes, b.warn_threshold_kb.unwrap()) {
        BudgetStatus::Warning
    } else if b.target_size_kb is Some {
        if exceeds(size_bytes, b.target_size_kb.unwrap()) {
            BudgetStatus::AboveTarget
        } else {
            BudgetStatus::UnderTarget
        }
    } else if b.max_size_kb is Some || b.warn_threshold_kb is Some {
        BudgetStatus::AboveTarget
    } else {
        BudgetStatus::UnderTarget
    }
}

/// How bad a status is, from 0 (under target) to 3 (over budget).
pub open spec fn status_rank(s: BudgetStatus) -> int {
    match s {
        BudgetStatus::UnderTarget => 0,
        BudgetStatus::AboveTarget => 1,
        BudgetStatus::Warning => 2,
        BudgetStatus::OverBudget => 3,
    }
}

/// The message of a check: distances to the target with two decimals, distances
/// beyond the warning and maximum thresholds in whole KB (rounded down).
pub open spec fn budget_message(b: SizeBudget, size_bytes: u64, status: BudgetStatus) -> Seq<char> {
    match status {
        BudgetStatus::UnderTarget => match b.target_size_kb {
            Some(t) => "Under target by "@ + decimal2((t * 1024 - size_bytes) as nat, 1024) + " KB"@,
            None => "Size OK"@,
        },
        BudgetStatus::AboveTarget => match b.target_size_kb {
            Some(t) => "Above target by "@ + decimal2((size_bytes - t * 1024) as nat, 1024)
                + " KB (still within limits)"@,
            None => "Size OK"@,
        },
        BudgetStatus::Warning => match b.warn_threshold_kb {
            Some(w) => "Warning: "@ + dec(((size_bytes - w * 1024) / 1024) as nat)
                + " KB over threshold (consider optimizing)"@,
            None => "Warning threshold exceeded"@,
        },
        BudgetStatus::OverBudget => match b.max_size_kb {
            Some(m) => "FAILED: "@ + dec(((size_bytes - m * 1024) / 1024) as nat)
                + " KB over budget (optimization required)"@,
            None => "Budget exceeded"@,
        },
    }
}

/// The exit code of a status: 1 when over budget, 0 otherwise (a warning passes).
pub open spec fn status_exit_code(s: BudgetStatus) -> i32 {
    if s == BudgetStatus::OverBudget {
        1
    } else {
        0
    }
}

/// A larger size never gets a better status.
pub proof fn lemma_status_monotonic(b: SizeBudget, smaller: u64, larger: u64)
    requires
        smaller <= larger,
    ensures
        status_rank(status_for(b, smaller)) <= status_rank(status_for(b, larger)),
{
}

/// A size of zero is under any target that is set.
pub proof fn lemma_zero_size_under_target(b: SizeBudget)
    requires
        b.target_size_kb is Some,
    ensures
        status_for(b, 0) == BudgetStatus::UnderTarget,
{
}

/// Every message says more than five characters.
pub proof fn lemma_message_descriptive(b: SizeBudget, size_bytes: u64)
    ensures
        budget_message(b, size_bytes, status_for(b, size_bytes)).len() > 5,
{
    reveal_strlit("Under target by ");
    reveal_strlit("Above target by ");
    reveal_strlit("Warning: ");
    reveal_strlit("FAILED: ");
    reveal_strlit("Size OK");
}

/// `size_bytes` exceeds `limit_kb` KB.
fn exceeds_exec(size_bytes: u64, limit_kb: u64) -> (r: bool)
    ensures
        r == exceeds(size_bytes, limit_kb),
{
    (size_bytes as u128) > (limit_kb as u128) * 1024
}

impl BudgetResult {
    /// Exit code for CI/CD: 0 passes (warnings included), 1 fails.
    pub fn exit_code(&self) -> (r: i32)
        ensures
            r == status_exit_code(self.status),
            r == 1 <==> self.status == BudgetStatus::OverBudget,
    {
        match self.status {
            BudgetStatus::UnderTarget | BudgetStatus::AboveTarget => 0,
            BudgetStatus::Warning => 0,
            BudgetStatus::OverBudget => 1,
        }
    }
}

impl BudgetChecker {
    /// A checker for `budget`.
    pub fn new(budget: SizeBudget) -> (r: Self)
        ensures
            r.budget == budget,
    {
        BudgetChecker { budget }
    }

    /// The status of a size; the maximum has priority over the warning
    /// threshold, which has priority over the target.
    pub fn determine_status(&self, size_bytes: u64) -> (r: BudgetStatus)
        ensures
            r == status_for(self.budget, size_bytes),
    {
        if let Some(max) = self.budget.max_size_kb {
            if exceeds_exec(size_bytes, max) {
                return BudgetStatus::OverBudget;
            }
        }
        if let Some(warn) = self.budget.warn_threshold_kb {
            if exceeds_exec(size_bytes, warn) {
                return BudgetStatus::Warning;
            }
        }
        if let Some(target) = self.budget.target_size_kb {
            if !exceeds_exec(size_bytes, target) {
                return BudgetStatus::UnderTarget;
            } else {
                return BudgetStatus::AboveTarget;
            }
        }
        if self.budget.max_size_kb.is_some() || self.budget.warn_threshold_kb.is_some() {
            BudgetStatus::AboveTarget
        } else {
            BudgetStatus::UnderTarget
        }
    }

    /// Checks a size of `size_bytes` bytes against the budget.
    ///
    /// With a target of 500 KB, a warning threshold of 750 KB and a maximum of
    /// 1000 KB, 600 KB is above target and within limits.
    pub fn check(&self, size_bytes: u64) -> (r: BudgetResult)
        ensures
            r.status == status_for(self.budget, size_bytes),
            r.size_bytes == size_bytes,
            r.target_kb == self.budget.target_size_kb,
            r.warn_threshold_kb == self.budget.warn_threshold_kb,
            r.max_size_kb == self.budget.max_size_kb,
            r.message@ == budget_message(self.budget, size_bytes, r.status),
    {
        let status = self.determine_status(size_bytes);
        let sb = size_bytes as u128;
        let mut message = String::new();
        match status {
            BudgetStatus::UnderTarget => {
                match self.budget.target_size_kb {
                    Some(t) => {
                        push_str(&mut message, "Under target by ");
                        push_decimal2(&mut message, (t as u128) * 1024 - sb, 1024);
                        push_str(&mut message, " KB");
                    },
                    None => push_str(&mut message, "Size OK"),
                }
            },
            BudgetStatus::AboveTarget => {
                match self.budget.target_size_kb {
                    Some(t) => {
                        push_str(&mut message, "Above target by ");
                        push_decimal2(&mut message, sb - (t as u128) * 1024, 1024);
                        push_str(&mut message, " KB (still within limits)");
                    },
                    None => push_str(&mut message, "Size OK"),
                }
            },
            BudgetStatus::Warning => {
                match self.budget.warn_threshold_kb {
                    Some(w) => {
                        push_str(&mut message, "Warning: ");
                        push_dec_wide(&mut message, (sb - (w as u128) * 1024) / 1024);
                        push_str(&mut message, " KB over threshold (consider optimizing)");
                    },
                    None => push_str(&mut message, "Warning threshold exceeded"),
                }
            },
            BudgetStatus::OverBudget => {
                match self.budget.max_size_kb {
                    Some(m) => {
                        push_str(&mut message, "FAILED: ");
                        push_dec_wide(&mut message, (sb - (m as u128) * 1024) / 1024);
                        push_str(&mut message, " KB over budget (optimization required)");
                    },
                    None => push_str(&mut message, "Budget exceeded"),
                }
            },
        }
        BudgetResult {
            status,
            size_bytes,
            target_kb: self.budget.target_size_kb,
            warn_threshold_kb: self.budget.warn_threshold_kb,
            max_size_kb: self.budget.max_size_kb,
            message,
        }
    }
}

} // verus!
