//! Types of the dependency analysis: issues, their severity, and the report.
use vstd::prelude::*;
use vstd::string::*;

verus! {

/// Issue severity levels, most severe first.
#[derive(Debug, Clone, Copy, PartialEq, Eq, PartialOrd, Ord, Hash, Structural)]
pub enum IssueSeverity {
    /// Will break in WASM or cause major bloat (>30%).
    Critical,
    /// Significant size impact (20-30%).
    High,
    /// Moderate size impact (10-20%).
    Medium,
    /// Minor optimization opportunity (<10%).
    Low,
}

/// The label of a severity: `P0` for the most severe through `P3`.
pub open spec fn severity_label(s: IssueSeverity) -> Seq<char> {
    match s {
        IssueSeverity::Critical => "P0"@,
        IssueSeverity::High => "P1"@,
        IssueSeverity::Medium => "P2"@,
        IssueSeverity::Low => "P3"@,
    }
}

/// The rank of a severity in its order: `Critical` is 0, `Low` is 3.
pub open spec fn severity_rank(s: IssueSeverity) -> int {
    match s {
        IssueSeverity::Critical => 0,
        IssueSeverity::High => 1,
        IssueSeverity::Medium => 2,
        IssueSeverity::Low => 3,
    }
}

impl IssueSeverity {
    /// The priority label, `P0` to `P3`.
    pub fn to_string(&self) -> (r: String)
        ensures
            r@ == severity_label(*self),
    {
        match self {
            IssueSeverity::Critical => String::from_str("P0"),
            IssueSeverity::High => String::from_str("P1"),
            IssueSeverity::Medium => String::from_str("P2"),
            IssueSeverity::Low => String::from_str("P3"),
        }
    }
}

/// A detected dependency issue.
#[derive(Debug, Clone)]
pub struct DependencyIssue {
    /// Package name.
    pub package: String,
    /// Version.
    pub version: String,
    /// Severity.
    pub severity: IssueSeverity,
    /// Issue description.
    pub issue: String,
    /// Suggested fix.
    pub suggestion: String,
    /// Estimated size impact in KB.
    pub size_impact_kb: Option<(u32, u32)>,
    /// Estimated savings percentage.
    pub savings_percent: Option<u8>,
}

/// The mathematical value of a `DependencyIssue`.
pub struct IssueView {
    pub package: Seq<char>,
    pub version: Seq<char>,
    pub severity: IssueSeverity,
    pub issue: Seq<char>,
    pub suggestion: Seq<char>,
    pub size_impact_kb: Option<(u32, u32)>,
    pub savings_percent: Option<u8>,
}

impl View for DependencyIssue {
    type V = IssueView;

    open spec fn view(&self) -> IssueView {
        IssueView {
            package: self.package@,
            version: self.version@,
            severity: self.severity,
            issue: self.issue@,
            suggestion: self.suggestion@,
            size_impact_kb: self.size_impact_kb,
            savings_percent: self.savings_percent,
        }
    }
}

/// Full dependency analysis report.
#[derive(Debug)]
pub struct DependencyReport {
    /// Total number of dependencies.
    pub total_deps: usize,
    /// Number of direct dependencies.
    pub direct_deps: usize,
    /// Detected issues.
    pub issues: Vec<DependencyIssue>,
    /// Crates present in more than one version, each once, with its versions
    /// in `String` order.
    pub duplicates: Vec<(String, Vec<String>)>,
}

/// The issues of `s` whose severity is `sev`, in order.
pub open spec fn with_severity(s: Seq<DependencyIssue>, sev: IssueSeverity) -> Seq<DependencyIssue>
    decreases s.len(),
{
    if s.len() == 0 {
        seq![]
    } else if s.last().severity == sev {
        with_severity(s.drop_last(), sev).push(s.last())
    } else {
        with_severity(s.drop_last(), sev)
    }
}

/// The lower (`upper == false`) or upper ends of the size impacts of `s`, summed.
pub open spec fn impact_sum(s: Seq<DependencyIssue>, upper: bool) -> nat
    decreases s.len(),
{
    if s.len() == 0 {
        0
    } else {
        impact_sum(s.drop_last(), upper) + match s.last().size_impact_kb {
            Some((lo, hi)) => if upper {
                hi as nat
            } else {
                lo as nat
            },
            None => 0,
        }
    }
}

proof fn lemma_impact_sum_prefix(s: Seq<DependencyIssue>, i: int, upper: bool)
    requires
        0 <= i <= s.len(),
    ensures
        impact_sum(s.take(i), upper) <= impact_sum(s, upper),
    decreases s.len(),
{
    if i < s.len() {
        assert(s.drop_last().take(i) == s.take(i));
        lemma_impact_sum_prefix(s.drop_last(), i, upper);
    } else {
        assert(s.take(i) == s);
    }
}

impl DependencyReport {
    /// The issues of the given severity, in report order.
    pub fn issues_by_severity(&self, severity: IssueSeverity) -> (r: Vec<&DependencyIssue>)
        ensures
            r@.len() == with_severity(self.issues@, severity).len(),
            forall|i: int|
                0 <= i < r@.len() ==> *r@[i] == with_severity(self.issues@, severity)[i],
    {
        let mut r: Vec<&DependencyIssue> = Vec::new();
        let mut i: usize = 0;
        while i < self.issues.len()
            invariant
                i <= self.issues@.len(),
                r@.len() == with_severity(self.issues@.take(i as int), severity).len(),
                forall|k: int|
                    0 <= k < r@.len() ==> *r@[k] == with_severity(
                        self.issues@.take(i as int),
                        severity,
                    )[k],
            decreases self.issues@.len() - i,
        {
            let issue = &self.issues[i];
            proof {
                assert(self.issues@.take(i + 1).drop_last() == self.issues@.take(i as int));
            }
            if issue.severity == severity {
                r.push(issue);
            }
            i = i + 1;
        }
        assert(self.issues@.take(i as int) == self.issues@);
        r
    }

    /// Total estimated savings `(min_kb, max_kb)` over all issues with a size impact.
    pub fn total_estimated_savings_kb(&self) -> (r: (u32, u32))
        requires
            impact_sum(self.issues@, true) <= u32::MAX,
            impact_sum(self.issues@, false) <= u32::MAX,
        ensures
            r.0 == impact_sum(self.issues@, false),
            r.1 == impact_sum(self.issues@, true),
    {
        let mut lo: u32 = 0;
        let mut hi: u32 = 0;
        let mut i: usize = 0;
        while i < self.issues.len()
            invariant
                i <= self.issues@.len(),
                impact_sum(self.issues@, true) <= u32::MAX,
                impact_sum(self.issues@, false) <= u32::MAX,
                lo == impact_sum(self.issues@.take(i as int), false),
                hi == impact_sum(self.issues@.take(i as int), true),
            decreases self.issues@.len() - i,
        {
            proof {
                assert(self.issues@.take(i + 1).drop_last() == self.issues@.take(i as int));
                lemma_impact_sum_prefix(self.issues@, i + 1, true);
                lemma_impact_sum_prefix(self.issues@, i + 1, false);
            }
            match self.issues[i].size_impact_kb {
                Some((a, b)) => {
                    lo = lo + a;
                    hi = hi + b;
                },
                None => {},
            }
            i = i + 1;
        }
        assert(self.issues@.take(i as int) == self.issues@);
        (lo, hi)
    }
}

} // verus!
