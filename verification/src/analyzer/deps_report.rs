//! The text of the dependency report, line by line; the console only styles it.
use vstd::prelude::*;
use vstd::string::*;
use crate::analyzer::deps_types::{
    DependencyIssue,
    DependencyReport,
    IssueSeverity,
    impact_sum,
    severity_label,
    with_severity,
};
use crate::text::{dec, joined, push_dec, push_str, string_views};

verus! {

broadcast use vstd::string::group_string_axioms;

/// The name a severity is shown with.
pub open spec fn severity_name(s: IssueSeverity) -> Seq<char> {
    match s {
        IssueSeverity::Critical => "Critical"@,
        IssueSeverity::High => "High"@,
        IssueSeverity::Medium => "Medium"@,
        IssueSeverity::Low => "Low"@,
    }
}

/// The lines of one issue: package and version, the issue, its size impact
/// where known, and the fix; a blank line first.
pub open spec fn issue_lines(i: DependencyIssue) -> Seq<Seq<char>> {
    seq![""@, "   Package: "@ + i.package@ + "@"@ + i.version@, "   Issue: "@ + i.issue@] + (
    match i.size_impact_kb {
        Some((lo, hi)) => seq![
            "   Impact: "@ + dec(lo as nat) + "-"@ + dec(hi as nat) + " KB ("@ + dec(
                (match i.savings_percent {
                    Some(p) => p,
                    None => 0u8,
                }) as nat,
            ) + "% of bundle)"@,
        ],
        None => seq![],
    }) + seq!["   Fix: "@ + i.suggestion@]
}

/// The lines of the issues of `s`, in order.
pub open spec fn issues_lines(s: Seq<DependencyIssue>) -> Seq<Seq<char>>
    decreases s.len(),
{
    if s.len() == 0 {
        seq![]
    } else {
        issues_lines(s.drop_last()) + issue_lines(s.last())
    }
}

/// The section of the issues of severity `sev`; none where there are none.
pub open spec fn severity_section(issues: Seq<DependencyIssue>, sev: IssueSeverity) -> Seq<
    Seq<char>,
> {
    let g = with_severity(issues, sev);
    if g.len() == 0 {
        seq![]
    } else {
        seq![
            ""@,
            "["@ + severity_label(sev) + "] "@ + severity_name(sev) + " Issues ("@ + dec(
                g.len(),
            ) + " found):"@,
        ] + issues_lines(g)
    }
}

/// The views of the duplicate entries of a report.
pub open spec fn duplicate_views(d: Seq<(String, Vec<String>)>) -> Seq<(Seq<char>, Seq<Seq<char>>)> {
    d.map_values(|x: (String, Vec<String>)| (x.0@, string_views(x.1@)))
}

/// One line per duplicated crate: its name and its versions, comma-separated.
pub open spec fn duplicate_lines(d: Seq<(Seq<char>, Seq<Seq<char>>)>) -> Seq<Seq<char>>
    decreases d.len(),
{
    if d.len() == 0 {
        seq![]
    } else {
        duplicate_lines(d.drop_last()).push(
            "   → "@ + d.last().0 + ": "@ + joined(d.last().1, ", "@),
        )
    }
}

/// The dependency report: the counts; then either the issues (their number,
/// the estimated savings where the upper total is positive, and a section per
/// severity, most severe first) or the note that nothing is to optimize; then
/// the duplicated crates, if any. A blank line stands where the console
/// starts a new paragraph.
pub open spec fn dependency_report_text(
    total: usize,
    direct: usize,
    issues: Seq<DependencyIssue>,
    dups: Seq<(Seq<char>, Seq<Seq<char>>)>,
) -> Seq<Seq<char>> {
    seq![
        ""@,
        "📦 WASM Dependency Analysis Report"@,
        "   → Total dependencies: "@ + dec(total as nat),
        "   → Direct dependencies: "@ + dec(direct as nat),
    ] + (if issues.len() > 0 {
        seq![""@, "🔍 "@ + dec(issues.len()) + " Optimization Opportunities Found"@] + (
        if impact_sum(issues, true) > 0 {
            seq![
                "   → Estimated savings: "@ + dec(impact_sum(issues, false)) + "-"@ + dec(
                    impact_sum(issues, true),
                ) + " KB"@,
            ]
        } else {
            seq![]
        }) + severity_section(issues, IssueSeverity::Critical) + severity_section(
            issues,
            IssueSeverity::High,
        ) + severity_section(issues, IssueSeverity::Medium) + severity_section(
            issues,
            IssueSeverity::Low,
        )
    } else {
        seq![""@, "✅ Great! All dependencies optimized!"@]
    }) + (if dups.len() > 0 {
        seq![""@, "⚠️ Warning Duplicate Versions Detected"@] + duplicate_lines(dups)
    } else {
        seq![]
    })
}

/// Appends `s` as a line.
fn push_line(lines: &mut Vec<String>, s: String)
    ensures
        string_views(final(lines)@) == string_views(old(lines)@).push(s@),
{
    let ghost before = lines@;
    lines.push(s);
    assert(string_views(lines@) == string_views(before).push(s@));
}

/// A line made of one literal.
fn line_of(lines: &mut Vec<String>, t: &str)
    ensures
        string_views(final(lines)@) == string_views(old(lines)@).push(t@),
{
    push_line(lines, String::from_str(t));
}

/// Appends the lines of one issue.
fn push_issue(lines: &mut Vec<String>, i: &DependencyIssue)
    ensures
        string_views(final(lines)@) == string_views(old(lines)@) + issue_lines(*i),
{
    let ghost start = string_views(lines@);
    line_of(lines, "");
    let mut s = String::from_str("   Package: ");
    push_str(&mut s, i.package.as_str());
    push_str(&mut s, "@");
    push_str(&mut s, i.version.as_str());
    push_line(lines, s);
    let mut s = String::from_str("   Issue: ");
    push_str(&mut s, i.issue.as_str());
    push_line(lines, s);
    let ghost mid = string_views(lines@);
    match i.size_impact_kb {
        Some((lo, hi)) => {
            let p: u8 = match i.savings_percent {
                Some(p) => p,
                None => 0,
            };
            let mut s = String::from_str("   Impact: ");
            push_dec(&mut s, lo as u64);
            push_str(&mut s, "-");
            push_dec(&mut s, hi as u64);
            push_str(&mut s, " KB (");
            push_dec(&mut s, p as u64);
            push_str(&mut s, "% of bundle)");
            push_line(lines, s);
        },
        None => {},
    }
    let mut s = String::from_str("   Fix: ");
    push_str(&mut s, i.suggestion.as_str());
    push_line(lines, s);
    proof {
        let il = issue_lines(*i);
        assert(string_views(lines@) == start + il);
    }
}

/// Appends the section of the issues of severity `sev`.
fn push_section(lines: &mut Vec<String>, report: &DependencyReport, sev: IssueSeverity)
    ensures
        string_views(final(lines)@) == string_views(old(lines)@) + severity_section(
            report.issues@,
            sev,
        ),
{
    let g = report.issues_by_severity(sev);
    let ghost gs = with_severity(report.issues@, sev);
    if g.len() == 0 {
        return ;
    }
    let ghost start = string_views(lines@);
    line_of(lines, "");
    let mut s = String::from_str("[");
    let label = sev.to_string();
    push_str(&mut s, label.as_str());
    push_str(&mut s, "] ");
    match sev {
        IssueSeverity::Critical => push_str(&mut s, "Critical"),
        IssueSeverity::High => push_str(&mut s, "High"),
        IssueSeverity::Medium => push_str(&mut s, "Medium"),
        IssueSeverity::Low => push_str(&mut s, "Low"),
    }
    push_str(&mut s, " Issues (");
    push_dec(&mut s, g.len() as u64);
    push_str(&mut s, " found):");
    push_line(lines, s);
    let ghost head = string_views(lines@);
    let mut k: usize = 0;
    while k < g.len()
        invariant
            k <= g@.len(),
            g@.len() == gs.len(),
            forall|t: int| 0 <= t < g@.len() ==> *g@[t] == gs[t],
            string_views(lines@) == head + issues_lines(gs.take(k as int)),
        decreases g@.len() - k,
    {
        proof {
            assert(gs.take(k + 1).drop_last() == gs.take(k as int));
            assert(gs.take(k + 1).last() == gs[k as int]);
        }
        push_issue(lines, g[k]);
        k = k + 1;
    }
    assert(gs.take(k as int) == gs);
}

/// The lines of the dependency report of `report`, as the console shows them
/// without colours.
pub fn dependency_report_lines(report: &DependencyReport) -> (r: Vec<String>)
    requires
        impact_sum(report.issues@, true) <= u32::MAX,
        impact_sum(report.issues@, false) <= u32::MAX,
    ensures
        string_views(r@) == dependency_report_text(
            report.total_deps,
            report.direct_deps,
            report.issues@,
            duplicate_views(report.duplicates@),
        ),
{
    let mut lines: Vec<String> = Vec::new();
    line_of(&mut lines, "");
    line_of(&mut lines, "📦 WASM Dependency Analysis Report");
    let mut s = String::from_str("   → Total dependencies: ");
    push_dec(&mut s, report.total_deps as u64);
    push_line(&mut lines, s);
    let mut s = String::from_str("   → Direct dependencies: ");
    push_dec(&mut s, report.direct_deps as u64);
    push_line(&mut lines, s);
    let ghost head = string_views(lines@);
    if report.issues.len() > 0 {
        line_of(&mut lines, "");
        let mut s = String::from_str("🔍 ");
        push_dec(&mut s, report.issues.len() as u64);
        push_str(&mut s, " Optimization Opportunities Found");
        push_line(&mut lines, s);
        let (min_kb, max_kb) = report.total_estimated_savings_kb();
        if max_kb > 0 {
            let mut s = String::from_str("   → Estimated savings: ");
            push_dec(&mut s, min_kb as u64);
            push_str(&mut s, "-");
            push_dec(&mut s, max_kb as u64);
            push_str(&mut s, " KB");
            push_line(&mut lines, s);
        }
        push_section(&mut lines, report, IssueSeverity::Critical);
        push_section(&mut lines, report, IssueSeverity::High);
        push_section(&mut lines, report, IssueSeverity::Medium);
        push_section(&mut lines, report, IssueSeverity::Low);
    } else {
        line_of(&mut lines, "");
        line_of(&mut lines, "✅ Great! All dependencies optimized!");
    }
    let ghost mid = string_views(lines@);
    let ghost dv = duplicate_views(report.duplicates@);
    if report.duplicates.len() > 0 {
        line_of(&mut lines, "");
        line_of(&mut lines, "⚠️ Warning Duplicate Versions Detected");
        let ghost dh = string_views(lines@);
        let mut k: usize = 0;
        while k < report.duplicates.len()
            invariant
                k <= report.duplicates@.len(),
                dv == duplicate_views(report.duplicates@),
                string_views(lines@) == dh + duplicate_lines(dv.take(k as int)),
            decreases report.duplicates@.len() - k,
        {
            let (name, versions) = (&report.duplicates[k].0, &report.duplicates[k].1);
            let mut s = String::from_str("   → ");
            push_str(&mut s, name.as_str());
            push_str(&mut s, ": ");
            let mut j: usize = 0;
            while j < versions.len()
                invariant
                    j <= versions@.len(),
                    s@ == "   → "@ + name@ + ": "@ + joined(
                        string_views(versions@).take(j as int),
                        ", "@,
                    ),
                decreases versions@.len() - j,
            {
                proof {
                    let vs = string_views(versions@);
                    assert(vs.take(j + 1).drop_last() == vs.take(j as int));
                    assert(vs.take(j + 1).last() == versions@[j as int]@);
                    if j == 0 {
                        assert(vs.take(0) == Seq::<Seq<char>>::empty());
                        assert(vs.take(1) == seq![versions@[0]@]);
                    }
                }
                if j > 0 {
                    push_str(&mut s, ", ");
                }
                push_str(&mut s, versions[j].as_str());
                j = j + 1;
            }
            proof {
                assert(string_views(versions@).take(j as int) == string_views(versions@));
                assert(dv.take(k + 1).drop_last() == dv.take(k as int));
                assert(dv.take(k + 1).last() == dv[k as int]);
            }
            push_line(&mut lines, s);
            k = k + 1;
        }
        assert(dv.take(k as int) == dv);
    }
    lines
}

} // verus!
