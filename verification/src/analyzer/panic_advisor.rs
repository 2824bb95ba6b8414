//! Statistics and recommendations on the panic sites of a project.
use vstd::prelude::*;
use vstd::string::*;
use crate::analyzer::panics::{
    DetectedPanic,
    PanicPattern,
    pattern_alternative,
    pattern_name,
    site_size,
};
use crate::text::{dec, push_dec, push_str, string_views};

verus! {

broadcast use vstd::string::group_string_axioms;

/// Complete panic analysis results.
#[derive(Debug)]
pub struct PanicResults {
    /// Total panic sites.
    pub total_panics: usize,
    /// Sites per kind, most frequent first.
    pub by_pattern: Vec<(PanicPattern, usize)>,
    /// All detected panic sites.
    pub panic_sites: Vec<DetectedPanic>,
    /// Estimated size impact in KB.
    pub estimated_size_kb: u64,
    /// Recommendations.
    pub recommendations: Vec<String>,
}

/// How many sites are of kind `p`.
pub open spec fn count_of(sites: Seq<DetectedPanic>, p: PanicPattern) -> nat
    decreases sites.len(),
{
    if sites.len() == 0 {
        0
    } else {
        count_of(sites.drop_last(), p) + (if sites.last().pattern == p {
            1nat
        } else {
            0nat
        })
    }
}

/// The estimated bytes of all sites.
pub open spec fn size_total(sites: Seq<DetectedPanic>) -> nat
    decreases sites.len(),
{
    if sites.len() == 0 {
        0
    } else {
        size_total(sites.drop_last()) + site_size(sites.last().pattern) as nat
    }
}

/// What `build_results` counts per kind: each kind present once with its
/// number of sites, most frequent first.
pub open spec fn counts_ok(sites: Seq<DetectedPanic>, by: Seq<(PanicPattern, usize)>) -> bool {
    &&& forall|i: int| 0 <= i < by.len() ==> (#[trigger] by[i]).1 == count_of(sites, by[i].0) && by[i].1 > 0
    &&& forall|i: int, j: int| 0 <= i < j < by.len() ==> (#[trigger] by[i]).0 != (#[trigger] by[j]).0
    &&& forall|k: int| 0 <= k < sites.len() ==> exists|i: int| 0 <= i < by.len() && (#[trigger] by[i]).0 == (#[trigger] sites[k]).pattern
    &&& forall|i: int, j: int| 0 <= i < j < by.len() ==> (#[trigger] by[i]).1 >= (#[trigger] by[j]).1
}

/// The overall assessment for `total` sites of about `size_kb` KB.
pub open spec fn overall_line(total: usize, size_kb: u64) -> Seq<char> {
    if total > 100 {
        "[P0] Critical: "@ + dec(total as nat) + " panic sites detected (~"@ + dec(size_kb as nat)
            + " KB). Significant WASM bloat."@
    } else if total > 50 {
        "[P1] High: "@ + dec(total as nat) + " panic sites detected (~"@ + dec(size_kb as nat)
            + " KB). Consider refactoring hot paths."@
    } else if total > 10 {
        "[P2] Moderate: "@ + dec(total as nat) + " panic sites detected (~"@ + dec(size_kb as nat)
            + " KB). Optimize critical sections."@
    } else {
        "[P3] Low: "@ + dec(total as nat) + " panic sites detected (~"@ + dec(size_kb as nat)
            + " KB). Well optimized!"@
    }
}

/// The advice for one kind with `count` sites.
pub open spec fn offender_line(p: PanicPattern, count: usize) -> Seq<char> {
    "  → Replace "@ + dec(count as nat) + " "@ + pattern_name(p) + " calls with "@
        + pattern_alternative(p) + " (save ~"@ + dec((site_size(p) * count) as nat / 1024)
        + " KB)"@
}

/// The advice for the kinds of `by` with more than ten sites.
pub open spec fn offender_lines(by: Seq<(PanicPattern, usize)>) -> Seq<Seq<char>>
    decreases by.len(),
{
    if by.len() == 0 {
        seq![]
    } else if by.last().1 > 10 {
        offender_lines(by.drop_last()).push(offender_line(by.last().0, by.last().1))
    } else {
        offender_lines(by.drop_last())
    }
}

/// The quick wins listed for projects with many panic sites.
pub open spec fn quick_wins() -> Seq<Seq<char>> {
    seq![
        ""@,
        "Quick wins:"@,
        "  1. Use .get(i) instead of arr[i] for array access"@,
        "  2. Replace .unwrap() with match or if let in hot paths"@,
        "  3. Use .checked_div() for division operations"@,
        "  4. Enable panic_immediate_abort in Cargo.toml (nightly)"@,
    ]
}

/// The recommendations: the overall assessment; above ten sites the advice for
/// the three most frequent kinds that have more than ten sites; above fifty the
/// quick wins.
pub open spec fn panic_recommendations(total: usize, by: Seq<(PanicPattern, usize)>, size_kb: u64) -> Seq<
    Seq<char>,
> {
    if total <= 10 {
        seq![overall_line(total, size_kb)]
    } else {
        let top = if by.len() <= 3 {
            by
        } else {
            by.take(3)
        };
        seq![overall_line(total, size_kb)] + offender_lines(top) + (if total > 50 {
            quick_wins()
        } else {
            seq![]
        })
    }
}

/// Among the three first kinds of `by`, those with more than ten sites fit the
/// size arithmetic of their advice.
pub open spec fn offenders_fit(by: Seq<(PanicPattern, usize)>) -> bool {
    forall|i: int|
        0 <= i < by.len() && i < 3 && (#[trigger] by[i]).1 > 10 ==> site_size(by[i].0) * by[i].1
            <= u64::MAX
}

/// Appends the overall assessment.
fn push_overall(recs: &mut Vec<String>, total: usize, size_kb: u64)
    ensures
        string_views(final(recs)@) == string_views(old(recs)@).push(overall_line(total, size_kb)),
{
    let mut s = String::new();
    if total > 100 {
        push_str(&mut s, "[P0] Critical: ");
    } else if total > 50 {
        push_str(&mut s, "[P1] High: ");
    } else if total > 10 {
        push_str(&mut s, "[P2] Moderate: ");
    } else {
        push_str(&mut s, "[P3] Low: ");
    }
    push_dec(&mut s, total as u64);
    push_str(&mut s, " panic sites detected (~");
    push_dec(&mut s, size_kb);
    if total > 100 {
        push_str(&mut s, " KB). Significant WASM bloat.");
    } else if total > 50 {
        push_str(&mut s, " KB). Consider refactoring hot paths.");
    } else if total > 10 {
        push_str(&mut s, " KB). Optimize critical sections.");
    } else {
        push_str(&mut s, " KB). Well optimized!");
    }
    let ghost before = recs@;
    recs.push(s);
    assert(string_views(recs@) == string_views(before).push(s@));
}

/// Recommendations for `total` panic sites of about `size_kb` KB, counted per
/// kind in `by_pattern` (most frequent first).
pub fn generate_recommendations(total: usize, by_pattern: &Vec<(PanicPattern, usize)>, size_kb: u64) -> (r:
    Vec<String>)
    requires
        total > 10 ==> offenders_fit(by_pattern@),
    ensures
        string_views(r@) == panic_recommendations(total, by_pattern@, size_kb),
{
    let mut recs: Vec<String> = Vec::new();
    push_overall(&mut recs, total, size_kb);
    if total <= 10 {
        return recs;
    }
    let n: usize = if by_pattern.len() <= 3 {
        by_pattern.len()
    } else {
        3
    };
    let ghost top = if by_pattern@.len() <= 3 {
        by_pattern@
    } else {
        by_pattern@.take(3)
    };
    assert(top == by_pattern@.take(n as int));
    let ghost head = string_views(recs@);
    let mut i: usize = 0;
    while i < n
        invariant
            i <= n <= by_pattern@.len(),
            n <= 3,
            top == by_pattern@.take(n as int),
            offenders_fit(by_pattern@),
            string_views(recs@) == head + offender_lines(by_pattern@.take(i as int)),
        decreases n - i,
    {
        let (p, count) = by_pattern[i];
        assert(by_pattern@.take(i + 1).drop_last() == by_pattern@.take(i as int));
        assert(by_pattern@.take(i + 1).last() == by_pattern@[i as int]);
        if count > 10 {
            assert(site_size(by_pattern@[i as int].0) * by_pattern@[i as int].1 <= u64::MAX);
            let savings = (p.size_per_occurrence() * (count as u64)) / 1024;
            let mut s = String::from_str("  → Replace ");
            push_dec(&mut s, count as u64);
            push_str(&mut s, " ");
            push_str(&mut s, p.name());
            push_str(&mut s, " calls with ");
            push_str(&mut s, p.alternative());
            push_str(&mut s, " (save ~");
            push_dec(&mut s, savings);
            push_str(&mut s, " KB)");
            let ghost before = recs@;
            recs.push(s);
            assert(string_views(recs@) == string_views(before).push(s@));
        }
        i = i + 1;
    }
    if total > 50 {
        let ghost before = string_views(recs@);
        recs.push(String::from_str(""));
        recs.push(String::from_str("Quick wins:"));
        recs.push(String::from_str("  1. Use .get(i) instead of arr[i] for array access"));
        recs.push(String::from_str("  2. Replace .unwrap() with match or if let in hot paths"));
        recs.push(String::from_str("  3. Use .checked_div() for division operations"));
        recs.push(String::from_str("  4. Enable panic_immediate_abort in Cargo.toml (nightly)"));
        assert(string_views(recs@) == before + quick_wins());
    }
    recs
}

proof fn lemma_count_size(sites: Seq<DetectedPanic>, p: PanicPattern)
    ensures
        site_size(p) * count_of(sites, p) <= size_total(sites),
        count_of(sites, p) <= sites.len(),
    decreases sites.len(),
{
    if sites.len() > 0 {
        lemma_count_size(sites.drop_last(), p);
        assert(site_size(p) * count_of(sites, p) == site_size(p) * count_of(sites.drop_last(), p) + (
        if sites.last().pattern == p {
            site_size(p) as int
        } else {
            0
        })) by (nonlinear_arith)
            requires
                count_of(sites, p) == count_of(sites.drop_last(), p) + (if sites.last().pattern == p {
                    1nat
                } else {
                    0nat
                }),
        ;
    }
}

proof fn lemma_size_prefix(sites: Seq<DetectedPanic>, i: int)
    requires
        0 <= i <= sites.len(),
    ensures
        size_total(sites.take(i)) <= size_total(sites),
    decreases sites.len(),
{
    if i < sites.len() {
        assert(sites.drop_last().take(i) == sites.take(i));
        lemma_size_prefix(sites.drop_last(), i);
    } else {
        assert(sites.take(i) == sites);
    }
}

/// What the counts of the first sites satisfy: each entry counts its kind
/// exactly, no kind twice, every kind met has its entry.
#[verifier::opaque]
pub open spec fn tally_ok(prefix: Seq<DetectedPanic>, cs: Seq<(PanicPattern, usize)>) -> bool {
    &&& forall|i: int| 0 <= i < cs.len() ==> (#[trigger] cs[i]).1 == count_of(prefix, cs[i].0) && cs[i].1 > 0
    &&& forall|i: int, j: int| 0 <= i < j < cs.len() ==> (#[trigger] cs[i]).0 != (#[trigger] cs[j]).0
    &&& forall|k: int| 0 <= k < prefix.len() ==> exists|i: int| 0 <= i < cs.len() && (#[trigger] cs[i]).0 == (#[trigger] prefix[k]).pattern
    &&& cs.len() <= prefix.len()
}

/// The counts of the sites per kind, kinds in order of first appearance.
fn tally(sites: &Vec<DetectedPanic>) -> (cs: Vec<(PanicPattern, usize)>)
    ensures
        tally_ok(sites@, cs@),
{
    reveal(tally_ok);
    let mut cs: Vec<(PanicPattern, usize)> = Vec::new();
    let mut k: usize = 0;
    while k < sites.len()
        invariant
            k <= sites@.len(),
            tally_ok(sites@.take(k as int), cs@),
        decreases sites@.len() - k,
    {
        reveal(tally_ok);
        let ghost pre = sites@.take(k as int);
        let ghost post = sites@.take(k + 1);
        assert(post.drop_last() == pre);
        assert(post.last() == sites@[k as int]);
        let p = sites[k].pattern;
        let mut j: usize = 0;
        while j < cs.len() && cs[j].0 != p
            invariant
                j <= cs@.len(),
                forall|t: int| 0 <= t < j ==> (#[trigger] cs@[t]).0 != p,
            decreases cs@.len() - j,
        {
            j = j + 1;
        }
        let ghost old_cs = cs@;
        if j < cs.len() {
            let c = cs[j].1;
            assert(c == count_of(pre, p));
            proof {
                lemma_count_size(pre, p);
            }
            assert(c <= k);
            cs.set(j, (p, c + 1));
            proof {
                assert forall|i: int| 0 <= i < cs@.len() implies (#[trigger] cs@[i]).1 == count_of(
                    post,
                    cs@[i].0,
                ) && cs@[i].1 > 0 by {
                    if i != j {
                        assert(cs@[i] == old_cs[i]);
                        assert(old_cs[i].0 != old_cs[j as int].0);
                    }
                }
                assert forall|i: int, t: int| 0 <= i < t < cs@.len() implies (#[trigger] cs@[i]).0
                    != (#[trigger] cs@[t]).0 by {
                    assert(cs@[i].0 == old_cs[i].0);
                    assert(cs@[t].0 == old_cs[t].0);
                }
                assert forall|q: int| 0 <= q < post.len() implies exists|i: int|
                    0 <= i < cs@.len() && (#[trigger] cs@[i]).0 == (#[trigger] post[q]).pattern by {
                    if q < pre.len() {
                        assert(post[q] == pre[q]);
                        let i = choose|i: int| 0 <= i < old_cs.len() && (#[trigger] old_cs[i]).0 == (
                        #[trigger] pre[q]).pattern;
                        assert(cs@[i].0 == old_cs[i].0);
                    } else {
                        assert(cs@[j as int].0 == p);
                    }
                }
            }
        } else {
            proof {
                assert(count_of(pre, p) == 0) by {
                    if count_of(pre, p) > 0 {
                        lemma_count_present(pre, p);
                        let q = choose|q: int| 0 <= q < pre.len() && (#[trigger] pre[q]).pattern == p;
                        let i = choose|i: int| 0 <= i < old_cs.len() && (#[trigger] old_cs[i]).0 == (
                        #[trigger] pre[q]).pattern;
                        assert(old_cs[i].0 != p);
                    }
                }
            }
            cs.push((p, 1));
            proof {
                assert forall|i: int| 0 <= i < cs@.len() implies (#[trigger] cs@[i]).1 == count_of(
                    post,
                    cs@[i].0,
                ) && cs@[i].1 > 0 by {
                    if i < old_cs.len() {
                        assert(cs@[i] == old_cs[i]);
                    }
                }
                assert forall|i: int, t: int| 0 <= i < t < cs@.len() implies (#[trigger] cs@[i]).0
                    != (#[trigger] cs@[t]).0 by {
                    if t < old_cs.len() {
                        assert(cs@[i] == old_cs[i]);
                        assert(cs@[t] == old_cs[t]);
                    } else {
                        assert(cs@[i] == old_cs[i]);
                    }
                }
                assert forall|q: int| 0 <= q < post.len() implies exists|i: int|
                    0 <= i < cs@.len() && (#[trigger] cs@[i]).0 == (#[trigger] post[q]).pattern by {
                    if q < pre.len() {
                        assert(post[q] == pre[q]);
                        let i = choose|i: int| 0 <= i < old_cs.len() && (#[trigger] old_cs[i]).0 == (
                        #[trigger] pre[q]).pattern;
                        assert(cs@[i] == old_cs[i]);
                    } else {
                        assert(cs@[old_cs.len() as int].0 == p);
                    }
                }
            }
        }
        k = k + 1;
    }
    assert(sites@.take(k as int) == sites@);
    cs
}

proof fn lemma_count_present(sites: Seq<DetectedPanic>, p: PanicPattern)
    requires
        count_of(sites, p) > 0,
    ensures
        exists|q: int| 0 <= q < sites.len() && (#[trigger] sites[q]).pattern == p,
    decreases sites.len(),
{
    if sites.last().pattern != p {
        lemma_count_present(sites.drop_last(), p);
        let q = choose|q: int| 0 <= q < sites.drop_last().len() && (#[trigger] sites.drop_last()[q]).pattern == p;
        assert(sites[q] == sites.drop_last()[q]);
    } else {
        assert(sites[sites.len() - 1].pattern == p);
    }
}

/// Each entry counts its kind exactly.
#[verifier::opaque]
pub open spec fn entries_exact(sites: Seq<DetectedPanic>, by: Seq<(PanicPattern, usize)>) -> bool {
    forall|i: int| 0 <= i < by.len() ==> (#[trigger] by[i]).1 == count_of(sites, by[i].0) && by[i].1 > 0
}

/// Each entry is one of the first `t` counts.
#[verifier::opaque]
pub open spec fn entries_from(cs: Seq<(PanicPattern, usize)>, t: int, by: Seq<(PanicPattern, usize)>) -> bool {
    forall|i: int| 0 <= i < by.len() ==> exists|j: int| 0 <= j < t && (#[trigger] by[i]).0 == (#[trigger] cs[j]).0
}

/// No kind twice.
#[verifier::opaque]
pub open spec fn entries_distinct(by: Seq<(PanicPattern, usize)>) -> bool {
    forall|i: int, j: int| 0 <= i < j < by.len() ==> (#[trigger] by[i]).0 != (#[trigger] by[j]).0
}

/// Each of the first `t` counts has its entry.
#[verifier::opaque]
pub open spec fn entries_cover(cs: Seq<(PanicPattern, usize)>, t: int, by: Seq<(PanicPattern, usize)>) -> bool {
    forall|j: int| 0 <= j < t ==> exists|i: int| 0 <= i < by.len() && (#[trigger] by[i]).0 == (#[trigger] cs[j]).0
}

/// The most frequent first.
#[verifier::opaque]
pub open spec fn entries_sorted(by: Seq<(PanicPattern, usize)>) -> bool {
    forall|i: int, j: int| 0 <= i < j < by.len() ==> (#[trigger] by[i]).1 >= (#[trigger] by[j]).1
}

/// No kind counted twice.
#[verifier::opaque]
pub open spec fn cs_distinct(cs: Seq<(PanicPattern, usize)>) -> bool {
    forall|i: int, j: int| 0 <= i < j < cs.len() ==> (#[trigger] cs[i]).0 != (#[trigger] cs[j]).0
}

/// What the entries sorted so far satisfy, the first `t` counts inserted.
#[verifier::opaque]
pub open spec fn sorted_so_far(
    sites: Seq<DetectedPanic>,
    cs: Seq<(PanicPattern, usize)>,
    t: int,
    by: Seq<(PanicPattern, usize)>,
) -> bool {
    &&& entries_exact(sites, by)
    &&& entries_from(cs, t, by)
    &&& entries_distinct(by)
    &&& entries_cover(cs, t, by)
    &&& entries_sorted(by)
}

proof fn lemma_insert_exact(sites: Seq<DetectedPanic>, by: Seq<(PanicPattern, usize)>, p: int, e: (PanicPattern, usize))
    requires
        entries_exact(sites, by),
        e.1 == count_of(sites, e.0) && e.1 > 0,
        0 <= p <= by.len(),
    ensures
        entries_exact(sites, by.insert(p, e)),
{
    reveal(entries_exact);
    let after = by.insert(p, e);
    assert forall|i: int| 0 <= i < after.len() implies (#[trigger] after[i]).1 == count_of(
        sites,
        after[i].0,
    ) && after[i].1 > 0 by {
        if i < p {
            assert(after[i] == by[i]);
        } else if i > p {
            assert(after[i] == by[i - 1]);
        }
    }
}

proof fn lemma_insert_from(cs: Seq<(PanicPattern, usize)>, t: int, by: Seq<(PanicPattern, usize)>, p: int)
    requires
        0 <= t < cs.len(),
        entries_from(cs, t, by),
        0 <= p <= by.len(),
    ensures
        entries_from(cs, t + 1, by.insert(p, cs[t])),
{
    reveal(entries_from);
    let after = by.insert(p, cs[t]);
    assert forall|i: int| 0 <= i < after.len() implies exists|j: int|
        0 <= j < t + 1 && (#[trigger] after[i]).0 == (#[trigger] cs[j]).0 by {
        if i == p {
            assert(after[i].0 == cs[t].0);
        } else {
            let o = if i < p { i } else { i - 1 };
            assert(after[i] == by[o]);
            let j = choose|j: int| 0 <= j < t && (#[trigger] by[o]).0 == (#[trigger] cs[j]).0;
            assert(after[i].0 == cs[j].0);
        }
    }
}

proof fn lemma_insert_distinct(cs: Seq<(PanicPattern, usize)>, t: int, by: Seq<(PanicPattern, usize)>, p: int)
    requires
        0 <= t < cs.len(),
        entries_from(cs, t, by),
        entries_distinct(by),
        cs_distinct(cs),
        0 <= p <= by.len(),
    ensures
        entries_distinct(by.insert(p, cs[t])),
{
    reveal(entries_from);
    reveal(entries_distinct);
    reveal(cs_distinct);
    let after = by.insert(p, cs[t]);
    assert forall|i: int, j: int| 0 <= i < j < after.len() implies (#[trigger] after[i]).0 != (
    #[trigger] after[j]).0 by {
        let oi = if i < p { i } else { i - 1 };
        let oj = if j < p { j } else { j - 1 };
        if i != p && j != p {
            assert(after[i] == by[oi]);
            assert(after[j] == by[oj]);
        } else if i == p {
            assert(after[j] == by[oj]);
            let u = choose|u: int| 0 <= u < t && (#[trigger] by[oj]).0 == (#[trigger] cs[u]).0;
            assert(cs[u].0 != cs[t].0);
        } else {
            assert(after[i] == by[oi]);
            let u = choose|u: int| 0 <= u < t && (#[trigger] by[oi]).0 == (#[trigger] cs[u]).0;
            assert(cs[u].0 != cs[t].0);
        }
    }
}

proof fn lemma_insert_cover(cs: Seq<(PanicPattern, usize)>, t: int, by: Seq<(PanicPattern, usize)>, p: int)
    requires
        0 <= t < cs.len(),
        entries_cover(cs, t, by),
        0 <= p <= by.len(),
    ensures
        entries_cover(cs, t + 1, by.insert(p, cs[t])),
{
    reveal(entries_cover);
    let after = by.insert(p, cs[t]);
    assert forall|j: int| 0 <= j < t + 1 implies exists|i: int|
        0 <= i < after.len() && (#[trigger] after[i]).0 == (#[trigger] cs[j]).0 by {
        if j < t {
            let i = choose|i: int| 0 <= i < by.len() && (#[trigger] by[i]).0 == (#[trigger] cs[j]).0;
            if i < p {
                assert(after[i] == by[i]);
            } else {
                assert(after[i + 1] == by[i]);
            }
        } else {
            assert(after[p].0 == cs[j].0);
        }
    }
}

proof fn lemma_insert_sorted(by: Seq<(PanicPattern, usize)>, p: int, e: (PanicPattern, usize))
    requires
        entries_sorted(by),
        0 <= p <= by.len(),
        forall|i: int| 0 <= i < p ==> (#[trigger] by[i]).1 >= e.1,
        forall|i: int| p <= i < by.len() ==> (#[trigger] by[i]).1 < e.1,
    ensures
        entries_sorted(by.insert(p, e)),
{
    reveal(entries_sorted);
    let after = by.insert(p, e);
    assert forall|i: int, j: int| 0 <= i < j < after.len() implies (#[trigger] after[i]).1 >= (
    #[trigger] after[j]).1 by {
        if i < p && j < p {
            assert(after[i] == by[i]);
            assert(after[j] == by[j]);
        } else if i < p && j == p {
            assert(after[i] == by[i]);
        } else if i < p {
            assert(after[i] == by[i]);
            assert(after[j] == by[j - 1]);
        } else if i == p {
            assert(after[j] == by[j - 1]);
        } else {
            assert(after[i] == by[i - 1]);
            assert(after[j] == by[j - 1]);
        }
    }
}

/// Inserting count `t` at the first position whose count is smaller keeps
/// what the sorted entries satisfy.
proof fn lemma_sort_step(
    sites: Seq<DetectedPanic>,
    cs: Seq<(PanicPattern, usize)>,
    t: int,
    by: Seq<(PanicPattern, usize)>,
    p: int,
)
    requires
        tally_ok(sites, cs),
        0 <= t < cs.len(),
        sorted_so_far(sites, cs, t, by),
        0 <= p <= by.len(),
        forall|i: int| 0 <= i < p ==> (#[trigger] by[i]).1 >= cs[t].1,
        p == by.len() || by[p].1 < cs[t].1,
    ensures
        sorted_so_far(sites, cs, t + 1, by.insert(p, cs[t])),
{
    let e = cs[t];
    assert(e.1 == count_of(sites, e.0) && e.1 > 0 && cs_distinct(cs)) by {
        reveal(tally_ok);
        reveal(cs_distinct);
    }
    assert(entries_exact(sites, by) && entries_from(cs, t, by) && entries_distinct(by)
        && entries_cover(cs, t, by) && entries_sorted(by)) by {
        reveal(sorted_so_far);
    }
    assert forall|i: int| p <= i < by.len() implies (#[trigger] by[i]).1 < e.1 by {
        reveal(entries_sorted);
        if i > p {
            assert(by[p].1 >= by[i].1);
        }
    }
    lemma_insert_exact(sites, by, p, e);
    lemma_insert_from(cs, t, by, p);
    lemma_insert_distinct(cs, t, by, p);
    lemma_insert_cover(cs, t, by, p);
    lemma_insert_sorted(by, p, e);
    reveal(sorted_so_far);
}

/// All counts inserted, the entries are what `counts_ok` asks.
proof fn lemma_sort_done(sites: Seq<DetectedPanic>, cs: Seq<(PanicPattern, usize)>, by: Seq<(PanicPattern, usize)>)
    requires
        tally_ok(sites, cs),
        sorted_so_far(sites, cs, cs.len() as int, by),
    ensures
        counts_ok(sites, by),
{
    reveal(tally_ok);
    reveal(sorted_so_far);
    reveal(entries_exact);
    reveal(entries_from);
    reveal(entries_distinct);
    reveal(entries_cover);
    reveal(entries_sorted);
    assert forall|k: int| 0 <= k < sites.len() implies exists|i: int|
        0 <= i < by.len() && (#[trigger] by[i]).0 == (#[trigger] sites[k]).pattern by {
        let j = choose|j: int| 0 <= j < cs.len() && (#[trigger] cs[j]).0 == (#[trigger] sites[k]).pattern;
        let i = choose|i: int| 0 <= i < by.len() && (#[trigger] by[i]).0 == (#[trigger] cs[j]).0;
        assert(by[i].0 == sites[k].pattern);
    }
}

/// The counts per kind, most frequent first.
fn sort_counts(sites: &Vec<DetectedPanic>, cs: &Vec<(PanicPattern, usize)>) -> (by: Vec<
    (PanicPattern, usize),
>)
    requires
        tally_ok(sites@, cs@),
    ensures
        counts_ok(sites@, by@),
{
    let mut by: Vec<(PanicPattern, usize)> = Vec::new();
    proof {
        reveal(sorted_so_far);
        reveal(entries_exact);
        reveal(entries_from);
        reveal(entries_distinct);
        reveal(entries_cover);
        reveal(entries_sorted);
    }
    let mut t: usize = 0;
    while t < cs.len()
        invariant
            t <= cs@.len(),
            tally_ok(sites@, cs@),
            sorted_so_far(sites@, cs@, t as int, by@),
        decreases cs@.len() - t,
    {
        let e = cs[t];
        let mut p: usize = 0;
        while p < by.len() && by[p].1 >= e.1
            invariant
                p <= by@.len(),
                forall|i: int| 0 <= i < p ==> (#[trigger] by@[i]).1 >= e.1,
            decreases by@.len() - p,
        {
            p = p + 1;
        }
        proof {
            lemma_sort_step(sites@, cs@, t as int, by@, p as int);
        }
        by.insert(p, e);
        t = t + 1;
    }
    proof {
        lemma_sort_done(sites@, cs@, by@);
    }
    by
}

/// The statistics and recommendations of the detected panic sites.
pub fn build_results(panic_sites: Vec<DetectedPanic>) -> (r: PanicResults)
    requires
        size_total(panic_sites@) <= u64::MAX,
    ensures
        r.total_panics == panic_sites@.len(),
        r.panic_sites@ == panic_sites@,
        counts_ok(panic_sites@, r.by_pattern@),
        r.estimated_size_kb == size_total(panic_sites@) / 1024,
        string_views(r.recommendations@) == panic_recommendations(
            r.total_panics,
            r.by_pattern@,
            r.estimated_size_kb,
        ),
{
    let total_panics = panic_sites.len();
    let cs = tally(&panic_sites);
    let by_pattern = sort_counts(&panic_sites, &cs);
    let mut total_size: u64 = 0;
    let mut k: usize = 0;
    while k < panic_sites.len()
        invariant
            k <= panic_sites@.len(),
            size_total(panic_sites@) <= u64::MAX,
            total_size == size_total(panic_sites@.take(k as int)),
        decreases panic_sites@.len() - k,
    {
        assert(panic_sites@.take(k + 1).drop_last() == panic_sites@.take(k as int));
        assert(panic_sites@.take(k + 1).last() == panic_sites@[k as int]);
        proof {
            lemma_size_prefix(panic_sites@, k + 1);
        }
        total_size = total_size + panic_sites[k].pattern.size_per_occurrence();
        k = k + 1;
    }
    assert(panic_sites@.take(k as int) == panic_sites@);
    let estimated_size_kb = total_size / 1024;
    proof {
        assert forall|i: int| 0 <= i < by_pattern@.len() && i < 3 implies site_size(
            (#[trigger] by_pattern@[i]).0,
        ) * by_pattern@[i].1 <= u64::MAX by {
            lemma_count_size(panic_sites@, by_pattern@[i].0);
        }
    }
    let recommendations = generate_recommendations(total_panics, &by_pattern, estimated_size_kb);
    PanicResults {
        total_panics,
        by_pattern,
        panic_sites,
        estimated_size_kb,
        recommendations,
    }
}

proof fn lemma_offender_lines_cover(by: Seq<(PanicPattern, usize)>, i: int)
    requires
        0 <= i < by.len(),
        by[i].1 > 10,
    ensures
        offender_lines(by).contains(offender_line(by[i].0, by[i].1)),
    decreases by.len(),
{
    let rest = by.drop_last();
    if i == by.len() - 1 {
        let l = offender_lines(rest).push(offender_line(by[i].0, by[i].1));
        assert(l[l.len() - 1] == offender_line(by[i].0, by[i].1));
    } else {
        assert(rest[i] == by[i]);
        lemma_offender_lines_cover(rest, i);
        let j = choose|j: int| 0 <= j < offender_lines(rest).len() && offender_lines(rest)[j]
            == offender_line(by[i].0, by[i].1);
        if by.last().1 > 10 {
            let l = offender_lines(rest).push(offender_line(by.last().0, by.last().1));
            assert(l[j] == offender_lines(rest)[j]);
        }
    }
}

proof fn lemma_offender_lines_only(by: Seq<(PanicPattern, usize)>, k: int)
    requires
        0 <= k < offender_lines(by).len(),
    ensures
        exists|i: int|
            0 <= i < by.len() && by[i].1 > 10 && offender_lines(by)[k] == offender_line(
                by[i].0,
                by[i].1,
            ),
    decreases by.len(),
{
    let rest = by.drop_last();
    if k < offender_lines(rest).len() {
        lemma_offender_lines_only(rest, k);
        let i = choose|i: int|
            0 <= i < rest.len() && rest[i].1 > 10 && offender_lines(rest)[k] == offender_line(
                rest[i].0,
                rest[i].1,
            );
        assert(by[i] == rest[i]);
        if by.last().1 > 10 {
            assert(offender_lines(by)[k] == offender_lines(rest)[k]);
        }
    } else {
        assert(by[by.len() - 1] == by.last());
    }
}

/// Above ten panic sites, each of the three most frequent kinds that has more
/// than ten sites gets its advice line, and every advice line is for one of
/// those kinds: kinds past the third, and kinds of ten sites or fewer, get
/// none. At ten sites or fewer the overall assessment is the only line.
pub proof fn lemma_top_three_kinds_advised(
    total: usize,
    by: Seq<(PanicPattern, usize)>,
    size_kb: u64,
    i: int,
    k: int,
)
    ensures
        total > 10 && 0 <= i < 3 && i < by.len() && by[i].1 > 10 ==> panic_recommendations(
            total,
            by,
            size_kb,
        ).contains(offender_line(by[i].0, by[i].1)),
        total > 10 && 1 <= k <= offender_lines(
            if by.len() <= 3 {
                by
            } else {
                by.take(3)
            },
        ).len() ==> exists|j: int|
            0 <= j < 3 && j < by.len() && by[j].1 > 10 && panic_recommendations(total, by, size_kb)[k]
                == offender_line(by[j].0, by[j].1),
        total <= 10 ==> panic_recommendations(total, by, size_kb) == seq![overall_line(total, size_kb)],
{
    let top = if by.len() <= 3 {
        by
    } else {
        by.take(3)
    };
    let recs = panic_recommendations(total, by, size_kb);
    if total > 10 {
        let extra = if total > 50 {
            quick_wins()
        } else {
            seq![]
        };
        assert(recs == seq![overall_line(total, size_kb)] + offender_lines(top) + extra);
        if 0 <= i < 3 && i < by.len() && by[i].1 > 10 {
            assert(top[i] == by[i]);
            lemma_offender_lines_cover(top, i);
            let j = choose|j: int| 0 <= j < offender_lines(top).len() && offender_lines(top)[j]
                == offender_line(by[i].0, by[i].1);
            assert(recs[j + 1] == offender_lines(top)[j]);
        }
        if 1 <= k <= offender_lines(top).len() {
            lemma_offender_lines_only(top, k - 1);
            let j = choose|j: int|
                0 <= j < top.len() && top[j].1 > 10 && offender_lines(top)[k - 1] == offender_line(
                    top[j].0,
                    top[j].1,
                );
            assert(recs[k] == offender_lines(top)[k - 1]);
            assert(top[j] == by[j]);
        }
    }
}

} // verus!
