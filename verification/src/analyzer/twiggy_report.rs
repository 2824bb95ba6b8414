//! Formatting helpers of the twiggy report.
use vstd::prelude::*;
use crate::analyzer::twiggy::monos::MonomorphizationGroup;
use crate::text::{dec, group3};

verus! {

/// A number with commas between groups of three digits.
pub fn format_number(n: u64) -> (r: String)
    ensures
        r@ == group3(dec(n as nat)),
{
    crate::analyzer::report_utils::format_number(n)
}

/// The instantiations of all groups.
pub open spec fn instantiations_total(gs: Seq<MonomorphizationGroup>) -> nat
    decreases gs.len(),
{
    if gs.len() == 0 {
        0
    } else {
        instantiations_total(gs.drop_last()) + gs.last().instantiation_count as nat
    }
}

/// The potential savings of all groups, in bytes.
pub open spec fn savings_total(gs: Seq<MonomorphizationGroup>) -> nat
    decreases gs.len(),
{
    if gs.len() == 0 {
        0
    } else {
        savings_total(gs.drop_last()) + gs.last().potential_savings_bytes as nat
    }
}

/// The totals of a prefix are at most those of the whole.
proof fn lemma_prefix_totals(gs: Seq<MonomorphizationGroup>, i: int)
    requires
        0 <= i <= gs.len(),
    ensures
        instantiations_total(gs.take(i)) <= instantiations_total(gs),
        savings_total(gs.take(i)) <= savings_total(gs),
    decreases gs.len() - i,
{
    if i < gs.len() {
        lemma_prefix_totals(gs, i + 1);
        assert(gs.take(i + 1).drop_last() == gs.take(i));
    } else {
        assert(gs.take(i) == gs);
    }
}

/// The summary of a monomorphization table: the number of generic functions,
/// their instantiations in all, their potential savings in KB (the byte total
/// divided by 1024, rounded down), how many of them are shown (at most ten,
/// the first ones) and how many are left over.
pub fn mono_summary(groups: &Vec<MonomorphizationGroup>) -> (r: (usize, usize, u64, usize, usize))
    requires
        instantiations_total(groups@) <= usize::MAX,
        savings_total(groups@) <= u64::MAX,
    ensures
        r.0 == groups@.len(),
        r.1 == instantiations_total(groups@),
        r.2 == savings_total(groups@) / 1024,
        r.3 == (if groups@.len() < 10 { groups@.len() } else { 10 }),
        r.4 == groups@.len() - r.3,
{
    let mut inst: usize = 0;
    let mut savings: u64 = 0;
    let mut i: usize = 0;
    while i < groups.len()
        invariant
            i <= groups@.len(),
            instantiations_total(groups@) <= usize::MAX,
            savings_total(groups@) <= u64::MAX,
            inst == instantiations_total(groups@.take(i as int)),
            savings == savings_total(groups@.take(i as int)),
        decreases groups@.len() - i,
    {
        proof {
            lemma_prefix_totals(groups@, i + 1);
            assert(groups@.take(i + 1).drop_last() == groups@.take(i as int));
            assert(groups@.take(i + 1).last() == groups@[i as int]);
        }
        inst = inst + groups[i].instantiation_count;
        savings = savings + groups[i].potential_savings_bytes;
        i = i + 1;
    }
    assert(groups@.take(i as int) == groups@);
    let shown: usize = if groups.len() < 10 {
        groups.len()
    } else {
        10
    };
    (groups.len(), inst, savings / 1024, shown, groups.len() - shown)
}

} // verus!
