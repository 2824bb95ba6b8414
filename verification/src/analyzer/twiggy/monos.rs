//! Grouping of generic instantiations by the function they instantiate.
use vstd::prelude::*;
use vstd::string::*;
use crate::analyzer::twiggy::parser::{AnalysisItem, ItemView, item_views};
use crate::text::{
    CharClass,
    chars_of,
    find_char,
    find_where,
    index_of,
    index_where,
    last_index_of,
    lemma_index_of_bounds,
    lemma_index_where_bounds,
    lemma_last_index_of,
    rfind,
    string_of_range,
    strip_bounds,
    trim,
};

verus! {

broadcast use vstd::string::group_string_axioms;

/// Instantiations of one generic function.
#[derive(Debug)]
pub struct MonomorphizationGroup {
    /// Base function name.
    pub function_name: String,
    /// Number of instantiations.
    pub instantiation_count: usize,
    /// Total size across all instantiations.
    pub total_size_bytes: u64,
    /// Average size per instantiation (rounded down).
    pub avg_size_bytes: u64,
    /// The instantiations, in input order.
    pub instantiations: Vec<AnalysisItem>,
    /// Bytes saved by keeping only the largest instantiation.
    pub potential_savings_bytes: u64,
}

/// The value of a `MonomorphizationGroup`.
pub struct GroupView {
    pub function_name: Seq<char>,
    pub instantiation_count: nat,
    pub total_size_bytes: nat,
    pub avg_size_bytes: nat,
    pub instantiations: Seq<ItemView>,
    pub potential_savings_bytes: nat,
}

impl View for MonomorphizationGroup {
    type V = GroupView;

    open spec fn view(&self) -> GroupView {
        GroupView {
            function_name: self.function_name@,
            instantiation_count: self.instantiation_count as nat,
            total_size_bytes: self.total_size_bytes as nat,
            avg_size_bytes: self.avg_size_bytes as nat,
            instantiations: item_views(self.instantiations@),
            potential_savings_bytes: self.potential_savings_bytes as nat,
        }
    }
}

/// The function that a symbol instantiates:
/// - `<Type as Trait>::method<T>` gives the method (up to its `<`);
/// - otherwise a symbol with `<` gives what precedes the first `<`, trimmed;
/// - a mangled symbol (`_` first, `ZN` inside) gives what follows its last `ZN`,
///   up to the next `E`;
/// - any other symbol gives what precedes its first `<`, `(` or space.
pub open spec fn base_function_name(s: Seq<char>) -> Seq<char> {
    if s.len() > 0 && s[0] == '<' && last_index_of(s, seq!['>', ':', ':']) >= 0 {
        let rest = s.skip(last_index_of(s, seq!['>', ':', ':']) + 3);
        rest.take(index_of(rest, '<'))
    } else if index_of(s, '<') < s.len() {
        trim(s.take(index_of(s, '<')))
    } else if s.len() > 0 && s[0] == '_' && last_index_of(s, seq!['Z', 'N']) >= 0 {
        let tail = s.skip(last_index_of(s, seq!['Z', 'N']) + 2);
        tail.take(index_of(tail, 'E'))
    } else {
        s.take(index_where(s, CharClass::AnyOf('<', '(', ' '), true))
    }
}

pub open spec fn base_of(x: ItemView) -> Seq<char> {
    base_function_name(x.name)
}

/// The items of `items` whose base function is `b`, in order.
pub open spec fn members(items: Seq<ItemView>, b: Seq<char>) -> Seq<ItemView>
    decreases items.len(),
{
    if items.len() == 0 {
        seq![]
    } else if base_of(items.last()) == b {
        members(items.drop_last(), b).push(items.last())
    } else {
        members(items.drop_last(), b)
    }
}

pub open spec fn size_sum(xs: Seq<ItemView>) -> nat
    decreases xs.len(),
{
    if xs.len() == 0 {
        0
    } else {
        size_sum(xs.drop_last()) + xs.last().size_bytes as nat
    }
}

pub open spec fn size_max(xs: Seq<ItemView>) -> nat
    decreases xs.len(),
{
    if xs.len() == 0 {
        0
    } else if size_max(xs.drop_last()) >= xs.last().size_bytes {
        size_max(xs.drop_last())
    } else {
        xs.last().size_bytes as nat
    }
}

/// The group of the instantiations of `b`.
pub open spec fn group_for(items: Seq<ItemView>, b: Seq<char>) -> GroupView {
    let m = members(items, b);
    GroupView {
        function_name: b,
        instantiation_count: m.len(),
        total_size_bytes: size_sum(m),
        avg_size_bytes: size_sum(m) / m.len(),
        instantiations: m,
        potential_savings_bytes: (size_sum(m) - size_max(m)) as nat,
    }
}

/// No group of instantiations sums to more than `u64::MAX` bytes.
pub open spec fn group_sums_fit(items: Seq<ItemView>) -> bool {
    forall|k: int|
        0 <= k < items.len() ==> size_sum(members(items, base_of(#[trigger] items[k]))) <= u64::MAX
}

/// What `group_monomorphizations` returns for `items`: one group for each base
/// function with two or more instantiations, none twice, the largest savings first.
pub open spec fn groups_ok(items: Seq<ItemView>, g: Seq<GroupView>) -> bool {
    &&& forall|i: int|
        0 <= i < g.len() ==> #[trigger] g[i] == group_for(items, g[i].function_name)
            && g[i].instantiation_count >= 2
    &&& forall|i: int, j: int|
        0 <= i < j < g.len() ==> (#[trigger] g[i]).function_name != (#[trigger] g[j]).function_name
    &&& forall|k: int|
        0 <= k < items.len() && members(items, base_of(#[trigger] items[k])).len() >= 2
            ==> exists|i: int| 0 <= i < g.len() && (#[trigger] g[i]).function_name == base_of(items[k])
    &&& forall|i: int, j: int|
        0 <= i < j < g.len() ==> (#[trigger] g[i]).potential_savings_bytes
            >= (#[trigger] g[j]).potential_savings_bytes
}

pub open spec fn group_views(v: Seq<MonomorphizationGroup>) -> Seq<GroupView> {
    v.map_values(|g: MonomorphizationGroup| g@)
}

proof fn lemma_max_le_sum(xs: Seq<ItemView>)
    ensures
        size_max(xs) <= size_sum(xs),
        forall|i: int| 0 <= i < xs.len() ==> (#[trigger] xs[i]).size_bytes <= size_max(xs),
    decreases xs.len(),
{
    if xs.len() > 0 {
        lemma_max_le_sum(xs.drop_last());
        assert forall|i: int| 0 <= i < xs.len() implies (#[trigger] xs[i]).size_bytes <= size_max(
            xs,
        ) by {
            if i < xs.len() - 1 {
                assert(xs[i] == xs.drop_last()[i]);
            }
        }
    }
}

proof fn lemma_members_prefix(items: Seq<ItemView>, b: Seq<char>, j: int)
    requires
        0 <= j <= items.len(),
    ensures
        size_sum(members(items.take(j), b)) <= size_sum(members(items, b)),
        members(items.take(j), b).len() <= members(items, b).len(),
    decreases items.len(),
{
    if j < items.len() {
        let t = items.drop_last();
        assert(t.take(j) == items.take(j));
        lemma_members_prefix(t, b, j);
        if base_of(items.last()) == b {
            let m = members(t, b);
            assert(m.push(items.last()).drop_last() == m);
        }
    } else {
        assert(items.take(j) == items);
    }
}

proof fn lemma_members_len(items: Seq<ItemView>, b: Seq<char>)
    ensures
        members(items, b).len() <= items.len(),
    decreases items.len(),
{
    if items.len() > 0 {
        lemma_members_len(items.drop_last(), b);
    }
}

/// `v[start..]` up to its first `stop`.
fn piece_until(v: &Vec<char>, start: usize, stop: char) -> (r: String)
    requires
        start <= v@.len(),
    ensures
        r@ == v@.skip(start as int).take(index_of(v@.skip(start as int), stop)),
{
    let n = v.len();
    let e = find_char(v, stop, start, n);
    assert(v@.skip(start as int) == v@.subrange(start as int, n as int));
    assert(v@.skip(start as int).take(e - start) == v@.subrange(start as int, e as int));
    string_of_range(v, start, e)
}

/// The method of an `<Type as Trait>::method` symbol: `None` unless `v` starts
/// with `<` and holds `>::`.
fn impl_method(v: &Vec<char>) -> (r: Option<String>)
    ensures
        r is Some <==> (v@.len() > 0 && v@[0] == '<' && last_index_of(v@, seq!['>', ':', ':']) >= 0),
        r matches Some(m) ==> m@ == ({
            let rest = v@.skip(last_index_of(v@, seq!['>', ':', ':']) + 3);
            rest.take(index_of(rest, '<'))
        }),
{
    if v.len() == 0 || v[0] != '<' {
        return None;
    }
    let pat = chars_of(">::");
    proof {
        reveal_strlit(">::");
        assert(pat@ == seq!['>', ':', ':']);
    }
    match rfind(v, &pat) {
        Some(pos) => {
            proof {
                lemma_last_index_of(v@, seq!['>', ':', ':']);
            }
            Some(piece_until(v, pos + 3, '<'))
        },
        None => None,
    }
}

/// The name of a mangled symbol: `None` unless `v` starts with `_` and holds `ZN`.
fn mangled_name(v: &Vec<char>) -> (r: Option<String>)
    ensures
        r is Some <==> (v@.len() > 0 && v@[0] == '_' && last_index_of(v@, seq!['Z', 'N']) >= 0),
        r matches Some(m) ==> m@ == ({
            let tail = v@.skip(last_index_of(v@, seq!['Z', 'N']) + 2);
            tail.take(index_of(tail, 'E'))
        }),
{
    if v.len() == 0 || v[0] != '_' {
        return None;
    }
    let pat = chars_of("ZN");
    proof {
        reveal_strlit("ZN");
        assert(pat@ == seq!['Z', 'N']);
    }
    match rfind(v, &pat) {
        Some(pos) => {
            proof {
                lemma_last_index_of(v@, seq!['Z', 'N']);
            }
            Some(piece_until(v, pos + 2, 'E'))
        },
        None => None,
    }
}

/// The base function of a symbol, as `base_function_name` describes it.
pub fn base_function_of(symbol: &str) -> (r: String)
    ensures
        r@ == base_function_name(symbol@),
{
    let v = chars_of(symbol);
    let n = v.len();
    proof {
        lemma_index_of_bounds(v@, '<');
    }
    match impl_method(&v) {
        Some(m) => {
            return m;
        },
        None => {},
    }
    let lt = find_char(&v, '<', 0, n);
    assert(v@.subrange(0, n as int) == v@);
    if lt < n {
        assert(v@.take(lt as int) == v@.subrange(0, lt as int));
        let (a, b) = strip_bounds(&v, 0, lt, CharClass::Whitespace);
        return string_of_range(&v, a, b);
    }
    match mangled_name(&v) {
        Some(m) => {
            return m;
        },
        None => {},
    }
    let stop = find_where(&v, CharClass::AnyOf('<', '(', ' '), true, 0, n);
    assert(v@.take(stop as int) == v@.subrange(0, stop as int));
    string_of_range(&v, 0, stop)
}

/// The group of the instantiations of `bases[k]`, where `bases[j]` is the base
/// function of `items[j]`.
fn collect_group(items: &Vec<AnalysisItem>, bases: &Vec<String>, k: usize) -> (g:
    MonomorphizationGroup)
    requires
        bases@.len() == items@.len(),
        k < items@.len(),
        forall|j: int| 0 <= j < items@.len() ==> (#[trigger] bases@[j])@ == base_of(items@[j]@),
        group_sums_fit(item_views(items@)),
        members(item_views(items@), bases@[k as int]@).len() >= 1,
    ensures
        g@ == group_for(item_views(items@), bases@[k as int]@),
{
    let ghost iv = item_views(items@);
    let ghost b = bases@[k as int]@;
    assert(iv[k as int] == items@[k as int]@);
    assert(b == base_of(iv[k as int]));
    let mut insts: Vec<AnalysisItem> = Vec::new();
    let mut total: u64 = 0;
    let mut mx: u64 = 0;
    let mut j: usize = 0;
    assert(iv.take(0) == Seq::<ItemView>::empty());
    while j < items.len()
        invariant
            bases@.len() == items@.len(),
            iv == item_views(items@),
            k < items@.len(),
            b == bases@[k as int]@,
            b == base_of(iv[k as int]),
            forall|i: int| 0 <= i < items@.len() ==> (#[trigger] bases@[i])@ == base_of(items@[i]@),
            group_sums_fit(iv),
            j <= items@.len(),
            item_views(insts@) == members(iv.take(j as int), b),
            total == size_sum(members(iv.take(j as int), b)),
            mx == size_max(members(iv.take(j as int), b)),
        decreases items@.len() - j,
    {
        let ghost pre = iv.take(j as int);
        let ghost post = iv.take(j + 1);
        assert(post.drop_last() == pre);
        assert(post.last() == items@[j as int]@);
        if bases[j] == bases[k] {
            let ghost m = members(pre, b);
            assert(members(post, b) == m.push(items@[j as int]@));
            assert(m.push(items@[j as int]@).drop_last() == m);
            proof {
                lemma_members_prefix(iv, b, j + 1);
            }
            let ghost before = insts@;
            insts.push(items[j].duplicate());
            assert(item_views(insts@) == item_views(before).push(items@[j as int]@));
            total = total + items[j].size_bytes;
            if items[j].size_bytes > mx {
                mx = items[j].size_bytes;
            }
        }
        j = j + 1;
    }
    assert(iv.take(j as int) == iv);
    let ghost m = members(iv, b);
    proof {
        lemma_max_le_sum(m);
        lemma_members_len(iv, b);
    }
    let count = insts.len();
    assert(count == m.len());
    MonomorphizationGroup {
        function_name: bases[k].clone(),
        instantiation_count: count,
        total_size_bytes: total,
        avg_size_bytes: total / (count as u64),
        instantiations: insts,
        potential_savings_bytes: total - mx,
    }
}

/// The position at which a group saving `savings` bytes goes into `groups`
/// (ordered by savings, largest first): after every group that saves as much.
fn sorted_position(groups: &Vec<MonomorphizationGroup>, savings: u64) -> (p: usize)
    requires
        forall|i: int, j: int|
            0 <= i < j < groups@.len() ==> (#[trigger] groups@[i]).potential_savings_bytes
                >= (#[trigger] groups@[j]).potential_savings_bytes,
    ensures
        p <= groups@.len(),
        forall|i: int| 0 <= i < p ==> (#[trigger] groups@[i]).potential_savings_bytes >= savings,
        forall|i: int| p <= i < groups@.len() ==> (#[trigger] groups@[i]).potential_savings_bytes < savings,
{
    let mut p: usize = 0;
    while p < groups.len() && groups[p].potential_savings_bytes >= savings
        invariant
            p <= groups@.len(),
            forall|i: int| 0 <= i < p ==> (#[trigger] groups@[i]).potential_savings_bytes >= savings,
        decreases groups@.len() - p,
    {
        p = p + 1;
    }
    p
}

/// Each group is the group of its base function and has two or more instantiations.
pub open spec fn gs_exact(iv: Seq<ItemView>, gs: Seq<MonomorphizationGroup>) -> bool {
    forall|i: int|
        0 <= i < gs.len() ==> #[trigger] gs[i]@ == group_for(iv, gs[i]@.function_name)
            && gs[i]@.instantiation_count >= 2
}

/// Each group is named after one of the first `k` items.
pub open spec fn gs_named(bases: Seq<String>, k: int, gs: Seq<MonomorphizationGroup>) -> bool {
    forall|i: int|
        0 <= i < gs.len() ==> exists|j: int|
            0 <= j < k && (#[trigger] gs[i])@.function_name == (#[trigger] bases[j])@
}

/// No two groups share a name.
pub open spec fn gs_distinct(gs: Seq<MonomorphizationGroup>) -> bool {
    forall|i: int, j: int|
        0 <= i < j < gs.len() ==> (#[trigger] gs[i])@.function_name != (
        #[trigger] gs[j])@.function_name
}

/// Every base function of the first `k` items with two or more instantiations
/// has its group.
pub open spec fn gs_cover(
    iv: Seq<ItemView>,
    bases: Seq<String>,
    k: int,
    gs: Seq<MonomorphizationGroup>,
) -> bool {
    forall|j: int|
        0 <= j < k && members(iv, #[trigger] bases[j]@).len() >= 2 ==> exists|i: int|
            0 <= i < gs.len() && (#[trigger] gs[i])@.function_name == bases[j]@
}

/// The largest savings come first.
pub open spec fn gs_sorted(gs: Seq<MonomorphizationGroup>) -> bool {
    forall|i: int, j: int|
        0 <= i < j < gs.len() ==> (#[trigger] gs[i]).potential_savings_bytes
            >= (#[trigger] gs[j]).potential_savings_bytes
}

/// What the groups built from the first `k` items satisfy.
pub open spec fn groups_so_far(
    iv: Seq<ItemView>,
    bases: Seq<String>,
    k: int,
    gs: Seq<MonomorphizationGroup>,
) -> bool {
    &&& gs_exact(iv, gs)
    &&& gs_named(bases, k, gs)
    &&& gs_distinct(gs)
    &&& gs_cover(iv, bases, k, gs)
    &&& gs_sorted(gs)
}

/// Item `k` adds no group when its base function came earlier or has fewer than
/// two instantiations.
proof fn lemma_groups_skip(
    iv: Seq<ItemView>,
    bases: Seq<String>,
    k: int,
    gs: Seq<MonomorphizationGroup>,
)
    requires
        0 <= k < bases.len(),
        groups_so_far(iv, bases, k, gs),
        (exists|t: int| 0 <= t < k && (#[trigger] bases[t])@ == bases[k]@) || members(
            iv,
            bases[k]@,
        ).len() < 2,
    ensures
        groups_so_far(iv, bases, k + 1, gs),
{
    assert forall|i: int| 0 <= i < gs.len() implies exists|j: int|
        0 <= j < k + 1 && (#[trigger] gs[i])@.function_name == (#[trigger] bases[j])@ by {
        let j = choose|j: int| 0 <= j < k && (#[trigger] gs[i])@.function_name == (
        #[trigger] bases[j])@;
        assert(gs[i]@.function_name == bases[j]@);
    }
    assert forall|j: int|
        0 <= j < k + 1 && members(iv, #[trigger] bases[j]@).len() >= 2 implies exists|i: int|
        0 <= i < gs.len() && (#[trigger] gs[i])@.function_name == bases[j]@ by {
        if j == k {
            let t = choose|t: int| 0 <= t < k && (#[trigger] bases[t])@ == bases[k]@;
            assert(members(iv, bases[t]@).len() >= 2);
        }
    }
}

/// Inserting the new group of item `k` at its sorted position `p` keeps what
/// the groups satisfy.
proof fn lemma_groups_insert(
    iv: Seq<ItemView>,
    bases: Seq<String>,
    k: int,
    before: Seq<MonomorphizationGroup>,
    p: int,
    g: MonomorphizationGroup,
)
    requires
        0 <= k < bases.len(),
        groups_so_far(iv, bases, k, before),
        forall|t: int| 0 <= t < k ==> (#[trigger] bases[t])@ != bases[k]@,
        g@ == group_for(iv, bases[k]@),
        g@.instantiation_count >= 2,
        0 <= p <= before.len(),
        forall|i: int| 0 <= i < p ==> (#[trigger] before[i]).potential_savings_bytes
            >= g.potential_savings_bytes,
        forall|i: int| p <= i < before.len() ==> (#[trigger] before[i]).potential_savings_bytes
            < g.potential_savings_bytes,
    ensures
        groups_so_far(iv, bases, k + 1, before.insert(p, g)),
{
    lemma_insert_exact(iv, bases, k, before, p, g);
    lemma_insert_named(bases, k, before, p, g);
    lemma_insert_distinct(bases, k, before, p, g);
    lemma_insert_cover(iv, bases, k, before, p, g);
    lemma_insert_sorted(before, p, g);
}

proof fn lemma_insert_exact(
    iv: Seq<ItemView>,
    bases: Seq<String>,
    k: int,
    before: Seq<MonomorphizationGroup>,
    p: int,
    g: MonomorphizationGroup,
)
    requires
        0 <= k < bases.len(),
        gs_exact(iv, before),
        g@ == group_for(iv, bases[k]@),
        g@.instantiation_count >= 2,
        0 <= p <= before.len(),
    ensures
        gs_exact(iv, before.insert(p, g)),
{
    let after = before.insert(p, g);
    assert forall|i: int| 0 <= i < after.len() implies #[trigger] after[i]@ == group_for(
        iv,
        after[i]@.function_name,
    ) && after[i]@.instantiation_count >= 2 by {
        if i < p {
            assert(after[i] == before[i]);
        } else if i > p {
            assert(after[i] == before[i - 1]);
        }
    }
}

proof fn lemma_insert_named(
    bases: Seq<String>,
    k: int,
    before: Seq<MonomorphizationGroup>,
    p: int,
    g: MonomorphizationGroup,
)
    requires
        0 <= k < bases.len(),
        gs_named(bases, k, before),
        g@.function_name == bases[k]@,
        0 <= p <= before.len(),
    ensures
        gs_named(bases, k + 1, before.insert(p, g)),
{
    let after = before.insert(p, g);
    assert forall|i: int| 0 <= i < after.len() implies exists|j: int|
        0 <= j < k + 1 && (#[trigger] after[i])@.function_name == (#[trigger] bases[j])@ by {
        if i == p {
            assert(after[i]@.function_name == bases[k]@);
        } else {
            let o = if i < p { i } else { i - 1 };
            assert(after[i] == before[o]);
            let j = choose|j: int| 0 <= j < k && (#[trigger] before[o])@.function_name == (
            #[trigger] bases[j])@;
            assert(after[i]@.function_name == bases[j]@);
        }
    }
}

proof fn lemma_insert_distinct(
    bases: Seq<String>,
    k: int,
    before: Seq<MonomorphizationGroup>,
    p: int,
    g: MonomorphizationGroup,
)
    requires
        0 <= k < bases.len(),
        gs_named(bases, k, before),
        gs_distinct(before),
        forall|t: int| 0 <= t < k ==> (#[trigger] bases[t])@ != bases[k]@,
        g@.function_name == bases[k]@,
        0 <= p <= before.len(),
    ensures
        gs_distinct(before.insert(p, g)),
{
    let after = before.insert(p, g);
    assert forall|i: int, j: int| 0 <= i < j < after.len() implies (#[trigger] after[i])@.function_name
        != (#[trigger] after[j])@.function_name by {
        let oi = if i < p { i } else { i - 1 };
        let oj = if j < p { j } else { j - 1 };
        if i != p && j != p {
            assert(after[i] == before[oi]);
            assert(after[j] == before[oj]);
        } else if i == p {
            assert(after[j] == before[oj]);
            let t = choose|t: int| 0 <= t < k && (#[trigger] before[oj])@.function_name == (
            #[trigger] bases[t])@;
            assert(bases[t]@ != bases[k]@);
        } else {
            assert(after[i] == before[oi]);
            let t = choose|t: int| 0 <= t < k && (#[trigger] before[oi])@.function_name == (
            #[trigger] bases[t])@;
            assert(bases[t]@ != bases[k]@);
        }
    }
}

proof fn lemma_insert_cover(
    iv: Seq<ItemView>,
    bases: Seq<String>,
    k: int,
    before: Seq<MonomorphizationGroup>,
    p: int,
    g: MonomorphizationGroup,
)
    requires
        0 <= k < bases.len(),
        gs_cover(iv, bases, k, before),
        g@.function_name == bases[k]@,
        0 <= p <= before.len(),
    ensures
        gs_cover(iv, bases, k + 1, before.insert(p, g)),
{
    let after = before.insert(p, g);
    assert forall|j: int|
        0 <= j < k + 1 && members(iv, #[trigger] bases[j]@).len() >= 2 implies exists|i: int|
        0 <= i < after.len() && (#[trigger] after[i])@.function_name == bases[j]@ by {
        if j < k {
            let i = choose|i: int|
                0 <= i < before.len() && (#[trigger] before[i])@.function_name == bases[j]@;
            if i < p {
                assert(after[i] == before[i]);
            } else {
                assert(after[i + 1] == before[i]);
            }
        } else {
            assert(after[p]@.function_name == bases[j]@);
        }
    }
}

proof fn lemma_insert_sorted(before: Seq<MonomorphizationGroup>, p: int, g: MonomorphizationGroup)
    requires
        gs_sorted(before),
        0 <= p <= before.len(),
        forall|i: int| 0 <= i < p ==> (#[trigger] before[i]).potential_savings_bytes
            >= g.potential_savings_bytes,
        forall|i: int| p <= i < before.len() ==> (#[trigger] before[i]).potential_savings_bytes
            < g.potential_savings_bytes,
    ensures
        gs_sorted(before.insert(p, g)),
{
    let after = before.insert(p, g);
    assert forall|i: int, j: int| 0 <= i < j < after.len() implies (#[trigger] after[i]).potential_savings_bytes
        >= (#[trigger] after[j]).potential_savings_bytes by {
        if i < p && j < p {
            assert(after[i] == before[i]);
            assert(after[j] == before[j]);
        } else if i < p && j == p {
            assert(after[i] == before[i]);
        } else if i < p {
            assert(after[i] == before[i]);
            assert(after[j] == before[j - 1]);
        } else if i == p {
            assert(after[j] == before[j - 1]);
        } else {
            assert(after[i] == before[i - 1]);
            assert(after[j] == before[j - 1]);
        }
    }
}

/// Groups the items by base function, keeping the groups of two or more
/// instantiations, the largest potential savings first.
pub fn group_by_base(items: &Vec<AnalysisItem>) -> (r: Vec<MonomorphizationGroup>)
    requires
        group_sums_fit(item_views(items@)),
    ensures
        groups_ok(item_views(items@), group_views(r@)),
{
    let ghost iv = item_views(items@);
    let mut bases: Vec<String> = Vec::new();
    let mut i: usize = 0;
    while i < items.len()
        invariant
            i <= items@.len(),
            bases@.len() == i,
            forall|j: int| 0 <= j < i ==> (#[trigger] bases@[j])@ == base_of(items@[j]@),
        decreases items@.len() - i,
    {
        bases.push(base_function_of(items[i].name.as_str()));
        i = i + 1;
    }
    let mut groups: Vec<MonomorphizationGroup> = Vec::new();
    let mut k: usize = 0;
    while k < items.len()
        invariant
            iv == item_views(items@),
            bases@.len() == items@.len(),
            forall|j: int| 0 <= j < items@.len() ==> (#[trigger] bases@[j])@ == base_of(items@[j]@),
            group_sums_fit(iv),
            k <= items@.len(),
            groups_so_far(iv, bases@, k as int, groups@),
        decreases items@.len() - k,
    {
        let mut seen = false;
        let mut j: usize = 0;
        while j < k
            invariant
                j <= k < items@.len(),
                bases@.len() == items@.len(),
                seen ==> exists|t: int| 0 <= t < j && (#[trigger] bases@[t])@ == bases@[k as int]@,
                !seen ==> forall|t: int| 0 <= t < j ==> (#[trigger] bases@[t])@ != bases@[k as int]@,
            decreases k - j,
        {
            if bases[j] == bases[k] {
                seen = true;
            }
            j = j + 1;
        }
        let ghost b = bases@[k as int]@;
        if seen {
            proof {
                lemma_groups_skip(iv, bases@, k as int, groups@);
            }
        } else {
            proof {
                assert(iv[k as int] == items@[k as int]@);
                lemma_member_present(iv, b, k as int);
            }
            let g = collect_group(items, &bases, k);
            if g.instantiation_count >= 2 {
                let p = sorted_position(&groups, g.potential_savings_bytes);
                let ghost before = groups@;
                proof {
                    lemma_groups_insert(iv, bases@, k as int, before, p as int, g);
                }
                groups.insert(p, g);
            } else {
                proof {
                    lemma_groups_skip(iv, bases@, k as int, groups@);
                }
            }
        }
        k = k + 1;
    }
    proof {
        let g = group_views(groups@);
        assert forall|i: int| 0 <= i < g.len() implies #[trigger] g[i] == group_for(
            iv,
            g[i].function_name,
        ) && g[i].instantiation_count >= 2 by {
            assert(g[i] == groups@[i]@);
        }
        assert forall|i: int, j: int| 0 <= i < j < g.len() implies (#[trigger] g[i]).function_name
            != (#[trigger] g[j]).function_name by {
            assert(g[i] == groups@[i]@);
            assert(g[j] == groups@[j]@);
        }
        assert forall|t: int|
            0 <= t < iv.len() && members(iv, base_of(#[trigger] iv[t])).len() >= 2 implies exists|i: int|
            0 <= i < g.len() && (#[trigger] g[i]).function_name == base_of(iv[t]) by {
            assert(iv[t] == items@[t]@);
            assert(bases@[t]@ == base_of(iv[t]));
            let i = choose|i: int|
                0 <= i < groups@.len() && (#[trigger] groups@[i])@.function_name == bases@[t]@;
            assert(g[i] == groups@[i]@);
        }
        assert forall|i: int, j: int| 0 <= i < j < g.len() implies (#[trigger] g[i]).potential_savings_bytes
            >= (#[trigger] g[j]).potential_savings_bytes by {
            assert(g[i] == groups@[i]@);
            assert(g[j] == groups@[j]@);
        }
    }
    groups
}

proof fn lemma_member_present(items: Seq<ItemView>, b: Seq<char>, k: int)
    requires
        0 <= k < items.len(),
        base_of(items[k]) == b,
    ensures
        members(items, b).len() >= 1,
    decreases items.len(),
{
    if k < items.len() - 1 {
        assert(items.drop_last()[k] == items[k]);
        lemma_member_present(items.drop_last(), b, k);
    }
}

} // verus!
