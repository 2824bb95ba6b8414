//! Grouping of panic sites for the panic report.
use vstd::prelude::*;
use vstd::string::*;
use crate::analyzer::panics::DetectedPanic;

verus! {

broadcast use vstd::string::group_string_axioms;

/// How many sites lie in file `f`.
pub open spec fn sites_in(sites: Seq<DetectedPanic>, f: Seq<char>) -> nat
    decreases sites.len(),
{
    if sites.len() == 0 {
        0
    } else {
        sites_in(sites.drop_last(), f) + (if sites.last().file@ == f {
            1nat
        } else {
            0nat
        })
    }
}

/// What `group_by_file` returns: each file once with its number of sites.
#[verifier::opaque]
pub open spec fn by_file_ok(sites: Seq<DetectedPanic>, g: Seq<(String, usize)>) -> bool {
    &&& forall|i: int| 0 <= i < g.len() ==> (#[trigger] g[i]).1 == sites_in(sites, g[i].0@) && g[i].1 > 0
    &&& forall|i: int, j: int| 0 <= i < j < g.len() ==> (#[trigger] g[i]).0@ != (#[trigger] g[j]).0@
    &&& forall|k: int| 0 <= k < sites.len() ==> exists|i: int| 0 <= i < g.len() && (#[trigger] g[i]).0@ == (#[trigger] sites[k]).file@
    &&& g.len() <= sites.len()
}

proof fn lemma_sites_in_le(sites: Seq<DetectedPanic>, f: Seq<char>)
    ensures
        sites_in(sites, f) <= sites.len(),
    decreases sites.len(),
{
    if sites.len() > 0 {
        lemma_sites_in_le(sites.drop_last(), f);
    }
}

proof fn lemma_sites_in_present(sites: Seq<DetectedPanic>, f: Seq<char>)
    requires
        sites_in(sites, f) > 0,
    ensures
        exists|q: int| 0 <= q < sites.len() && (#[trigger] sites[q]).file@ == f,
    decreases sites.len(),
{
    if sites.last().file@ != f {
        lemma_sites_in_present(sites.drop_last(), f);
        let q = choose|q: int| 0 <= q < sites.drop_last().len() && (#[trigger] sites.drop_last()[q]).file@ == f;
        assert(sites[q] == sites.drop_last()[q]);
    } else {
        assert(sites[sites.len() - 1].file@ == f);
    }
}

/// The number of panic sites per file, files in order of first appearance.
pub fn group_by_file(panics: &Vec<DetectedPanic>) -> (g: Vec<(String, usize)>)
    ensures
        by_file_ok(panics@, g@),
{
    let mut g: Vec<(String, usize)> = Vec::new();
    let mut k: usize = 0;
    proof {
        reveal(by_file_ok);
    }
    while k < panics.len()
        invariant
            k <= panics@.len(),
            by_file_ok(panics@.take(k as int), g@),
        decreases panics@.len() - k,
    {
        reveal(by_file_ok);
        let ghost pre = panics@.take(k as int);
        let ghost post = panics@.take(k + 1);
        assert(post.drop_last() == pre);
        assert(post.last() == panics@[k as int]);
        let f = &panics[k].file;
        let mut j: usize = 0;
        while j < g.len() && g[j].0 != *f
            invariant
                j <= g@.len(),
                forall|t: int| 0 <= t < j ==> (#[trigger] g@[t]).0@ != f@,
            decreases g@.len() - j,
        {
            j = j + 1;
        }
        let ghost old_g = g@;
        if j < g.len() {
            let c = g[j].1;
            proof {
                lemma_sites_in_le(pre, f@);
            }
            let name = g[j].0.clone();
            g.set(j, (name, c + 1));
            proof {
                assert forall|i: int| 0 <= i < g@.len() implies (#[trigger] g@[i]).1 == sites_in(
                    post,
                    g@[i].0@,
                ) && g@[i].1 > 0 by {
                    if i != j {
                        assert(g@[i] == old_g[i]);
                        assert(old_g[i].0@ != old_g[j as int].0@);
                    }
                }
                assert forall|i: int, t: int| 0 <= i < t < g@.len() implies (#[trigger] g@[i]).0@
                    != (#[trigger] g@[t]).0@ by {
                    assert(g@[i].0@ == old_g[i].0@);
                    assert(g@[t].0@ == old_g[t].0@);
                }
                assert forall|q: int| 0 <= q < post.len() implies exists|i: int|
                    0 <= i < g@.len() && (#[trigger] g@[i]).0@ == (#[trigger] post[q]).file@ by {
                    if q < pre.len() {
                        assert(post[q] == pre[q]);
                        let i = choose|i: int| 0 <= i < old_g.len() && (#[trigger] old_g[i]).0@ == (
                        #[trigger] pre[q]).file@;
                        assert(g@[i].0@ == old_g[i].0@);
                    } else {
                        assert(g@[j as int].0@ == f@);
                    }
                }
            }
        } else {
            proof {
                assert(sites_in(pre, f@) == 0) by {
                    if sites_in(pre, f@) > 0 {
                        lemma_sites_in_present(pre, f@);
                        let q = choose|q: int| 0 <= q < pre.len() && (#[trigger] pre[q]).file@ == f@;
                        let i = choose|i: int| 0 <= i < old_g.len() && (#[trigger] old_g[i]).0@ == (
                        #[trigger] pre[q]).file@;
                        assert(old_g[i].0@ != f@);
                    }
                }
            }
            g.push((f.clone(), 1));
            proof {
                assert forall|i: int| 0 <= i < g@.len() implies (#[trigger] g@[i]).1 == sites_in(
                    post,
                    g@[i].0@,
                ) && g@[i].1 > 0 by {
                    if i < old_g.len() {
                        assert(g@[i] == old_g[i]);
                    }
                }
                assert forall|i: int, t: int| 0 <= i < t < g@.len() implies (#[trigger] g@[i]).0@
                    != (#[trigger] g@[t]).0@ by {
                    if t < old_g.len() {
                        assert(g@[i] == old_g[i]);
                        assert(g@[t] == old_g[t]);
                    } else {
                        assert(g@[i] == old_g[i]);
                    }
                }
                assert forall|q: int| 0 <= q < post.len() implies exists|i: int|
                    0 <= i < g@.len() && (#[trigger] g@[i]).0@ == (#[trigger] post[q]).file@ by {
                    if q < pre.len() {
                        assert(post[q] == pre[q]);
                        let i = choose|i: int| 0 <= i < old_g.len() && (#[trigger] old_g[i]).0@ == (
                        #[trigger] pre[q]).file@;
                        assert(g@[i] == old_g[i]);
                    } else {
                        assert(g@[old_g.len() as int].0@ == f@);
                    }
                }
            }
        }
        k = k + 1;
    }
    assert(panics@.take(k as int) == panics@);
    g
}


/// `s` with `x` inserted after every entry whose count is at least `x`'s: the
/// step of a stable sort by count, largest first.
pub open spec fn insert_ranked(s: Seq<(String, usize)>, x: (String, usize)) -> Seq<(String, usize)>
    decreases s.len(),
{
    if s.len() == 0 {
        seq![x]
    } else if s[0].1 < x.1 {
        seq![x] + s
    } else {
        seq![s[0]] + insert_ranked(s.skip(1), x)
    }
}

/// The files of `g` ranked by their number of panic sites, largest first;
/// files with equal counts keep their order in `g`.
pub open spec fn ranked(g: Seq<(String, usize)>) -> Seq<(String, usize)>
    decreases g.len(),
{
    if g.len() == 0 {
        seq![]
    } else {
        insert_ranked(ranked(g.drop_last()), g.last())
    }
}

/// Inserting before the first entry of smaller count is `insert_ranked`.
proof fn lemma_insert_at(s: Seq<(String, usize)>, x: (String, usize), p: int)
    requires
        0 <= p <= s.len(),
        forall|k: int| 0 <= k < p ==> (#[trigger] s[k]).1 >= x.1,
        p < s.len() ==> s[p].1 < x.1,
    ensures
        insert_ranked(s, x) == s.insert(p, x),
        insert_ranked(s, x).len() == s.len() + 1,
    decreases p,
{
    if p == 0 {
        if s.len() == 0 {
            assert(s.insert(0, x) == seq![x]);
        } else {
            assert(s.insert(0, x) == seq![x] + s);
        }
    } else {
        let t = s.skip(1);
        assert forall|k: int| 0 <= k < p - 1 implies (#[trigger] t[k]).1 >= x.1 by {
            assert(t[k] == s[k + 1]);
        }
        if p - 1 < t.len() {
            assert(t[p - 1] == s[p]);
        }
        lemma_insert_at(t, x, p - 1);
        assert(s.insert(p, x) == seq![s[0]] + t.insert(p - 1, x));
    }
}

proof fn lemma_ranked_len(g: Seq<(String, usize)>)
    ensures
        ranked(g).len() == g.len(),
    decreases g.len(),
{
    if g.len() > 0 {
        lemma_ranked_len(g.drop_last());
        lemma_insert_len(ranked(g.drop_last()), g.last());
    }
}

proof fn lemma_insert_len(s: Seq<(String, usize)>, x: (String, usize))
    ensures
        insert_ranked(s, x).len() == s.len() + 1,
    decreases s.len(),
{
    if s.len() > 0 && s[0].1 >= x.1 {
        lemma_insert_len(s.skip(1), x);
    }
}

/// The files of `g` ranked by their number of sites, largest first (equal
/// counts in their order in `g`).
pub fn rank_files(g: &Vec<(String, usize)>) -> (r: Vec<(String, usize)>)
    ensures
        r@ == ranked(g@),
{
    let mut r: Vec<(String, usize)> = Vec::new();
    let mut i: usize = 0;
    while i < g.len()
        invariant
            i <= g@.len(),
            r@ == ranked(g@.take(i as int)),
        decreases g@.len() - i,
    {
        let x = (g[i].0.clone(), g[i].1);
        assert(x == g@[i as int]);
        let mut p: usize = 0;
        while p < r.len() && r[p].1 >= x.1
            invariant
                p <= r@.len(),
                forall|k: int| 0 <= k < p ==> (#[trigger] r@[k]).1 >= x.1,
            decreases r@.len() - p,
        {
            p = p + 1;
        }
        proof {
            lemma_insert_at(r@, x, p as int);
            assert(g@.take(i + 1).drop_last() == g@.take(i as int));
            assert(g@.take(i + 1).last() == g@[i as int]);
        }
        r.insert(p, x);
        i = i + 1;
    }
    assert(g@.take(i as int) == g@);
    r
}


/// Counts never grow along `s`.
pub open spec fn ranked_desc(s: Seq<(String, usize)>) -> bool {
    forall|i: int, j: int| 0 <= i < j < s.len() ==> (#[trigger] s[i]).1 >= (#[trigger] s[j]).1
}

proof fn lemma_insert_members(s: Seq<(String, usize)>, x: (String, usize), k: int)
    requires
        0 <= k < insert_ranked(s, x).len(),
    ensures
        insert_ranked(s, x)[k] == x || s.contains(insert_ranked(s, x)[k]),
    decreases s.len(),
{
    if s.len() > 0 {
        if s[0].1 < x.1 {
            if k > 0 {
                assert(insert_ranked(s, x)[k] == s[k - 1]);
            }
        } else if k > 0 {
            lemma_insert_members(s.skip(1), x, k - 1);
            let y = insert_ranked(s, x)[k];
            assert(y == insert_ranked(s.skip(1), x)[k - 1]);
            if s.skip(1).contains(y) {
                let q = choose|q: int| 0 <= q < s.skip(1).len() && s.skip(1)[q] == y;
                assert(s[q + 1] == y);
            }
        }
    }
}

proof fn lemma_insert_desc(s: Seq<(String, usize)>, x: (String, usize))
    requires
        ranked_desc(s),
    ensures
        ranked_desc(insert_ranked(s, x)),
    decreases s.len(),
{
    lemma_insert_len(s, x);
    if s.len() > 0 && s[0].1 >= x.1 {
        let t = s.skip(1);
        assert(ranked_desc(t)) by {
            assert forall|i: int, j: int| 0 <= i < j < t.len() implies (#[trigger] t[i]).1 >= (
            #[trigger] t[j]).1 by {
                assert(t[i] == s[i + 1] && t[j] == s[j + 1]);
            }
        }
        lemma_insert_desc(t, x);
        let r = insert_ranked(s, x);
        assert forall|i: int, j: int| 0 <= i < j < r.len() implies (#[trigger] r[i]).1 >= (
        #[trigger] r[j]).1 by {
            lemma_insert_len(t, x);
            if i == 0 {
                lemma_insert_members(t, x, j - 1);
                let y = insert_ranked(t, x)[j - 1];
                assert(r[j] == y);
                if y != x {
                    let q = choose|q: int| 0 <= q < t.len() && t[q] == y;
                    assert(s[q + 1] == y);
                }
            } else {
                assert(r[i] == insert_ranked(t, x)[i - 1]);
                assert(r[j] == insert_ranked(t, x)[j - 1]);
            }
        }
    } else if s.len() > 0 {
        let r = insert_ranked(s, x);
        assert forall|i: int, j: int| 0 <= i < j < r.len() implies (#[trigger] r[i]).1 >= (
        #[trigger] r[j]).1 by {
            assert(r[j] == s[j - 1]);
            if i > 0 {
                assert(r[i] == s[i - 1]);
            } else {
                assert(s[0].1 >= s[j - 1].1 || j - 1 == 0);
            }
        }
    }
}

/// The ranking of the files of a panic report puts the files with the most
/// sites first: counts never grow along it, and no file is lost or added.
pub proof fn lemma_ranked_desc(g: Seq<(String, usize)>)
    ensures
        ranked_desc(ranked(g)),
        ranked(g).len() == g.len(),
    decreases g.len(),
{
    lemma_ranked_len(g);
    if g.len() > 0 {
        lemma_ranked_desc(g.drop_last());
        lemma_insert_desc(ranked(g.drop_last()), g.last());
    }
}

/// The files of the panic report: at most the ten with the most sites, ranked
/// as `rank_files` ranks them, and how many files are left over.
pub fn top_files(by_file: &Vec<(String, usize)>) -> (r: (Vec<(String, usize)>, usize))
    ensures
        r.0@ == ranked(by_file@).take(if by_file@.len() < 10 { by_file@.len() as int } else { 10 }),
        r.1 == (if by_file@.len() < 10 { 0 } else { by_file@.len() - 10 }),
{
    let mut rk = rank_files(by_file);
    proof {
        lemma_ranked_len(by_file@);
    }
    let n: usize = rk.len();
    if n > 10 {
        rk.truncate(10);
        (rk, n - 10)
    } else {
        assert(rk@.take(n as int) == rk@);
        (rk, 0)
    }
}

} // verus!
