//! A bounded ranking of grid points by net profit.
//!
//! Entries are ordered by profit, ties broken by the parameters; the ranking
//! keeps them in descending order and holds at most [`CAPACITY`] of them, the
//! lowest ranked leaving first.
use crate::decimal::{lemma_rescaled_order, lt, same_value, Dec};
use vstd::prelude::*;

verus! {

/// How many entries a ranking keeps.
pub const CAPACITY: usize = 100;

/// The parameters of the stochastic oscillator, ordered by `k_length`, then
/// `k_smoothing`, then `d_length`.
#[derive(Clone, Copy, Debug, Default, PartialEq, Eq, PartialOrd, Ord, Structural)]
pub struct PnlParams {
    /// Ticks in the %K window.
    pub k_length: u16,
    /// Ticks over which %K is smoothed into the fast line.
    pub k_smoothing: u16,
    /// Ticks over which the fast line is smoothed into the slow line.
    pub d_length: u16,
}

/// A net profit, ordered by value.
#[derive(Clone, Copy, Debug, PartialEq, Eq, Structural)]
pub struct Profit(pub Dec);

/// A ranked grid point.
pub type Entry = (Profit, PnlParams);

pub open spec fn params_lt(a: PnlParams, b: PnlParams) -> bool {
    a.k_length < b.k_length || (a.k_length == b.k_length && (a.k_smoothing < b.k_smoothing || (
    a.k_smoothing == b.k_smoothing && a.d_length < b.d_length)))
}

/// `a` ranks below `b`: less profit, or the same profit and smaller parameters.
pub open spec fn rank_lt(a: Entry, b: Entry) -> bool {
    lt(a.0.0, b.0.0) || (same_value(a.0.0, b.0.0) && params_lt(a.1, b.1))
}

/// No entry ranks above the one before it.
pub open spec fn sorted_desc(s: Seq<Entry>) -> bool {
    forall|i: int| 0 <= i < s.len() - 1 ==> !rank_lt(#[trigger] s[i], s[i + 1])
}

/// `x` placed before the first entry of `s` that does not rank above it.
pub open spec fn insert_sorted(s: Seq<Entry>, x: Entry) -> Seq<Entry>
    decreases s.len(),
{
    if s.len() == 0 {
        seq![x]
    } else if rank_lt(x, s[0]) {
        seq![s[0]] + insert_sorted(s.drop_first(), x)
    } else {
        seq![x] + s
    }
}

/// The first [`CAPACITY`] entries of `s`.
pub open spec fn capped(s: Seq<Entry>) -> Seq<Entry> {
    if s.len() > CAPACITY {
        s.take(CAPACITY as int)
    } else {
        s
    }
}

/// The ranking after `xs` is entered, one by one, into `start`.
pub open spec fn rank_seq(start: Seq<Entry>, xs: Seq<Entry>) -> Seq<Entry>
    decreases xs.len(),
{
    if xs.len() == 0 {
        start
    } else {
        capped(insert_sorted(rank_seq(start, xs.drop_last()), xs.last()))
    }
}

impl PnlParams {
    /// Whether `self` comes before `other` in the parameter order.
    pub fn precedes(&self, other: &PnlParams) -> (r: bool)
        ensures
            r == params_lt(*self, *other),
    {
        self.k_length < other.k_length || (self.k_length == other.k_length && (self.k_smoothing
            < other.k_smoothing || (self.k_smoothing == other.k_smoothing && self.d_length
            < other.d_length)))
    }
}

impl Profit {
    /// Whether `self` is less profit than `other`.
    pub fn lt(&self, other: &Profit) -> (r: bool)
        ensures
            r == lt(self.0, other.0),
    {
        self.0.lt(&other.0)
    }
}

/// Whether `a` ranks below `b`.
pub fn ranks_below(a: &Entry, b: &Entry) -> (r: bool)
    ensures
        r == rank_lt(*a, *b),
{
    if a.0.lt(&b.0) {
        true
    } else if b.0.lt(&a.0) {
        false
    } else {
        a.1.precedes(&b.1)
    }
}

proof fn lemma_insert_at(s: Seq<Entry>, x: Entry, pos: int)
    requires
        0 <= pos <= s.len(),
        forall|j: int| 0 <= j < pos ==> rank_lt(x, #[trigger] s[j]),
        pos < s.len() ==> !rank_lt(x, s[pos]),
    ensures
        insert_sorted(s, x) == s.take(pos) + seq![x] + s.skip(pos),
    decreases s.len(),
{
    if s.len() == 0 {
        assert(s.take(pos) + seq![x] + s.skip(pos) =~= seq![x]);
    } else if pos == 0 {
        assert(s.take(0) + seq![x] + s.skip(0) =~= seq![x] + s);
    } else {
        let t = s.drop_first();
        assert forall|j: int| 0 <= j < pos - 1 implies rank_lt(x, #[trigger] t[j]) by {
            assert(t[j] == s[j + 1]);
        }
        lemma_insert_at(t, x, pos - 1);
        assert(seq![s[0]] + (t.take(pos - 1) + seq![x] + t.skip(pos - 1)) =~= s.take(pos)
            + seq![x] + s.skip(pos));
    }
}

proof fn lemma_rank_asym(a: Entry, b: Entry)
    ensures
        rank_lt(a, b) ==> !rank_lt(b, a),
{
}

proof fn lemma_insert_sorted_keeps_order(s: Seq<Entry>, x: Entry)
    requires
        sorted_desc(s),
    ensures
        sorted_desc(insert_sorted(s, x)),
        insert_sorted(s, x).len() == s.len() + 1,
        s.len() > 0 && rank_lt(x, s[0]) ==> insert_sorted(s, x)[0] == s[0],
        s.len() == 0 || !rank_lt(x, s[0]) ==> insert_sorted(s, x)[0] == x,
    decreases s.len(),
{
    if s.len() > 0 && rank_lt(x, s[0]) {
        let t = s.drop_first();
        assert forall|i: int| 0 <= i < t.len() - 1 implies !rank_lt(#[trigger] t[i], t[i + 1]) by {
            assert(t[i] == s[i + 1]);
            assert(t[i + 1] == s[i + 2]);
        }
        lemma_insert_sorted_keeps_order(t, x);
        let r = insert_sorted(s, x);
        let rt = insert_sorted(t, x);
        assert(r == seq![s[0]] + rt);
        lemma_rank_asym(x, s[0]);
        assert forall|i: int| 0 <= i < r.len() - 1 implies !rank_lt(#[trigger] r[i], r[i + 1]) by {
            if i > 0 {
                assert(r[i] == rt[i - 1]);
                assert(r[i + 1] == rt[i]);
            } else {
                assert(r[1] == rt[0]);
                if t.len() > 0 && rank_lt(x, t[0]) {
                    assert(rt[0] == t[0]);
                    assert(t[0] == s[1]);
                } else {
                    assert(rt[0] == x);
                }
            }
        }
    } else {
        let r = insert_sorted(s, x);
        assert forall|i: int| 0 <= i < r.len() - 1 implies !rank_lt(#[trigger] r[i], r[i + 1]) by {
            if i > 0 {
                assert(r[i] == s[i - 1]);
                assert(r[i + 1] == s[i]);
            }
        }
    }
}

proof fn lemma_capped_keeps_order(s: Seq<Entry>)
    requires
        sorted_desc(s),
    ensures
        sorted_desc(capped(s)),
        capped(s).len() <= CAPACITY,
        capped(s).len() == if s.len() > CAPACITY {
            CAPACITY as int
        } else {
            s.len() as int
        },
{
    let c = capped(s);
    assert forall|i: int| 0 <= i < c.len() - 1 implies !rank_lt(#[trigger] c[i], c[i + 1]) by {
        assert(c[i] == s[i]);
        assert(c[i + 1] == s[i + 1]);
    }
}

/// No two entries of `xs` share their parameters.
pub open spec fn distinct_params(xs: Seq<Entry>) -> bool {
    forall|i: int, j: int| 0 <= i < j < xs.len() ==> (#[trigger] xs[i]).1 != (#[trigger] xs[j]).1
}

/// Each entry ranks strictly below every entry before it.
pub open spec fn strictly_desc(s: Seq<Entry>) -> bool {
    forall|i: int, j: int| 0 <= i < j < s.len() ==> rank_lt(#[trigger] s[j], #[trigger] s[i])
}

/// `xs` entered one by one into an unbounded ranking.
pub open spec fn sort_seq(xs: Seq<Entry>) -> Seq<Entry>
    decreases xs.len(),
{
    if xs.len() == 0 {
        Seq::empty()
    } else {
        insert_sorted(sort_seq(xs.drop_last()), xs.last())
    }
}

/// Where `x` goes in `s`: the first entry that does not rank above it.
pub open spec fn insert_pos(s: Seq<Entry>, x: Entry) -> int
    decreases s.len(),
{
    if s.len() == 0 || !rank_lt(x, s[0]) {
        0
    } else {
        1 + insert_pos(s.drop_first(), x)
    }
}

proof fn lemma_insert_pos(s: Seq<Entry>, x: Entry)
    ensures
        0 <= insert_pos(s, x) <= s.len(),
        forall|j: int| 0 <= j < insert_pos(s, x) ==> rank_lt(x, #[trigger] s[j]),
        insert_pos(s, x) < s.len() ==> !rank_lt(x, s[insert_pos(s, x)]),
    decreases s.len(),
{
    if s.len() > 0 && rank_lt(x, s[0]) {
        let t = s.drop_first();
        lemma_insert_pos(t, x);
        assert forall|j: int| 0 <= j < insert_pos(s, x) implies rank_lt(x, #[trigger] s[j]) by {
            if j > 0 {
                assert(s[j] == t[j - 1]);
            }
        }
        if insert_pos(s, x) < s.len() {
            assert(s[insert_pos(s, x)] == t[insert_pos(t, x)]);
        }
    }
}

proof fn lemma_rank_trans(a: Entry, b: Entry, c: Entry)
    requires
        rank_lt(a, b),
        rank_lt(b, c),
    ensures
        rank_lt(a, c),
{
    let s = if a.0.0.scale >= b.0.0.scale && a.0.0.scale >= c.0.0.scale {
        a.0.0.scale as nat
    } else if b.0.0.scale >= c.0.0.scale {
        b.0.0.scale as nat
    } else {
        c.0.0.scale as nat
    };
    lemma_rescaled_order(a.0.0, b.0.0, s);
    lemma_rescaled_order(b.0.0, c.0.0, s);
    lemma_rescaled_order(a.0.0, c.0.0, s);
}

proof fn lemma_rank_total(a: Entry, b: Entry)
    requires
        a.1 != b.1,
    ensures
        rank_lt(a, b) || rank_lt(b, a),
{
    let s = if a.0.0.scale >= b.0.0.scale {
        a.0.0.scale as nat
    } else {
        b.0.0.scale as nat
    };
    lemma_rescaled_order(a.0.0, b.0.0, s);
    lemma_rescaled_order(b.0.0, a.0.0, s);
}

proof fn lemma_sort_seq(xs: Seq<Entry>)
    requires
        distinct_params(xs),
    ensures
        strictly_desc(sort_seq(xs)),
        sort_seq(xs).len() == xs.len(),
        forall|e: Entry| sort_seq(xs).contains(e) <==> xs.contains(e),
    decreases xs.len(),
{
    if xs.len() > 0 {
        let ys = xs.drop_last();
        let x = xs.last();
        assert forall|i: int, j: int| 0 <= i < j < ys.len() implies (#[trigger] ys[i]).1 != (
        #[trigger] ys[j]).1 by {
            assert(ys[i] == xs[i]);
            assert(ys[j] == xs[j]);
        }
        lemma_sort_seq(ys);
        let r = sort_seq(ys);
        lemma_insert_pos(r, x);
        let pos = insert_pos(r, x);
        lemma_insert_at(r, x, pos);
        let n = insert_sorted(r, x);
        assert(n == r.take(pos) + seq![x] + r.skip(pos));
        assert forall|k: int| 0 <= k < r.len() implies (#[trigger] r[k]).1 != x.1 by {
            assert(ys.contains(r[k]));
            let m = choose|m: int| 0 <= m < ys.len() && ys[m] == r[k];
            assert(xs[m] == ys[m]);
            assert(xs[xs.len() - 1] == x);
        }
        assert forall|i: int, j: int| 0 <= i < j < n.len() implies rank_lt(
            #[trigger] n[j],
            #[trigger] n[i],
        ) by {
            if j < pos {
                assert(n[i] == r[i] && n[j] == r[j]);
            } else if j == pos {
                assert(n[i] == r[i] && n[j] == x);
            } else if i < pos {
                assert(n[i] == r[i] && n[j] == r[j - 1]);
            } else if i == pos {
                assert(n[i] == x && n[j] == r[j - 1]);
                lemma_rank_total(x, r[pos]);
                if j - 1 > pos {
                    lemma_rank_trans(r[j - 1], r[pos], x);
                }
            } else {
                assert(n[i] == r[i - 1] && n[j] == r[j - 1]);
            }
        }
        assert forall|e: Entry| n.contains(e) <==> xs.contains(e) by {
            if n.contains(e) {
                let k = choose|k: int| 0 <= k < n.len() && n[k] == e;
                if k == pos {
                    assert(xs[xs.len() - 1] == e);
                } else {
                    let kk = if k < pos {
                        k
                    } else {
                        k - 1
                    };
                    assert(r[kk] == e);
                    assert(r.contains(e));
                    assert(ys.contains(e));
                    let m = choose|m: int| 0 <= m < ys.len() && ys[m] == e;
                    assert(xs[m] == ys[m]);
                }
            }
            if xs.contains(e) {
                let m = choose|m: int| 0 <= m < xs.len() && xs[m] == e;
                if m == xs.len() - 1 {
                    assert(n[pos] == e);
                } else {
                    assert(ys[m] == e);
                    assert(ys.contains(e));
                    let k = choose|k: int| 0 <= k < r.len() && r[k] == e;
                    if k < pos {
                        assert(n[k] == e);
                    } else {
                        assert(n[k + 1] == e);
                    }
                }
            }
        }
    }
}

proof fn lemma_unique_sorted(s: Seq<Entry>, t: Seq<Entry>)
    requires
        strictly_desc(s),
        strictly_desc(t),
        forall|e: Entry| s.contains(e) <==> t.contains(e),
    ensures
        s == t,
    decreases s.len(),
{
    if s.len() == 0 {
        if t.len() > 0 {
            assert(t.contains(t[0]));
        }
        assert(s =~= t);
    } else {
        assert(s.contains(s[0]));
        let k = choose|k: int| 0 <= k < t.len() && t[k] == s[0];
        assert(t.contains(t[0]));
        let m = choose|m: int| 0 <= m < s.len() && s[m] == t[0];
        if k > 0 {
            assert(rank_lt(t[k], t[0]));
            if m > 0 {
                assert(rank_lt(s[m], s[0]));
                lemma_rank_asym(s[m], s[0]);
            }
        }
        assert(t[0] == s[0]);
        let s1 = s.drop_first();
        let t1 = t.drop_first();
        assert forall|i: int, j: int| 0 <= i < j < s1.len() implies rank_lt(
            #[trigger] s1[j],
            #[trigger] s1[i],
        ) by {
            assert(s1[i] == s[i + 1] && s1[j] == s[j + 1]);
        }
        assert forall|i: int, j: int| 0 <= i < j < t1.len() implies rank_lt(
            #[trigger] t1[j],
            #[trigger] t1[i],
        ) by {
            assert(t1[i] == t[i + 1] && t1[j] == t[j + 1]);
        }
        assert forall|e: Entry| s1.contains(e) <==> t1.contains(e) by {
            if s1.contains(e) {
                let a = choose|a: int| 0 <= a < s1.len() && s1[a] == e;
                assert(s[a + 1] == e);
                assert(rank_lt(s[a + 1], s[0]));
                assert(s.contains(e));
                let b = choose|b: int| 0 <= b < t.len() && t[b] == e;
                if b == 0 {
                    lemma_rank_asym(e, e);
                }
                assert(t1[b - 1] == e);
            }
            if t1.contains(e) {
                let a = choose|a: int| 0 <= a < t1.len() && t1[a] == e;
                assert(t[a + 1] == e);
                assert(rank_lt(t[a + 1], t[0]));
                assert(t.contains(e));
                let b = choose|b: int| 0 <= b < s.len() && s[b] == e;
                if b == 0 {
                    lemma_rank_asym(e, e);
                }
                assert(s1[b - 1] == e);
            }
        }
        lemma_unique_sorted(s1, t1);
        assert(s =~= seq![s[0]] + s1);
        assert(t =~= seq![t[0]] + t1);
    }
}

proof fn lemma_insert_len(s: Seq<Entry>, x: Entry)
    ensures
        insert_sorted(s, x).len() == s.len() + 1,
    decreases s.len(),
{
    if s.len() > 0 {
        lemma_insert_len(s.drop_first(), x);
    }
}

proof fn lemma_insert_prefix(s: Seq<Entry>, x: Entry, n: int)
    requires
        0 <= n <= s.len(),
    ensures
        insert_sorted(s.take(n), x).take(n) == insert_sorted(s, x).take(n),
        insert_sorted(s, x).len() == s.len() + 1,
    decreases s.len(),
{
    if s.len() > 0 {
        lemma_insert_prefix(s.drop_first(), x, if n > 0 {
            n - 1
        } else {
            0
        });
    }
    if n > 0 {
        let t = s.take(n);
        assert(t[0] == s[0]);
        if rank_lt(x, s[0]) {
            assert(t.drop_first() =~= s.drop_first().take(n - 1));
            let a = insert_sorted(t.drop_first(), x);
            let b = insert_sorted(s.drop_first(), x);
            lemma_insert_len(t.drop_first(), x);
            lemma_insert_len(s.drop_first(), x);
            assert((seq![s[0]] + a).take(n) =~= seq![s[0]] + a.take(n - 1));
            assert((seq![s[0]] + b).take(n) =~= seq![s[0]] + b.take(n - 1));
        } else {
            assert((seq![x] + t).take(n) =~= (seq![x] + s).take(n));
        }
    } else {
        assert(insert_sorted(s.take(n), x).take(n) =~= insert_sorted(s, x).take(n));
    }
}

proof fn lemma_rank_seq_is_capped_sort(xs: Seq<Entry>)
    ensures
        rank_seq(Seq::empty(), xs) == capped(sort_seq(xs)),
        sort_seq(xs).len() == xs.len(),
    decreases xs.len(),
{
    if xs.len() > 0 {
        let ys = xs.drop_last();
        let x = xs.last();
        lemma_rank_seq_is_capped_sort(ys);
        let r = sort_seq(ys);
        lemma_insert_prefix(r, x, r.len() as int);
        if r.len() > CAPACITY {
            lemma_insert_prefix(r, x, CAPACITY as int);
            lemma_insert_prefix(r.take(CAPACITY as int), x, CAPACITY as int);
            assert(r.take(CAPACITY as int).take(CAPACITY as int) =~= r.take(CAPACITY as int));
        }
    }
}

/// The ranking does not depend on the order in which the grid points arrive:
/// two sequences with the same entries, no two of them sharing parameters,
/// leave the same ranking, with `min(CAPACITY, n)` entries in descending order.
/// So workers that enter their results in any interleaving agree with one
/// worker that enters them all.
pub proof fn lemma_ranking_order_independent(xs: Seq<Entry>, ys: Seq<Entry>)
    requires
        distinct_params(xs),
        distinct_params(ys),
        forall|e: Entry| xs.contains(e) <==> ys.contains(e),
    ensures
        rank_seq(Seq::empty(), xs) == rank_seq(Seq::empty(), ys),
        rank_seq(Seq::empty(), xs).len() == if xs.len() > CAPACITY {
            CAPACITY as int
        } else {
            xs.len() as int
        },
        sorted_desc(rank_seq(Seq::empty(), xs)),
{
    lemma_sort_seq(xs);
    lemma_sort_seq(ys);
    assert forall|e: Entry| sort_seq(xs).contains(e) <==> sort_seq(ys).contains(e) by {
        assert(sort_seq(xs).contains(e) <==> xs.contains(e));
        assert(sort_seq(ys).contains(e) <==> ys.contains(e));
    }
    lemma_unique_sorted(sort_seq(xs), sort_seq(ys));
    lemma_rank_seq_is_capped_sort(xs);
    lemma_rank_seq_is_capped_sort(ys);
    let r = sort_seq(xs);
    assert forall|i: int| 0 <= i < r.len() - 1 implies !rank_lt(#[trigger] r[i], r[i + 1]) by {
        assert(rank_lt(r[i + 1], r[i]));
        lemma_rank_asym(r[i + 1], r[i]);
    }
    lemma_capped_keeps_order(r);
}

/// The best entries seen so far, highest ranked first.
pub struct TopProfits {
    items: Vec<Entry>,
}

impl TopProfits {
    pub closed spec fn view(&self) -> Seq<Entry> {
        self.items@
    }

    /// The ranking holds at most [`CAPACITY`] entries in descending order.
    pub open spec fn wf(&self) -> bool {
        self@.len() <= CAPACITY && sorted_desc(self@)
    }

    /// An empty ranking.
    pub fn new() -> (r: Self)
        ensures
            r@ == Seq::<Entry>::empty(),
            r.wf(),
    {
        TopProfits { items: Vec::new() }
    }

    /// Enters `item`: it takes its place in the order, and where the ranking
    /// then holds more than [`CAPACITY`] entries the lowest ranked one leaves.
    pub fn insert(&mut self, item: Entry)
        requires
            old(self).wf(),
        ensures
            final(self)@ == capped(insert_sorted(old(self)@, item)),
            final(self).wf(),
    {
        let mut pos: usize = 0;
        while pos < self.items.len() && ranks_below(&item, &self.items[pos])
            invariant
                self.items@ == old(self).items@,
                pos <= self.items@.len(),
                forall|j: int| 0 <= j < pos ==> rank_lt(item, #[trigger] self.items@[j]),
            decreases self.items@.len() - pos,
        {
            pos = pos + 1;
        }
        proof {
            lemma_insert_at(self.items@, item, pos as int);
            lemma_insert_sorted_keeps_order(self.items@, item);
            lemma_capped_keeps_order(insert_sorted(self.items@, item));
        }
        self.items.insert(pos, item);
        assert(self.items@ =~= insert_sorted(old(self).items@, item));
        if self.items.len() > CAPACITY {
            self.items.truncate(CAPACITY);
        }
        assert(self.items@ =~= capped(insert_sorted(old(self).items@, item)));
    }

    /// The entries, highest ranked first.
    pub fn into_vec(self) -> (r: Vec<Entry>)
        ensures
            r@ == self@,
    {
        self.items
    }

    /// The number of entries.
    pub fn len(&self) -> (r: usize)
        ensures
            r == self@.len(),
    {
        self.items.len()
    }
}

} // verus!
