//! The comparison chart, as exact data: for one finished group, the
//! normalization baseline, the scale ceiling, and one row per runtime
//! variant, ordered inversely to the variant ordering.
//!
//! Estimates are exact decimal scalars, so every quotient the chart needs
//! is carried as an exact pair of integers: a row's relative time is
//! `rel_num / rel_den`, and the axis ceiling is `ceiling_num /
//! ceiling_den`.  The fastest variant's relative time is exactly one, and
//! no relative time is below one.

use vstd::prelude::*;
use vstd::set_lib::lemma_int_range;
use vstd::set_lib::lemma_len_subset;
use vstd::set_lib::set_int_range;

use crate::estimate::lemma_le_total;
use crate::estimate::lemma_le_trans;
use crate::estimate::lemma_mul_bound;
use crate::estimate::lemma_wf_den_positive;
use crate::estimate::Estimate;
use crate::fmt::rel_tag;
use crate::fmt::spec_tag;
use crate::group::BenchGroup;
use crate::group::GroupView;
use crate::group::ResultView;
use crate::ident::lemma_rank_injective;
use crate::ident::Rgb;
use crate::ident::VmAndConfig;
use crate::num::pow10;

verus! {

/// One bar of the chart.
#[derive(Debug, Clone, PartialEq, Eq)]
pub struct ChartRow {
    /// The variant this row belongs to.
    pub variant: VmAndConfig,
    /// The variant's display label, naming the row.
    pub label: String,
    /// The bar color.
    pub color: Rgb,
    /// Numerator of the exact relative time `estimate / fastest`.
    pub rel_num: u128,
    /// Denominator of the exact relative time.
    pub rel_den: u128,
    /// The text drawn past the end of the bar, as `x2.00`.
    pub tag: String,
}

/// The mathematical value of a [`ChartRow`].
pub ghost struct RowView {
    pub variant: VmAndConfig,
    pub label: Seq<char>,
    pub color: Rgb,
    pub rel_num: int,
    pub rel_den: int,
    pub tag: Seq<char>,
}

impl View for ChartRow {
    type V = RowView;

    open spec fn view(&self) -> RowView {
        RowView {
            variant: self.variant,
            label: self.label@,
            color: self.color,
            rel_num: self.rel_num as int,
            rel_den: self.rel_den as int,
            tag: self.tag@,
        }
    }
}

/// The complete data of one chart.
#[derive(Debug, Clone, PartialEq, Eq)]
pub struct ChartSpec {
    /// The chart title: `category/name`, plus any annotation.
    pub title: String,
    /// Where the artifact belongs, derived from category and name.
    pub path: String,
    /// The pixel height the chart is drawn with.
    pub height: u32,
    /// Numerator of the upper end of the logarithmic axis.
    pub ceiling_num: u128,
    /// Denominator of the upper end of the logarithmic axis.
    pub ceiling_den: u128,
    /// The rows, ordered by descending variant rank.
    pub rows: Vec<ChartRow>,
}

/// The mathematical value of a [`ChartSpec`].
pub ghost struct ChartView {
    pub title: Seq<char>,
    pub path: Seq<char>,
    pub height: int,
    pub ceiling_num: int,
    pub ceiling_den: int,
    pub rows: Seq<RowView>,
}

impl View for ChartSpec {
    type V = ChartView;

    open spec fn view(&self) -> ChartView {
        ChartView {
            title: self.title@,
            path: self.path@,
            height: self.height as int,
            ceiling_num: self.ceiling_num as int,
            ceiling_den: self.ceiling_den as int,
            rows: self.rows@.map_values(|r: ChartRow| r@),
        }
    }
}

/// The estimates of a group's results, in order.
pub open spec fn estimates_of(rs: Seq<(VmAndConfig, ResultView)>) -> Seq<Estimate> {
    rs.map_values(|p: (VmAndConfig, ResultView)| p.1.estimate)
}

/// Folds the running minimum over `s`, keeping the later scalar on ties.
pub open spec fn min_fold(s: Seq<Estimate>, acc: Estimate) -> Estimate
    decreases s.len(),
{
    if s.len() == 0 {
        acc
    } else {
        min_fold(
            s.skip(1),
            if s[0].spec_le(acc) {
                s[0]
            } else {
                acc
            },
        )
    }
}

/// The minimum estimate of `s`, or `1` when `s` is empty.
pub open spec fn spec_min_est(s: Seq<Estimate>) -> Estimate {
    if s.len() == 0 {
        Estimate { num: 1, den: 1 }
    } else {
        min_fold(s.skip(1), s[0])
    }
}

/// Folds the running maximum over `s`, keeping the later scalar on ties.
pub open spec fn max_fold(s: Seq<Estimate>, acc: Estimate) -> Estimate
    decreases s.len(),
{
    if s.len() == 0 {
        acc
    } else {
        max_fold(
            s.skip(1),
            if acc.spec_le(s[0]) {
                s[0]
            } else {
                acc
            },
        )
    }
}

/// The maximum estimate of `s`, or `1` when `s` is empty.
pub open spec fn spec_max_est(s: Seq<Estimate>) -> Estimate {
    if s.len() == 0 {
        Estimate { num: 1, den: 1 }
    } else {
        max_fold(s.skip(1), s[0])
    }
}

/// The minimum fold yields a scalar of the fold that is no larger than
/// the seed and than any element.
pub proof fn lemma_min_fold_props(s: Seq<Estimate>, acc: Estimate)
    requires
        acc.den >= 1,
        forall|i: int| 0 <= i < s.len() ==> (#[trigger] s[i]).den >= 1,
    ensures
        min_fold(s, acc).spec_le(acc),
        forall|i: int| 0 <= i < s.len() ==> min_fold(s, acc).spec_le(#[trigger] s[i]),
        min_fold(s, acc) == acc || exists|i: int| 0 <= i < s.len() && min_fold(s, acc) == s[i],
    decreases s.len(),
{
    if s.len() == 0 {
    } else {
        let pick = if s[0].spec_le(acc) {
            s[0]
        } else {
            acc
        };
        assert(forall|i: int| 0 <= i < s.skip(1).len() ==> #[trigger] s.skip(1)[i] == s[i + 1]);
        lemma_min_fold_props(s.skip(1), pick);
        let m = min_fold(s, acc);
        assert(m == min_fold(s.skip(1), pick));
        if s[0].spec_le(acc) {
            lemma_le_trans(m, pick, acc);
        } else {
            lemma_le_total(s[0], acc);
            lemma_le_trans(m, pick, s[0]);
        }
        assert forall|i: int| 0 <= i < s.len() implies m.spec_le(#[trigger] s[i]) by {
            if i == 0 {
                if s[0].spec_le(acc) {
                } else {
                    lemma_le_total(s[0], acc);
                    lemma_le_trans(m, pick, s[0]);
                }
            } else {
                assert(s.skip(1)[i - 1] == s[i]);
            }
        }
    }
}

/// The maximum fold yields a scalar of the fold that is no smaller than
/// the seed and than any element.
pub proof fn lemma_max_fold_props(s: Seq<Estimate>, acc: Estimate)
    requires
        acc.den >= 1,
        forall|i: int| 0 <= i < s.len() ==> (#[trigger] s[i]).den >= 1,
    ensures
        acc.spec_le(max_fold(s, acc)),
        forall|i: int| 0 <= i < s.len() ==> (#[trigger] s[i]).spec_le(max_fold(s, acc)),
        max_fold(s, acc) == acc || exists|i: int| 0 <= i < s.len() && max_fold(s, acc) == s[i],
    decreases s.len(),
{
    if s.len() == 0 {
    } else {
        let pick = if acc.spec_le(s[0]) {
            s[0]
        } else {
            acc
        };
        assert(forall|i: int| 0 <= i < s.skip(1).len() ==> #[trigger] s.skip(1)[i] == s[i + 1]);
        lemma_max_fold_props(s.skip(1), pick);
        let m = max_fold(s, acc);
        if acc.spec_le(s[0]) {
            lemma_le_trans(acc, pick, m);
        } else {
            lemma_le_total(acc, s[0]);
        }
        assert forall|i: int| 0 <= i < s.len() implies (#[trigger] s[i]).spec_le(m) by {
            if i == 0 {
                if acc.spec_le(s[0]) {
                } else {
                    lemma_le_total(acc, s[0]);
                    lemma_le_trans(s[0], pick, m);
                }
            } else {
                assert(s.skip(1)[i - 1] == s[i]);
            }
        }
    }
}

/// Computes the group's minimum estimate, keeping the later entry on
/// ties; `1` for an empty group.
pub fn min_estimate(g: &BenchGroup) -> (r: Estimate)
    ensures
        r == spec_min_est(estimates_of(g@.results)),
{
    let ghost est = estimates_of(g@.results);
    if g.results.len() == 0 {
        return Estimate { num: 1, den: 1 };
    }
    let mut acc = g.results[0].1.estimate;
    let mut i: usize = 1;
    proof {
        assert(est[0] == acc);
    }
    while i < g.results.len()
        invariant
            1 <= i <= g.results.len(),
            est == estimates_of(g@.results),
            est.len() == g.results.len(),
            spec_min_est(est) == min_fold(est.skip(i as int), acc),
        decreases g.results.len() - i,
    {
        let e = g.results[i].1.estimate;
        proof {
            assert(est.skip(i as int)[0] == est[i as int]);
            assert(est[i as int] == e);
            assert(est.skip(i as int).skip(1) =~= est.skip(i + 1 as int));
        }
        if e.le(&acc) {
            acc = e;
        }
        i = i + 1;
    }
    proof {
        assert(est.skip(i as int) =~= Seq::<Estimate>::empty());
    }
    acc
}

/// Computes the group's maximum estimate, keeping the later entry on
/// ties; `1` for an empty group.
pub fn max_estimate(g: &BenchGroup) -> (r: Estimate)
    ensures
        r == spec_max_est(estimates_of(g@.results)),
{
    let ghost est = estimates_of(g@.results);
    if g.results.len() == 0 {
        return Estimate { num: 1, den: 1 };
    }
    let mut acc = g.results[0].1.estimate;
    let mut i: usize = 1;
    proof {
        assert(est[0] == acc);
    }
    while i < g.results.len()
        invariant
            1 <= i <= g.results.len(),
            est == estimates_of(g@.results),
            est.len() == g.results.len(),
            spec_max_est(est) == max_fold(est.skip(i as int), acc),
        decreases g.results.len() - i,
    {
        let e = g.results[i].1.estimate;
        proof {
            assert(est.skip(i as int)[0] == est[i as int]);
            assert(est[i as int] == e);
            assert(est.skip(i as int).skip(1) =~= est.skip(i + 1 as int));
        }
        if acc.le(&e) {
            acc = e;
        }
        i = i + 1;
    }
    proof {
        assert(est.skip(i as int) =~= Seq::<Estimate>::empty());
    }
    acc
}

/// The upper end of the chart's axis: at least one decade, and at least
/// the full spread `max / min`.
pub open spec fn spec_ceiling(mn: Estimate, mx: Estimate) -> (int, int) {
    if mx.num * mn.den >= 10 * (mn.num * mx.den) {
        (mx.num * mn.den, mx.den * mn.num)
    } else {
        (10, 1)
    }
}

/// Computes the axis ceiling, matching [`spec_ceiling`].
pub fn scale_ceiling(mn: Estimate, mx: Estimate) -> (r: (u128, u128))
    requires
        mn.wf(),
        mx.wf(),
    ensures
        (r.0 as int, r.1 as int) == spec_ceiling(mn, mx),
{
    proof {
        lemma_wf_den_positive(mn);
        lemma_wf_den_positive(mx);
        lemma_mul_bound(mx.num as int, mn.den as int, 1000000000000000000, 1000000000000000000);
        lemma_mul_bound(mn.num as int, mx.den as int, 1000000000000000000, 1000000000000000000);
        lemma_mul_bound(mx.den as int, mn.num as int, 1000000000000000000, 1000000000000000000);
    }
    let spread_num = (mx.num as u128) * (mn.den as u128);
    let spread_cmp = (mn.num as u128) * (mx.den as u128);
    if spread_num >= 10 * spread_cmp {
        ((mx.num as u128) * (mn.den as u128), (mx.den as u128) * (mn.num as u128))
    } else {
        (10, 1)
    }
}

/// The chart row of one result, normalized by the group minimum `mn`.
#[verifier::opaque]
pub open spec fn spec_row_of(v: VmAndConfig, e: Estimate, mn: Estimate) -> RowView {
    RowView {
        variant: v,
        label: v.spec_label(),
        color: v.spec_color(),
        rel_num: e.num * mn.den,
        rel_den: e.den * mn.num,
        tag: spec_tag(e.num * mn.den, e.den * mn.num),
    }
}

/// Builds the chart row of one result, matching [`spec_row_of`].
fn make_row(v: VmAndConfig, e: Estimate, mn: Estimate) -> (r: ChartRow)
    requires
        e.wf(),
        mn.wf(),
    ensures
        r@ == spec_row_of(v, e, mn),
{
    proof {
        reveal(spec_row_of);
        lemma_wf_den_positive(e);
        lemma_wf_den_positive(mn);
        lemma_mul_bound(e.num as int, mn.den as int, 1000000000000000000, 1000000000000000000);
        lemma_mul_bound(e.den as int, mn.num as int, 1000000000000000000, 1000000000000000000);
    }
    let rel_num = (e.num as u128) * (mn.den as u128);
    let rel_den = (e.den as u128) * (mn.num as u128);
    let tag = rel_tag(rel_num, rel_den);
    ChartRow { variant: v, label: v.label().to_owned(), color: v.color(), rel_num, rel_den, tag }
}


/// How many results have a variant rank of at least `r`.
pub open spec fn count_ge(rs: Seq<(VmAndConfig, ResultView)>, r: int) -> int
    decreases rs.len(),
{
    if rs.len() == 0 {
        0
    } else {
        (if rs[0].0.spec_rank() >= r {
            1int
        } else {
            0int
        }) + count_ge(rs.skip(1), r)
    }
}

/// How many results have a variant rank of exactly `r`.
pub open spec fn count_eq(rs: Seq<(VmAndConfig, ResultView)>, r: int) -> int
    decreases rs.len(),
{
    if rs.len() == 0 {
        0
    } else {
        (if rs[0].0.spec_rank() == r {
            1int
        } else {
            0int
        }) + count_eq(rs.skip(1), r)
    }
}

/// Every rank is below 16.
pub proof fn lemma_rank_bound(v: VmAndConfig)
    ensures
        v.spec_rank() < 16,
{
}

proof fn lemma_count_split(rs: Seq<(VmAndConfig, ResultView)>, r: int)
    ensures
        count_ge(rs, r) == count_ge(rs, r + 1) + count_eq(rs, r),
    decreases rs.len(),
{
    if rs.len() > 0 {
        lemma_count_split(rs.skip(1), r);
    }
}

proof fn lemma_count_ge_high(rs: Seq<(VmAndConfig, ResultView)>)
    ensures
        count_ge(rs, 16) == 0,
    decreases rs.len(),
{
    if rs.len() > 0 {
        lemma_rank_bound(rs[0].0);
        lemma_count_ge_high(rs.skip(1));
    }
}

proof fn lemma_count_ge_all(rs: Seq<(VmAndConfig, ResultView)>)
    ensures
        count_ge(rs, 0) == rs.len(),
    decreases rs.len(),
{
    if rs.len() > 0 {
        lemma_count_ge_all(rs.skip(1));
    }
}

proof fn lemma_count_eq_absent(rs: Seq<(VmAndConfig, ResultView)>, r: int)
    requires
        forall|j: int| 0 <= j < rs.len() ==> (#[trigger] rs[j]).0.spec_rank() != r,
    ensures
        count_eq(rs, r) == 0,
    decreases rs.len(),
{
    if rs.len() > 0 {
        assert(forall|j: int|
            0 <= j < rs.skip(1).len() ==> #[trigger] rs.skip(1)[j] == rs[j + 1]);
        lemma_count_eq_absent(rs.skip(1), r);
    }
}

/// Among results with pairwise distinct variants, at most one result has
/// any given rank.
proof fn lemma_count_eq_present(rs: Seq<(VmAndConfig, ResultView)>, r: int, w: int)
    requires
        forall|i: int, j: int|
            0 <= i < j < rs.len() ==> (#[trigger] rs[i]).0 != (#[trigger] rs[j]).0,
        0 <= w < rs.len(),
        rs[w].0.spec_rank() == r,
    ensures
        count_eq(rs, r) == 1,
    decreases rs.len(),
{
    assert(forall|j: int| 0 <= j < rs.skip(1).len() ==> #[trigger] rs.skip(1)[j] == rs[j + 1]);
    if rs[0].0.spec_rank() == r {
        assert forall|j: int| 0 <= j < rs.skip(1).len() implies (#[trigger] rs.skip(1)[j]).0.spec_rank()
            != r by {
            lemma_rank_injective(rs[j + 1].0, rs[0].0);
        }
        lemma_count_eq_absent(rs.skip(1), r);
    } else {
        assert(w > 0);
        lemma_count_eq_present(rs.skip(1), r, w - 1);
    }
}

/// Distinct variants have distinct ranks, so a consistent group holds at
/// most 16 results.
pub proof fn lemma_group_len_le_16(g: GroupView)
    requires
        g.wf(),
    ensures
        g.results.len() <= 16,
{
    let rs = g.results;
    let ranks = Seq::new(rs.len(), |i: int| rs[i].0.spec_rank() as int);
    assert forall|i: int, j: int| 0 <= i < j < ranks.len() implies ranks[i] != ranks[j] by {
        lemma_rank_injective(rs[i].0, rs[j].0);
    }
    assert(ranks.no_duplicates());
    ranks.unique_seq_to_set();
    lemma_int_range(0, 16);
    assert forall|x: int| ranks.to_set().contains(x) implies set_int_range(0, 16).contains(x) by {
        let i = choose|i: int| 0 <= i < ranks.len() && ranks[i] == x;
        lemma_rank_bound(rs[i].0);
    }
    assert(ranks.to_set().subset_of(set_int_range(0, 16)));
    lemma_len_subset(ranks.to_set(), set_int_range(0, 16));
}

/// The first result whose variant has rank `r`.
pub open spec fn find_rank(rs: Seq<(VmAndConfig, ResultView)>, r: int) -> Option<
    (VmAndConfig, ResultView),
>
    decreases rs.len(),
{
    if rs.len() == 0 {
        None
    } else if rs[0].0.spec_rank() == r {
        Some(rs[0])
    } else {
        find_rank(rs.skip(1), r)
    }
}

proof fn lemma_find_rank_present(rs: Seq<(VmAndConfig, ResultView)>, r: int, w: int)
    requires
        0 <= w < rs.len(),
        rs[w].0.spec_rank() == r,
    ensures
        find_rank(rs, r) is Some,
    decreases rs.len(),
{
    if rs[0].0.spec_rank() != r {
        assert(rs.skip(1)[w - 1] == rs[w]);
        lemma_find_rank_present(rs.skip(1), r, w - 1);
    }
}

proof fn lemma_find_rank_mem(rs: Seq<(VmAndConfig, ResultView)>, r: int)
    requires
        find_rank(rs, r) is Some,
    ensures
        exists|j: int|
            0 <= j < rs.len() && rs[j] == find_rank(rs, r)->Some_0 && (#[trigger] rs[j]).0.spec_rank()
                == r,
    decreases rs.len(),
{
    if rs[0].0.spec_rank() == r {
        assert(rs[0] == find_rank(rs, r)->Some_0 && rs[0].0.spec_rank() == r);
    } else {
        lemma_find_rank_mem(rs.skip(1), r);
        let j = choose|j: int|
            0 <= j < rs.skip(1).len() && rs.skip(1)[j] == find_rank(rs.skip(1), r)->Some_0 && (
            #[trigger] rs.skip(1)[j]).0.spec_rank() == r;
        assert(rs[j + 1] == find_rank(rs, r)->Some_0 && rs[j + 1].0.spec_rank() == r);
    }
}

/// The row of the result with rank `r`, or nothing.
pub open spec fn opt_row(
    rs: Seq<(VmAndConfig, ResultView)>,
    mn: Estimate,
    r: int,
) -> Seq<RowView> {
    match find_rank(rs, r) {
        Some(p) => seq![spec_row_of(p.0, p.1.estimate, mn)],
        None => Seq::<RowView>::empty(),
    }
}

/// The rows for all ranks of at least `r`, in descending rank order.
pub open spec fn rows_down(
    rs: Seq<(VmAndConfig, ResultView)>,
    mn: Estimate,
    r: int,
) -> Seq<RowView>
    decreases 16 - r,
{
    if r >= 16 {
        Seq::<RowView>::empty()
    } else {
        rows_down(rs, mn, r + 1) + opt_row(rs, mn, r)
    }
}

/// The chart rows of a group normalized by `mn`: one row per result, in
/// descending rank order.
pub open spec fn spec_rows(rs: Seq<(VmAndConfig, ResultView)>, mn: Estimate) -> Seq<RowView> {
    rows_down(rs, mn, 0)
}

/// Among results with pairwise distinct variants, the rows hold one row
/// per result.
pub proof fn lemma_rows_down_len(rs: Seq<(VmAndConfig, ResultView)>, mn: Estimate, r: int)
    requires
        forall|i: int, j: int|
            0 <= i < j < rs.len() ==> (#[trigger] rs[i]).0 != (#[trigger] rs[j]).0,
        0 <= r <= 16,
    ensures
        rows_down(rs, mn, r).len() == count_ge(rs, r),
    decreases 16 - r,
{
    if r >= 16 {
        lemma_count_ge_high(rs);
    } else {
        lemma_rows_down_len(rs, mn, r + 1);
        lemma_count_split(rs, r);
        match find_rank(rs, r) {
            Some(p) => {
                lemma_find_rank_mem(rs, r);
                let j = choose|j: int|
                    0 <= j < rs.len() && rs[j] == p && (#[trigger] rs[j]).0.spec_rank() == r;
                lemma_count_eq_present(rs, r, j);
            },
            None => {
                assert forall|j: int| 0 <= j < rs.len() implies (#[trigger] rs[j]).0.spec_rank()
                    != r by {
                    if rs[j].0.spec_rank() == r {
                        lemma_find_rank_present(rs, r, j);
                    }
                }
                lemma_count_eq_absent(rs, r);
            },
        }
    }
}

/// The rows for ranks of at least `r` are ordered by strictly descending
/// rank, and each row is the normalized row of one of the results.
pub proof fn lemma_rows_down_props(rs: Seq<(VmAndConfig, ResultView)>, mn: Estimate, r: int)
    ensures
        forall|k: int|
            0 <= k < rows_down(rs, mn, r).len() ==> (#[trigger] rows_down(rs, mn, r)[k]).variant.spec_rank()
                >= r,
        forall|k1: int, k2: int|
            0 <= k1 < k2 < rows_down(rs, mn, r).len() ==> (#[trigger] rows_down(rs, mn, r)[k1]).variant.spec_rank()
                > (#[trigger] rows_down(rs, mn, r)[k2]).variant.spec_rank(),
        forall|k: int|
            0 <= k < rows_down(rs, mn, r).len() ==> exists|j: int|
                0 <= j < rs.len() && (#[trigger] rows_down(rs, mn, r)[k]) == spec_row_of(
                    (#[trigger] rs[j]).0,
                    rs[j].1.estimate,
                    mn,
                ) && rs[j].0 == rows_down(rs, mn, r)[k].variant,
    decreases 16 - r,
{
    reveal(spec_row_of);
    if r >= 16 {
    } else {
        lemma_rows_down_props(rs, mn, r + 1);
        let prev = rows_down(rs, mn, r + 1);
        let cur = rows_down(rs, mn, r);
        match find_rank(rs, r) {
            Some(p) => {
                lemma_find_rank_mem(rs, r);
                let j0 = choose|j: int|
                    0 <= j < rs.len() && rs[j] == p && (#[trigger] rs[j]).0.spec_rank() == r;
                assert(cur =~= prev.push(spec_row_of(p.0, p.1.estimate, mn)));
                assert forall|k: int| 0 <= k < cur.len() implies exists|j: int|
                    0 <= j < rs.len() && (#[trigger] cur[k]) == spec_row_of(
                        (#[trigger] rs[j]).0,
                        rs[j].1.estimate,
                        mn,
                    ) && rs[j].0 == cur[k].variant by {
                    if k < prev.len() {
                        assert(cur[k] == prev[k]);
                        let j = choose|j: int|
                            0 <= j < rs.len() && (#[trigger] prev[k]) == spec_row_of(
                                (#[trigger] rs[j]).0,
                                rs[j].1.estimate,
                                mn,
                            ) && rs[j].0 == prev[k].variant;
                        assert(0 <= j < rs.len() && cur[k] == spec_row_of(
                            rs[j].0,
                            rs[j].1.estimate,
                            mn,
                        ) && rs[j].0 == cur[k].variant);
                    } else {
                        assert(cur[k] == spec_row_of(rs[j0].0, rs[j0].1.estimate, mn)
                            && rs[j0].0 == cur[k].variant);
                    }
                }
            },
            None => {
                assert(cur =~= prev);
            },
        }
    }
}

/// Every result's variant has a row among the rows for ranks of at least
/// its own rank.
pub proof fn lemma_rows_down_complete(rs: Seq<(VmAndConfig, ResultView)>, mn: Estimate, r: int)
    requires
        forall|i: int, j: int|
            0 <= i < j < rs.len() ==> (#[trigger] rs[i]).0 != (#[trigger] rs[j]).0,
    ensures
        forall|j: int|
            0 <= j < rs.len() && (#[trigger] rs[j]).0.spec_rank() >= r ==> exists|k: int|
                0 <= k < rows_down(rs, mn, r).len() && (#[trigger] rows_down(rs, mn, r)[k]).variant
                    == rs[j].0,
    decreases 16 - r,
{
    reveal(spec_row_of);
    if r >= 16 {
        assert forall|j: int|
            0 <= j < rs.len() && (#[trigger] rs[j]).0.spec_rank() >= r implies false by {
            lemma_rank_bound(rs[j].0);
        }
    } else {
        lemma_rows_down_complete(rs, mn, r + 1);
        let prev = rows_down(rs, mn, r + 1);
        let cur = rows_down(rs, mn, r);
        assert forall|j: int|
            0 <= j < rs.len() && (#[trigger] rs[j]).0.spec_rank() >= r implies exists|k: int|
                0 <= k < cur.len() && (#[trigger] cur[k]).variant == rs[j].0 by {
            if rs[j].0.spec_rank() >= r + 1 {
                let k = choose|k: int|
                    0 <= k < prev.len() && (#[trigger] prev[k]).variant == rs[j].0;
                assert(cur[k] == prev[k]);
                assert(cur[k].variant == rs[j].0);
            } else {
                lemma_find_rank_present(rs, r, j);
                let p = find_rank(rs, r)->Some_0;
                lemma_find_rank_mem(rs, r);
                let j2 = choose|j2: int|
                    0 <= j2 < rs.len() && rs[j2] == p && (#[trigger] rs[j2]).0.spec_rank() == r;
                lemma_rank_injective(rs[j].0, rs[j2].0);
                assert(cur[cur.len() - 1] == spec_row_of(p.0, p.1.estimate, mn));
                assert(cur[cur.len() - 1].variant == rs[j].0);
            }
        }
    }
}

/// Finds the first result whose variant has rank `rank`, matching
/// [`find_rank`].
fn find_by_rank(g: &BenchGroup, rank: u8) -> (r: Option<usize>)
    ensures
        match r {
            Some(i) => i < g@.results.len() && find_rank(g@.results, rank as int) == Some(
                g@.results[i as int],
            ),
            None => find_rank(g@.results, rank as int) is None,
        },
{
    let ghost rs = g@.results;
    let mut i: usize = 0;
    proof {
        assert(rs.skip(0) =~= rs);
    }
    while i < g.results.len()
        invariant
            i <= g.results.len(),
            rs == g@.results,
            rs.len() == g.results.len(),
            find_rank(rs, rank as int) == find_rank(rs.skip(i as int), rank as int),
        decreases g.results.len() - i,
    {
        proof {
            assert(rs.skip(i as int)[0] == rs[i as int]);
            assert(rs.skip(i as int).skip(1) =~= rs.skip(i + 1 as int));
        }
        if g.results[i].0.rank() == rank {
            return Some(i);
        }
        i = i + 1;
    }
    proof {
        assert(rs.skip(i as int) =~= Seq::<(VmAndConfig, ResultView)>::empty());
    }
    None
}

/// Builds the chart rows, matching [`spec_rows`]: one row per result,
/// normalized by `mn`, in descending rank order.
fn chart_rows(g: &BenchGroup, mn: Estimate) -> (rows: Vec<ChartRow>)
    requires
        g@.wf(),
        mn.wf(),
    ensures
        rows@.map_values(|row: ChartRow| row@) == spec_rows(g@.results, mn),
{
    let ghost rs = g@.results;
    let mut rows: Vec<ChartRow> = Vec::new();
    let mut r: usize = 16;
    proof {
        assert(rows@.map_values(|row: ChartRow| row@) =~= rows_down(rs, mn, 16));
    }
    while r > 0
        invariant
            r <= 16,
            g@.wf(),
            mn.wf(),
            rs == g@.results,
            rows@.map_values(|row: ChartRow| row@) == rows_down(rs, mn, r as int),
        decreases r,
    {
        let rank = (r - 1) as u8;
        let ghost old_rvs = rows@.map_values(|row: ChartRow| row@);
        match find_by_rank(g, rank) {
            Some(i) => {
                let v = g.results[i].0;
                let e = g.results[i].1.estimate;
                proof {
                    assert(rs[i as int].1.estimate.wf());
                }
                let row = make_row(v, e, mn);
                rows.push(row);
                proof {
                    assert(rows@.map_values(|row2: ChartRow| row2@) =~= old_rvs.push(row@));
                    assert(opt_row(rs, mn, rank as int) =~= seq![
                        spec_row_of(rs[i as int].0, rs[i as int].1.estimate, mn),
                    ]);
                    assert(rows@.map_values(|row2: ChartRow| row2@) =~= rows_down(
                        rs,
                        mn,
                        rank as int,
                    ));
                }
            },
            None => {
                proof {
                    assert(opt_row(rs, mn, rank as int) =~= Seq::<RowView>::empty());
                    assert(old_rvs =~= rows_down(rs, mn, rank as int));
                }
            },
        }
        r = r - 1;
    }
    rows
}

/// The view of an optional annotation.
pub open spec fn opt_str_view(o: Option<&str>) -> Option<Seq<char>> {
    match o {
        Some(t) => Some(t@),
        None => None,
    }
}

/// The chart title: `category/name`, with the annotation appended after
/// a dash when one is given.
pub open spec fn spec_title(g: GroupView, ext: Option<Seq<char>>) -> Seq<char> {
    let base = g.category.spec_token() + "/"@ + g.name;
    match ext {
        Some(t) => base + " - "@ + t,
        None => base,
    }
}

/// Where the chart artifact belongs: a path derived from the group's
/// category and name.
pub open spec fn spec_path(g: GroupView) -> Seq<char> {
    "target/wasmi-benchmarks/"@ + g.category.spec_token() + "/"@ + g.name + ".svg"@
}

/// Builds the chart title, matching [`spec_title`].
fn chart_title(ext_title: Option<&str>, g: &BenchGroup) -> (r: String)
    ensures
        r@ == spec_title(g@, opt_str_view(ext_title)),
{
    let mut t = g.category.token().to_owned();
    t.append("/");
    t.append(g.name.as_str());
    match ext_title {
        Some(ext) => {
            t.append(" - ");
            t.append(ext);
        },
        None => {
        },
    }
    t
}

/// Builds the artifact path, matching [`spec_path`].
fn chart_path(g: &BenchGroup) -> (r: String)
    ensures
        r@ == spec_path(g@),
{
    let mut p = "target/wasmi-benchmarks/".to_owned();
    p.append(g.category.token());
    p.append("/");
    p.append(g.name.as_str());
    p.append(".svg");
    p
}

/// The minimum estimate of a non-empty sequence is one of its elements
/// and no larger than any of them.
pub proof fn lemma_min_est_props(s: Seq<Estimate>)
    requires
        forall|i: int| 0 <= i < s.len() ==> (#[trigger] s[i]).den >= 1,
        s.len() > 0,
    ensures
        forall|i: int| 0 <= i < s.len() ==> spec_min_est(s).spec_le(#[trigger] s[i]),
        exists|k: int| 0 <= k < s.len() && spec_min_est(s) == s[k],
{
    assert(forall|i: int| 0 <= i < s.skip(1).len() ==> #[trigger] s.skip(1)[i] == s[i + 1]);
    lemma_min_fold_props(s.skip(1), s[0]);
    let m = spec_min_est(s);
    assert forall|i: int| 0 <= i < s.len() implies m.spec_le(#[trigger] s[i]) by {
        if i > 0 {
            assert(s.skip(1)[i - 1] == s[i]);
        }
    }
    if m == s[0] {
    } else {
        let i = choose|i: int| 0 <= i < s.skip(1).len() && m == s.skip(1)[i];
        assert(m == s[i + 1]);
    }
}

/// The maximum estimate of a non-empty sequence is one of its elements.
pub proof fn lemma_max_est_props(s: Seq<Estimate>)
    requires
        forall|i: int| 0 <= i < s.len() ==> (#[trigger] s[i]).den >= 1,
        s.len() > 0,
    ensures
        exists|k: int| 0 <= k < s.len() && spec_max_est(s) == s[k],
{
    assert(forall|i: int| 0 <= i < s.skip(1).len() ==> #[trigger] s.skip(1)[i] == s[i + 1]);
    lemma_max_fold_props(s.skip(1), s[0]);
    let m = spec_max_est(s);
    if m == s[0] {
    } else {
        let i = choose|i: int| 0 <= i < s.skip(1).len() && m == s.skip(1)[i];
        assert(m == s[i + 1]);
    }
}

/// Rows built from a group normalized by its minimum estimate: no
/// relative time is below one, and the minimum's own row is exactly one.
#[verifier::rlimit(100)]
pub proof fn lemma_rows_normalized(
    rvs: Seq<RowView>,
    rs: Seq<(VmAndConfig, ResultView)>,
    mn: Estimate,
)
    requires
        forall|i: int, j: int|
            0 <= i < j < rs.len() ==> (#[trigger] rs[i]).0 != (#[trigger] rs[j]).0,
        forall|k: int|
            0 <= k < rvs.len() ==> exists|j: int|
                0 <= j < rs.len() && (#[trigger] rvs[k]) == spec_row_of(
                    (#[trigger] rs[j]).0,
                    rs[j].1.estimate,
                    mn,
                ) && rs[j].0 == rvs[k].variant,
        forall|j: int|
            0 <= j < rs.len() && (#[trigger] rs[j]).0.spec_rank() >= 0 ==> exists|k: int|
                0 <= k < rvs.len() && (#[trigger] rvs[k]).variant == rs[j].0,
        forall|j: int| 0 <= j < rs.len() ==> mn.spec_le((#[trigger] rs[j]).1.estimate),
        rs.len() > 0 ==> exists|k: int| 0 <= k < rs.len() && (#[trigger] rs[k]).1.estimate == mn,
    ensures
        forall|i: int| 0 <= i < rvs.len() ==> (#[trigger] rvs[i]).rel_num >= rvs[i].rel_den,
        rs.len() > 0 ==> exists|i: int|
            0 <= i < rvs.len() && (#[trigger] rvs[i]).rel_num == rvs[i].rel_den,
{
    reveal(spec_row_of);
    assert forall|i: int| 0 <= i < rvs.len() implies (#[trigger] rvs[i]).rel_num >= rvs[i].rel_den by {
        let j = choose|j: int|
            0 <= j < rs.len() && (#[trigger] rvs[i]) == spec_row_of(
                (#[trigger] rs[j]).0,
                rs[j].1.estimate,
                mn,
            ) && rs[j].0 == rvs[i].variant;
        let e = rs[j].1.estimate;
        assert(mn.num * e.den == e.den * mn.num) by (nonlinear_arith);
        assert(e.num * mn.den >= e.den * mn.num);
    }
    if rs.len() > 0 {
        let k = choose|k: int| 0 <= k < rs.len() && (#[trigger] rs[k]).1.estimate == mn;
        assert(rs[k].0.spec_rank() >= 0);
        let i = choose|i: int| 0 <= i < rvs.len() && (#[trigger] rvs[i]).variant == rs[k].0;
        let j = choose|j: int|
            0 <= j < rs.len() && (#[trigger] rvs[i]) == spec_row_of(
                (#[trigger] rs[j]).0,
                rs[j].1.estimate,
                mn,
            ) && rs[j].0 == rvs[i].variant;
        if j != k {
            assert(rs[j].0 != rs[k].0);
            assert(false);
        }
        assert(rvs[i].rel_num == mn.num * mn.den);
        assert(rvs[i].rel_den == mn.den * mn.num);
        assert(mn.num * mn.den == mn.den * mn.num) by (nonlinear_arith);
    }
}

/// Builds the complete chart data of one finished group.
///
/// The rows hold every result once, ordered by strictly descending
/// variant rank — the inverse of the variant ordering, independent of
/// arrival order (see [`lemma_rows_down_props`] and
/// [`lemma_rows_down_complete`]).  Each row's relative time `rel_num /
/// rel_den` is the exact quotient of its estimate by the group's fastest
/// estimate: no relative time is below one, and some row — the fastest —
/// has relative time exactly one.  An empty group yields a degenerate
/// chart with no rows and a ceiling of one decade.
#[verifier::rlimit(100)]
pub fn chart_spec(ext_title: Option<&str>, g: &BenchGroup) -> (r: ChartSpec)
    requires
        g@.wf(),
    ensures
        ({
            let rvs = r@.rows;
            let rs = g@.results;
            let mn = spec_min_est(estimates_of(rs));
            let mx = spec_max_est(estimates_of(rs));
            &&& r@.title == spec_title(g@, opt_str_view(ext_title))
            &&& r@.path == spec_path(g@)
            &&& r@.height == 155 + 50 * rs.len()
            &&& (r@.ceiling_num, r@.ceiling_den) == spec_ceiling(mn, mx)
            &&& rvs == spec_rows(rs, mn)
            &&& rvs.len() == rs.len()
            &&& forall|i: int| 0 <= i < rvs.len() ==> (#[trigger] rvs[i]).rel_num >= rvs[i].rel_den
            &&& rs.len() > 0 ==> exists|i: int|
                0 <= i < rvs.len() && (#[trigger] rvs[i]).rel_num == rvs[i].rel_den
        }),
{
    let ghost rs = g@.results;
    let ghost est = estimates_of(rs);
    proof {
        assert(est.len() == rs.len());
        assert forall|i: int| 0 <= i < est.len() implies (#[trigger] est[i]).wf() && est[i].den
            >= 1 by {
            assert(est[i] == rs[i].1.estimate);
            lemma_wf_den_positive(est[i]);
        }
        assert(pow10(0) == 1);
        assert((Estimate { num: 1, den: 1 }).wf());
        if est.len() > 0 {
            lemma_min_est_props(est);
            lemma_max_est_props(est);
            let k = choose|k: int| 0 <= k < est.len() && spec_min_est(est) == est[k];
            assert(est[k] == rs[k].1.estimate);
            let k2 = choose|k2: int| 0 <= k2 < est.len() && spec_max_est(est) == est[k2];
            assert(est[k2] == rs[k2].1.estimate);
        }
    }
    let mn = min_estimate(g);
    let mx = max_estimate(g);
    let rows = chart_rows(g, mn);
    proof {
        lemma_group_len_le_16(g@);
        lemma_rows_down_len(rs, mn, 0);
        lemma_count_ge_all(rs);
    }
    let height: u32 = 155 + 50 * (g.results.len() as u32);
    let (ceiling_num, ceiling_den) = scale_ceiling(mn, mx);
    let title = chart_title(ext_title, g);
    let path = chart_path(g);
    let spec = ChartSpec { title, path, height, ceiling_num, ceiling_den, rows };
    proof {
        assert(spec@.rows =~= rows@.map_values(|row: ChartRow| row@));
        lemma_rows_down_props(rs, mn, 0);
        lemma_rows_down_complete(rs, mn, 0);
        assert forall|j: int| 0 <= j < rs.len() implies mn.spec_le(
            (#[trigger] rs[j]).1.estimate,
        ) by {
            assert(est[j] == rs[j].1.estimate);
        }
        if rs.len() > 0 {
            let k = choose|k: int| 0 <= k < est.len() && spec_min_est(est) == est[k];
            assert(rs[k].1.estimate == mn);
        }
        lemma_rows_normalized(spec@.rows, rs, mn);
    }
    spec
}

} // verus!
