//! The group accumulator: at most one group of measurements is open at a
//! time; measurements fold into it under consistency checks, and a flush
//! hands the finished group out and returns to the idle state.

use vstd::prelude::*;

use crate::errors::FatalError;
use crate::estimate::Estimate;
use crate::ident::BenchCategory;
use crate::ident::BenchIdentifier;
use crate::ident::IdentView;
use crate::ident::VmAndConfig;
use crate::strutil::str_eq;

verus! {

/// One benchmark outcome: a scalar estimate in a reported unit.
#[derive(Debug, Clone, PartialEq, Eq)]
pub struct BenchResult {
    pub estimate: Estimate,
    pub unit: String,
}

/// The mathematical value of a [`BenchResult`].
pub ghost struct ResultView {
    pub estimate: Estimate,
    pub unit: Seq<char>,
}

impl View for BenchResult {
    type V = ResultView;

    open spec fn view(&self) -> ResultView {
        ResultView { estimate: self.estimate, unit: self.unit@ }
    }
}

/// One decoded measurement: the compound identifier plus its outcome.
#[derive(Debug, Clone, PartialEq, Eq)]
pub struct Measurement {
    pub id: BenchIdentifier,
    pub estimate: Estimate,
    pub unit: String,
}

/// The mathematical value of a [`Measurement`].
pub ghost struct MeasurementView {
    pub id: IdentView,
    pub estimate: Estimate,
    pub unit: Seq<char>,
}

impl View for Measurement {
    type V = MeasurementView;

    open spec fn view(&self) -> MeasurementView {
        MeasurementView { id: self.id@, estimate: self.estimate, unit: self.unit@ }
    }
}

/// The unit of comparison: all measurements of one `(category, name,
/// input)` key, one result per runtime variant.
#[derive(Debug, Clone, PartialEq, Eq)]
pub struct BenchGroup {
    pub category: BenchCategory,
    pub name: String,
    pub input: Option<i64>,
    pub results: Vec<(VmAndConfig, BenchResult)>,
}

/// The mathematical value of a [`BenchGroup`].
pub ghost struct GroupView {
    pub category: BenchCategory,
    pub name: Seq<char>,
    pub input: Option<i64>,
    pub results: Seq<(VmAndConfig, ResultView)>,
}

impl View for BenchGroup {
    type V = GroupView;

    open spec fn view(&self) -> GroupView {
        GroupView {
            category: self.category,
            name: self.name@,
            input: self.input,
            results: self.results@.map_values(|p: (VmAndConfig, BenchResult)| (p.0, p.1@)),
        }
    }
}

impl GroupView {
    /// Group consistency: each variant reports at most once, and every
    /// estimate is well-formed.
    pub open spec fn wf(self) -> bool {
        &&& forall|i: int, j: int|
            0 <= i < j < self.results.len() ==> (#[trigger] self.results[i]).0 != (
            #[trigger] self.results[j]).0
        &&& forall|i: int|
            0 <= i < self.results.len() ==> (#[trigger] self.results[i]).1.estimate.wf()
    }

    /// Whether the group already holds a result for `v`.
    pub open spec fn has_variant(self, v: VmAndConfig) -> bool {
        exists|i: int| 0 <= i < self.results.len() && (#[trigger] self.results[i]).0 == v
    }

    /// Whether a measurement with identifier `id` belongs to this group.
    pub open spec fn key_matches(self, id: IdentView) -> bool {
        &&& self.category == id.category
        &&& self.name == id.name
        &&& self.input == id.input
    }
}

/// The accumulator state: idle, or one open group.
#[derive(Debug)]
pub enum Accumulator {
    Idle,
    Open(BenchGroup),
}

/// The mathematical value of an [`Accumulator`].
pub ghost enum AccView {
    Idle,
    Open(GroupView),
}

impl View for Accumulator {
    type V = AccView;

    open spec fn view(&self) -> AccView {
        match self {
            Accumulator::Idle => AccView::Idle,
            Accumulator::Open(g) => AccView::Open(g@),
        }
    }
}

impl AccView {
    /// Accumulator consistency: an open group is consistent.
    pub open spec fn wf(self) -> bool {
        match self {
            AccView::Idle => true,
            AccView::Open(g) => g.wf(),
        }
    }
}

/// The group a measurement opens when none is open.
pub open spec fn spec_group_of(m: MeasurementView) -> GroupView {
    GroupView {
        category: m.id.category,
        name: m.id.name,
        input: m.id.input,
        results: seq![(m.id.variant, ResultView { estimate: m.estimate, unit: m.unit })],
    }
}

/// The accumulator transition on a measurement: open a new group when
/// idle; otherwise the measurement must match the open group's key and
/// bring a variant the group does not hold yet.
pub open spec fn spec_feed(acc: AccView, m: MeasurementView) -> Result<AccView, FatalError> {
    match acc {
        AccView::Idle => Ok(AccView::Open(spec_group_of(m))),
        AccView::Open(g) => if !g.key_matches(m.id) {
            Err(FatalError::InconsistentGroup)
        } else if g.has_variant(m.id.variant) {
            Err(FatalError::DuplicateVariant)
        } else {
            Ok(
                AccView::Open(
                    GroupView {
                        results: g.results.push(
                            (m.id.variant, ResultView { estimate: m.estimate, unit: m.unit }),
                        ),
                        ..g
                    },
                ),
            )
        },
    }
}

/// The view of a feed result, for stating contracts.
pub open spec fn feed_result_view(r: Result<Accumulator, FatalError>) -> Result<
    AccView,
    FatalError,
> {
    match r {
        Ok(acc) => Ok(acc@),
        Err(e) => Err(e),
    }
}

impl Accumulator {
    /// Folds one measurement into the accumulator, exactly as
    /// [`spec_feed`] says; a consistency violation is a fatal error.
    pub fn feed_measurement(self, m: Measurement) -> (r: Result<Accumulator, FatalError>)
        ensures
            feed_result_view(r) == spec_feed(self@, m@),
    {
        match self {
            Accumulator::Idle => {
                let results = vec![(m.id.variant, BenchResult { estimate: m.estimate, unit: m.unit })];
                proof {
                    assert(results@.map_values(|p: (VmAndConfig, BenchResult)| (p.0, p.1@))
                        =~= spec_group_of(m@).results);
                }
                Ok(
                    Accumulator::Open(
                        BenchGroup {
                            category: m.id.category,
                            name: m.id.name,
                            input: m.id.input,
                            results,
                        },
                    ),
                )
            },
            Accumulator::Open(mut g) => {
                let key_ok = g.category == m.id.category && str_eq(g.name.as_str(), m.id.name.as_str())
                    && opt_i64_eq(&g.input, &m.id.input);
                if !key_ok {
                    return Err(FatalError::InconsistentGroup);
                }
                if group_has_variant(&g, m.id.variant) {
                    return Err(FatalError::DuplicateVariant);
                }
                let ghost old_g = g@;
                g.results.push((m.id.variant, BenchResult { estimate: m.estimate, unit: m.unit }));
                proof {
                    assert(g@.results =~= old_g.results.push(
                        (m@.id.variant, ResultView { estimate: m@.estimate, unit: m@.unit }),
                    ));
                }
                Ok(Accumulator::Open(g))
            },
        }
    }

    /// Flushes the accumulator: the open group, if any, is handed out and
    /// the accumulator returns to idle.  Flushing while idle is a no-op.
    pub fn feed_flush(self) -> (r: (Accumulator, Option<BenchGroup>))
        ensures
            r.0@ == AccView::Idle,
            match self@ {
                AccView::Open(g) => r.1 matches Some(out) && out@ == g,
                AccView::Idle => r.1 is None,
            },
    {
        match self {
            Accumulator::Idle => (Accumulator::Idle, None),
            Accumulator::Open(g) => (Accumulator::Idle, Some(g)),
        }
    }
}

impl BenchGroup {
    /// Tests group consistency, for callers outside verified code: no
    /// variant twice, every estimate well-formed.
    pub fn is_consistent(&self) -> (r: bool)
        ensures
            r == self@.wf(),
    {
        let n = self.results.len();
        let mut i: usize = 0;
        while i < n
            invariant
                i <= n,
                n == self@.results.len(),
                self@.results.len() == self.results.len(),
                forall|a: int, b: int|
                    0 <= a < b < self@.results.len() && a < i ==> (#[trigger] self@.results[a]).0
                        != (#[trigger] self@.results[b]).0,
                forall|a: int|
                    0 <= a < i ==> (#[trigger] self@.results[a]).1.estimate.wf(),
            decreases n - i,
        {
            if !self.results[i].1.estimate.is_wf() {
                proof {
                    assert(!self@.results[i as int].1.estimate.wf());
                }
                return false;
            }
            let mut j: usize = i + 1;
            while j < n
                invariant
                    i < j <= n,
                    n == self@.results.len(),
                    self@.results.len() == self.results.len(),
                    forall|b: int|
                        i < b < j ==> (#[trigger] self@.results[b]).0 != self@.results[i as int].0,
                decreases n - j,
            {
                if self.results[j].0 == self.results[i].0 {
                    proof {
                        assert(self@.results[j as int].0 == self@.results[i as int].0);
                    }
                    return false;
                }
                j = j + 1;
            }
            i = i + 1;
        }
        true
    }
}

/// True exactly when the group already holds a result for `v`.
pub fn group_has_variant(g: &BenchGroup, v: VmAndConfig) -> (r: bool)
    ensures
        r == g@.has_variant(v),
{
    let mut i: usize = 0;
    while i < g.results.len()
        invariant
            i <= g.results.len(),
            forall|j: int| 0 <= j < i ==> (#[trigger] g@.results[j]).0 != v,
        decreases g.results.len() - i,
    {
        if g.results[i].0 == v {
            proof {
                assert(g@.results[i as int].0 == v);
            }
            return true;
        }
        i = i + 1;
    }
    false
}

/// True exactly when the two optional integers are equal.
pub fn opt_i64_eq(a: &Option<i64>, b: &Option<i64>) -> (r: bool)
    ensures
        r == (a == b),
{
    match (a, b) {
        (None, None) => true,
        (Some(x), Some(y)) => x == y,
        _ => false,
    }
}

/// Feeding a measurement whose key differs from the open group's key is
/// the inconsistent-group error.
pub proof fn lemma_feed_inconsistent(g: GroupView, m: MeasurementView)
    requires
        !g.key_matches(m.id),
    ensures
        spec_feed(AccView::Open(g), m) == Err::<AccView, FatalError>(FatalError::InconsistentGroup),
{
}

/// Feeding a measurement whose variant the open group already holds is
/// the duplicate-variant error.
pub proof fn lemma_feed_duplicate(g: GroupView, m: MeasurementView)
    requires
        g.key_matches(m.id),
        g.has_variant(m.id.variant),
    ensures
        spec_feed(AccView::Open(g), m) == Err::<AccView, FatalError>(FatalError::DuplicateVariant),
{
}

/// Every transition preserves group consistency.
pub proof fn lemma_feed_preserves_wf(acc: AccView, m: MeasurementView)
    requires
        acc.wf(),
        m.estimate.wf(),
        spec_feed(acc, m) is Ok,
    ensures
        spec_feed(acc, m)->Ok_0.wf(),
{
    match acc {
        AccView::Idle => {
        },
        AccView::Open(g) => {
            if g.key_matches(m.id) && !g.has_variant(m.id.variant) {
                let rs = spec_feed(acc, m)->Ok_0->Open_0.results;
                assert forall|i: int, j: int| 0 <= i < j < rs.len() implies (#[trigger] rs[i]).0
                    != (#[trigger] rs[j]).0 by {
                    if j < rs.len() - 1 {
                        assert(g.results[i].0 != g.results[j].0);
                    } else {
                        assert(rs[i].0 == g.results[i].0);
                    }
                }
            }
        },
    }
}

} // verus!
