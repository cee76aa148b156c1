//! The privacy accountant: usage arithmetic, broadcasting, graph sums
//! and the budget check.
//!
//! Usages form an additive monoid per distance metric; the supported
//! metric is approximate DP, a fixed-point `(epsilon, delta)` pair.
//! All arithmetic is checked: an undefined distance, a negative
//! component or an overflow is an error, never a wrapped value.

use vstd::prelude::*;
use crate::base::{DistanceApproximate, PrivacyDefinition, PrivacyUsage};
use crate::component::{Component, ComponentV, Release, ReleaseNodeV, VariantV, Variant};
use crate::errors::{Error, ErrorKind};
use crate::maps::{id_map_of, IdMap};
use crate::props::ValueProperties;

verus! {

impl PrivacyUsage {
    /// Whether the distance is defined.
    pub open spec fn defined(self) -> bool {
        self.distance is Some
    }

    /// Fixed-point epsilon, as a mathematical integer.
    pub open spec fn eps(self) -> int {
        self.distance->0.epsilon as int
    }

    /// Fixed-point delta, as a mathematical integer.
    pub open spec fn del(self) -> int {
        self.distance->0.delta as int
    }

    /// A defined usage with non-negative components.
    pub open spec fn valid(self) -> bool {
        self.defined() && self.eps() >= 0 && self.del() >= 0
    }

    /// The neutral element of composition.
    pub fn zero() -> (r: PrivacyUsage)
        ensures
            r.distance == Some(DistanceApproximate { epsilon: 0i64, delta: 0i64 }),
            r.valid(),
    {
        PrivacyUsage { distance: Some(DistanceApproximate { epsilon: 0, delta: 0 }) }
    }

    /// Composes two usages componentwise (basic composition).  The
    /// arithmetic is checked rather than silent: an undefined distance,
    /// an overflow, or a negative component is an error.  Refusing
    /// negative components is a deliberate tightening: a negative
    /// epsilon or delta has no meaning as a privacy cost, and admitting
    /// one would break the monotonicity of graph sums.
    pub fn add(self, rhs: PrivacyUsage) -> (r: Result<PrivacyUsage, Error>)
        ensures
            match r {
                Ok(u) => {
                    &&& self.valid() && rhs.valid()
                    &&& self.eps() + rhs.eps() <= i64::MAX
                    &&& self.del() + rhs.del() <= i64::MAX
                    &&& u.distance == Some(
                        DistanceApproximate {
                            epsilon: (self.eps() + rhs.eps()) as i64,
                            delta: (self.del() + rhs.del()) as i64,
                        },
                    )
                },
                Err(e) => {
                    &&& !(self.valid() && rhs.valid() && self.eps() + rhs.eps() <= i64::MAX
                        && self.del() + rhs.del() <= i64::MAX)
                    &&& (e.kind is UsageUndefined <==> !(self.defined() && rhs.defined()))
                    &&& (e.kind is UsageUndefined || e.kind is InvariantViolation)
                },
            },
    {
        let (a, b) = match (self.distance, rhs.distance) {
            (Some(a), Some(b)) => (a, b),
            _ => {
                return Err(Error::new(ErrorKind::UsageUndefined));
            },
        };
        if a.epsilon < 0 || a.delta < 0 || b.epsilon < 0 || b.delta < 0 {
            return Err(
                Error::new(
                    ErrorKind::InvariantViolation(
                        String::from_str("privacy usage components must not be negative"),
                    ),
                ),
            );
        }
        if a.epsilon > i64::MAX - b.epsilon || a.delta > i64::MAX - b.delta {
            return Err(
                Error::new(
                    ErrorKind::InvariantViolation(String::from_str("privacy usage overflow")),
                ),
            );
        }
        Ok(
            PrivacyUsage {
                distance: Some(
                    DistanceApproximate {
                        epsilon: a.epsilon + b.epsilon,
                        delta: a.delta + b.delta,
                    },
                ),
            },
        )
    }

    /// Scales a usage up componentwise; checked, and negative
    /// components or scales are refused, as in composition.
    pub fn mul(self, rhs: i64) -> (r: Result<PrivacyUsage, Error>)
        ensures
            match r {
                Ok(u) => {
                    &&& self.valid() && rhs >= 0
                    &&& self.eps() * rhs <= i64::MAX
                    &&& self.del() * rhs <= i64::MAX
                    &&& u.distance == Some(
                        DistanceApproximate {
                            epsilon: (self.eps() * rhs) as i64,
                            delta: (self.del() * rhs) as i64,
                        },
                    )
                },
                Err(e) => !(self.valid() && rhs >= 0 && self.eps() * rhs <= i64::MAX && self.del()
                    * rhs <= i64::MAX),
            },
    {
        let a = match self.distance {
            Some(a) => a,
            None => {
                return Err(Error::new(ErrorKind::UsageUndefined));
            },
        };
        if a.epsilon < 0 || a.delta < 0 || rhs < 0 {
            return Err(
                Error::new(
                    ErrorKind::InvariantViolation(
                        String::from_str("privacy usage scale must not be negative"),
                    ),
                ),
            );
        }
        let pe = match (a.epsilon as u64).checked_mul(rhs as u64) {
            Some(p) => p,
            None => {
                return Err(
                    Error::new(
                        ErrorKind::InvariantViolation(String::from_str("privacy usage overflow")),
                    ),
                );
            },
        };
        let pd = match (a.delta as u64).checked_mul(rhs as u64) {
            Some(p) => p,
            None => {
                return Err(
                    Error::new(
                        ErrorKind::InvariantViolation(String::from_str("privacy usage overflow")),
                    ),
                );
            },
        };
        if pe > i64::MAX as u64 || pd > i64::MAX as u64 {
            return Err(
                Error::new(
                    ErrorKind::InvariantViolation(String::from_str("privacy usage overflow")),
                ),
            );
        }
        Ok(
            PrivacyUsage {
                distance: Some(
                    DistanceApproximate { epsilon: pe as i64, delta: pd as i64 },
                ),
            },
        )
    }

    /// Scales a usage down componentwise, truncating; checked, and
    /// negative components or non-positive scales are refused.
    pub fn div(self, rhs: i64) -> (r: Result<PrivacyUsage, Error>)
        ensures
            match r {
                Ok(u) => {
                    &&& self.valid() && rhs > 0
                    &&& u.distance == Some(
                        DistanceApproximate {
                            epsilon: (self.eps() / rhs as int) as i64,
                            delta: (self.del() / rhs as int) as i64,
                        },
                    )
                },
                Err(e) => !(self.valid() && rhs > 0),
            },
    {
        let a = match self.distance {
            Some(a) => a,
            None => {
                return Err(Error::new(ErrorKind::UsageUndefined));
            },
        };
        if a.epsilon < 0 || a.delta < 0 || rhs <= 0 {
            return Err(
                Error::new(
                    ErrorKind::InvariantViolation(
                        String::from_str("privacy usage scale must be positive"),
                    ),
                ),
            );
        }
        Ok(
            PrivacyUsage {
                distance: Some(
                    DistanceApproximate { epsilon: a.epsilon / rhs, delta: a.delta / rhs },
                ),
            },
        )
    }
}

/// Every usage in the list is defined.
pub open spec fn all_defined(s: Seq<PrivacyUsage>) -> bool {
    forall|i: int| 0 <= i < s.len() ==> (#[trigger] s[i]).defined()
}

/// Every usage in the list is defined with non-negative components.
pub open spec fn all_valid(s: Seq<PrivacyUsage>) -> bool {
    forall|i: int| 0 <= i < s.len() ==> (#[trigger] s[i]).valid()
}

/// Sum of the epsilons of a usage list.
pub open spec fn sum_eps(s: Seq<PrivacyUsage>) -> int
    decreases s.len(),
{
    if s.len() == 0 {
        0
    } else {
        sum_eps(s.drop_last()) + s.last().eps()
    }
}

/// Sum of the deltas of a usage list.
pub open spec fn sum_del(s: Seq<PrivacyUsage>) -> int
    decreases s.len(),
{
    if s.len() == 0 {
        0
    } else {
        sum_del(s.drop_last()) + s.last().del()
    }
}

/// The usages one node contributes: nothing unless it is a mechanism;
/// the usage recorded in the release when there is one, else the
/// mechanism's declared maximum.
pub open spec fn effective_usages(c: ComponentV, rel: Option<ReleaseNodeV>) -> Seq<PrivacyUsage> {
    if !c.variant.is_mechanism() {
        Seq::empty()
    } else {
        match rel {
            Some(rn) => match rn.privacy_usages {
                Some(us) => us,
                None => c.variant->LaplaceMechanism_privacy_usage,
            },
            None => c.variant->LaplaceMechanism_privacy_usage,
        }
    }
}

/// What the release holds for a node, if anything.
pub open spec fn release_at(release: Map<u32, ReleaseNodeV>, id: u32) -> Option<ReleaseNodeV> {
    if release.dom().contains(id) {
        Some(release[id])
    } else {
        None
    }
}

/// Total fixed-point epsilon over the graph's mechanisms.
pub open spec fn graph_eps(entries: Seq<(u32, ComponentV)>, release: Map<u32, ReleaseNodeV>) -> int
    decreases entries.len(),
{
    if entries.len() == 0 {
        0
    } else {
        graph_eps(entries.drop_last(), release) + sum_eps(
            effective_usages(entries.last().1, release_at(release, entries.last().0)),
        )
    }
}

/// Total fixed-point delta over the graph's mechanisms.
pub open spec fn graph_del(entries: Seq<(u32, ComponentV)>, release: Map<u32, ReleaseNodeV>) -> int
    decreases entries.len(),
{
    if entries.len() == 0 {
        0
    } else {
        graph_del(entries.drop_last(), release) + sum_del(
            effective_usages(entries.last().1, release_at(release, entries.last().0)),
        )
    }
}

/// Every mechanism usage in the graph is defined and non-negative.
pub open spec fn graph_valid(
    entries: Seq<(u32, ComponentV)>,
    release: Map<u32, ReleaseNodeV>,
) -> bool {
    forall|i: int| 0 <= i < entries.len() ==> all_valid(
        effective_usages((#[trigger] entries[i]).1, release_at(release, entries[i].0)),
    )
}


pub proof fn lemma_sum_take_succ(s: Seq<PrivacyUsage>, i: int)
    requires
        0 <= i < s.len(),
    ensures
        sum_eps(s.take(i + 1)) == sum_eps(s.take(i)) + s[i].eps(),
        sum_del(s.take(i + 1)) == sum_del(s.take(i)) + s[i].del(),
{
    assert(s.take(i + 1).drop_last() =~= s.take(i));
    assert(s.take(i + 1).last() == s[i]);
}

/// Under validity, partial sums are non-negative and below the total.
pub proof fn lemma_sum_prefix_le(s: Seq<PrivacyUsage>, i: int)
    requires
        all_valid(s),
        0 <= i <= s.len(),
    ensures
        0 <= sum_eps(s.take(i)) <= sum_eps(s),
        0 <= sum_del(s.take(i)) <= sum_del(s),
    decreases s.len(),
{
    reveal_with_fuel(sum_eps, 2);
    reveal_with_fuel(sum_del, 2);
    if s.len() == 0 {
        assert(s.take(i) =~= s);
    } else {
        let sd = s.drop_last();
        assert(all_valid(sd));
        lemma_sum_prefix_le(sd, if i <= sd.len() { i } else { sd.len() as int });
        if i <= sd.len() {
            assert(s.take(i) =~= sd.take(i));
        } else {
            assert(s.take(i) =~= s);
            lemma_sum_prefix_le(sd, sd.len() as int);
            assert(sd.take(sd.len() as int) =~= sd);
        }
        assert(s.last().valid());
    }
}

pub proof fn lemma_graph_take_succ(
    entries: Seq<(u32, ComponentV)>,
    release: Map<u32, ReleaseNodeV>,
    i: int,
)
    requires
        0 <= i < entries.len(),
    ensures
        graph_eps(entries.take(i + 1), release) == graph_eps(entries.take(i), release) + sum_eps(
            effective_usages(entries[i].1, release_at(release, entries[i].0)),
        ),
        graph_del(entries.take(i + 1), release) == graph_del(entries.take(i), release) + sum_del(
            effective_usages(entries[i].1, release_at(release, entries[i].0)),
        ),
{
    assert(entries.take(i + 1).drop_last() =~= entries.take(i));
    assert(entries.take(i + 1).last() == entries[i]);
}

/// Under validity, partial graph sums are non-negative and below the
/// total.
pub proof fn lemma_graph_prefix_le(
    entries: Seq<(u32, ComponentV)>,
    release: Map<u32, ReleaseNodeV>,
    i: int,
)
    requires
        graph_valid(entries, release),
        0 <= i <= entries.len(),
    ensures
        0 <= graph_eps(entries.take(i), release) <= graph_eps(entries, release),
        0 <= graph_del(entries.take(i), release) <= graph_del(entries, release),
    decreases entries.len(),
{
    reveal_with_fuel(graph_eps, 2);
    reveal_with_fuel(graph_del, 2);
    if entries.len() == 0 {
        assert(entries.take(i) =~= entries);
    } else {
        let sd = entries.drop_last();
        assert forall|j: int| 0 <= j < sd.len() implies all_valid(
            effective_usages((#[trigger] sd[j]).1, release_at(release, sd[j].0)),
        ) by {
            assert(sd[j] == entries[j]);
        }
        if i <= sd.len() {
            lemma_graph_prefix_le(sd, release, i);
            assert(entries.take(i) =~= sd.take(i));
        } else {
            assert(entries.take(i) =~= entries);
            lemma_graph_prefix_le(sd, release, sd.len() as int);
            assert(sd.take(sd.len() as int) =~= sd);
        }
        let lastu = effective_usages(entries.last().1, release_at(release, entries.last().0));
        assert(all_valid(lastu));
        lemma_sum_prefix_le(lastu, lastu.len() as int);
        assert(lastu.take(lastu.len() as int) =~= lastu);
    }
}

/// Sums a list of usages onto an accumulator.
pub fn sum_usage_list(usages: &Vec<PrivacyUsage>, start: PrivacyUsage) -> (r: Result<
    PrivacyUsage,
    Error,
>)
    requires
        start.valid(),
    ensures
        match r {
            Ok(u) => {
                &&& all_valid(usages.deep_view())
                &&& start.eps() + sum_eps(usages.deep_view()) <= i64::MAX
                &&& start.del() + sum_del(usages.deep_view()) <= i64::MAX
                &&& u.distance == Some(
                    DistanceApproximate {
                        epsilon: (start.eps() + sum_eps(usages.deep_view())) as i64,
                        delta: (start.del() + sum_del(usages.deep_view())) as i64,
                    },
                )
            },
            Err(e) => !(all_valid(usages.deep_view()) && start.eps() + sum_eps(usages.deep_view())
                <= i64::MAX && start.del() + sum_del(usages.deep_view()) <= i64::MAX) && (
            e.kind is UsageUndefined || e.kind is InvariantViolation),
        },
{
    let ghost s = usages.deep_view();
    proof {
        assert(s =~= usages@);
        assert(s.take(0) =~= Seq::<PrivacyUsage>::empty());
    }
    let mut acc = start;
    let mut i: usize = 0;
    while i < usages.len()
        invariant
            0 <= i <= s.len(),
            s == usages.deep_view(),
            s =~= usages@,
            start.valid(),
            all_valid(s.take(i as int)),
            acc.valid(),
            acc.eps() == start.eps() + sum_eps(s.take(i as int)),
            acc.del() == start.del() + sum_del(s.take(i as int)),
        decreases s.len() - i,
    {
        let u = usages[i];
        proof {
            lemma_sum_take_succ(s, i as int);
        }
        acc = match acc.add(u) {
            Ok(a) => a,
            Err(e) => {
                proof {
                    if all_valid(s) && start.eps() + sum_eps(s) <= i64::MAX && start.del()
                        + sum_del(s) <= i64::MAX {
                        lemma_sum_prefix_le(s, i as int + 1);
                    }
                }
                return Err(e);
            },
        };
        proof {
            assert forall|j: int| 0 <= j < i + 1 implies (#[trigger] s.take(i as int + 1)[j]).valid() by {
                if j < i {
                    assert(s.take(i as int)[j].valid());
                }
            }
        }
        i = i + 1;
    }
    proof {
        assert(s.take(i as int) =~= s);
    }
    Ok(acc)
}

/// Replicates a single usage to `length` columns, or passes a
/// per-column list through; any other arity is an error.
pub fn broadcast_privacy_usage(usages: &Vec<PrivacyUsage>, length: usize) -> (r: Result<
    Vec<PrivacyUsage>,
    Error,
>)
    ensures
        match r {
            Ok(out) => {
                &&& (usages@.len() == 1 || usages@.len() == length)
                &&& out@.len() == length
                &&& usages@.len() == 1 ==> forall|i: int|
                    0 <= i < length ==> out@[i] == usages@[0]
                &&& usages@.len() == length ==> out@ == usages@
            },
            Err(e) => !(usages@.len() == 1 || usages@.len() == length) && e.kind is Arity,
        },
{
    if usages.len() == length {
        Ok(crate::component::clone_usages(usages))
    } else if usages.len() == 1 {
        let u = usages[0];
        let mut out: Vec<PrivacyUsage> = Vec::new();
        let mut i: usize = 0;
        while i < length
            invariant
                i <= length,
                out@.len() == i,
                forall|j: int| 0 <= j < i ==> out@[j] == u,
            decreases length - i,
        {
            out.push(u);
            i = i + 1;
        }
        Ok(out)
    } else {
        Err(Error::new(ErrorKind::Arity))
    }
}

/// Checks a summed usage against a budget.  Exceeding the budget is an
/// error under `strict`, otherwise a warning.
pub fn privacy_usage_check(usage: &PrivacyUsage, budget: Option<&PrivacyUsage>, strict: bool) -> (r:
    Result<Vec<Error>, Error>)
    ensures
        match r {
            Ok(warnings) => {
                &&& usage.defined()
                &&& (match budget {
                    Some(b) => b.defined() && ((usage.eps() > b.eps() || usage.del() > b.del())
                        ==> !strict),
                    None => true,
                })
                &&& warnings@.len() > 0 <==> (match budget {
                    Some(b) => usage.eps() > b.eps() || usage.del() > b.del(),
                    None => false,
                })
                &&& forall|i: int|
                    0 <= i < warnings@.len() ==> (#[trigger] warnings@[i]).kind is BudgetExceeded
            },
            Err(e) => {
                &&& (e.kind is UsageUndefined <==> (!usage.defined() || (budget is Some
                    && !budget->0.defined())))
                &&& (e.kind is BudgetExceeded ==> strict && budget is Some && (usage.eps()
                    > budget->0.eps() || usage.del() > budget->0.del()))
                &&& (e.kind is UsageUndefined || e.kind is BudgetExceeded)
            },
        },
{
    let u = match usage.distance {
        Some(u) => u,
        None => {
            return Err(Error::new(ErrorKind::UsageUndefined));
        },
    };
    match budget {
        Some(b) => {
            let bd = match b.distance {
                Some(bd) => bd,
                None => {
                    return Err(Error::new(ErrorKind::UsageUndefined));
                },
            };
            if u.epsilon > bd.epsilon || u.delta > bd.delta {
                if strict {
                    Err(Error::new(ErrorKind::BudgetExceeded))
                } else {
                    let mut warnings: Vec<Error> = Vec::new();
                    warnings.push(Error::new(ErrorKind::BudgetExceeded));
                    Ok(warnings)
                }
            } else {
                Ok(Vec::new())
            }
        },
        None => Ok(Vec::new()),
    }
}


/// Sums the usages of every mechanism node of a graph.  A usage
/// recorded in the release takes precedence over the declared maximum.
pub fn compute_graph_privacy_usage(
    graph: &IdMap<Component>,
    privacy_definition: &PrivacyDefinition,
    properties: &IdMap<ValueProperties>,
    release: &Release,
) -> (r: Result<PrivacyUsage, Error>)
    requires
        graph.wf(),
        release.wf(),
    ensures
        match r {
            Ok(u) => {
                &&& graph_valid(graph.deep_view(), id_map_of(release.deep_view()))
                &&& graph_eps(graph.deep_view(), id_map_of(release.deep_view())) <= i64::MAX
                &&& graph_del(graph.deep_view(), id_map_of(release.deep_view())) <= i64::MAX
                &&& u.distance == Some(
                    DistanceApproximate {
                        epsilon: graph_eps(
                            graph.deep_view(),
                            id_map_of(release.deep_view()),
                        ) as i64,
                        delta: graph_del(graph.deep_view(), id_map_of(release.deep_view())) as i64,
                    },
                )
            },
            Err(e) => !(graph_valid(graph.deep_view(), id_map_of(release.deep_view())) && graph_eps(
                graph.deep_view(),
                id_map_of(release.deep_view()),
            ) <= i64::MAX && graph_del(graph.deep_view(), id_map_of(release.deep_view()))
                <= i64::MAX) && (e.kind is UsageUndefined || e.kind is InvariantViolation),
        },
{
    let ghost dv = graph.deep_view();
    let ghost relmap = id_map_of(release.deep_view());
    proof {
        assert(dv.take(0) =~= Seq::<(u32, ComponentV)>::empty());
    }
    let mut acc = PrivacyUsage::zero();
    let mut i: usize = 0;
    while i < graph.entries.len()
        invariant
            0 <= i <= dv.len(),
            graph.wf(),
            release.wf(),
            dv == graph.deep_view(),
            relmap == id_map_of(release.deep_view()),
            graph.entries@.len() == dv.len(),
            acc.valid(),
            graph_valid(dv.take(i as int), relmap),
            acc.eps() == graph_eps(dv.take(i as int), relmap),
            acc.del() == graph_del(dv.take(i as int), relmap),
        decreases dv.len() - i,
    {
        let id = graph.entries[i].0;
        proof {
            assert(dv[i as int] == graph.entries@[i as int].deep_view());
            lemma_graph_take_succ(dv, relmap, i as int);
        }
        let ghost eff = effective_usages(dv[i as int].1, release_at(relmap, id));
        match &graph.entries[i].1.variant {
            Variant::LaplaceMechanism { privacy_usage } => {
                let declared_or_actual: &Vec<PrivacyUsage> = match release.get(id) {
                    Some(rn) => match &rn.privacy_usages {
                        Some(us) => us,
                        None => privacy_usage,
                    },
                    None => privacy_usage,
                };
                proof {
                    assert(declared_or_actual.deep_view() == eff);
                }
                acc = match sum_usage_list(declared_or_actual, acc) {
                    Ok(a) => {
                        proof {
                            lemma_sum_prefix_le(eff, 0);
                            assert(eff.take(0) =~= Seq::<PrivacyUsage>::empty());
                        }
                        a
                    },
                    Err(e) => {
                        proof {
                            if graph_valid(dv, relmap) && graph_eps(dv, relmap) <= i64::MAX
                                && graph_del(dv, relmap) <= i64::MAX {
                                assert(all_valid(eff));
                                lemma_graph_prefix_le(dv, relmap, i as int + 1);
                            }
                        }
                        return Err(e);
                    },
                };
            },
            _ => {
                proof {
                    assert(eff =~= Seq::<PrivacyUsage>::empty());
                }
            },
        }
        proof {
            let t = dv.take(i as int + 1);
            assert forall|j: int| 0 <= j < t.len() implies all_valid(
                effective_usages((#[trigger] t[j]).1, release_at(relmap, t[j].0)),
            ) by {
                if j < i {
                    assert(dv.take(i as int)[j] == t[j]);
                    assert(all_valid(
                        effective_usages(dv.take(i as int)[j].1, release_at(relmap, dv.take(i as int)[j].0)),
                    ));
                } else {
                    assert(t[j] == dv[i as int]);
                }
            }
        }
        i = i + 1;
    }
    proof {
        assert(dv.take(i as int) =~= dv);
    }
    Ok(acc)
}

/// An order-preserving selection of the entries of a larger graph.
pub open spec fn is_subsequence<T>(a: Seq<T>, b: Seq<T>) -> bool
    decreases b.len(),
{
    if a.len() == 0 {
        true
    } else if b.len() == 0 {
        false
    } else if a.last() == b.last() {
        is_subsequence(a.drop_last(), b.drop_last())
    } else {
        is_subsequence(a, b.drop_last())
    }
}

/// Privacy usage is monotone under subgraph inclusion: a graph made by
/// removing nodes from a larger graph cannot use more privacy, for any
/// release, as long as the larger graph's usages are well formed.
pub proof fn lemma_usage_monotone(
    small: Seq<(u32, ComponentV)>,
    big: Seq<(u32, ComponentV)>,
    release: Map<u32, ReleaseNodeV>,
)
    requires
        is_subsequence(small, big),
        graph_valid(big, release),
    ensures
        graph_eps(small, release) <= graph_eps(big, release),
        graph_del(small, release) <= graph_del(big, release),
    decreases big.len(),
{
    reveal_with_fuel(is_subsequence, 2);
    reveal_with_fuel(graph_eps, 2);
    reveal_with_fuel(graph_del, 2);
    if small.len() == 0 {
        lemma_graph_prefix_le(big, release, 0);
        assert(big.take(0) =~= Seq::<(u32, ComponentV)>::empty());
    } else {
        let bd = big.drop_last();
        assert forall|j: int| 0 <= j < bd.len() implies all_valid(
            effective_usages((#[trigger] bd[j]).1, release_at(release, bd[j].0)),
        ) by {
            assert(bd[j] == big[j]);
        }
        if small.last() == big.last() {
            lemma_usage_monotone(small.drop_last(), bd, release);
        } else {
            lemma_usage_monotone(small, bd, release);
            let lastu = effective_usages(big.last().1, release_at(release, big.last().0));
            assert(all_valid(lastu));
            lemma_sum_prefix_le(lastu, lastu.len() as int);
            assert(lastu.take(lastu.len() as int) =~= lastu);
        }
    }
}

/// An empty graph uses no privacy at all.
pub proof fn lemma_empty_graph_zero_usage(release: Map<u32, ReleaseNodeV>)
    ensures
        graph_eps(Seq::empty(), release) == 0,
        graph_del(Seq::empty(), release) == 0,
{
}

/// In a graph of one mechanism node, the total is exactly that node's
/// effective usage.
pub proof fn lemma_single_mechanism_total(entry: (u32, ComponentV), release: Map<u32, ReleaseNodeV>)
    ensures
        graph_eps(seq![entry], release) == sum_eps(
            effective_usages(entry.1, release_at(release, entry.0)),
        ),
        graph_del(seq![entry], release) == sum_del(
            effective_usages(entry.1, release_at(release, entry.0)),
        ),
{
    reveal_with_fuel(graph_eps, 2);
    reveal_with_fuel(graph_del, 2);
    assert(seq![entry].drop_last() =~= Seq::<(u32, ComponentV)>::empty());
    assert(seq![entry].last() == entry);
}


/// Whether a summed usage passes the definition\'s budget check: no
/// budget at all, or a defined budget that is respected whenever the
/// budget is strict.
pub open spec fn within_budget(pd: PrivacyDefinition, eps: int, del: int) -> bool {
    match pd.budget {
        Some(b) => b.defined() && (pd.strict_budget ==> (eps <= b.eps() && del <= b.del())),
        None => true,
    }
}

/// The usage charged to one column: a single declared usage is shared
/// by every column, otherwise each column has its own.
pub open spec fn usage_at(us: Seq<PrivacyUsage>, i: int) -> PrivacyUsage {
    if us.len() == 1 {
        us[0]
    } else {
        us[i]
    }
}

} // verus!
