//! The nine features of a dependency matrix and their ratios.
//!
//! A feature is a joint condition on the temporal and the existential relation
//! of an entry. Its ratio is the number of entries that meet the condition,
//! divided by the number of all entries. Ratios are kept as exact fractions,
//! and a threshold is a whole number of hundredths, so that every comparison
//! is decided by integer arithmetic alone.

use crate::dependency_types::dependency::Dependency;
use crate::dependency_types::existential::DependencyType as ExistentialType;
use crate::dependency_types::temporal::DependencyType as TemporalType;
use crate::matrix::{distinct_keys, entries_to_map, key_of, lemma_distinct_prefix, lemma_map_domain, Entry, PairKey};
use vstd::prelude::*;

verus! {

/// A joint condition on the two relations of an entry.
#[derive(Debug, Clone, Copy, PartialEq, Eq, Hash)]
pub enum Feature {
    /// Neither a temporal nor an existential relation.
    NoneNone,
    /// No temporal relation, and an implication.
    NoneImplication,
    /// No temporal relation, and an equivalence.
    NoneEquivalence,
    /// No temporal relation, and a negated equivalence.
    NoneNegatedEquivalence,
    /// Eventual succession, and an equivalence.
    EventualEquivalence,
    /// Eventual succession, and an implication.
    EventualImplication,
    /// Eventual succession, and an existential relation of any kind.
    EventualAnyExistential,
    /// Direct succession, and an existential relation of any kind.
    DirectAnyExistential,
    /// Direct succession, and no existential relation.
    DirectNone,
}

impl Feature {
    /// Whether an entry with the temporal kind `t` and the existential kind
    /// `e` meets the condition.
    pub open spec fn holds(self, t: Option<TemporalType>, e: Option<ExistentialType>) -> bool {
        match self {
            Feature::NoneNone => t is None && e is None,
            Feature::NoneImplication => t is None && e == Some(ExistentialType::Implication),
            Feature::NoneEquivalence => t is None && e == Some(ExistentialType::Equivalence),
            Feature::NoneNegatedEquivalence => t is None && e == Some(
                ExistentialType::NegatedEquivalence,
            ),
            Feature::EventualEquivalence => t == Some(TemporalType::Eventual) && e == Some(
                ExistentialType::Equivalence,
            ),
            Feature::EventualImplication => t == Some(TemporalType::Eventual) && e == Some(
                ExistentialType::Implication,
            ),
            Feature::EventualAnyExistential => t == Some(TemporalType::Eventual) && e is Some,
            Feature::DirectAnyExistential => t == Some(TemporalType::Direct) && e is Some,
            Feature::DirectNone => t == Some(TemporalType::Direct) && e is None,
        }
    }

    /// Whether the dependency `d` meets the condition.
    pub open spec fn matches(self, d: Dependency) -> bool {
        self.holds(d.temporal_kind(), d.existential_kind())
    }
}

/// The number of entries of the matrix `m` that meet the condition `f`.
pub open spec fn feature_count(m: Map<PairKey, Dependency>, f: Feature) -> nat {
    m.dom().filter(|k: PairKey| f.matches(m[k])).len()
}

/// The fraction `count / total`.
pub struct Ratio {
    pub count: nat,
    pub total: nat,
}

impl Ratio {
    /// The fraction is defined and lies between 0 and 1, both included.
    pub open spec fn in_unit_interval(self) -> bool {
        0 < self.total && self.count <= self.total
    }

    /// `count / total < hundredths / 100`
    pub open spec fn below(self, hundredths: nat) -> bool {
        100 * self.count < hundredths * self.total
    }

    /// `count / total <= hundredths / 100`
    pub open spec fn at_most(self, hundredths: nat) -> bool {
        100 * self.count <= hundredths * self.total
    }

    /// `count / total > hundredths / 100`
    pub open spec fn above(self, hundredths: nat) -> bool {
        100 * self.count > hundredths * self.total
    }

    /// `count / total >= hundredths / 100`
    pub open spec fn at_least(self, hundredths: nat) -> bool {
        100 * self.count >= hundredths * self.total
    }
}

/// The nine ratios of a matrix, as counts over their common denominator.
pub struct RatioVector {
    pub total: nat,
    pub none_none: nat,
    pub none_implication: nat,
    pub none_equivalence: nat,
    pub eventual_equivalence: nat,
    pub eventual_implication: nat,
    pub none_negated_equivalence: nat,
    pub eventual_any_existential: nat,
    pub direct_any_existential: nat,
    pub direct_none: nat,
}

impl RatioVector {
    /// The number of entries that meet `f`.
    pub open spec fn count(self, f: Feature) -> nat {
        match f {
            Feature::NoneNone => self.none_none,
            Feature::NoneImplication => self.none_implication,
            Feature::NoneEquivalence => self.none_equivalence,
            Feature::NoneNegatedEquivalence => self.none_negated_equivalence,
            Feature::EventualEquivalence => self.eventual_equivalence,
            Feature::EventualImplication => self.eventual_implication,
            Feature::EventualAnyExistential => self.eventual_any_existential,
            Feature::DirectAnyExistential => self.direct_any_existential,
            Feature::DirectNone => self.direct_none,
        }
    }

    /// The ratio of `f`.
    pub open spec fn ratio(self, f: Feature) -> Ratio {
        Ratio { count: self.count(f), total: self.total }
    }

    /// All nine ratios are defined and lie between 0 and 1.
    pub open spec fn in_unit_interval(self) -> bool {
        forall|f: Feature| (#[trigger] self.ratio(f)).in_unit_interval()
    }

    /// The ratio of `f` is less than `hundredths / 100`.
    pub open spec fn below(self, f: Feature, hundredths: nat) -> bool {
        self.ratio(f).below(hundredths)
    }

    /// The ratio of `f` is at most `hundredths / 100`.
    pub open spec fn at_most(self, f: Feature, hundredths: nat) -> bool {
        self.ratio(f).at_most(hundredths)
    }

    /// The ratio of `f` is greater than `hundredths / 100`.
    pub open spec fn above(self, f: Feature, hundredths: nat) -> bool {
        self.ratio(f).above(hundredths)
    }

    /// The ratio of `f` is at least `hundredths / 100`.
    pub open spec fn at_least(self, f: Feature, hundredths: nat) -> bool {
        self.ratio(f).at_least(hundredths)
    }
}

/// The ratio vector of the matrix `m`.
pub open spec fn ratio_vector(m: Map<PairKey, Dependency>) -> RatioVector {
    RatioVector {
        total: m.len(),
        none_none: feature_count(m, Feature::NoneNone),
        none_implication: feature_count(m, Feature::NoneImplication),
        none_equivalence: feature_count(m, Feature::NoneEquivalence),
        eventual_equivalence: feature_count(m, Feature::EventualEquivalence),
        eventual_implication: feature_count(m, Feature::EventualImplication),
        none_negated_equivalence: feature_count(m, Feature::NoneNegatedEquivalence),
        eventual_any_existential: feature_count(m, Feature::EventualAnyExistential),
        direct_any_existential: feature_count(m, Feature::DirectAnyExistential),
        direct_none: feature_count(m, Feature::DirectNone),
    }
}

/// Every feature of a finite matrix is met by at most as many entries as the
/// matrix has: each ratio of a matrix that is not empty lies between 0 and 1.
pub proof fn lemma_ratios_in_unit_interval(m: Map<PairKey, Dependency>)
    requires
        m.dom().finite(),
        m.len() > 0,
    ensures
        ratio_vector(m).in_unit_interval(),
{
    assert forall|f: Feature| (#[trigger] ratio_vector(m).ratio(f)).in_unit_interval() by {
        m.dom().lemma_len_filter(|k: PairKey| f.matches(m[k]));
        assert(ratio_vector(m).count(f) == feature_count(m, f));
    }
}

/// The number of entries of the list `s` that meet the condition `f`.
pub open spec fn count_matching(s: Seq<Entry>, f: Feature) -> nat
    decreases s.len(),
{
    if s.len() == 0 {
        0
    } else {
        count_matching(s.drop_last(), f) + if f.matches(s.last().1) {
            1nat
        } else {
            0nat
        }
    }
}

/// Counting along one more entry of a list adds that entry where it meets
/// the condition.
pub proof fn lemma_count_matching_step(s: Seq<Entry>, n: int, f: Feature)
    requires
        0 <= n < s.len(),
    ensures
        count_matching(s.take(n + 1), f) == count_matching(s.take(n), f) + if f.matches(s[n].1) {
            1nat
        } else {
            0nat
        },
{
    assert(s.take(n + 1).drop_last() == s.take(n));
}

/// Counted along a list with distinct keys, a feature is met as often as in
/// the map that the list stands for.
pub proof fn lemma_count_matching_is_feature_count(s: Seq<Entry>, f: Feature)
    requires
        distinct_keys(s),
    ensures
        count_matching(s, f) == feature_count(entries_to_map(s), f),
    decreases s.len(),
{
    let m = entries_to_map(s);
    let met = m.dom().filter(|k: PairKey| f.matches(m[k]));
    if s.len() == 0 {
        assert(met =~= Set::<PairKey>::empty());
    } else {
        let init = s.drop_last();
        let m0 = entries_to_map(init);
        let met0 = m0.dom().filter(|k: PairKey| f.matches(m0[k]));
        let key = key_of(s.last());
        assert(init == s.take(s.len() - 1));
        lemma_distinct_prefix(s, s.len() - 1);
        lemma_count_matching_is_feature_count(init, f);
        lemma_map_domain(init);
        m0.dom().lemma_len_filter(|k: PairKey| f.matches(m0[k]));
        if m0.dom().contains(key) {
            let i = choose|i: int| 0 <= i < init.len() && key_of(#[trigger] init[i]) == key;
            assert(key_of(s[i]) == key_of(s[s.len() - 1]));
        }
        if f.matches(s.last().1) {
            assert(met =~= met0.insert(key));
        } else {
            assert(met =~= met0);
        }
    }
}

} // verus!
