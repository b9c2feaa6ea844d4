//! Feature aggregation: from a dependency matrix to its nine ratios.

use crate::dependency_types::existential::DependencyType as ExistentialType;
use crate::dependency_types::temporal::DependencyType as TemporalType;
use crate::features::{
    count_matching, lemma_count_matching_is_feature_count, lemma_count_matching_step,
    lemma_ratios_in_unit_interval, ratio_vector, Feature, RatioVector,
};
use crate::matrix::InputMatrix;
use vstd::prelude::*;

verus! {

/// What `CalculatedPercentages::new` answers for a matrix without entries.
pub open spec fn empty_matrix_message() -> Seq<char> {
    "Input matrix is empty"@
}

/// The nine ratios of a dependency matrix that is not empty.
///
/// Each ratio is held as the number of entries that meet its feature, over
/// the number of all entries.
#[derive(Debug)]
pub struct CalculatedPercentages {
    total: usize,
    none_none: usize,
    none_implication: usize,
    none_equivalence: usize,
    eventual_equivalence: usize,
    eventual_implication: usize,
    none_negated_equivalence: usize,
    eventual_any_existential: usize,
    direct_any_existential: usize,
    direct_none: usize,
}

impl View for CalculatedPercentages {
    type V = RatioVector;

    closed spec fn view(&self) -> RatioVector {
        RatioVector {
            total: self.total as nat,
            none_none: self.none_none as nat,
            none_implication: self.none_implication as nat,
            none_equivalence: self.none_equivalence as nat,
            eventual_equivalence: self.eventual_equivalence as nat,
            eventual_implication: self.eventual_implication as nat,
            none_negated_equivalence: self.none_negated_equivalence as nat,
            eventual_any_existential: self.eventual_any_existential as nat,
            direct_any_existential: self.direct_any_existential as nat,
            direct_none: self.direct_none as nat,
        }
    }
}

impl CalculatedPercentages {
    /// There is at least one entry, and no feature is met more often than
    /// there are entries.
    #[verifier::type_invariant]
    pub open spec fn wf(&self) -> bool {
        self@.in_unit_interval()
    }

    /// Aggregates the matrix into its nine ratios. A matrix without entries
    /// has no ratios and is rejected.
    pub fn new(matrix: &InputMatrix) -> (result: Result<Self, String>)
        ensures
            match result {
                Ok(p) => matrix@.len() > 0 && p@ == ratio_vector(matrix@),
                Err(message) => matrix@.len() == 0 && message@ == empty_matrix_message(),
            },
            result matches Ok(p) ==> p@.in_unit_interval(),
    {
        if matrix.is_empty() {
            return Err("Input matrix is empty".to_owned());
        }
        let values = matrix.values();
        let total = values.len();
        let ghost entries = matrix.entries();
        let mut none_none: usize = 0;
        let mut none_implication: usize = 0;
        let mut none_equivalence: usize = 0;
        let mut none_negated_equivalence: usize = 0;
        let mut eventual_equivalence: usize = 0;
        let mut eventual_implication: usize = 0;
        let mut eventual_any: usize = 0;
        let mut direct_any: usize = 0;
        let mut direct_none: usize = 0;

        let mut i: usize = 0;
        while i < total
            invariant
                i <= total,
                total == values@.len(),
                total == entries.len(),
                forall|j: int| 0 <= j < total ==> *values@[j] == (#[trigger] entries[j]).1,
                none_none == count_matching(entries.take(i as int), Feature::NoneNone),
                none_implication == count_matching(entries.take(i as int), Feature::NoneImplication),
                none_equivalence == count_matching(entries.take(i as int), Feature::NoneEquivalence),
                none_negated_equivalence == count_matching(
                    entries.take(i as int),
                    Feature::NoneNegatedEquivalence,
                ),
                eventual_equivalence == count_matching(
                    entries.take(i as int),
                    Feature::EventualEquivalence,
                ),
                eventual_implication == count_matching(
                    entries.take(i as int),
                    Feature::EventualImplication,
                ),
                eventual_any == count_matching(
                    entries.take(i as int),
                    Feature::EventualAnyExistential,
                ),
                direct_any == count_matching(entries.take(i as int), Feature::DirectAnyExistential),
                direct_none == count_matching(entries.take(i as int), Feature::DirectNone),
                none_none <= i,
                none_implication <= i,
                none_equivalence <= i,
                none_negated_equivalence <= i,
                eventual_equivalence <= i,
                eventual_implication <= i,
                eventual_any <= i,
                direct_any <= i,
                direct_none <= i,
            decreases total - i,
        {
            let dependency = values[i];
            let temporal_type = dependency.temporal_type();
            let existential_type = dependency.existential_type();
            proof {
                assert(*dependency == entries[i as int].1);
                lemma_count_matching_step(entries, i as int, Feature::NoneNone);
                lemma_count_matching_step(entries, i as int, Feature::NoneImplication);
                lemma_count_matching_step(entries, i as int, Feature::NoneEquivalence);
                lemma_count_matching_step(entries, i as int, Feature::NoneNegatedEquivalence);
                lemma_count_matching_step(entries, i as int, Feature::EventualEquivalence);
                lemma_count_matching_step(entries, i as int, Feature::EventualImplication);
                lemma_count_matching_step(entries, i as int, Feature::EventualAnyExistential);
                lemma_count_matching_step(entries, i as int, Feature::DirectAnyExistential);
                lemma_count_matching_step(entries, i as int, Feature::DirectNone);
            }
            match temporal_type {
                None => {
                    match existential_type {
                        None => none_none += 1,
                        Some(ExistentialType::Implication) => none_implication += 1,
                        Some(ExistentialType::Equivalence) => none_equivalence += 1,
                        Some(ExistentialType::NegatedEquivalence) => none_negated_equivalence += 1,
                        Some(ExistentialType::Nand) | Some(ExistentialType::Or) => {},
                    }
                },
                Some(TemporalType::Eventual) => {
                    if existential_type.is_some() {
                        eventual_any += 1;
                    }
                    match existential_type {
                        Some(ExistentialType::Equivalence) => eventual_equivalence += 1,
                        Some(ExistentialType::Implication) => eventual_implication += 1,
                        _ => {},
                    }
                },
                Some(TemporalType::Direct) => {
                    if existential_type.is_some() {
                        direct_any += 1;
                    } else {
                        direct_none += 1;
                    }
                },
            }
            i += 1;
        }
        proof {
            use_type_invariant(matrix);
            assert(entries.take(total as int) == entries);
            lemma_count_matching_is_feature_count(entries, Feature::NoneNone);
            lemma_count_matching_is_feature_count(entries, Feature::NoneImplication);
            lemma_count_matching_is_feature_count(entries, Feature::NoneEquivalence);
            lemma_count_matching_is_feature_count(entries, Feature::NoneNegatedEquivalence);
            lemma_count_matching_is_feature_count(entries, Feature::EventualEquivalence);
            lemma_count_matching_is_feature_count(entries, Feature::EventualImplication);
            lemma_count_matching_is_feature_count(entries, Feature::EventualAnyExistential);
            lemma_count_matching_is_feature_count(entries, Feature::DirectAnyExistential);
            lemma_count_matching_is_feature_count(entries, Feature::DirectNone);
            crate::matrix::lemma_map_len(entries);
            lemma_ratios_in_unit_interval(matrix@);
        }
        let percentages = CalculatedPercentages {
            total,
            none_none,
            none_implication,
            none_equivalence,
            eventual_equivalence,
            eventual_implication,
            none_negated_equivalence,
            eventual_any_existential: eventual_any,
            direct_any_existential: direct_any,
            direct_none,
        };
        assert(percentages@ == ratio_vector(matrix@));
        Ok(percentages)
    }

    /// The number of entries of the matrix.
    pub fn total(&self) -> (n: usize)
        ensures
            n == self@.total,
            n > 0,
    {
        proof {
            use_type_invariant(self);
            assert(self@.ratio(Feature::NoneNone).in_unit_interval());
        }
        self.total
    }

    /// The number of entries that meet `f`.
    pub fn count(&self, f: Feature) -> (n: usize)
        ensures
            n == self@.count(f),
            n <= self@.total,
    {
        proof {
            use_type_invariant(self);
            assert(self@.ratio(f).in_unit_interval());
        }
        match f {
            Feature::NoneNone => self.none_none,
            Feature::NoneImplication => self.none_implication,
            Feature::NoneEquivalence => self.none_equivalence,
            Feature::NoneNegatedEquivalence => self.none_negated_equivalence,
            Feature::EventualEquivalence => self.eventual_equivalence,
            Feature::EventualImplication => self.eventual_implication,
            Feature::EventualAnyExistential => self.eventual_any_existential,
            Feature::DirectAnyExistential => self.direct_any_existential,
            Feature::DirectNone => self.direct_none,
        }
    }

    /// Whether the ratio of `f` is less than `hundredths / 100`.
    pub fn below(&self, f: Feature, hundredths: u8) -> (verdict: bool)
        ensures
            verdict == self@.below(f, hundredths as nat),
    {
        scaled(100, self.count(f)) < scaled(hundredths, self.total)
    }

    /// Whether the ratio of `f` is at most `hundredths / 100`.
    pub fn at_most(&self, f: Feature, hundredths: u8) -> (verdict: bool)
        ensures
            verdict == self@.at_most(f, hundredths as nat),
    {
        scaled(100, self.count(f)) <= scaled(hundredths, self.total)
    }

    /// Whether the ratio of `f` is greater than `hundredths / 100`.
    pub fn above(&self, f: Feature, hundredths: u8) -> (verdict: bool)
        ensures
            verdict == self@.above(f, hundredths as nat),
    {
        scaled(100, self.count(f)) > scaled(hundredths, self.total)
    }

    /// Whether the ratio of `f` is at least `hundredths / 100`.
    pub fn at_least(&self, f: Feature, hundredths: u8) -> (verdict: bool)
        ensures
            verdict == self@.at_least(f, hundredths as nat),
    {
        scaled(100, self.count(f)) >= scaled(hundredths, self.total)
    }
}

/// `factor * n`, in a type wide enough to hold it.
fn scaled(factor: u8, n: usize) -> (product: u128)
    ensures
        product == factor * n,
{
    assert(factor * n <= 255 * 0xffff_ffff_ffff_ffff) by (nonlinear_arith)
        requires
            factor <= 255,
            n <= 0xffff_ffff_ffff_ffff,
    ;
    (factor as u128) * (n as u128)
}

} // verus!
