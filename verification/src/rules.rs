//! The twelve rules over the ratio vector.
//!
//! Two rules decide that a log is unstructured. Seven primary and three
//! secondary rules each speak for one of the categories structured,
//! semi-structured and loosely structured. A rule is a list of conditions on
//! ratios; it passes when all of them hold. The single conditions are kept
//! with the verdict, for the scoring that takes over when the verdicts do not
//! decide.

use crate::features::{Feature, RatioVector};
use crate::percentages::CalculatedPercentages;
use vstd::prelude::*;

verus! {

/// The categories that the primary and secondary rules speak for.
#[derive(Debug, Clone, Copy, PartialEq, Eq, Hash)]
pub enum RuleCategory {
    Structured,
    SemiStructured,
    LooselyStructured,
}

/// The rules, by name.
#[derive(Debug, Clone, Copy, PartialEq, Eq, Hash)]
pub enum Rule {
    U1,
    U2,
    S1,
    S2,
    S3,
    SS1,
    SS2,
    LS1,
    LS2,
    BS1,
    BS2,
    BL1,
}

/// The verdict of a rule, and the verdicts of its conditions in their order.
pub type RuleCheckResult = (bool, Vec<bool>);

/// All of `conditions` hold.
pub open spec fn all_hold(conditions: Seq<bool>) -> bool {
    forall|i: int| 0 <= i < conditions.len() ==> conditions[i]
}

impl Rule {
    /// The conditions of the rule on the ratio vector `r`, in their order.
    pub open spec fn conditions(self, r: RatioVector) -> Seq<bool> {
        match self {
            Rule::U1 => seq![
                r.above(Feature::NoneNone, 80),
                r.below(Feature::EventualAnyExistential, 10),
                r.below(Feature::DirectAnyExistential, 10),
            ],
            Rule::U2 => seq![r.above(Feature::NoneEquivalence, 80)],
            Rule::S1 => seq![
                r.below(Feature::NoneNone, 5),
                r.below(Feature::NoneImplication, 10),
                r.above(Feature::EventualEquivalence, 10),
                r.above(Feature::EventualImplication, 40),
            ],
            Rule::S2 => seq![
                r.below(Feature::NoneNone, 5),
                r.at_most(Feature::NoneImplication, 15),
                r.at_least(Feature::EventualEquivalence, 10),
                r.above(Feature::EventualImplication, 30),
            ],
            Rule::S3 => seq![r.above(Feature::DirectNone, 50)],
            Rule::SS1 => seq![
                r.below(Feature::NoneNone, 35),
                r.above(Feature::NoneImplication, 30),
                r.below(Feature::EventualEquivalence, 5),
                r.below(Feature::EventualImplication, 20),
            ],
            Rule::SS2 => seq![
                r.below(Feature::NoneNone, 25),
                r.above(Feature::NoneImplication, 1),
                r.above(Feature::EventualEquivalence, 10),
                r.below(Feature::EventualImplication, 40),
            ],
            Rule::LS1 => seq![
                r.above(Feature::NoneNone, 20),
                r.below(Feature::NoneImplication, 35),
                r.below(Feature::EventualEquivalence, 10),
                r.below(Feature::EventualImplication, 30),
            ],
            Rule::LS2 => seq![
                r.above(Feature::NoneNone, 50),
                r.below(Feature::NoneImplication, 10),
                r.below(Feature::EventualEquivalence, 5),
                r.below(Feature::EventualImplication, 25),
            ],
            Rule::BS1 => seq![
                r.below(Feature::NoneNone, 10),
                r.above(Feature::NoneNegatedEquivalence, 50),
                r.above(Feature::EventualImplication, 60),
            ],
            Rule::BS2 => seq![r.below(Feature::NoneNone, 20), r.above(Feature::NoneImplication, 40)],
            Rule::BL1 => seq![r.above(Feature::NoneNone, 60), r.below(Feature::NoneImplication, 30)],
        }
    }

    /// The rule passes on `r`: all of its conditions hold.
    pub open spec fn passes(self, r: RatioVector) -> bool {
        all_hold(self.conditions(r))
    }

    /// The category that the rule speaks for. The two rules without one
    /// decide that a log is unstructured.
    pub open spec fn category(self) -> Option<RuleCategory> {
        match self {
            Rule::U1 | Rule::U2 => None,
            Rule::S1 | Rule::S2 | Rule::S3 | Rule::BS1 => Some(RuleCategory::Structured),
            Rule::SS1 | Rule::SS2 | Rule::BS2 => Some(RuleCategory::SemiStructured),
            Rule::LS1 | Rule::LS2 | Rule::BL1 => Some(RuleCategory::LooselyStructured),
        }
    }

    /// The name of the rule.
    pub open spec fn label(self) -> Seq<char> {
        match self {
            Rule::U1 => "U1"@,
            Rule::U2 => "U2"@,
            Rule::S1 => "S1"@,
            Rule::S2 => "S2"@,
            Rule::S3 => "S3"@,
            Rule::SS1 => "SS1"@,
            Rule::SS2 => "SS2"@,
            Rule::LS1 => "LS1"@,
            Rule::LS2 => "LS2"@,
            Rule::BS1 => "BS1"@,
            Rule::BS2 => "BS2"@,
            Rule::BL1 => "BL1"@,
        }
    }

    /// The name of the rule.
    pub fn name(self) -> (name: String)
        ensures
            name@ == self.label(),
    {
        match self {
            Rule::U1 => "U1".to_owned(),
            Rule::U2 => "U2".to_owned(),
            Rule::S1 => "S1".to_owned(),
            Rule::S2 => "S2".to_owned(),
            Rule::S3 => "S3".to_owned(),
            Rule::SS1 => "SS1".to_owned(),
            Rule::SS2 => "SS2".to_owned(),
            Rule::LS1 => "LS1".to_owned(),
            Rule::LS2 => "LS2".to_owned(),
            Rule::BS1 => "BS1".to_owned(),
            Rule::BS2 => "BS2".to_owned(),
            Rule::BL1 => "BL1".to_owned(),
        }
    }
}

/// The primary rules, in the order in which they are evaluated.
pub open spec fn primary_rules() -> Seq<Rule> {
    seq![Rule::S1, Rule::S2, Rule::S3, Rule::SS1, Rule::SS2, Rule::LS1, Rule::LS2]
}

/// The secondary rules, in the order in which they are evaluated.
pub open spec fn secondary_rules() -> Seq<Rule> {
    seq![Rule::BS1, Rule::BS2, Rule::BL1]
}

/// The categories for which at least one of `rules` passes on `r`.
pub open spec fn matched_categories(rules: Seq<Rule>, r: RatioVector) -> Set<RuleCategory> {
    Set::new(
        |c: RuleCategory|
            exists|i: int|
                0 <= i < rules.len() && (#[trigger] rules[i]).category() == Some(c) && rules[i].passes(
                    r,
                ),
    )
}

/// `results` holds, for each of `rules` in turn, its verdict on `r` and the
/// verdicts of its conditions.
pub open spec fn results_of(results: Seq<RuleCheckResult>, rules: Seq<Rule>, r: RatioVector) -> bool {
    &&& results.len() == rules.len()
    &&& forall|i: int|
        0 <= i < rules.len() ==> (#[trigger] results[i]).0 == rules[i].passes(r) && results[i].1@
            == rules[i].conditions(r)
}

/// Whether all of `conditions` hold.
fn all_conditions(conditions: &Vec<bool>) -> (verdict: bool)
    ensures
        verdict == all_hold(conditions@),
{
    let mut i: usize = 0;
    while i < conditions.len()
        invariant
            i <= conditions@.len(),
            forall|j: int| 0 <= j < i ==> conditions@[j],
        decreases conditions@.len() - i,
    {
        if !conditions[i] {
            return false;
        }
        i += 1;
    }
    true
}

/// U1: hardly any pair is related at all.
pub fn check_rule_u1(p: &CalculatedPercentages) -> (verdict: bool)
    ensures
        verdict == Rule::U1.passes(p@),
{
    let verdict = p.above(Feature::NoneNone, 80) && p.below(Feature::EventualAnyExistential, 10)
        && p.below(Feature::DirectAnyExistential, 10);
    proof {
        let conditions = Rule::U1.conditions(p@);
        assert(verdict ==> all_hold(conditions));
        assert(all_hold(conditions) ==> conditions[0] && conditions[1] && conditions[2]);
    }
    verdict
}

/// U2: most pairs are equivalent without any order between them.
pub fn check_rule_u2(p: &CalculatedPercentages) -> (verdict: bool)
    ensures
        verdict == Rule::U2.passes(p@),
{
    let verdict = p.above(Feature::NoneEquivalence, 80);
    proof {
        let conditions = Rule::U2.conditions(p@);
        assert(verdict ==> all_hold(conditions));
        assert(all_hold(conditions) ==> conditions[0]);
    }
    verdict
}

pub fn check_rule_s1(p: &CalculatedPercentages) -> (result: RuleCheckResult)
    ensures
        result.0 == Rule::S1.passes(p@),
        result.1@ == Rule::S1.conditions(p@),
{
    let conditions = vec![
        p.below(Feature::NoneNone, 5),
        p.below(Feature::NoneImplication, 10),
        p.above(Feature::EventualEquivalence, 10),
        p.above(Feature::EventualImplication, 40),
    ];
    assert(conditions@ == Rule::S1.conditions(p@));
    (all_conditions(&conditions), conditions)
}

pub fn check_rule_s2(p: &CalculatedPercentages) -> (result: RuleCheckResult)
    ensures
        result.0 == Rule::S2.passes(p@),
        result.1@ == Rule::S2.conditions(p@),
{
    let conditions = vec![
        p.below(Feature::NoneNone, 5),
        p.at_most(Feature::NoneImplication, 15),
        p.at_least(Feature::EventualEquivalence, 10),
        p.above(Feature::EventualImplication, 30),
    ];
    assert(conditions@ == Rule::S2.conditions(p@));
    (all_conditions(&conditions), conditions)
}

pub fn check_rule_s3(p: &CalculatedPercentages) -> (result: RuleCheckResult)
    ensures
        result.0 == Rule::S3.passes(p@),
        result.1@ == Rule::S3.conditions(p@),
{
    let conditions = vec![p.above(Feature::DirectNone, 50)];
    assert(conditions@ == Rule::S3.conditions(p@));
    (all_conditions(&conditions), conditions)
}

pub fn check_rule_ss1(p: &CalculatedPercentages) -> (result: RuleCheckResult)
    ensures
        result.0 == Rule::SS1.passes(p@),
        result.1@ == Rule::SS1.conditions(p@),
{
    let conditions = vec![
        p.below(Feature::NoneNone, 35),
        p.above(Feature::NoneImplication, 30),
        p.below(Feature::EventualEquivalence, 5),
        p.below(Feature::EventualImplication, 20),
    ];
    assert(conditions@ == Rule::SS1.conditions(p@));
    (all_conditions(&conditions), conditions)
}

pub fn check_rule_ss2(p: &CalculatedPercentages) -> (result: RuleCheckResult)
    ensures
        result.0 == Rule::SS2.passes(p@),
        result.1@ == Rule::SS2.conditions(p@),
{
    let conditions = vec![
        p.below(Feature::NoneNone, 25),
        p.above(Feature::NoneImplication, 1),
        p.above(Feature::EventualEquivalence, 10),
        p.below(Feature::EventualImplication, 40),
    ];
    assert(conditions@ == Rule::SS2.conditions(p@));
    (all_conditions(&conditions), conditions)
}

pub fn check_rule_ls1(p: &CalculatedPercentages) -> (result: RuleCheckResult)
    ensures
        result.0 == Rule::LS1.passes(p@),
        result.1@ == Rule::LS1.conditions(p@),
{
    let conditions = vec![
        p.above(Feature::NoneNone, 20),
        p.below(Feature::NoneImplication, 35),
        p.below(Feature::EventualEquivalence, 10),
        p.below(Feature::EventualImplication, 30),
    ];
    assert(conditions@ == Rule::LS1.conditions(p@));
    (all_conditions(&conditions), conditions)
}

pub fn check_rule_ls2(p: &CalculatedPercentages) -> (result: RuleCheckResult)
    ensures
        result.0 == Rule::LS2.passes(p@),
        result.1@ == Rule::LS2.conditions(p@),
{
    let conditions = vec![
        p.above(Feature::NoneNone, 50),
        p.below(Feature::NoneImplication, 10),
        p.below(Feature::EventualEquivalence, 5),
        p.below(Feature::EventualImplication, 25),
    ];
    assert(conditions@ == Rule::LS2.conditions(p@));
    (all_conditions(&conditions), conditions)
}

pub fn check_rule_bs1(p: &CalculatedPercentages) -> (result: RuleCheckResult)
    ensures
        result.0 == Rule::BS1.passes(p@),
        result.1@ == Rule::BS1.conditions(p@),
{
    let conditions = vec![
        p.below(Feature::NoneNone, 10),
        p.above(Feature::NoneNegatedEquivalence, 50),
        p.above(Feature::EventualImplication, 60),
    ];
    assert(conditions@ == Rule::BS1.conditions(p@));
    (all_conditions(&conditions), conditions)
}

pub fn check_rule_bs2(p: &CalculatedPercentages) -> (result: RuleCheckResult)
    ensures
        result.0 == Rule::BS2.passes(p@),
        result.1@ == Rule::BS2.conditions(p@),
{
    let conditions = vec![p.below(Feature::NoneNone, 20), p.above(Feature::NoneImplication, 40)];
    assert(conditions@ == Rule::BS2.conditions(p@));
    (all_conditions(&conditions), conditions)
}

pub fn check_rule_bl1(p: &CalculatedPercentages) -> (result: RuleCheckResult)
    ensures
        result.0 == Rule::BL1.passes(p@),
        result.1@ == Rule::BL1.conditions(p@),
{
    let conditions = vec![p.above(Feature::NoneNone, 60), p.below(Feature::NoneImplication, 30)];
    assert(conditions@ == Rule::BL1.conditions(p@));
    (all_conditions(&conditions), conditions)
}

/// A set of categories.
pub struct CategorySet {
    structured: bool,
    semi_structured: bool,
    loosely_structured: bool,
}

impl View for CategorySet {
    type V = Set<RuleCategory>;

    closed spec fn view(&self) -> Set<RuleCategory> {
        let none = Set::<RuleCategory>::empty();
        let first = if self.structured {
            none.insert(RuleCategory::Structured)
        } else {
            none
        };
        let second = if self.semi_structured {
            first.insert(RuleCategory::SemiStructured)
        } else {
            first
        };
        if self.loosely_structured {
            second.insert(RuleCategory::LooselyStructured)
        } else {
            second
        }
    }
}

impl CategorySet {
    /// The empty set.
    pub fn new() -> (set: Self)
        ensures
            set@ == Set::<RuleCategory>::empty(),
    {
        CategorySet { structured: false, semi_structured: false, loosely_structured: false }
    }

    /// Adds `category` to the set. Answers whether it was new to the set.
    pub fn insert(&mut self, category: RuleCategory) -> (added: bool)
        ensures
            final(self)@ == old(self)@.insert(category),
            added == !old(self)@.contains(category),
    {
        let added = !self.contains(&category);
        match category {
            RuleCategory::Structured => self.structured = true,
            RuleCategory::SemiStructured => self.semi_structured = true,
            RuleCategory::LooselyStructured => self.loosely_structured = true,
        }
        assert(self@ =~= old(self)@.insert(category));
        added
    }

    /// Whether `category` is in the set.
    pub fn contains(&self, category: &RuleCategory) -> (found: bool)
        ensures
            found == self@.contains(*category),
    {
        match category {
            RuleCategory::Structured => self.structured,
            RuleCategory::SemiStructured => self.semi_structured,
            RuleCategory::LooselyStructured => self.loosely_structured,
        }
    }

    /// The number of categories in the set.
    pub fn len(&self) -> (n: usize)
        ensures
            self@.finite(),
            n == self@.len(),
    {
        let mut n: usize = 0;
        if self.structured {
            n += 1;
        }
        if self.semi_structured {
            n += 1;
        }
        if self.loosely_structured {
            n += 1;
        }
        n
    }

    /// Whether the set holds no category.
    pub fn is_empty(&self) -> (empty: bool)
        ensures
            empty == (self@ == Set::<RuleCategory>::empty()),
    {
        let empty = !self.structured && !self.semi_structured && !self.loosely_structured;
        proof {
            if empty {
                assert(self@ =~= Set::<RuleCategory>::empty());
            } else if self.structured {
                assert(self@.contains(RuleCategory::Structured));
            } else if self.semi_structured {
                assert(self@.contains(RuleCategory::SemiStructured));
            } else {
                assert(self@.contains(RuleCategory::LooselyStructured));
            }
        }
        empty
    }
}

/// Evaluates the seven primary rules. Answers the categories for which a rule
/// passes, and the result of each rule in the order of `primary_rules`.
pub fn apply_primary_rules(p: &CalculatedPercentages) -> (applied: (
    CategorySet,
    Vec<RuleCheckResult>,
))
    ensures
        applied.0@ == matched_categories(primary_rules(), p@),
        results_of(applied.1@, primary_rules(), p@),
{
    let mut matched = CategorySet::new();
    let mut rule_results: Vec<RuleCheckResult> = Vec::new();

    let s1_res = check_rule_s1(p);
    if s1_res.0 {
        matched.insert(RuleCategory::Structured);
    }
    rule_results.push(s1_res);

    let s2_res = check_rule_s2(p);
    if s2_res.0 {
        matched.insert(RuleCategory::Structured);
    }
    rule_results.push(s2_res);

    let s3_res = check_rule_s3(p);
    if s3_res.0 {
        matched.insert(RuleCategory::Structured);
    }
    rule_results.push(s3_res);

    let ss1_res = check_rule_ss1(p);
    if ss1_res.0 {
        matched.insert(RuleCategory::SemiStructured);
    }
    rule_results.push(ss1_res);

    let ss2_res = check_rule_ss2(p);
    if ss2_res.0 {
        matched.insert(RuleCategory::SemiStructured);
    }
    rule_results.push(ss2_res);

    let ls1_res = check_rule_ls1(p);
    if ls1_res.0 {
        matched.insert(RuleCategory::LooselyStructured);
    }
    rule_results.push(ls1_res);

    let ls2_res = check_rule_ls2(p);
    if ls2_res.0 {
        matched.insert(RuleCategory::LooselyStructured);
    }
    rule_results.push(ls2_res);

    proof {
        let rules = primary_rules();
        let expected = matched_categories(rules, p@);
        assert(rules[0] == Rule::S1 && rules[1] == Rule::S2 && rules[2] == Rule::S3);
        assert(rules[3] == Rule::SS1 && rules[4] == Rule::SS2);
        assert(rules[5] == Rule::LS1 && rules[6] == Rule::LS2);
        assert(matched@ =~= expected);
    }
    (matched, rule_results)
}

/// Evaluates the three secondary rules. Answers the categories for which a
/// rule passes, and the result of each rule in the order of
/// `secondary_rules`.
pub fn apply_secondary_rules(p: &CalculatedPercentages) -> (applied: (
    CategorySet,
    Vec<RuleCheckResult>,
))
    ensures
        applied.0@ == matched_categories(secondary_rules(), p@),
        results_of(applied.1@, secondary_rules(), p@),
{
    let mut matched = CategorySet::new();
    let mut rule_results: Vec<RuleCheckResult> = Vec::new();

    let bs1_res = check_rule_bs1(p);
    if bs1_res.0 {
        matched.insert(RuleCategory::Structured);
    }
    rule_results.push(bs1_res);

    let bs2_res = check_rule_bs2(p);
    if bs2_res.0 {
        matched.insert(RuleCategory::SemiStructured);
    }
    rule_results.push(bs2_res);

    let bl1_res = check_rule_bl1(p);
    if bl1_res.0 {
        matched.insert(RuleCategory::LooselyStructured);
    }
    rule_results.push(bl1_res);

    proof {
        let rules = secondary_rules();
        let expected = matched_categories(rules, p@);
        assert(rules[0] == Rule::BS1 && rules[1] == Rule::BS2 && rules[2] == Rule::BL1);
        assert(matched@ =~= expected);
    }
    (matched, rule_results)
}

} // verus!
