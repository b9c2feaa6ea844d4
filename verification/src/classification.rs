//! The category resolver: from the verdicts of the rules to a classification.
//!
//! The rules are applied in a strict order of precedence. A log on which one
//! of the two unstructured rules passes is unstructured, whatever else holds.
//! Otherwise the categories of the passing primary rules decide, then those
//! of the passing secondary rules, and where neither tier decides, the
//! category with the most conditions that hold.

use crate::dependency_types::dependency::Dependency;
use crate::features::{ratio_vector, RatioVector};
use crate::matrix::PairKey;
use crate::percentages::empty_matrix_message;
use crate::rules::{
    apply_primary_rules, apply_secondary_rules, check_rule_u1, check_rule_u2, matched_categories,
    primary_rules, results_of, secondary_rules, CategorySet, Rule,
};
use vstd::prelude::*;

pub use crate::matrix::{Activity, InputMatrix};
pub use crate::percentages::CalculatedPercentages;
pub use crate::rules::{RuleCategory, RuleCheckResult};

verus! {

/// How structured the control flow of a log is, or why that could not be
/// said.
#[derive(Debug, Clone, PartialEq, Eq)]
pub enum Classification {
    Structured,
    SemiStructured,
    LooselyStructured,
    StructuredSemiStructured,
    SemiStructuredLooselyStructured,
    Unstructured,
    Error(String),
}

/// The model of a `Classification`: the same outcomes, with the message of
/// a failure as a sequence of characters.
pub enum ClassificationModel {
    Structured,
    SemiStructured,
    LooselyStructured,
    StructuredSemiStructured,
    SemiStructuredLooselyStructured,
    Unstructured,
    Error(Seq<char>),
}

impl View for Classification {
    type V = ClassificationModel;

    open spec fn view(&self) -> ClassificationModel {
        match self {
            Classification::Structured => ClassificationModel::Structured,
            Classification::SemiStructured => ClassificationModel::SemiStructured,
            Classification::LooselyStructured => ClassificationModel::LooselyStructured,
            Classification::StructuredSemiStructured => ClassificationModel::StructuredSemiStructured,
            Classification::SemiStructuredLooselyStructured =>
                ClassificationModel::SemiStructuredLooselyStructured,
            Classification::Unstructured => ClassificationModel::Unstructured,
            Classification::Error(message) => ClassificationModel::Error(message@),
        }
    }
}

impl ClassificationModel {
    /// The classification as it is shown to a reader.
    pub open spec fn text(self) -> Seq<char> {
        match self {
            ClassificationModel::Structured => "Structured"@,
            ClassificationModel::SemiStructured => "Semi-Structured"@,
            ClassificationModel::LooselyStructured => "Loosely Structured"@,
            ClassificationModel::StructuredSemiStructured => "Structured / Semi-Structured"@,
            ClassificationModel::SemiStructuredLooselyStructured =>
                "Semi-Structured / Loosely Structured"@,
            ClassificationModel::Unstructured => "Unstructured"@,
            ClassificationModel::Error(message) => "Error in classification: "@ + message,
        }
    }
}

impl Classification {
    /// The classification as it is shown to a reader.
    pub fn to_string(&self) -> (text: String)
        ensures
            text@ == self@.text(),
    {
        match self {
            Classification::Structured => "Structured".to_owned(),
            Classification::SemiStructured => "Semi-Structured".to_owned(),
            Classification::LooselyStructured => "Loosely Structured".to_owned(),
            Classification::StructuredSemiStructured => "Structured / Semi-Structured".to_owned(),
            Classification::SemiStructuredLooselyStructured =>
                "Semi-Structured / Loosely Structured".to_owned(),
            Classification::Unstructured => "Unstructured".to_owned(),
            Classification::Error(message) => "Error in classification: ".to_owned().concat(
                message.as_str(),
            ),
        }
    }
}

/// The classification that stands for a single category.
pub open spec fn category_model(category: RuleCategory) -> ClassificationModel {
    match category {
        RuleCategory::Structured => ClassificationModel::Structured,
        RuleCategory::SemiStructured => ClassificationModel::SemiStructured,
        RuleCategory::LooselyStructured => ClassificationModel::LooselyStructured,
    }
}

/// The classification that stands for a single category.
pub fn category_to_classification(category: RuleCategory) -> (classification: Classification)
    ensures
        classification@ == category_model(category),
{
    match category {
        RuleCategory::Structured => Classification::Structured,
        RuleCategory::SemiStructured => Classification::SemiStructured,
        RuleCategory::LooselyStructured => Classification::LooselyStructured,
    }
}

/// The number of conditions among `conditions` that hold.
pub open spec fn count_true(conditions: Seq<bool>) -> nat
    decreases conditions.len(),
{
    if conditions.len() == 0 {
        0
    } else {
        count_true(conditions.drop_last()) + if conditions.last() {
            1nat
        } else {
            0nat
        }
    }
}

/// What the scoring answers when no condition of any rule holds.
pub open spec fn no_indicators_message() -> Seq<char> {
    "no category had significant indicators"@
}

/// The classification by the scores of the three categories: the category
/// with the highest score, or what stands for a tie at the top.
pub open spec fn by_most_indicators(
    structured: nat,
    semi_structured: nat,
    loosely_structured: nat,
) -> ClassificationModel {
    if structured == 0 && semi_structured == 0 && loosely_structured == 0 {
        ClassificationModel::Error(no_indicators_message())
    } else if structured > semi_structured && structured > loosely_structured {
        ClassificationModel::Structured
    } else if semi_structured > structured && semi_structured > loosely_structured {
        ClassificationModel::SemiStructured
    } else if loosely_structured > structured && loosely_structured > semi_structured {
        ClassificationModel::LooselyStructured
    } else if structured == semi_structured && structured > loosely_structured {
        ClassificationModel::StructuredSemiStructured
    } else if semi_structured == loosely_structured && semi_structured > structured {
        ClassificationModel::SemiStructuredLooselyStructured
    } else {
        // Structured and loosely structured tie at the top, with or without
        // semi-structured: the verdict is the category between them.
        ClassificationModel::SemiStructured
    }
}

/// The number of conditions that hold in the result at place `i`.
pub open spec fn indicators_at(results: Seq<RuleCheckResult>, i: int) -> nat {
    count_true(results[i].1@)
}

/// The score of a category from the results of the rules: twice the
/// conditions that hold in its primary rules, and once those of its
/// secondary rule.
pub open spec fn score_of(
    category: RuleCategory,
    primary: Seq<RuleCheckResult>,
    secondary: Seq<RuleCheckResult>,
) -> nat {
    match category {
        RuleCategory::Structured => 2 * (indicators_at(primary, 0) + indicators_at(primary, 1)
            + indicators_at(primary, 2)) + indicators_at(secondary, 0),
        RuleCategory::SemiStructured => 2 * (indicators_at(primary, 3) + indicators_at(primary, 4))
            + indicators_at(secondary, 1),
        RuleCategory::LooselyStructured => 2 * (indicators_at(primary, 5) + indicators_at(
            primary,
            6,
        )) + indicators_at(secondary, 2),
    }
}

/// The number of conditions among `conditions` that hold.
fn count_true_conditions(conditions: &Vec<bool>) -> (n: usize)
    ensures
        n == count_true(conditions@),
{
    let mut n: usize = 0;
    let mut i: usize = 0;
    while i < conditions.len()
        invariant
            i <= conditions@.len(),
            n <= i,
            n == count_true(conditions@.take(i as int)),
        decreases conditions@.len() - i,
    {
        assert(conditions@.take(i + 1).drop_last() == conditions@.take(i as int));
        if conditions[i] {
            n += 1;
        }
        i += 1;
    }
    assert(conditions@.take(i as int) == conditions@);
    n
}

/// The score of a category with `primary` conditions that hold in its
/// primary rules and `secondary` in its secondary rule, in a type wide enough
/// to hold it.
fn score(primary: u128, secondary: usize) -> (score: u128)
    requires
        primary <= 3 * usize::MAX,
    ensures
        score == 2 * primary + secondary,
{
    primary * 2 + secondary as u128
}

/// The fallback of the resolver: classifies by the number of conditions that
/// hold for each category.
///
/// `primary_rule_check_results` holds the results of the seven primary rules
/// and `secondary_rule_check_results` those of the three secondary rules,
/// each in the order in which the rules are evaluated.
pub fn calculate_by_most_indicators(
    primary_rule_check_results: &[RuleCheckResult],
    secondary_rule_check_results: &[RuleCheckResult],
) -> (classification: Classification)
    requires
        primary_rule_check_results@.len() >= 7,
        secondary_rule_check_results@.len() >= 3,
    ensures
        classification@ == by_most_indicators(
            score_of(
                RuleCategory::Structured,
                primary_rule_check_results@,
                secondary_rule_check_results@,
            ),
            score_of(
                RuleCategory::SemiStructured,
                primary_rule_check_results@,
                secondary_rule_check_results@,
            ),
            score_of(
                RuleCategory::LooselyStructured,
                primary_rule_check_results@,
                secondary_rule_check_results@,
            ),
        ),
{
    let s1_indicators = count_true_conditions(&primary_rule_check_results[0].1);
    let s2_indicators = count_true_conditions(&primary_rule_check_results[1].1);
    let s3_indicators = count_true_conditions(&primary_rule_check_results[2].1);
    let bs1_indicators = count_true_conditions(&secondary_rule_check_results[0].1);
    let score_structured = score(
        s1_indicators as u128 + s2_indicators as u128 + s3_indicators as u128,
        bs1_indicators,
    );

    let ss1_indicators = count_true_conditions(&primary_rule_check_results[3].1);
    let ss2_indicators = count_true_conditions(&primary_rule_check_results[4].1);
    let bs2_indicators = count_true_conditions(&secondary_rule_check_results[1].1);
    let score_semi_structured = score(
        ss1_indicators as u128 + ss2_indicators as u128,
        bs2_indicators,
    );

    let ls1_indicators = count_true_conditions(&primary_rule_check_results[5].1);
    let ls2_indicators = count_true_conditions(&primary_rule_check_results[6].1);
    let bl1_indicators = count_true_conditions(&secondary_rule_check_results[2].1);
    let score_loosely_structured = score(
        ls1_indicators as u128 + ls2_indicators as u128,
        bl1_indicators,
    );

    let mut max_score = score_structured;
    if score_semi_structured > max_score {
        max_score = score_semi_structured;
    }
    if score_loosely_structured > max_score {
        max_score = score_loosely_structured;
    }
    if max_score == 0 {
        return Classification::Error("no category had significant indicators".to_owned());
    }
    let has_s = score_structured == max_score;
    let has_ss = score_semi_structured == max_score;
    let has_ls = score_loosely_structured == max_score;

    if has_s && has_ss && has_ls {
        Classification::SemiStructured
    } else if has_s && has_ss {
        Classification::StructuredSemiStructured
    } else if has_ss && has_ls {
        Classification::SemiStructuredLooselyStructured
    } else if has_s && has_ls {
        Classification::SemiStructured
    } else if has_s {
        category_to_classification(RuleCategory::Structured)
    } else if has_ss {
        category_to_classification(RuleCategory::SemiStructured)
    } else {
        category_to_classification(RuleCategory::LooselyStructured)
    }
}

/// The number of conditions of `rule` that hold on `r`.
pub open spec fn indicators(rule: Rule, r: RatioVector) -> nat {
    count_true(rule.conditions(r))
}

/// The score of a category on `r`: twice the conditions that hold in its
/// primary rules, and once those of its secondary rule.
pub open spec fn category_score(category: RuleCategory, r: RatioVector) -> nat {
    match category {
        RuleCategory::Structured => 2 * (indicators(Rule::S1, r) + indicators(Rule::S2, r)
            + indicators(Rule::S3, r)) + indicators(Rule::BS1, r),
        RuleCategory::SemiStructured => 2 * (indicators(Rule::SS1, r) + indicators(Rule::SS2, r))
            + indicators(Rule::BS2, r),
        RuleCategory::LooselyStructured => 2 * (indicators(Rule::LS1, r) + indicators(Rule::LS2, r))
            + indicators(Rule::BL1, r),
    }
}

/// What the primary tier decides for the set `matched` of categories with a
/// passing primary rule: a single category stands for itself, and
/// semi-structured together with one of its neighbours for the compound of
/// the two. Any other set decides nothing.
pub open spec fn primary_verdict(matched: Set<RuleCategory>) -> Option<ClassificationModel> {
    let s = matched.contains(RuleCategory::Structured);
    let ss = matched.contains(RuleCategory::SemiStructured);
    let ls = matched.contains(RuleCategory::LooselyStructured);
    if s && !ss && !ls {
        Some(ClassificationModel::Structured)
    } else if !s && ss && !ls {
        Some(ClassificationModel::SemiStructured)
    } else if !s && !ss && ls {
        Some(ClassificationModel::LooselyStructured)
    } else if s && ss && !ls {
        Some(ClassificationModel::StructuredSemiStructured)
    } else if !s && ss && ls {
        Some(ClassificationModel::SemiStructuredLooselyStructured)
    } else {
        None
    }
}

/// What the secondary tier decides for the set `matched` of categories with
/// a passing secondary rule: a single category stands for itself, and any
/// other set decides nothing.
pub open spec fn secondary_verdict(matched: Set<RuleCategory>) -> Option<ClassificationModel> {
    let s = matched.contains(RuleCategory::Structured);
    let ss = matched.contains(RuleCategory::SemiStructured);
    let ls = matched.contains(RuleCategory::LooselyStructured);
    if s && !ss && !ls {
        Some(ClassificationModel::Structured)
    } else if !s && ss && !ls {
        Some(ClassificationModel::SemiStructured)
    } else if !s && !ss && ls {
        Some(ClassificationModel::LooselyStructured)
    } else {
        None
    }
}

/// The classification of the ratio vector `r`.
pub open spec fn classify_ratios(r: RatioVector) -> ClassificationModel {
    if Rule::U1.passes(r) || Rule::U2.passes(r) {
        ClassificationModel::Unstructured
    } else if let Some(verdict) = primary_verdict(matched_categories(primary_rules(), r)) {
        verdict
    } else if let Some(verdict) = secondary_verdict(matched_categories(secondary_rules(), r)) {
        verdict
    } else {
        by_most_indicators(
            category_score(RuleCategory::Structured, r),
            category_score(RuleCategory::SemiStructured, r),
            category_score(RuleCategory::LooselyStructured, r),
        )
    }
}

/// All twelve rules, in the order in which they are evaluated.
pub open spec fn all_rules() -> Seq<Rule> {
    seq![Rule::U1, Rule::U2] + primary_rules() + secondary_rules()
}

/// The property of a rule to pass on `r`.
pub open spec fn passing(r: RatioVector) -> spec_fn(Rule) -> bool {
    |rule: Rule| rule.passes(r)
}

/// The rules that pass on `r`, in the order in which they are evaluated.
pub open spec fn matched_rules(r: RatioVector) -> Seq<Rule> {
    all_rules().filter(passing(r))
}

/// The names of `rules`.
pub open spec fn labels(rules: Seq<Rule>) -> Seq<Seq<char>> {
    rules.map_values(|rule: Rule| rule.label())
}

/// The classification of the matrix `m`. A matrix without entries has no
/// ratios: its classification is the failure that says so.
pub open spec fn classification_of(m: Map<PairKey, Dependency>) -> ClassificationModel {
    if m.len() == 0 {
        ClassificationModel::Error(empty_matrix_message())
    } else {
        classify_ratios(ratio_vector(m))
    }
}

/// The rules that pass on the matrix `m`, in the order in which they are
/// evaluated. On a matrix without entries no rule is evaluated.
pub open spec fn matched_rules_of(m: Map<PairKey, Dependency>) -> Seq<Rule> {
    if m.len() == 0 {
        Seq::empty()
    } else {
        matched_rules(ratio_vector(m))
    }
}

/// The strings of `names`, as sequences of characters.
pub open spec fn views(names: Seq<String>) -> Seq<Seq<char>> {
    names.map_values(|name: String| name@)
}

/// A classification together with the names of the rules that passed.
#[derive(Debug, Clone, PartialEq, Eq)]
pub struct ClassificationOutput {
    pub classification: Classification,
    pub matched_rules: Vec<String>,
}

impl ClassificationOutput {
    /// The names of the matched rules, as sequences of characters.
    pub open spec fn rule_names(&self) -> Seq<Seq<char>> {
        views(self.matched_rules@)
    }

    /// The output is what classifying the ratio vector `r` gives.
    pub open spec fn classifies_ratios(&self, r: RatioVector) -> bool {
        &&& self.classification@ == classify_ratios(r)
        &&& self.rule_names() == labels(matched_rules(r))
    }

    /// The output is what classifying the matrix `m` gives.
    pub open spec fn classifies(&self, m: Map<PairKey, Dependency>) -> bool {
        &&& self.classification@ == classification_of(m)
        &&& self.rule_names() == labels(matched_rules_of(m))
    }
}

/// Adds the name of `rule` to `names` where the rule has passed.
fn record_verdict(
    names: &mut Vec<String>,
    rule: Rule,
    passed: bool,
    Ghost(r): Ghost<RatioVector>,
    Ghost(evaluated): Ghost<Seq<Rule>>,
)
    requires
        passed == rule.passes(r),
        views(old(names)@) == labels(evaluated.filter(passing(r))),
    ensures
        views(final(names)@) == labels(evaluated.push(rule).filter(passing(r))),
{
    proof {
        let extended = evaluated.push(rule);
        let kept = evaluated.filter(passing(r));
        reveal_with_fuel(Seq::<_>::filter, 2);
        assert(extended.drop_last() == evaluated);
        assert(passing(r)(extended.last()) == passed);
        assert(extended.filter(passing(r)) == if passed {
            kept.push(rule)
        } else {
            kept
        });
    }
    if passed {
        let ghost before = names@;
        let name = rule.name();
        names.push(name);
        assert(views(names@) == views(before).push(name@));
        assert(labels(evaluated.filter(passing(r)).push(rule)) == labels(
            evaluated.filter(passing(r)),
        ).push(rule.label()));
    }
}

/// The names of the rules that have passed, in the order in which the rules
/// are evaluated.
fn matched_rule_names(
    u1: bool,
    u2: bool,
    primary: &Vec<RuleCheckResult>,
    secondary: &Vec<RuleCheckResult>,
    Ghost(r): Ghost<RatioVector>,
) -> (names: Vec<String>)
    requires
        u1 == Rule::U1.passes(r),
        u2 == Rule::U2.passes(r),
        results_of(primary@, primary_rules(), r),
        results_of(secondary@, secondary_rules(), r),
    ensures
        views(names@) == labels(matched_rules(r)),
{
    let mut names: Vec<String> = Vec::new();
    let ghost mut evaluated = Seq::<Rule>::empty();
    assert(views(names@) == labels(evaluated.filter(passing(r))));
    record_verdict(&mut names, Rule::U1, u1, Ghost(r), Ghost(evaluated));
    proof {
        evaluated = evaluated.push(Rule::U1);
    }
    record_verdict(&mut names, Rule::U2, u2, Ghost(r), Ghost(evaluated));
    proof {
        evaluated = evaluated.push(Rule::U2);
        assert(primary_rules()[0] == Rule::S1);
    }
    record_verdict(&mut names, Rule::S1, primary[0].0, Ghost(r), Ghost(evaluated));
    proof {
        evaluated = evaluated.push(Rule::S1);
        assert(primary_rules()[1] == Rule::S2);
    }
    record_verdict(&mut names, Rule::S2, primary[1].0, Ghost(r), Ghost(evaluated));
    proof {
        evaluated = evaluated.push(Rule::S2);
        assert(primary_rules()[2] == Rule::S3);
    }
    record_verdict(&mut names, Rule::S3, primary[2].0, Ghost(r), Ghost(evaluated));
    proof {
        evaluated = evaluated.push(Rule::S3);
        assert(primary_rules()[3] == Rule::SS1);
    }
    record_verdict(&mut names, Rule::SS1, primary[3].0, Ghost(r), Ghost(evaluated));
    proof {
        evaluated = evaluated.push(Rule::SS1);
        assert(primary_rules()[4] == Rule::SS2);
    }
    record_verdict(&mut names, Rule::SS2, primary[4].0, Ghost(r), Ghost(evaluated));
    proof {
        evaluated = evaluated.push(Rule::SS2);
        assert(primary_rules()[5] == Rule::LS1);
    }
    record_verdict(&mut names, Rule::LS1, primary[5].0, Ghost(r), Ghost(evaluated));
    proof {
        evaluated = evaluated.push(Rule::LS1);
        assert(primary_rules()[6] == Rule::LS2);
    }
    record_verdict(&mut names, Rule::LS2, primary[6].0, Ghost(r), Ghost(evaluated));
    proof {
        evaluated = evaluated.push(Rule::LS2);
        assert(secondary_rules()[0] == Rule::BS1);
    }
    record_verdict(&mut names, Rule::BS1, secondary[0].0, Ghost(r), Ghost(evaluated));
    proof {
        evaluated = evaluated.push(Rule::BS1);
        assert(secondary_rules()[1] == Rule::BS2);
    }
    record_verdict(&mut names, Rule::BS2, secondary[1].0, Ghost(r), Ghost(evaluated));
    proof {
        evaluated = evaluated.push(Rule::BS2);
        assert(secondary_rules()[2] == Rule::BL1);
    }
    record_verdict(&mut names, Rule::BL1, secondary[2].0, Ghost(r), Ghost(evaluated));
    proof {
        evaluated = evaluated.push(Rule::BL1);
        assert(evaluated == all_rules());
    }
    names
}

/// The category of a set that holds exactly one.
fn single_category(matched: &CategorySet) -> (category: RuleCategory)
    requires
        matched@.finite(),
        matched@.len() == 1,
    ensures
        matched@.contains(category),
        forall|other: RuleCategory| matched@.contains(other) ==> other == category,
{
    let category = if matched.contains(&RuleCategory::Structured) {
        RuleCategory::Structured
    } else if matched.contains(&RuleCategory::SemiStructured) {
        RuleCategory::SemiStructured
    } else {
        RuleCategory::LooselyStructured
    };
    proof {
        if !matched@.contains(category) {
            assert(matched@ =~= Set::<RuleCategory>::empty());
        }
        assert(matched@.remove(category).len() == 0);
        assert forall|other: RuleCategory| matched@.contains(other) implies other == category by {
            if other != category {
                assert(matched@.remove(category).contains(other));
            }
        }
    }
    category
}

/// Classifies a log by the nine ratios of its dependency matrix.
///
/// All twelve rules are evaluated. The classification follows their order of
/// precedence, and the names of the rules that passed come with it.
pub fn classify_percentages(p: &CalculatedPercentages) -> (output: ClassificationOutput)
    ensures
        output.classifies_ratios(p@),
        Rule::U1.passes(p@) || Rule::U2.passes(p@) ==> output.classification
            == Classification::Unstructured,
{
    let u1 = check_rule_u1(p);
    let u2 = check_rule_u2(p);
    let (primary_matched, primary_results) = apply_primary_rules(p);
    let (secondary_matched, secondary_results) = apply_secondary_rules(p);
    let matched_rules = matched_rule_names(
        u1,
        u2,
        &primary_results,
        &secondary_results,
        Ghost(p@),
    );
    let classification = resolve(
        u1,
        u2,
        &primary_matched,
        &primary_results,
        &secondary_matched,
        &secondary_results,
        Ghost(p@),
    );
    ClassificationOutput { classification, matched_rules }
}

/// Applies the order of precedence to the verdicts of the rules.
fn resolve(
    u1: bool,
    u2: bool,
    primary_matched: &CategorySet,
    primary_results: &Vec<RuleCheckResult>,
    secondary_matched: &CategorySet,
    secondary_results: &Vec<RuleCheckResult>,
    Ghost(r): Ghost<RatioVector>,
) -> (classification: Classification)
    requires
        u1 == Rule::U1.passes(r),
        u2 == Rule::U2.passes(r),
        primary_matched@ == matched_categories(primary_rules(), r),
        results_of(primary_results@, primary_rules(), r),
        secondary_matched@ == matched_categories(secondary_rules(), r),
        results_of(secondary_results@, secondary_rules(), r),
    ensures
        classification@ == classify_ratios(r),
        u1 || u2 ==> classification == Classification::Unstructured,
{
    if u1 {
        return Classification::Unstructured;
    }
    if u2 {
        return Classification::Unstructured;
    }
    let primary_count = primary_matched.len();
    if primary_count == 1 {
        return category_to_classification(single_category(primary_matched));
    } else if primary_count > 1 {
        let s_matched = primary_matched.contains(&RuleCategory::Structured);
        let ss_matched = primary_matched.contains(&RuleCategory::SemiStructured);
        let ls_matched = primary_matched.contains(&RuleCategory::LooselyStructured);
        proof {
            lemma_two_of_three(primary_matched@);
        }
        if s_matched && ss_matched && !ls_matched {
            return Classification::StructuredSemiStructured;
        } else if !s_matched && ss_matched && ls_matched {
            return Classification::SemiStructuredLooselyStructured;
        }
    } else {
        assert(primary_matched@ =~= Set::<RuleCategory>::empty()) by {
            primary_matched@.lemma_len0_is_empty();
        }
    }
    assert(primary_verdict(primary_matched@) is None);

    let secondary_count = secondary_matched.len();
    if secondary_count == 1 {
        return category_to_classification(single_category(secondary_matched));
    }
    proof {
        if secondary_count == 0 {
            secondary_matched@.lemma_len0_is_empty();
            assert(secondary_matched@ =~= Set::<RuleCategory>::empty());
        } else {
            lemma_two_of_three(secondary_matched@);
        }
        assert(secondary_verdict(secondary_matched@) is None);
        lemma_scores(primary_results@, secondary_results@, r);
    }
    calculate_by_most_indicators(primary_results.as_slice(), secondary_results.as_slice())
}

/// A finite set of categories with more than one member holds at least two
/// of the three.
proof fn lemma_two_of_three(matched: Set<RuleCategory>)
    requires
        matched.finite(),
        matched.len() > 1,
    ensures
        (matched.contains(RuleCategory::Structured) && matched.contains(
            RuleCategory::SemiStructured,
        )) || (matched.contains(RuleCategory::Structured) && matched.contains(
            RuleCategory::LooselyStructured,
        )) || (matched.contains(RuleCategory::SemiStructured) && matched.contains(
            RuleCategory::LooselyStructured,
        )),
{
    let a = matched.choose();
    let rest = matched.remove(a);
    assert(rest.len() >= 1);
    let b = rest.choose();
    assert(matched.contains(a) && matched.contains(b) && a != b);
}

/// The scores computed from the results of the rules are the scores of the
/// categories.
proof fn lemma_scores(primary: Seq<RuleCheckResult>, secondary: Seq<RuleCheckResult>, r: RatioVector)
    requires
        results_of(primary, primary_rules(), r),
        results_of(secondary, secondary_rules(), r),
    ensures
        forall|category: RuleCategory| #[trigger]
            score_of(category, primary, secondary) == category_score(category, r),
{
    let first = primary_rules();
    let second = secondary_rules();
    assert(first[0] == Rule::S1 && primary[0].1@ == first[0].conditions(r));
    assert(first[1] == Rule::S2 && primary[1].1@ == first[1].conditions(r));
    assert(first[2] == Rule::S3 && primary[2].1@ == first[2].conditions(r));
    assert(first[3] == Rule::SS1 && primary[3].1@ == first[3].conditions(r));
    assert(first[4] == Rule::SS2 && primary[4].1@ == first[4].conditions(r));
    assert(first[5] == Rule::LS1 && primary[5].1@ == first[5].conditions(r));
    assert(first[6] == Rule::LS2 && primary[6].1@ == first[6].conditions(r));
    assert(second[0] == Rule::BS1 && secondary[0].1@ == second[0].conditions(r));
    assert(second[1] == Rule::BS2 && secondary[1].1@ == second[1].conditions(r));
    assert(second[2] == Rule::BL1 && secondary[2].1@ == second[2].conditions(r));
}

/// Classifies a log by its dependency matrix.
///
/// A matrix without entries cannot be classified; the answer is then the
/// failure that says so, with no matched rule. Any other matrix is classified
/// by its nine ratios.
pub fn classify_matrix(matrix: &InputMatrix) -> (output: ClassificationOutput)
    ensures
        output.classifies(matrix@),
        matrix@.len() == 0 ==> output.classification@ == ClassificationModel::Error(
            empty_matrix_message(),
        ) && output.matched_rules@.len() == 0,
        matrix@.len() > 0 && (Rule::U1.passes(ratio_vector(matrix@)) || Rule::U2.passes(
            ratio_vector(matrix@),
        )) ==> output.classification == Classification::Unstructured,
{
    let percentages = match CalculatedPercentages::new(matrix) {
        Ok(p) => p,
        Err(e) => {
            let output = ClassificationOutput {
                classification: Classification::Error(e),
                matched_rules: Vec::new(),
            };
            assert(output.rule_names() == labels(Seq::<Rule>::empty()));
            return output;
        },
    };
    classify_percentages(&percentages)
}

/// Classification is a function of the matrix: any two answers to the same
/// matrix hold the same classification and the same list of matched rules.
pub proof fn lemma_classification_deterministic(
    first_matrix: InputMatrix,
    second_matrix: InputMatrix,
    first: ClassificationOutput,
    second: ClassificationOutput,
)
    requires
        first_matrix@ == second_matrix@,
        first.classifies(first_matrix@),
        second.classifies(second_matrix@),
    ensures
        first.classification@ == second.classification@,
        first.rule_names() == second.rule_names(),
{
}

/// Classification does not depend on the order of the entries: two matrices
/// that hold the same entries, in whatever order, are the same map, and so
/// have the same ratios, the same classification and the same matched rules.
pub proof fn lemma_classification_order_independent(first: InputMatrix, second: InputMatrix)
    requires
        first.wf(),
        second.wf(),
        first.entries().to_multiset() == second.entries().to_multiset(),
    ensures
        first@ == second@,
        ratio_vector(first@) == ratio_vector(second@),
        classification_of(first@) == classification_of(second@),
        matched_rules_of(first@) == matched_rules_of(second@),
{
    crate::matrix::lemma_permutation_same_map(first.entries(), second.entries());
}

/// The unstructured rules override all others: where U1 or U2 passes on the
/// ratios of a matrix, the matrix is unstructured, whatever the other rules
/// say.
pub proof fn lemma_unstructured_overrides(m: Map<PairKey, Dependency>)
    requires
        m.len() > 0,
        Rule::U1.passes(ratio_vector(m)) || Rule::U2.passes(ratio_vector(m)),
    ensures
        classification_of(m) == ClassificationModel::Unstructured,
{
}

/// A matrix without entries is never given a category: its classification
/// is the failure that names the empty matrix, with no matched rule. No
/// matrix with entries gets that answer.
pub proof fn lemma_empty_matrix_is_an_error(m: Map<PairKey, Dependency>)
    ensures
        m.len() == 0 ==> classification_of(m) == ClassificationModel::Error(empty_matrix_message())
            && matched_rules_of(m) == Seq::<Rule>::empty(),
        m.len() > 0 ==> classification_of(m) != ClassificationModel::Error(empty_matrix_message()),
{
    reveal_strlit("Input matrix is empty");
    reveal_strlit("no category had significant indicators");
    assert(empty_matrix_message().len() != no_indicators_message().len());
}

} // verus!
