use event_log_classifier::classification::{
    calculate_by_most_indicators, category_to_classification, classify_matrix,
    classify_percentages, CalculatedPercentages, Classification, ClassificationOutput, InputMatrix,
    RuleCategory, RuleCheckResult,
};
use event_log_classifier::dependency_types::dependency::Dependency;
use event_log_classifier::dependency_types::existential::{
    DependencyType as ExistentialType, Direction as ExistentialDirection, ExistentialDependency,
};
use event_log_classifier::dependency_types::temporal::{
    DependencyType as TemporalType, Direction as TemporalDirection, TemporalDependency,
};

// The entries of a matrix with the given numbers of entries, in the order
// (none, none), (none, implication), (none, equivalence),
// (none, negated equivalence), (direct, none), (direct, implication),
// (direct, equivalence), (eventual, none), (eventual, implication),
// (eventual, equivalence).
fn entries(counts: [usize; 10]) -> Vec<((String, String), Dependency)> {
    let direct = Some(TemporalType::Direct);
    let eventual = Some(TemporalType::Eventual);
    let implication = Some(ExistentialType::Implication);
    let equivalence = Some(ExistentialType::Equivalence);
    let negated = Some(ExistentialType::NegatedEquivalence);
    let kinds = [
        (None, None),
        (None, implication),
        (None, equivalence),
        (None, negated),
        (direct, None),
        (direct, implication),
        (direct, equivalence),
        (eventual, None),
        (eventual, implication),
        (eventual, equivalence),
    ];
    let mut entries = Vec::new();
    for (count, (temporal, existential)) in counts.iter().zip(kinds.iter()) {
        for _ in 0..*count {
            let from = format!("A{}", entries.len());
            let to = format!("B{}", entries.len());
            let dependency = Dependency::new(
                from.clone(),
                to.clone(),
                temporal
                    .map(|kind| TemporalDependency::new(&from, &to, kind, TemporalDirection::Forward)),
                existential.map(|kind| {
                    ExistentialDependency::new(&from, &to, kind, ExistentialDirection::Both)
                }),
            );
            entries.push(((from, to), dependency));
        }
    }
    entries
}

fn matrix_of(entries: Vec<((String, String), Dependency)>) -> InputMatrix {
    let mut matrix = InputMatrix::new();
    for (key, dependency) in entries {
        matrix.insert(key, dependency);
    }
    matrix
}

fn classify(counts: [usize; 10]) -> ClassificationOutput {
    classify_matrix(&matrix_of(entries(counts)))
}

// The result of a rule with `holding` conditions that hold and `failing` that do not.
fn result(holding: usize, failing: usize) -> RuleCheckResult {
    let mut conditions = vec![true; holding];
    conditions.extend(vec![false; failing]);
    (failing == 0, conditions)
}

// Results of the seven primary rules, given the number of conditions that hold in each.
fn primary(holding: [usize; 7]) -> Vec<RuleCheckResult> {
    let sizes = [4, 4, 1, 4, 4, 4, 4];
    holding.iter().zip(sizes.iter()).map(|(h, size)| result(*h, size - h)).collect()
}

// Results of the three secondary rules, given the number of conditions that hold in each.
fn secondary(holding: [usize; 3]) -> Vec<RuleCheckResult> {
    let sizes = [3, 2, 2];
    holding.iter().zip(sizes.iter()).map(|(h, size)| result(*h, size - h)).collect()
}

#[test]
fn empty_matrix_is_an_error_without_matched_rules() {
    let output = classify_matrix(&InputMatrix::new());
    assert_eq!(output.classification, Classification::Error("Input matrix is empty".to_string()));
    assert!(output.matched_rules.is_empty());
}

#[test]
fn scenario_unstructured_by_u1() {
    let output = classify([81, 0, 0, 0, 5, 0, 0, 5, 0, 0]);
    assert_eq!(output.classification, Classification::Unstructured);
    assert!(output.matched_rules.contains(&"U1".to_string()));
    assert!(!output.matched_rules.contains(&"U2".to_string()));
}

#[test]
fn scenario_unstructured_by_u2() {
    let output = classify([0, 0, 81, 0, 0, 0, 0, 0, 0, 19]);
    assert_eq!(output.classification, Classification::Unstructured);
    assert_eq!(output.matched_rules, vec!["U2"]);
}

#[test]
fn scenario_structured_by_s1_and_s2() {
    let output = classify([4, 9, 0, 0, 35, 0, 0, 0, 41, 11]);
    assert_eq!(output.classification, Classification::Structured);
    assert_eq!(output.matched_rules, vec!["S1", "S2"]);
}

#[test]
fn scenario_semi_structured() {
    let output = classify([19, 41, 0, 0, 0, 0, 0, 0, 0, 40]);
    assert_eq!(output.classification, Classification::SemiStructured);
    assert_eq!(output.matched_rules, vec!["SS2", "BS2"]);
}

#[test]
fn scenario_semi_structured_loosely_structured() {
    let output = classify([33, 33, 0, 17, 0, 0, 0, 0, 17, 0]);
    assert_eq!(output.classification, Classification::SemiStructuredLooselyStructured);
    assert_eq!(output.matched_rules, vec!["SS1", "LS1"]);
}

#[test]
fn unstructured_overrides_passing_rules_of_other_tiers() {
    // U1 passes, and so do LS1, LS2 and BL1.
    let output = classify([81, 0, 0, 0, 5, 0, 0, 5, 0, 0]);
    assert_eq!(output.classification, Classification::Unstructured);
    assert_eq!(output.matched_rules, vec!["U1", "LS1", "LS2", "BL1"]);
}

#[test]
fn structured_and_semi_structured_give_the_compound() {
    let output = classify([4, 9, 0, 0, 41, 0, 0, 0, 35, 11]);
    assert_eq!(output.classification, Classification::StructuredSemiStructured);
    assert_eq!(output.matched_rules, vec!["S2", "SS2"]);
}

#[test]
fn structured_and_loosely_structured_fall_through_to_the_scores() {
    // S3 and LS1 pass, no secondary rule does. The scores are 6 for
    // structured, 8 for semi-structured and 15 for loosely structured.
    let output = classify([30, 0, 0, 10, 60, 0, 0, 0, 0, 0]);
    assert_eq!(output.classification, Classification::LooselyStructured);
    assert_eq!(output.matched_rules, vec!["S3", "LS1"]);
}

#[test]
fn single_secondary_rule_decides_where_no_primary_rule_passes() {
    let output = classify([61, 0, 0, 0, 0, 0, 0, 0, 39, 0]);
    assert_eq!(output.classification, Classification::LooselyStructured);
    assert_eq!(output.matched_rules, vec!["BL1"]);
}

#[test]
fn scores_decide_where_no_rule_passes() {
    // The scores are 10 for structured, 4 for semi-structured and 7 for
    // loosely structured.
    let output = classify([30, 0, 0, 0, 0, 0, 0, 0, 40, 30]);
    assert_eq!(output.classification, Classification::Structured);
    assert!(output.matched_rules.is_empty());
}

#[test]
fn classifying_twice_gives_the_same_answer() {
    let matrix = matrix_of(entries([23, 14, 0, 14, 0, 10, 0, 10, 24, 5]));
    let first = classify_matrix(&matrix);
    let second = classify_matrix(&matrix);
    assert_eq!(first, second);
    assert_eq!(first.classification, Classification::LooselyStructured);
}

#[test]
fn order_of_the_entries_does_not_matter() {
    let all_counts = [
        [81, 0, 0, 0, 5, 0, 0, 5, 0, 0],
        [4, 9, 0, 0, 35, 0, 0, 0, 41, 11],
        [33, 33, 0, 17, 0, 0, 0, 0, 17, 0],
        [30, 0, 0, 10, 60, 0, 0, 0, 0, 0],
        [6, 21, 11, 3, 0, 11, 6, 0, 17, 25],
    ];
    for counts in all_counts {
        let forward = entries(counts);
        let mut backward = forward.clone();
        backward.reverse();
        let mut interleaved = Vec::new();
        let half = forward.len() / 2;
        for i in 0..half {
            interleaved.push(forward[half + i].clone());
            interleaved.push(forward[i].clone());
        }
        interleaved.extend(forward[2 * half..].iter().cloned());
        let expected = classify_matrix(&matrix_of(forward));
        assert_eq!(classify_matrix(&matrix_of(backward)), expected);
        assert_eq!(classify_matrix(&matrix_of(interleaved)), expected);
    }
}

#[test]
fn classifying_the_ratios_is_classifying_the_matrix() {
    let matrix = matrix_of(entries([0, 28, 5, 0, 0, 0, 10, 0, 0, 57]));
    let p = CalculatedPercentages::new(&matrix).unwrap();
    assert_eq!(classify_percentages(&p), classify_matrix(&matrix));
    assert_eq!(classify_percentages(&p).classification, Classification::SemiStructured);
}

#[test]
fn categories_stand_for_their_classifications() {
    assert_eq!(category_to_classification(RuleCategory::Structured), Classification::Structured);
    assert_eq!(
        category_to_classification(RuleCategory::SemiStructured),
        Classification::SemiStructured
    );
    assert_eq!(
        category_to_classification(RuleCategory::LooselyStructured),
        Classification::LooselyStructured
    );
}

#[test]
fn no_condition_holding_is_an_error() {
    let classification =
        calculate_by_most_indicators(&primary([0, 0, 0, 0, 0, 0, 0]), &secondary([0, 0, 0]));
    assert_eq!(
        classification,
        Classification::Error("no category had significant indicators".to_string())
    );
}

#[test]
fn highest_score_wins() {
    // 2 * (1 + 0 + 0) + 0 = 2 against 0 and 1
    let classification =
        calculate_by_most_indicators(&primary([1, 0, 0, 0, 0, 0, 0]), &secondary([0, 0, 1]));
    assert_eq!(classification, Classification::Structured);
    // 2 * (2 + 1) + 0 = 6 against 2 * (1 + 1 + 0) + 1 = 5 and 2 * (1 + 1) + 1 = 5
    let classification =
        calculate_by_most_indicators(&primary([1, 1, 0, 2, 1, 1, 1]), &secondary([1, 0, 1]));
    assert_eq!(classification, Classification::SemiStructured);
    // 2 * (0 + 0) + 2 = 2 against 2 * 0 + 1 = 1 and 0
    let classification =
        calculate_by_most_indicators(&primary([0, 0, 0, 0, 0, 0, 0]), &secondary([1, 0, 2]));
    assert_eq!(classification, Classification::LooselyStructured);
}

#[test]
fn primary_conditions_count_twice_and_secondary_ones_once() {
    // structured: 2 * 1 = 2, semi-structured: 2 from its secondary rule
    let classification =
        calculate_by_most_indicators(&primary([0, 0, 1, 0, 0, 0, 0]), &secondary([0, 2, 0]));
    assert_eq!(classification, Classification::StructuredSemiStructured);
    // structured: 2 * 1 + 1 = 3 wins over semi-structured: 2
    let classification =
        calculate_by_most_indicators(&primary([0, 0, 1, 0, 0, 0, 0]), &secondary([1, 2, 0]));
    assert_eq!(classification, Classification::Structured);
}

#[test]
fn ties_at_the_top() {
    // all three tied
    let classification =
        calculate_by_most_indicators(&primary([1, 0, 0, 1, 0, 1, 0]), &secondary([0, 0, 0]));
    assert_eq!(classification, Classification::SemiStructured);
    // structured and semi-structured tied
    let classification =
        calculate_by_most_indicators(&primary([1, 1, 0, 2, 0, 1, 0]), &secondary([0, 0, 0]));
    assert_eq!(classification, Classification::StructuredSemiStructured);
    // semi-structured and loosely structured tied
    let classification =
        calculate_by_most_indicators(&primary([1, 0, 0, 1, 1, 2, 0]), &secondary([0, 0, 0]));
    assert_eq!(classification, Classification::SemiStructuredLooselyStructured);
    // structured and loosely structured tied
    let classification =
        calculate_by_most_indicators(&primary([1, 1, 0, 1, 0, 2, 0]), &secondary([0, 0, 0]));
    assert_eq!(classification, Classification::SemiStructured);
}

#[test]
fn results_beyond_the_ten_rules_are_not_read() {
    let mut first = primary([0, 0, 1, 0, 0, 0, 0]);
    first.push(result(4, 0));
    let mut second = secondary([0, 0, 0]);
    second.push(result(2, 0));
    assert_eq!(calculate_by_most_indicators(&first, &second), Classification::Structured);
}
