use event_log_classifier::classification::{CalculatedPercentages, InputMatrix};
use event_log_classifier::dependency_types::dependency::Dependency;
use event_log_classifier::dependency_types::existential::{
    DependencyType as ExistentialType, Direction as ExistentialDirection, ExistentialDependency,
};
use event_log_classifier::dependency_types::temporal::{
    DependencyType as TemporalType, Direction as TemporalDirection, TemporalDependency,
};
use event_log_classifier::features::Feature;

const ALL_FEATURES: [Feature; 9] = [
    Feature::NoneNone,
    Feature::NoneImplication,
    Feature::NoneEquivalence,
    Feature::NoneNegatedEquivalence,
    Feature::EventualEquivalence,
    Feature::EventualImplication,
    Feature::EventualAnyExistential,
    Feature::DirectAnyExistential,
    Feature::DirectNone,
];

// Adds `count` entries with the given kinds of relation, each under a key of its own.
fn add(
    matrix: &mut InputMatrix,
    count: usize,
    temporal: Option<TemporalType>,
    existential: Option<ExistentialType>,
) {
    for _ in 0..count {
        let from = format!("A{}", matrix.len());
        let to = format!("B{}", matrix.len());
        let dependency = Dependency::new(
            from.clone(),
            to.clone(),
            temporal.map(|kind| TemporalDependency::new(&from, &to, kind, TemporalDirection::Forward)),
            existential
                .map(|kind| ExistentialDependency::new(&from, &to, kind, ExistentialDirection::Both)),
        );
        matrix.insert((from, to), dependency);
    }
}

fn counts_of(p: &CalculatedPercentages) -> Vec<usize> {
    ALL_FEATURES.iter().map(|f| p.count(*f)).collect()
}

#[test]
fn empty_matrix_has_no_ratios() {
    let matrix = InputMatrix::new();
    let result = CalculatedPercentages::new(&matrix);
    assert_eq!(result.err(), Some("Input matrix is empty".to_string()));
}

#[test]
fn single_entry_gives_ratios() {
    let mut matrix = InputMatrix::new();
    add(&mut matrix, 1, None, None);
    let p = CalculatedPercentages::new(&matrix).unwrap();
    assert_eq!(p.total(), 1);
    assert_eq!(counts_of(&p), vec![1, 0, 0, 0, 0, 0, 0, 0, 0]);
}

#[test]
fn every_kind_of_entry_is_counted_where_it_belongs() {
    let mut matrix = InputMatrix::new();
    add(&mut matrix, 1, None, None);
    add(&mut matrix, 2, None, Some(ExistentialType::Implication));
    add(&mut matrix, 3, None, Some(ExistentialType::Equivalence));
    add(&mut matrix, 4, None, Some(ExistentialType::NegatedEquivalence));
    add(&mut matrix, 5, Some(TemporalType::Eventual), Some(ExistentialType::Equivalence));
    add(&mut matrix, 6, Some(TemporalType::Eventual), Some(ExistentialType::Implication));
    add(&mut matrix, 7, Some(TemporalType::Eventual), Some(ExistentialType::NegatedEquivalence));
    add(&mut matrix, 8, Some(TemporalType::Direct), Some(ExistentialType::Implication));
    add(&mut matrix, 9, Some(TemporalType::Direct), None);
    let p = CalculatedPercentages::new(&matrix).unwrap();
    assert_eq!(p.total(), 45);
    assert_eq!(p.count(Feature::NoneNone), 1);
    assert_eq!(p.count(Feature::NoneImplication), 2);
    assert_eq!(p.count(Feature::NoneEquivalence), 3);
    assert_eq!(p.count(Feature::NoneNegatedEquivalence), 4);
    assert_eq!(p.count(Feature::EventualEquivalence), 5);
    assert_eq!(p.count(Feature::EventualImplication), 6);
    assert_eq!(p.count(Feature::EventualAnyExistential), 18);
    assert_eq!(p.count(Feature::DirectAnyExistential), 8);
    assert_eq!(p.count(Feature::DirectNone), 9);
}

#[test]
fn nand_and_or_without_temporal_relation_are_counted_nowhere() {
    let mut matrix = InputMatrix::new();
    add(&mut matrix, 3, None, Some(ExistentialType::Nand));
    add(&mut matrix, 2, None, Some(ExistentialType::Or));
    let p = CalculatedPercentages::new(&matrix).unwrap();
    assert_eq!(p.total(), 5);
    assert_eq!(counts_of(&p), vec![0; 9]);
}

#[test]
fn nand_and_or_with_temporal_relation_count_as_any_existential() {
    let mut matrix = InputMatrix::new();
    add(&mut matrix, 1, Some(TemporalType::Eventual), Some(ExistentialType::Nand));
    add(&mut matrix, 1, Some(TemporalType::Eventual), Some(ExistentialType::Or));
    add(&mut matrix, 1, Some(TemporalType::Direct), Some(ExistentialType::Nand));
    add(&mut matrix, 1, Some(TemporalType::Direct), Some(ExistentialType::Or));
    let p = CalculatedPercentages::new(&matrix).unwrap();
    assert_eq!(p.total(), 4);
    assert_eq!(counts_of(&p), vec![0, 0, 0, 0, 0, 0, 2, 2, 0]);
}

#[test]
fn eventual_without_existential_relation_is_counted_nowhere() {
    let mut matrix = InputMatrix::new();
    add(&mut matrix, 4, Some(TemporalType::Eventual), None);
    let p = CalculatedPercentages::new(&matrix).unwrap();
    assert_eq!(p.total(), 4);
    assert_eq!(counts_of(&p), vec![0; 9]);
}

#[test]
fn direct_with_existential_relation_is_not_broken_out_by_kind() {
    let mut matrix = InputMatrix::new();
    add(&mut matrix, 2, Some(TemporalType::Direct), Some(ExistentialType::Equivalence));
    add(&mut matrix, 3, Some(TemporalType::Direct), Some(ExistentialType::Implication));
    add(&mut matrix, 1, Some(TemporalType::Direct), Some(ExistentialType::NegatedEquivalence));
    let p = CalculatedPercentages::new(&matrix).unwrap();
    assert_eq!(counts_of(&p), vec![0, 0, 0, 0, 0, 0, 0, 6, 0]);
}

#[test]
fn every_ratio_lies_between_zero_and_one() {
    let mut matrix = InputMatrix::new();
    add(&mut matrix, 7, None, None);
    add(&mut matrix, 5, Some(TemporalType::Eventual), Some(ExistentialType::Equivalence));
    add(&mut matrix, 2, Some(TemporalType::Direct), None);
    add(&mut matrix, 1, None, Some(ExistentialType::Or));
    let p = CalculatedPercentages::new(&matrix).unwrap();
    assert!(p.total() > 0);
    for f in ALL_FEATURES {
        assert!(p.count(f) <= p.total());
        assert!(p.at_least(f, 0));
        assert!(p.at_most(f, 100));
        let ratio = p.count(f) as f64 / p.total() as f64;
        assert!((0.0..=1.0).contains(&ratio));
    }
}

#[test]
fn replacing_an_entry_does_not_count_it_twice() {
    let mut matrix = InputMatrix::new();
    add(&mut matrix, 2, None, None);
    let replaced = matrix.insert(
        ("A0".to_string(), "B0".to_string()),
        Dependency::new(
            "A0".to_string(),
            "B0".to_string(),
            Some(TemporalDependency::new("A0", "B0", TemporalType::Direct, TemporalDirection::Forward)),
            None,
        ),
    );
    assert!(replaced.is_some());
    let p = CalculatedPercentages::new(&matrix).unwrap();
    assert_eq!(p.total(), 2);
    assert_eq!(p.count(Feature::NoneNone), 1);
    assert_eq!(p.count(Feature::DirectNone), 1);
}

#[test]
fn comparisons_are_exact_at_the_threshold() {
    // 3 of 20 entries are 15 hundredths exactly.
    let mut matrix = InputMatrix::new();
    add(&mut matrix, 3, None, Some(ExistentialType::Implication));
    add(&mut matrix, 17, None, None);
    let p = CalculatedPercentages::new(&matrix).unwrap();
    let f = Feature::NoneImplication;
    assert!(p.at_most(f, 15));
    assert!(p.at_least(f, 15));
    assert!(!p.below(f, 15));
    assert!(!p.above(f, 15));
    assert!(p.below(f, 16));
    assert!(p.above(f, 14));
    assert!(!p.at_most(f, 14));
    assert!(!p.at_least(f, 16));
}

#[test]
fn comparisons_are_exact_where_the_ratio_is_no_whole_number_of_hundredths() {
    // 1 of 3 entries lies strictly between 33 and 34 hundredths.
    let mut matrix = InputMatrix::new();
    add(&mut matrix, 1, Some(TemporalType::Direct), None);
    add(&mut matrix, 2, None, None);
    let p = CalculatedPercentages::new(&matrix).unwrap();
    let f = Feature::DirectNone;
    assert!(p.above(f, 33));
    assert!(p.at_least(f, 33));
    assert!(!p.at_most(f, 33));
    assert!(!p.below(f, 33));
    assert!(p.below(f, 34));
    assert!(p.at_most(f, 34));
    assert!(!p.above(f, 34));
    assert!(!p.at_least(f, 34));
}

#[test]
fn comparisons_with_the_ends_of_the_interval() {
    let mut matrix = InputMatrix::new();
    add(&mut matrix, 4, None, None);
    let p = CalculatedPercentages::new(&matrix).unwrap();
    assert!(p.at_least(Feature::NoneNone, 100));
    assert!(!p.above(Feature::NoneNone, 100));
    assert!(!p.below(Feature::NoneNone, 100));
    assert!(p.at_most(Feature::DirectNone, 0));
    assert!(!p.below(Feature::DirectNone, 0));
    assert!(!p.above(Feature::DirectNone, 0));
    assert!(p.below(Feature::NoneNone, 255));
}
