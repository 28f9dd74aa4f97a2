use std::cmp::Ordering;

use rookreader::natural::{natural_compare, sort_natural};

fn sorted(names: Vec<&str>) -> Vec<String> {
    sort_natural(names.into_iter().map(String::from).collect())
}

#[test]
fn test_numeric_runs_compare_as_numbers() {
    let r = sorted(vec!["10.png", "2.png", "1.png"]);
    assert_eq!(r, vec!["1.png", "2.png", "10.png"]);
}

#[test]
fn test_plain_names_sort_alphabetically() {
    let r = sorted(vec!["b.png", "a.jpg"]);
    assert_eq!(r, vec!["a.jpg", "b.png"]);
}

#[test]
fn test_sort_is_case_insensitive() {
    let r = sorted(vec!["B.png", "a.png", "C.png"]);
    assert_eq!(r, vec!["a.png", "B.png", "C.png"]);
}

#[test]
fn test_leading_zeros_compare_by_value_then_zeros() {
    let r = sorted(vec!["1.002", "1.010", "1.02", "1.1", "1.001", "1.3"]);
    assert_eq!(r, vec!["1.001", "1.002", "1.010", "1.02", "1.1", "1.3"]);
}

#[test]
fn test_compare_signs() {
    assert_eq!(natural_compare(&"a2".to_string(), &"a10".to_string()), -1);
    assert_eq!(natural_compare(&"a10".to_string(), &"a2".to_string()), 1);
    assert_eq!(natural_compare(&"a10".to_string(), &"a10".to_string()), 0);
}

#[test]
fn test_agrees_with_reference_comparator() {
    // The ordering must agree with the crate the reading order was modelled
    // on for names without whitespace or case-folding ties.
    let names = vec![
        "a", "a0", "a1", "a1a", "a1b", "a2", "a10", "a20", "x2-g8", "x2-y7", "x2-y8", "x8-y8",
        "1-02", "1-2", "1-20", "10-20", "pic2", "pic2a", "pic3", "pic100", "pic100a", "pic120",
        "pic121", "pic2000",
    ];
    for a in &names {
        for b in &names {
            let mine = natural_compare(&a.to_string(), &b.to_string());
            let reference = match natord::compare_ignore_case(a, b) {
                Ordering::Less => -1,
                Ordering::Equal => 0,
                Ordering::Greater => 1,
            };
            assert_eq!(mine as i32, reference, "disagree on {:?} vs {:?}", a, b);
        }
    }
}
