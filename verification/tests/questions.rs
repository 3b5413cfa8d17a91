use reveal_core::questions::{decimal_string, simple_year_question, QuestionAndAnswers};
use reveal_core::rng::SeededRng;

#[test]
fn decimal_strings() {
    assert_eq!(decimal_string(0), "0");
    assert_eq!(decimal_string(7), "7");
    assert_eq!(decimal_string(10), "10");
    assert_eq!(decimal_string(999), "999");
    assert_eq!(decimal_string(2024), "2024");
    assert_eq!(decimal_string(1000000), "1000000");
}

#[test]
fn question_names_the_correct_year() {
    for seed in 0..20u64 {
        let mut rng = SeededRng::new(seed);
        let q = simple_year_question(2003, 2025, &mut rng);
        assert_eq!(q.question, "Which year was the picture taken?");
        assert_eq!(q.answers.len(), 3);
        assert!(q.idx_correct < 3);
        assert_eq!(q.answers[q.idx_correct], "2003");
    }
}

#[test]
fn answers_are_consecutive_years() {
    let mut rng = SeededRng::new(11);
    let q = simple_year_question(1999, 2025, &mut rng);
    let years: Vec<i64> = q.answers.iter().map(|a| a.parse().unwrap()).collect();
    assert_eq!(years.len(), 3);
    assert_eq!(years[1], years[0] + 1);
    assert_eq!(years[2], years[1] + 1);
    assert!(years.contains(&1999));
}

#[test]
fn a_picture_from_this_year_puts_the_answer_last() {
    // year_now - year_taken = 0 forces offset 0: the answers end with the
    // true year, and no answer lies in the future.
    let mut rng = SeededRng::new(5);
    let q = simple_year_question(2025, 2025, &mut rng);
    assert_eq!(q.answers, vec!["2023", "2024", "2025"]);
    assert_eq!(q.idx_correct, 2);
}

#[test]
fn no_answer_lies_beyond_the_current_year() {
    for seed in 0..20u64 {
        let mut rng = SeededRng::new(seed);
        let q = simple_year_question(2024, 2025, &mut rng);
        let years: Vec<i64> = q.answers.iter().map(|a| a.parse().unwrap()).collect();
        assert!(years.iter().all(|&y| y <= 2025));
        assert_eq!(years[q.idx_correct], 2024);
    }
}

#[test]
fn same_seed_reproduces_the_question() {
    let mut rng1 = SeededRng::new(77);
    let mut rng2 = SeededRng::new(77);
    let q1 = simple_year_question(1984, 2025, &mut rng1);
    let q2 = simple_year_question(1984, 2025, &mut rng2);
    assert_eq!(q1.answers, q2.answers);
    assert_eq!(q1.idx_correct, q2.idx_correct);
}

#[test]
fn default_question_is_empty() {
    let q = QuestionAndAnswers::default();
    assert_eq!(q.question, "");
    assert!(q.answers.is_empty());
    assert_eq!(q.idx_correct, 0);
}
