use std::collections::VecDeque;

use rlogg::history::{add_to_history, MAX_HISTORY};

fn patterns(history: &VecDeque<String>) -> Vec<&str> {
    history.iter().map(|pattern| pattern.as_str()).collect()
}

#[test]
fn the_latest_pattern_comes_first() {
    let mut history = VecDeque::new();
    add_to_history(&mut history, "a".to_owned());
    add_to_history(&mut history, "b".to_owned());
    assert_eq!(patterns(&history), vec!["b", "a"]);
}

#[test]
fn an_old_pattern_moves_to_the_front() {
    let mut history = VecDeque::new();
    for pattern in ["a", "b", "c", "a"] {
        add_to_history(&mut history, pattern.to_owned());
    }
    assert_eq!(patterns(&history), vec!["a", "c", "b"]);
    add_to_history(&mut history, "a".to_owned());
    assert_eq!(patterns(&history), vec!["a", "c", "b"]);
}

#[test]
fn the_empty_pattern_is_not_remembered() {
    let mut history = VecDeque::new();
    add_to_history(&mut history, "a".to_owned());
    add_to_history(&mut history, String::new());
    assert_eq!(patterns(&history), vec!["a"]);
}

#[test]
fn the_oldest_pattern_is_forgotten_when_there_are_too_many() {
    let mut history = VecDeque::new();
    for n in 0..25 {
        add_to_history(&mut history, format!("p{}", n));
    }
    assert_eq!(history.len(), MAX_HISTORY);
    assert_eq!(history.len(), 20);
    assert_eq!(history.front().unwrap(), "p24");
    assert_eq!(history.back().unwrap(), "p5");
    add_to_history(&mut history, "p10".to_owned());
    assert_eq!(history.len(), 20);
    assert_eq!(history.back().unwrap(), "p5");
}
