use keiko::cards_api::CreateCard;
use keiko::quiz_api::{
    CreateQuiz, Quiz, QuizCompletion, QuizCorrectCount, QuizHint, QuizIndex, RenameQuiz,
};
use keiko::{KeikoError, KeikoStore};

fn add_card(store: &mut KeikoStore, question: &str, code: &str, category: &str) {
    store
        .create_card(&CreateCard {
            question: question.to_string(),
            answer: "A".to_string(),
            course_code: code.to_string(),
            category: category.to_string(),
            difficulty: String::new(),
            tags: Vec::new(),
        })
        .unwrap();
}

fn new_quiz(store: &mut KeikoStore, code: &str, category: &str) -> Quiz {
    store
        .create_quiz(&CreateQuiz {
            course_code: code.to_string(),
            category: category.to_string(),
        })
        .unwrap()
}

#[test]
fn create_quiz_starts_at_zero() {
    let mut store = KeikoStore::new();
    let quiz = new_quiz(&mut store, "CS1", "intro");
    assert_eq!(quiz.current_index, 0);
    assert_eq!(quiz.correct_count, 0);
    assert!(!quiz.is_completed);
    assert!(!quiz.hint_used);
    assert!(quiz.completed_at.is_none());
    let view = store.get_quiz(quiz.id).unwrap();
    assert_eq!(view.current_index, 0);
    assert_eq!(view.card_count, 0);
    assert_eq!(view.progress, 0);
}

#[test]
fn set_index_then_get_returns_it_and_bounds_are_enforced() {
    let mut store = KeikoStore::new();
    for n in 0..5 {
        add_card(&mut store, &format!("Q{}", n), "CS1", "intro");
    }
    let quiz = new_quiz(&mut store, "CS1", "intro");
    let updated = store
        .set_current_index(quiz.id, &QuizIndex { current_index: 5 })
        .unwrap();
    assert_eq!(updated.current_index, 5);
    let view = store.get_quiz(quiz.id).unwrap();
    assert_eq!(view.current_index, 5);
    assert_eq!(view.card_count, 5);
    assert_eq!(view.progress, 100);
    let beyond = store.set_current_index(quiz.id, &QuizIndex { current_index: 6 });
    assert_eq!(beyond.unwrap_err(), KeikoError::ValidationError);
    let negative = store.set_current_index(quiz.id, &QuizIndex { current_index: -1 });
    assert_eq!(negative.unwrap_err(), KeikoError::ValidationError);
    let missing = store.set_current_index(777, &QuizIndex { current_index: 0 });
    assert_eq!(missing.unwrap_err(), KeikoError::NotFound);
}

#[test]
fn progress_is_the_index_share_of_the_card_count() {
    let mut store = KeikoStore::new();
    add_card(&mut store, "Q1", "CS1", "intro");
    add_card(&mut store, "Q2", "CS1", "intro");
    let quiz = new_quiz(&mut store, "CS1", "intro");
    store
        .set_current_index(quiz.id, &QuizIndex { current_index: 1 })
        .unwrap();
    let view = store.get_quiz(quiz.id).unwrap();
    assert_eq!(view.card_count, 2);
    assert_eq!(view.progress, 50);
}

#[test]
fn completion_sets_stamp_and_reopening_resets() {
    let mut store = KeikoStore::new();
    for n in 0..3 {
        add_card(&mut store, &format!("Q{}", n), "CS1", "intro");
    }
    let quiz = new_quiz(&mut store, "CS1", "intro");
    store
        .set_current_index(quiz.id, &QuizIndex { current_index: 2 })
        .unwrap();
    store
        .set_correct_count(quiz.id, &QuizCorrectCount { correct_count: 2 })
        .unwrap();
    let done = store
        .set_quiz_completion(&QuizCompletion {
            id: quiz.id,
            is_completed: true,
        })
        .unwrap();
    assert!(done.is_completed);
    assert!(done.completed_at.is_some());
    assert_eq!(done.current_index, 2);
    let reopened = store
        .set_quiz_completion(&QuizCompletion {
            id: quiz.id,
            is_completed: false,
        })
        .unwrap();
    assert!(!reopened.is_completed);
    assert!(reopened.completed_at.is_none());
    assert_eq!(reopened.current_index, 0);
    assert_eq!(reopened.correct_count, 0);
    let missing = store.set_quiz_completion(&QuizCompletion {
        id: 999,
        is_completed: true,
    });
    assert_eq!(missing.unwrap_err(), KeikoError::NotFound);
}

#[test]
fn ongoing_and_completed_filter_by_state() {
    let mut store = KeikoStore::new();
    let a = new_quiz(&mut store, "CS1", "intro");
    let b = new_quiz(&mut store, "CS1", "deep");
    store
        .set_quiz_completion(&QuizCompletion {
            id: a.id,
            is_completed: true,
        })
        .unwrap();
    let ongoing = store.get_ongoing_quizzes().unwrap();
    assert_eq!(ongoing.len(), 1);
    assert_eq!(ongoing[0].id, b.id);
    let completed = store.get_completed_quizzes().unwrap();
    assert_eq!(completed.len(), 1);
    assert_eq!(completed[0].id, a.id);
    assert_eq!(store.get_quizzes().unwrap().len(), 2);
}

#[test]
fn update_quiz_validates_and_applies() {
    let mut store = KeikoStore::new();
    add_card(&mut store, "Q1", "CS1", "intro");
    let quiz = new_quiz(&mut store, "CS1", "intro");
    let mut change = quiz.clone();
    change.current_index = 1;
    change.correct_count = 1;
    change.is_completed = true;
    let updated = store.update_quiz(&change).unwrap();
    assert_eq!(updated.current_index, 1);
    assert_eq!(updated.correct_count, 1);
    assert!(updated.is_completed);
    assert!(updated.completed_at.is_some());
    let mut bad = quiz.clone();
    bad.correct_count = -1;
    assert_eq!(
        store.update_quiz(&bad).unwrap_err(),
        KeikoError::ValidationError
    );
    let mut far = quiz.clone();
    far.current_index = 9;
    assert_eq!(
        store.update_quiz(&far).unwrap_err(),
        KeikoError::ValidationError
    );
}

#[test]
fn correct_count_rejects_negative_values() {
    let mut store = KeikoStore::new();
    let quiz = new_quiz(&mut store, "CS1", "intro");
    let bad = store.set_correct_count(quiz.id, &QuizCorrectCount { correct_count: -3 });
    assert_eq!(bad.unwrap_err(), KeikoError::ValidationError);
    let ok = store
        .set_correct_count(quiz.id, &QuizCorrectCount { correct_count: 0 })
        .unwrap();
    assert_eq!(ok.correct_count, 0);
}

#[test]
fn hint_flag_is_set() {
    let mut store = KeikoStore::new();
    let quiz = new_quiz(&mut store, "CS1", "intro");
    let marked = store
        .set_hint_used(quiz.id, &QuizHint { hint_used: true })
        .unwrap();
    assert!(marked.hint_used);
    let missing = store.set_hint_used(4, &QuizHint { hint_used: true });
    assert_eq!(missing.unwrap_err(), KeikoError::NotFound);
}

#[test]
fn delete_quiz_then_get_is_not_found() {
    let mut store = KeikoStore::new();
    let quiz = new_quiz(&mut store, "CS1", "intro");
    assert_eq!(store.delete_quiz(quiz.id).unwrap(), quiz.id);
    assert_eq!(store.get_quiz(quiz.id).unwrap_err(), KeikoError::NotFound);
}

#[test]
fn rename_moves_cards_and_quizzes_together() {
    let mut store = KeikoStore::new();
    add_card(&mut store, "Q1", "CS121", "old");
    add_card(&mut store, "Q2", "CS121", "other");
    add_card(&mut store, "Q3", "CS999", "old");
    let a = new_quiz(&mut store, "CS121", "old");
    let b = new_quiz(&mut store, "CS999", "old");
    store
        .rename_quiz(
            &"CS121".to_string(),
            &RenameQuiz {
                old: "old".to_string(),
                new: "new".to_string(),
            },
        )
        .unwrap();
    let cards = store.get_cards().unwrap();
    assert!(cards
        .iter()
        .all(|c| !(c.course_code == "CS121" && c.category == "old")));
    assert_eq!(
        cards.iter().find(|c| c.question == "Q1").unwrap().category,
        "new"
    );
    assert_eq!(
        cards.iter().find(|c| c.question == "Q2").unwrap().category,
        "other"
    );
    assert_eq!(
        cards.iter().find(|c| c.question == "Q3").unwrap().category,
        "old"
    );
    let qa = store.get_quiz(a.id).unwrap();
    assert_eq!(qa.category, "new");
    let qb = store.get_quiz(b.id).unwrap();
    assert_eq!(qb.category, "old");
}
