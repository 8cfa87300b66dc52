use keiko::cards_api::{CreateCard, UpdateCard};
use keiko::quiz_api::CreateQuiz;
use keiko::{KeikoError, KeikoStore};

fn card_req(question: &str, answer: &str, code: &str, category: &str, tags: &[&str]) -> CreateCard {
    CreateCard {
        question: question.to_string(),
        answer: answer.to_string(),
        course_code: code.to_string(),
        category: category.to_string(),
        difficulty: "easy".to_string(),
        tags: tags.iter().map(|t| t.to_string()).collect(),
    }
}

#[test]
fn create_then_get_card() {
    let mut store = KeikoStore::new();
    let created = store
        .create_card(&card_req("Q?", "A.", "CS1", "intro", &["a", "b"]))
        .unwrap();
    let fetched = store.get_card(created.id).unwrap();
    assert_eq!(fetched.question, "Q?");
    assert_eq!(fetched.answer, "A.");
    assert_eq!(fetched.course_code, "CS1");
    assert_eq!(fetched.category, "intro");
    assert_eq!(fetched.tags, vec!["a".to_string(), "b".to_string()]);
    assert!(fetched.updated_at.is_none());
}

#[test]
fn empty_question_is_rejected() {
    let mut store = KeikoStore::new();
    let bad = store.create_card(&card_req("", "A.", "CS1", "intro", &[]));
    assert_eq!(bad.unwrap_err(), KeikoError::ValidationError);
    let bad = store.create_card(&card_req("Q?", "", "CS1", "intro", &[]));
    assert_eq!(bad.unwrap_err(), KeikoError::ValidationError);
    assert!(store.get_cards().unwrap().is_empty());
}

#[test]
fn update_card_stamps_and_replaces() {
    let mut store = KeikoStore::new();
    let created = store
        .create_card(&card_req("Q?", "A.", "CS1", "intro", &[]))
        .unwrap();
    let updated = store
        .update_card(&UpdateCard {
            id: created.id,
            question: "Q2?".to_string(),
            answer: "A2.".to_string(),
            course_code: "CS1".to_string(),
            category: "deep".to_string(),
            difficulty: "hard".to_string(),
            tags: vec!["x".to_string()],
        })
        .unwrap();
    assert!(updated.updated_at.unwrap() >= created.created_at);
    let fetched = store.get_card(created.id).unwrap();
    assert_eq!(fetched.question, "Q2?");
    assert_eq!(fetched.category, "deep");
    let missing = store.update_card(&UpdateCard {
        id: 99,
        question: "Q".to_string(),
        answer: "A".to_string(),
        course_code: String::new(),
        category: String::new(),
        difficulty: String::new(),
        tags: Vec::new(),
    });
    assert_eq!(missing.unwrap_err(), KeikoError::NotFound);
}

#[test]
fn delete_card_then_get_is_not_found() {
    let mut store = KeikoStore::new();
    let created = store
        .create_card(&card_req("Q?", "A.", "CS1", "intro", &[]))
        .unwrap();
    assert_eq!(store.delete_card(created.id).unwrap(), created.id);
    assert_eq!(store.get_card(created.id).unwrap_err(), KeikoError::NotFound);
}

#[test]
fn cards_by_course_code_filters() {
    let mut store = KeikoStore::new();
    store
        .create_card(&card_req("Q1", "A", "CS1", "intro", &[]))
        .unwrap();
    store
        .create_card(&card_req("Q2", "A", "CS2", "intro", &[]))
        .unwrap();
    store
        .create_card(&card_req("Q3", "A", "CS1", "deep", &[]))
        .unwrap();
    let picked = store.get_cards_by_course_code(&"CS1".to_string()).unwrap();
    assert_eq!(picked.len(), 2);
    assert!(picked.iter().all(|c| c.course_code == "CS1"));
}

#[test]
fn cards_by_quiz_id_joins_on_scope() {
    let mut store = KeikoStore::new();
    store
        .create_card(&card_req("Q1", "A", "CS1", "intro", &[]))
        .unwrap();
    store
        .create_card(&card_req("Q2", "A", "CS1", "deep", &[]))
        .unwrap();
    store
        .create_card(&card_req("Q3", "A", "CS2", "intro", &[]))
        .unwrap();
    let quiz = store
        .create_quiz(&CreateQuiz {
            course_code: "CS1".to_string(),
            category: "intro".to_string(),
        })
        .unwrap();
    let picked = store.get_cards_by_quiz_id(quiz.id).unwrap();
    assert_eq!(picked.len(), 1);
    assert_eq!(picked[0].question, "Q1");
    let none = store.get_cards_by_quiz_id(42).unwrap();
    assert!(none.is_empty());
}

#[test]
fn available_tags_deduplicate_across_cards() {
    let mut store = KeikoStore::new();
    store
        .create_card(&card_req("Q1", "A", "CS1", "intro", &["a", "b"]))
        .unwrap();
    store
        .create_card(&card_req("Q2", "A", "CS1", "intro", &["b", "c"]))
        .unwrap();
    let tags = store.get_available_tags().unwrap().tags;
    assert_eq!(tags, vec!["a".to_string(), "b".to_string(), "c".to_string()]);
}

#[test]
fn available_tags_ignore_input_order() {
    let mut store = KeikoStore::new();
    store
        .create_card(&card_req("Q1", "A", "CS1", "intro", &["c", "b"]))
        .unwrap();
    store
        .create_card(&card_req("Q2", "A", "CS1", "intro", &["b", "a"]))
        .unwrap();
    let tags = store.get_available_tags().unwrap().tags;
    assert_eq!(tags, vec!["a".to_string(), "b".to_string(), "c".to_string()]);
}
