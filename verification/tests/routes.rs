use keiko::cards_api::CreateCard;
use keiko::courses::{CourseReply, CourseRequest};
use keiko::courses_api::CreateCourse;
use keiko::flashcards::{CardReply, CardRequest};
use keiko::quiz::{QuizReply, QuizRequest};
use keiko::quiz_api::CreateQuiz;
use keiko::{courses, flashcards, quiz, status_of, KeikoError, KeikoStore};

#[test]
fn course_routes_map_status_codes() {
    let mut store = KeikoStore::new();
    let create = CourseRequest::Create(CreateCourse {
        name: "Algorithms".to_string(),
        course_code: "CS1".to_string(),
        description: String::new(),
    });
    let created = courses::service(&mut store, &create);
    assert_eq!(created.status, 200);
    let id = match created.body {
        CourseReply::Course(c) => c.id,
        other => panic!("unexpected body: {:?}", other),
    };
    let dup = courses::service(&mut store, &create);
    assert_eq!(dup.status, 409);
    assert!(matches!(
        dup.body,
        CourseReply::Failure(KeikoError::Conflict)
    ));
    let fetched = courses::service(&mut store, &CourseRequest::Get(id));
    assert_eq!(fetched.status, 200);
    let missing = courses::service(&mut store, &CourseRequest::Get(id.wrapping_add(1)));
    assert_eq!(missing.status, 404);
    let deleted = courses::service(&mut store, &CourseRequest::Delete(id));
    assert_eq!(deleted.status, 200);
    assert!(matches!(deleted.body, CourseReply::Deleted(d) if d == id));
    let gone = courses::service(&mut store, &CourseRequest::Get(id));
    assert_eq!(gone.status, 404);
}

#[test]
fn card_routes_reject_invalid_input() {
    let mut store = KeikoStore::new();
    let bad = flashcards::service(
        &mut store,
        &CardRequest::Create(CreateCard {
            question: String::new(),
            answer: "A".to_string(),
            course_code: "CS1".to_string(),
            category: "intro".to_string(),
            difficulty: String::new(),
            tags: Vec::new(),
        }),
    );
    assert_eq!(bad.status, 400);
    assert!(matches!(
        bad.body,
        CardReply::Failure(KeikoError::ValidationError)
    ));
    let all = flashcards::service(&mut store, &CardRequest::GetAll);
    assert_eq!(all.status, 200);
    assert!(matches!(all.body, CardReply::Cards(v) if v.is_empty()));
    let tags = flashcards::service(&mut store, &CardRequest::GetTags);
    assert_eq!(tags.status, 200);
    assert!(matches!(tags.body, CardReply::Tags(t) if t.tags.is_empty()));
}

#[test]
fn quiz_routes_serve_the_state_machine() {
    let mut store = KeikoStore::new();
    let created = quiz::service(
        &mut store,
        &QuizRequest::Create(CreateQuiz {
            course_code: "CS1".to_string(),
            category: "intro".to_string(),
        }),
    );
    assert_eq!(created.status, 200);
    let id = match created.body {
        QuizReply::Quiz(q) => q.id,
        other => panic!("unexpected body: {:?}", other),
    };
    let listed = quiz::service(&mut store, &QuizRequest::Ongoing);
    assert_eq!(listed.status, 200);
    assert!(matches!(listed.body, QuizReply::Views(v) if v.len() == 1));
    let missing = quiz::service(&mut store, &QuizRequest::Get(id.wrapping_add(1)));
    assert_eq!(missing.status, 404);
    let renamed = quiz::service(
        &mut store,
        &QuizRequest::Rename(
            "CS1".to_string(),
            keiko::quiz_api::RenameQuiz {
                old: "intro".to_string(),
                new: "basics".to_string(),
            },
        ),
    );
    assert_eq!(renamed.status, 200);
    assert!(matches!(renamed.body, QuizReply::Renamed));
    let view = quiz::service(&mut store, &QuizRequest::Get(id));
    assert!(matches!(view.body, QuizReply::View(v) if v.category == "basics"));
}

#[test]
fn every_error_has_its_status() {
    assert_eq!(status_of(&KeikoError::NotFound), 404);
    assert_eq!(status_of(&KeikoError::Conflict), 409);
    assert_eq!(status_of(&KeikoError::ValidationError), 400);
    assert_eq!(status_of(&KeikoError::StorageUnavailable), 503);
}

#[test]
fn course_view_aggregates_cards_and_quizzes() {
    let mut store = KeikoStore::new();
    let course = match courses::service(
        &mut store,
        &CourseRequest::Create(CreateCourse {
            name: "Algorithms".to_string(),
            course_code: "CS1".to_string(),
            description: String::new(),
        }),
    )
    .body
    {
        CourseReply::Course(c) => c,
        other => panic!("unexpected body: {:?}", other),
    };
    for (q, cat) in [("Q1", "b"), ("Q2", "a"), ("Q3", "b")] {
        flashcards::service(
            &mut store,
            &CardRequest::Create(CreateCard {
                question: q.to_string(),
                answer: "A".to_string(),
                course_code: "CS1".to_string(),
                category: cat.to_string(),
                difficulty: String::new(),
                tags: Vec::new(),
            }),
        );
    }
    let a = match quiz::service(
        &mut store,
        &QuizRequest::Create(CreateQuiz {
            course_code: "CS1".to_string(),
            category: "a".to_string(),
        }),
    )
    .body
    {
        QuizReply::Quiz(q) => q,
        other => panic!("unexpected body: {:?}", other),
    };
    quiz::service(
        &mut store,
        &QuizRequest::Create(CreateQuiz {
            course_code: "CS1".to_string(),
            category: "b".to_string(),
        }),
    );
    quiz::service(
        &mut store,
        &QuizRequest::SetCompletion(keiko::quiz_api::QuizCompletion {
            id: a.id,
            is_completed: true,
        }),
    );
    let view = match courses::service(&mut store, &CourseRequest::Get(course.id)).body {
        CourseReply::View(v) => v,
        other => panic!("unexpected body: {:?}", other),
    };
    assert_eq!(view.questions, 3);
    assert_eq!(view.progress, 50);
    assert_eq!(view.categories, vec!["a".to_string(), "b".to_string()]);
    let cats = match courses::service(&mut store, &CourseRequest::GetCategories(course.id)).body {
        CourseReply::Categories(v) => v,
        other => panic!("unexpected body: {:?}", other),
    };
    let labels: Vec<String> = cats.into_iter().map(|c| c.category).collect();
    assert_eq!(labels, vec!["a".to_string(), "b".to_string()]);
}
