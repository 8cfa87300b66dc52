use keiko::courses_api::{CreateCourse, UpdateCourse};
use keiko::{KeikoError, KeikoStore};

fn course_req(name: &str, code: &str, description: &str) -> CreateCourse {
    CreateCourse {
        name: name.to_string(),
        course_code: code.to_string(),
        description: description.to_string(),
    }
}

#[test]
fn create_then_get_returns_client_fields() {
    let mut store = KeikoStore::new();
    let created = store
        .create_course(&course_req("Algorithms", "CS121", "Basics"))
        .unwrap();
    let view = store.get_course(created.id).unwrap();
    assert_eq!(view.name, "Algorithms");
    assert_eq!(view.course_code, "CS121");
    assert_eq!(view.description, "Basics");
    assert_eq!(view.created_at, created.created_at);
    assert!(view.updated_at.is_none());
}

#[test]
fn create_duplicate_code_is_conflict() {
    let mut store = KeikoStore::new();
    store
        .create_course(&course_req("Algorithms", "CS121", ""))
        .unwrap();
    let second = store.create_course(&course_req("Other", "CS121", ""));
    assert_eq!(second.unwrap_err(), KeikoError::Conflict);
    let all = store.get_courses().unwrap();
    assert_eq!(all.len(), 1);
}

#[test]
fn update_advances_updated_at() {
    let mut store = KeikoStore::new();
    let created = store
        .create_course(&course_req("Algorithms", "CS121", ""))
        .unwrap();
    let first = store
        .update_course(&UpdateCourse {
            id: created.id,
            name: "Algorithms II".to_string(),
            course_code: "CS121".to_string(),
            description: "More".to_string(),
        })
        .unwrap();
    let t1 = first.updated_at.unwrap();
    assert!(t1 >= created.created_at);
    let second = store
        .update_course(&UpdateCourse {
            id: created.id,
            name: "Algorithms III".to_string(),
            course_code: "CS121".to_string(),
            description: "Even more".to_string(),
        })
        .unwrap();
    let t2 = second.updated_at.unwrap();
    assert!(t2 >= t1);
    assert_eq!(second.created_at, created.created_at);
    let view = store.get_course(created.id).unwrap();
    assert_eq!(view.name, "Algorithms III");
    assert_eq!(view.updated_at, Some(t2));
}

#[test]
fn update_missing_id_is_not_found() {
    let mut store = KeikoStore::new();
    let missing = store.update_course(&UpdateCourse {
        id: 7,
        name: "X".to_string(),
        course_code: "Y".to_string(),
        description: String::new(),
    });
    assert_eq!(missing.unwrap_err(), KeikoError::NotFound);
}

#[test]
fn update_to_taken_code_is_conflict() {
    let mut store = KeikoStore::new();
    store.create_course(&course_req("A", "CS1", "")).unwrap();
    let second = store.create_course(&course_req("B", "CS2", "")).unwrap();
    let clash = store.update_course(&UpdateCourse {
        id: second.id,
        name: "B".to_string(),
        course_code: "CS1".to_string(),
        description: String::new(),
    });
    assert_eq!(clash.unwrap_err(), KeikoError::Conflict);
}

#[test]
fn delete_then_get_is_not_found() {
    let mut store = KeikoStore::new();
    let created = store.create_course(&course_req("A", "CS1", "")).unwrap();
    assert_eq!(store.delete_course(created.id).unwrap(), created.id);
    assert_eq!(
        store.get_course(created.id).unwrap_err(),
        KeikoError::NotFound
    );
    assert_eq!(
        store.delete_course(created.id).unwrap_err(),
        KeikoError::NotFound
    );
}

#[test]
fn get_course_by_code_finds_the_row() {
    let mut store = KeikoStore::new();
    let created = store.create_course(&course_req("A", "CS1", "")).unwrap();
    let view = store
        .get_course_from_course_code(&"CS1".to_string())
        .unwrap();
    assert_eq!(view.id, created.id);
    let missing = store.get_course_from_course_code(&"CS9".to_string());
    assert_eq!(missing.unwrap_err(), KeikoError::NotFound);
}
