use qa_store::error::{translate, EntityKind, Error};

#[test]
fn translate_parse_error() {
    let e = Error::ParseError("limit".to_string(), "abc".to_string());
    assert_eq!(translate(&e), (416, "Cannot parse parameter: limit = abc".to_string()));
}

#[test]
fn translate_missing_parameters() {
    assert_eq!(translate(&Error::MissingParameters), (416, "Missing Parameter".to_string()));
}

#[test]
fn translate_invalid_input() {
    let e = Error::InvalidInput("question title is empty".to_string());
    assert_eq!(translate(&e), (400, "Invalid input: question title is empty".to_string()));
}

#[test]
fn translate_not_found() {
    let e = Error::NotFound(EntityKind::Question, "7".to_string());
    assert_eq!(translate(&e), (404, "Question 7 not found".to_string()));
    let e = Error::NotFound(EntityKind::Answer, "a1".to_string());
    assert_eq!(translate(&e), (404, "Answer a1 not found".to_string()));
}

#[test]
fn translate_duplicate() {
    let e = Error::Duplicate(EntityKind::Answer, "a1".to_string());
    assert_eq!(translate(&e), (409, "Answer a1 already exists".to_string()));
}

#[test]
fn translate_conflict() {
    let e = Error::Conflict("question has answers".to_string());
    assert_eq!(translate(&e), (409, "Conflict: question has answers".to_string()));
}

#[test]
fn translate_cors_and_unhandled() {
    assert_eq!(translate(&Error::CorsRejected), (403, "Cross-origin request forbidden".to_string()));
    assert_eq!(translate(&Error::Unhandled), (404, "Route not found".to_string()));
}
