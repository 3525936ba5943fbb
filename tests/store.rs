use qa_store::error::{EntityKind, Error};
use qa_store::handlers::{add_question, delete_question, get_questions, update_question};
use qa_store::pagination::Pagination;
use qa_store::params::QueryParams;
use qa_store::store::Store;
use qa_store::types::{Answer, AnswerId, NewAnswer, NewQuestion, Question, QuestionId};

fn new_question(title: &str) -> NewQuestion {
    NewQuestion { title: title.to_string(), content: format!("{} body", title), tags: None }
}

fn qid(s: &str) -> QuestionId {
    QuestionId(s.to_string())
}

fn store_of(n: usize) -> Store {
    let mut s = Store::new();
    for i in 1..=n {
        s.add_question(qid(&i.to_string()), new_question(&format!("Q{}", i))).unwrap();
    }
    s
}

fn ids(v: &[Question]) -> Vec<String> {
    v.iter().map(|q| q.id.0.clone()).collect()
}

fn page_of(limit: usize, offset: usize) -> Option<Pagination> {
    Some(Pagination { limit: Some(limit), offset })
}

#[test]
fn get_questions_without_params_returns_all() {
    let mut store = Store::new();
    let new = NewQuestion {
        title: "First Question".to_string(),
        content: "Content of question".to_string(),
        tags: Some(vec!["faq".to_string()]),
    };
    store.add_question(qid("1"), new).unwrap();
    let all = get_questions(&QueryParams::new(), &store).unwrap();
    assert_eq!(
        all,
        vec![Question {
            id: qid("1"),
            title: "First Question".to_string(),
            content: "Content of question".to_string(),
            tags: Some(vec!["faq".to_string()]),
        }]
    );
}

#[test]
fn get_questions_first_page_of_three() {
    let store = store_of(3);
    let mut p = QueryParams::new();
    p.insert("limit".to_string(), "1".to_string());
    p.insert("offset".to_string(), "0".to_string());
    let r = get_questions(&p, &store).unwrap();
    assert_eq!(ids(&r), vec!["1".to_string()]);
    assert_eq!(r[0].title, "Q1");
}

#[test]
fn get_questions_with_bad_params_fails() {
    let store = store_of(3);
    let mut p = QueryParams::new();
    p.insert("limit".to_string(), "1".to_string());
    assert_eq!(get_questions(&p, &store), Err(Error::MissingParameters));
    p.insert("offset".to_string(), "x".to_string());
    assert_eq!(
        get_questions(&p, &store),
        Err(Error::ParseError("offset".to_string(), "x".to_string()))
    );
}

#[test]
fn list_questions_page_lengths() {
    let store = store_of(5);
    assert_eq!(store.list_questions(page_of(2, 1)).len(), 2);
    assert_eq!(ids(&store.list_questions(page_of(2, 1))), vec!["2".to_string(), "3".to_string()]);
    assert_eq!(store.list_questions(page_of(10, 3)).len(), 2);
    assert_eq!(store.list_questions(page_of(0, 0)).len(), 0);
    assert_eq!(store.list_questions(page_of(3, 5)).len(), 0);
    assert_eq!(store.list_questions(page_of(3, 9)).len(), 0);
    assert_eq!(store.list_questions(page_of(usize::MAX, usize::MAX)).len(), 0);
    assert_eq!(store.list_questions(page_of(usize::MAX, 4)).len(), 1);
    let open = Some(Pagination { limit: None, offset: 2 });
    assert_eq!(ids(&store.list_questions(open)), vec!["3", "4", "5"]);
    assert_eq!(store.list_questions(None).len(), 5);
}

#[test]
fn list_questions_empty_store() {
    let store = Store::new();
    assert!(store.list_questions(None).is_empty());
    assert!(store.list_questions(page_of(1, 0)).is_empty());
}

#[test]
fn list_keeps_insertion_order() {
    let mut store = Store::new();
    for id in ["b", "a", "c"] {
        store.add_question(qid(id), new_question(id)).unwrap();
    }
    assert_eq!(ids(&store.list_questions(None)), vec!["b", "a", "c"]);
    assert_eq!(ids(&store.list_questions(None)), vec!["b", "a", "c"]);
}

#[test]
fn get_question_twice_is_equal() {
    let store = store_of(2);
    let a = store.get_question(&qid("2"));
    let b = store.get_question(&qid("2"));
    assert!(a.is_some());
    assert_eq!(a, b);
    assert_eq!(store.get_question(&qid("9")), None);
}

#[test]
fn add_then_get_round_trip() {
    let mut store = store_of(1);
    let new = NewQuestion {
        title: "T".to_string(),
        content: "C".to_string(),
        tags: Some(vec!["x".to_string(), "y".to_string()]),
    };
    let added = add_question(&mut store, qid("42"), new).unwrap();
    assert_eq!(added.id, qid("42"));
    assert_eq!(added.tags, Some(vec!["x".to_string(), "y".to_string()]));
    assert_eq!(store.get_question(&added.id), Some(added));
}

#[test]
fn add_question_refusals() {
    let mut store = store_of(1);
    assert_eq!(
        store.add_question(qid("1"), new_question("again")),
        Err(Error::Duplicate(EntityKind::Question, "1".to_string()))
    );
    assert_eq!(
        store.add_question(qid(""), new_question("t")),
        Err(Error::InvalidInput("question id is empty".to_string()))
    );
    assert_eq!(
        store.add_question(qid("2"), new_question("")),
        Err(Error::InvalidInput("question title is empty".to_string()))
    );
    assert_eq!(store.list_questions(None).len(), 1);
}

#[test]
fn many_distinct_adds_all_kept() {
    let mut store = Store::new();
    for i in 0..50 {
        assert!(store.add_question(qid(&format!("q{}", i)), new_question("t")).is_ok());
    }
    let all = store.list_questions(None);
    assert_eq!(all.len(), 50);
    let mut seen = ids(&all);
    seen.sort();
    seen.dedup();
    assert_eq!(seen.len(), 50);
}

#[test]
fn update_question_cases() {
    let mut store = store_of(2);
    let replacement = Question {
        id: qid("2"),
        title: "New title".to_string(),
        content: "New content".to_string(),
        tags: None,
    };
    let r = update_question(qid("2"), &mut store, replacement).unwrap();
    assert_eq!(r.title, "New title");
    assert_eq!(store.get_question(&qid("2")).unwrap().title, "New title");
    assert_eq!(ids(&store.list_questions(None)), vec!["1", "2"]);

    let other = Question { id: qid("3"), title: "t".to_string(), content: String::new(), tags: None };
    assert_eq!(
        update_question(qid("1"), &mut store, other),
        Err(Error::InvalidInput("question id cannot change".to_string()))
    );
    let missing = Question { id: qid("9"), title: "t".to_string(), content: String::new(), tags: None };
    assert_eq!(
        update_question(qid("9"), &mut store, missing),
        Err(Error::NotFound(EntityKind::Question, "9".to_string()))
    );
    let untitled = Question { id: qid("1"), title: String::new(), content: String::new(), tags: None };
    assert_eq!(
        update_question(qid("1"), &mut store, untitled),
        Err(Error::InvalidInput("question title is empty".to_string()))
    );
    assert_eq!(store.get_question(&qid("1")).unwrap().title, "Q1");
}

#[test]
fn delete_question_cases() {
    let mut store = store_of(3);
    assert_eq!(delete_question(qid("2"), &mut store), Ok("Question 2 deleted".to_string()));
    assert_eq!(ids(&store.list_questions(None)), vec!["1", "3"]);
    assert_eq!(
        delete_question(qid("2"), &mut store),
        Err(Error::NotFound(EntityKind::Question, "2".to_string()))
    );
}

#[test]
fn delete_referenced_question_conflicts() {
    let mut store = store_of(1);
    let new = NewAnswer { content: "An answer".to_string(), question_id: qid("1") };
    store.add_answer(AnswerId("a1".to_string()), new).unwrap();
    let r = delete_question(qid("1"), &mut store);
    assert_eq!(r, Err(Error::Conflict("question has answers".to_string())));
    assert_eq!(qa_store::error::translate(&r.unwrap_err()).0, 409);
    assert!(store.get_question(&qid("1")).is_some());
    assert!(store.get_answer(&AnswerId("a1".to_string())).is_some());
}

#[test]
fn add_answer_to_missing_question_fails() {
    let mut store = store_of(1);
    let new = NewAnswer { content: "x".to_string(), question_id: qid("7") };
    assert_eq!(
        store.add_answer(AnswerId("a1".to_string()), new),
        Err(Error::NotFound(EntityKind::Question, "7".to_string()))
    );
    assert_eq!(store.get_answer(&AnswerId("a1".to_string())), None);
    let empty_id = NewAnswer { content: "x".to_string(), question_id: qid("7") };
    assert_eq!(
        store.add_answer(AnswerId(String::new()), empty_id),
        Err(Error::NotFound(EntityKind::Question, "7".to_string()))
    );
}

#[test]
fn answer_lifecycle() {
    let mut store = store_of(1);
    let a = store
        .add_answer(AnswerId("a1".to_string()), NewAnswer { content: "c".to_string(), question_id: qid("1") })
        .unwrap();
    assert_eq!(a.question_id, qid("1"));
    assert_eq!(store.get_answer(&AnswerId("a1".to_string())), Some(a));
    assert_eq!(
        store.add_answer(AnswerId("a1".to_string()), NewAnswer { content: "d".to_string(), question_id: qid("1") }),
        Err(Error::Duplicate(EntityKind::Answer, "a1".to_string()))
    );
    assert_eq!(
        store.add_answer(AnswerId(String::new()), NewAnswer { content: "d".to_string(), question_id: qid("1") }),
        Err(Error::InvalidInput("answer id is empty".to_string()))
    );
    assert_eq!(store.delete_answer(&AnswerId("a1".to_string())), Ok(()));
    assert_eq!(
        store.delete_answer(&AnswerId("a1".to_string())),
        Err(Error::NotFound(EntityKind::Answer, "a1".to_string()))
    );
    assert_eq!(delete_question(qid("1"), &mut store), Ok("Question 1 deleted".to_string()));
}

fn record(id: &str, title: &str) -> Question {
    Question { id: qid(id), title: title.to_string(), content: String::new(), tags: None }
}

#[test]
fn get_questions_without_pagination_keys_returns_all() {
    let store = store_of(3);
    let mut p = QueryParams::new();
    p.insert("foo".to_string(), "bar".to_string());
    assert_eq!(ids(&get_questions(&p, &store).unwrap()), vec!["1", "2", "3"]);
}

#[test]
fn add_questions_fresh_batch_is_kept_whole() {
    let mut store = store_of(1);
    let batch = vec![record("x", "X"), record("y", "Y"), record("z", "Z")];
    assert_eq!(store.add_questions(&batch), Ok(()));
    assert_eq!(ids(&store.list_questions(None)), vec!["1", "x", "y", "z"]);
    assert_eq!(store.get_question(&qid("y")), Some(record("y", "Y")));
}

#[test]
fn add_questions_stops_at_first_refusal() {
    let mut store = Store::new();
    let batch = vec![record("a", "A"), record("a", "again"), record("b", "B")];
    assert_eq!(
        store.add_questions(&batch),
        Err(Error::Duplicate(EntityKind::Question, "a".to_string()))
    );
    assert_eq!(ids(&store.list_questions(None)), vec!["a"]);
    assert_eq!(store.add_questions(&Vec::new()), Ok(()));
}

#[test]
fn update_answer_cases() {
    let mut store = store_of(2);
    let a1 = AnswerId("a1".to_string());
    store.add_answer(AnswerId("a1".to_string()), NewAnswer { content: "c".to_string(), question_id: qid("1") })
        .unwrap();
    let moved = Answer { id: AnswerId("a1".to_string()), content: "d".to_string(), question_id: qid("2") };
    let r = store.update_answer(&a1, moved).unwrap();
    assert_eq!(r.content, "d");
    assert_eq!(store.get_answer(&a1).unwrap().question_id, qid("2"));
    let orphan = Answer { id: AnswerId("a1".to_string()), content: "e".to_string(), question_id: qid("9") };
    assert_eq!(
        store.update_answer(&a1, orphan),
        Err(Error::NotFound(EntityKind::Question, "9".to_string()))
    );
    let renamed = Answer { id: AnswerId("a2".to_string()), content: "e".to_string(), question_id: qid("1") };
    assert_eq!(
        store.update_answer(&a1, renamed),
        Err(Error::InvalidInput("answer id cannot change".to_string()))
    );
    let missing = Answer { id: AnswerId("zz".to_string()), content: "e".to_string(), question_id: qid("1") };
    assert_eq!(
        store.update_answer(&AnswerId("zz".to_string()), missing),
        Err(Error::NotFound(EntityKind::Answer, "zz".to_string()))
    );
    assert_eq!(store.get_answer(&a1).unwrap().content, "d");
    assert_eq!(delete_question(qid("1"), &mut store), Ok("Question 1 deleted".to_string()));
}
