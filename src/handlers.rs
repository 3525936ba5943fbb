//! The route handlers: each validates its input, makes one store operation,
//! and hands back the result or the failure untouched.
use vstd::prelude::*;
use vstd::string::*;
use crate::error::{res_view, Error, ErrorModel};
use crate::pagination::{extract_pagination, extract_spec, page};
use crate::params::QueryParams;
use crate::store::{
    add_question_spec, delete_question_spec, questions_view, update_question_spec, Store,
    StoreModel,
};
use crate::types::{NewQuestion, Question, QuestionId, QuestionModel};

verus! {

/// What listing the questions yields: all of them when the query holds
/// neither `limit` nor `offset`, otherwise the page that the parameters
/// select, or the extractor's failure.
pub open spec fn get_questions_spec(m: Map<Seq<char>, Seq<char>>, s: StoreModel) -> Result<
    Seq<QuestionModel>,
    ErrorModel,
> {
    if !m.contains_key("limit"@) && !m.contains_key("offset"@) {
        Ok(s.questions)
    } else {
        match extract_spec(m) {
            Ok(p) => Ok(page(s.questions, Some(p))),
            Err(e) => Err(e),
        }
    }
}

/// Lists the questions, paginated when the query holds a pagination key.
pub fn get_questions(params: &QueryParams, store: &Store) -> (r: Result<Vec<Question>, Error>)
    requires
        params.wf(),
        store.wf(),
    ensures
        match r {
            Ok(v) => get_questions_spec(params@, store@) == Ok::<Seq<QuestionModel>, ErrorModel>(
                questions_view(v@),
            ),
            Err(e) => get_questions_spec(params@, store@) == Err::<Seq<QuestionModel>, ErrorModel>(
                e@,
            ),
        },
{
    if params.get("limit").is_none() && params.get("offset").is_none() {
        Ok(store.list_questions(None))
    } else {
        let p = extract_pagination(params)?;
        Ok(store.list_questions(Some(p)))
    }
}

/// Replaces the question with this id.
pub fn update_question(id: QuestionId, store: &mut Store, question: Question) -> (r: Result<
    Question,
    Error,
>)
    requires
        old(store).wf(),
    ensures
        final(store).wf(),
        final(store)@ == update_question_spec(old(store)@, id@, question@).0,
        res_view(r) == update_question_spec(old(store)@, id@, question@).1,
{
    store.update_question(&id, question)
}

/// The confirmation text of a deletion.
pub open spec fn deleted_message(id: Seq<char>) -> Seq<char> {
    "Question "@ + id + " deleted"@
}

/// Deletes the question with this id and confirms it in words.
pub fn delete_question(id: QuestionId, store: &mut Store) -> (r: Result<String, Error>)
    requires
        old(store).wf(),
    ensures
        final(store).wf(),
        final(store)@ == delete_question_spec(old(store)@, id@).0,
        match r {
            Ok(m) => delete_question_spec(old(store)@, id@).1 == Ok::<(), ErrorModel>(())
                && m@ == deleted_message(id@),
            Err(e) => delete_question_spec(old(store)@, id@).1 == Err::<(), ErrorModel>(e@),
        },
{
    match store.delete_question(&id) {
        Ok(()) => {
            let mut m = String::from_str("Question ");
            m.append(id.0.as_str());
            m.append(" deleted");
            Ok(m)
        },
        Err(e) => Err(e),
    }
}

/// Adds a question under the id that the caller supplies.
pub fn add_question(store: &mut Store, id: QuestionId, new_question: NewQuestion) -> (r: Result<
    Question,
    Error,
>)
    requires
        old(store).wf(),
    ensures
        final(store).wf(),
        final(store)@ == add_question_spec(old(store)@, id@, new_question@).0,
        res_view(r) == add_question_spec(old(store)@, id@, new_question@).1,
{
    store.add_question(id, new_question)
}

} // verus!
