//! The records that the store owns and their mathematical models.
use vstd::prelude::*;

verus! {

/// Identifier of a question: a non-empty string, compared by value.
#[derive(Debug, PartialEq, Eq)]
pub struct QuestionId(pub String);

/// Identifier of an answer: a non-empty string, unique among answers.
#[derive(Debug, PartialEq, Eq)]
pub struct AnswerId(pub String);

/// A question as the store holds it.
#[derive(Debug, PartialEq, Eq)]
pub struct Question {
    pub id: QuestionId,
    pub title: String,
    pub content: String,
    pub tags: Option<Vec<String>>,
}

/// The fields of a question that a client supplies on creation.
#[derive(Debug, PartialEq, Eq)]
pub struct NewQuestion {
    pub title: String,
    pub content: String,
    pub tags: Option<Vec<String>>,
}

/// An answer, linked to the question it answers.
#[derive(Debug, PartialEq, Eq)]
pub struct Answer {
    pub id: AnswerId,
    pub content: String,
    pub question_id: QuestionId,
}

/// The fields of an answer that a client supplies on creation.
#[derive(Debug, PartialEq, Eq)]
pub struct NewAnswer {
    pub content: String,
    pub question_id: QuestionId,
}

/// Model of a question: every string as its sequence of characters.
pub struct QuestionModel {
    pub id: Seq<char>,
    pub title: Seq<char>,
    pub content: Seq<char>,
    pub tags: Option<Seq<Seq<char>>>,
}

/// Model of a new question.
pub struct NewQuestionModel {
    pub title: Seq<char>,
    pub content: Seq<char>,
    pub tags: Option<Seq<Seq<char>>>,
}

/// Model of an answer.
pub struct AnswerModel {
    pub id: Seq<char>,
    pub content: Seq<char>,
    pub question_id: Seq<char>,
}

/// Model of a new answer.
pub struct NewAnswerModel {
    pub content: Seq<char>,
    pub question_id: Seq<char>,
}

pub open spec fn strings_view(v: Vec<String>) -> Seq<Seq<char>> {
    v@.map_values(|s: String| s@)
}

pub open spec fn tags_view(t: Option<Vec<String>>) -> Option<Seq<Seq<char>>> {
    match t {
        Some(v) => Some(strings_view(v)),
        None => None,
    }
}

impl View for QuestionId {
    type V = Seq<char>;

    open spec fn view(&self) -> Seq<char> {
        self.0@
    }
}

impl View for AnswerId {
    type V = Seq<char>;

    open spec fn view(&self) -> Seq<char> {
        self.0@
    }
}

impl View for Question {
    type V = QuestionModel;

    open spec fn view(&self) -> QuestionModel {
        QuestionModel {
            id: self.id@,
            title: self.title@,
            content: self.content@,
            tags: tags_view(self.tags),
        }
    }
}

impl View for NewQuestion {
    type V = NewQuestionModel;

    open spec fn view(&self) -> NewQuestionModel {
        NewQuestionModel { title: self.title@, content: self.content@, tags: tags_view(self.tags) }
    }
}

impl View for Answer {
    type V = AnswerModel;

    open spec fn view(&self) -> AnswerModel {
        AnswerModel { id: self.id@, content: self.content@, question_id: self.question_id@ }
    }
}

impl View for NewAnswer {
    type V = NewAnswerModel;

    open spec fn view(&self) -> NewAnswerModel {
        NewAnswerModel { content: self.content@, question_id: self.question_id@ }
    }
}

/// The question that a new question becomes under the given id.
pub open spec fn question_from(id: Seq<char>, n: NewQuestionModel) -> QuestionModel {
    QuestionModel { id, title: n.title, content: n.content, tags: n.tags }
}

/// The answer that a new answer becomes under the given id.
pub open spec fn answer_from(id: Seq<char>, n: NewAnswerModel) -> AnswerModel {
    AnswerModel { id, content: n.content, question_id: n.question_id }
}

/// Copies a list of strings, keeping every character.
fn copy_strings(v: &Vec<String>) -> (r: Vec<String>)
    ensures
        strings_view(r) == strings_view(*v),
{
    let mut r: Vec<String> = Vec::new();
    let mut i: usize = 0;
    while i < v.len()
        invariant
            i <= v@.len(),
            r@.len() == i,
            forall|j: int| 0 <= j < i ==> #[trigger] r@[j]@ == v@[j]@,
        decreases v@.len() - i,
    {
        r.push(v[i].clone());
        i = i + 1;
    }
    assert(strings_view(r) =~= strings_view(*v));
    r
}

/// Copies optional tags, keeping every character.
fn copy_tags(t: &Option<Vec<String>>) -> (r: Option<Vec<String>>)
    ensures
        tags_view(r) == tags_view(*t),
{
    match t {
        Some(v) => Some(copy_strings(v)),
        None => None,
    }
}

impl Clone for QuestionId {
    fn clone(&self) -> (r: Self)
        ensures
            r@ == self@,
    {
        QuestionId(self.0.clone())
    }
}

impl Clone for AnswerId {
    fn clone(&self) -> (r: Self)
        ensures
            r@ == self@,
    {
        AnswerId(self.0.clone())
    }
}

impl Clone for Question {
    fn clone(&self) -> (r: Self)
        ensures
            r@ == self@,
    {
        Question {
            id: self.id.clone(),
            title: self.title.clone(),
            content: self.content.clone(),
            tags: copy_tags(&self.tags),
        }
    }
}

impl Clone for NewQuestion {
    fn clone(&self) -> (r: Self)
        ensures
            r@ == self@,
    {
        NewQuestion {
            title: self.title.clone(),
            content: self.content.clone(),
            tags: copy_tags(&self.tags),
        }
    }
}

impl Clone for Answer {
    fn clone(&self) -> (r: Self)
        ensures
            r@ == self@,
    {
        Answer {
            id: self.id.clone(),
            content: self.content.clone(),
            question_id: self.question_id.clone(),
        }
    }
}

impl Clone for NewAnswer {
    fn clone(&self) -> (r: Self)
        ensures
            r@ == self@,
    {
        NewAnswer { content: self.content.clone(), question_id: self.question_id.clone() }
    }
}

} // verus!
