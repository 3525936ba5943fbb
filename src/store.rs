//! The record store: the sole owner of questions and answers.
//!
//! Questions are kept in insertion order, which is the stable order of
//! listings. Every id is unique within its collection, and every answer names
//! an existing question: a question that answers refer to cannot be deleted.
use vstd::prelude::*;
use vstd::string::*;
use crate::error::{res_view, EntityKind, Error, ErrorModel};
use crate::pagination::{page, Pagination};
use crate::types::{
    answer_from, question_from, Answer, AnswerId, AnswerModel, NewAnswer, NewAnswerModel,
    NewQuestion, NewQuestionModel, Question, QuestionId, QuestionModel,
};

verus! {

/// Model of the store: the questions in insertion order, and the answers.
pub struct StoreModel {
    pub questions: Seq<QuestionModel>,
    pub answers: Seq<AnswerModel>,
}

pub open spec fn has_question(qs: Seq<QuestionModel>, id: Seq<char>) -> bool {
    exists|i: int| 0 <= i < qs.len() && (#[trigger] qs[i]).id == id
}

pub open spec fn question_index(qs: Seq<QuestionModel>, id: Seq<char>) -> int {
    choose|i: int| 0 <= i < qs.len() && (#[trigger] qs[i]).id == id
}

/// The question with this id, if there is one.
pub open spec fn lookup_question(qs: Seq<QuestionModel>, id: Seq<char>) -> Option<QuestionModel> {
    if has_question(qs, id) {
        Some(qs[question_index(qs, id)])
    } else {
        None
    }
}

pub open spec fn has_answer(a: Seq<AnswerModel>, id: Seq<char>) -> bool {
    exists|i: int| 0 <= i < a.len() && (#[trigger] a[i]).id == id
}

pub open spec fn answer_index(a: Seq<AnswerModel>, id: Seq<char>) -> int {
    choose|i: int| 0 <= i < a.len() && (#[trigger] a[i]).id == id
}

/// The answer with this id, if there is one.
pub open spec fn lookup_answer(a: Seq<AnswerModel>, id: Seq<char>) -> Option<AnswerModel> {
    if has_answer(a, id) {
        Some(a[answer_index(a, id)])
    } else {
        None
    }
}

/// Whether some answer refers to the question with this id.
pub open spec fn is_referenced(a: Seq<AnswerModel>, qid: Seq<char>) -> bool {
    exists|i: int| 0 <= i < a.len() && (#[trigger] a[i]).question_id == qid
}

pub open spec fn questions_view(v: Seq<Question>) -> Seq<QuestionModel> {
    v.map_values(|q: Question| q@)
}

pub open spec fn answers_view(v: Seq<Answer>) -> Seq<AnswerModel> {
    v.map_values(|a: Answer| a@)
}

impl StoreModel {
    /// Ids are non-empty and unique in each collection, titles are
    /// non-empty, and every answer names an existing question.
    pub open spec fn wf(self) -> bool {
        &&& forall|i: int, j: int|
            0 <= i < self.questions.len() && 0 <= j < self.questions.len()
                && (#[trigger] self.questions[i]).id == (#[trigger] self.questions[j]).id ==> i == j
        &&& forall|i: int, j: int|
            0 <= i < self.answers.len() && 0 <= j < self.answers.len()
                && (#[trigger] self.answers[i]).id == (#[trigger] self.answers[j]).id ==> i == j
        &&& forall|i: int|
            0 <= i < self.questions.len() ==> (#[trigger] self.questions[i]).id.len() > 0
                && self.questions[i].title.len() > 0
        &&& forall|i: int|
            0 <= i < self.answers.len() ==> (#[trigger] self.answers[i]).id.len() > 0
                && has_question(self.questions, self.answers[i].question_id)
    }

    pub open spec fn empty() -> StoreModel {
        StoreModel { questions: Seq::empty(), answers: Seq::empty() }
    }
}

/// Adding a question: refused when its id or title is empty or its id is
/// taken; otherwise it goes to the end of the listing order.
pub open spec fn add_question_spec(s: StoreModel, id: Seq<char>, n: NewQuestionModel) -> (
    StoreModel,
    Result<QuestionModel, ErrorModel>,
) {
    if id.len() == 0 {
        (s, Err(ErrorModel::InvalidInput("question id is empty"@)))
    } else if n.title.len() == 0 {
        (s, Err(ErrorModel::InvalidInput("question title is empty"@)))
    } else if has_question(s.questions, id) {
        (s, Err(ErrorModel::Duplicate(EntityKind::Question, id)))
    } else {
        let q = question_from(id, n);
        (StoreModel { questions: s.questions.push(q), answers: s.answers }, Ok(q))
    }
}

/// Replacing a question: refused when no question has the id, when the
/// replacement carries another id, or when its title is empty.
pub open spec fn update_question_spec(s: StoreModel, id: Seq<char>, r: QuestionModel) -> (
    StoreModel,
    Result<QuestionModel, ErrorModel>,
) {
    if !has_question(s.questions, id) {
        (s, Err(ErrorModel::NotFound(EntityKind::Question, id)))
    } else if r.id != id {
        (s, Err(ErrorModel::InvalidInput("question id cannot change"@)))
    } else if r.title.len() == 0 {
        (s, Err(ErrorModel::InvalidInput("question title is empty"@)))
    } else {
        (
            StoreModel {
                questions: s.questions.update(question_index(s.questions, id), r),
                answers: s.answers,
            },
            Ok(r),
        )
    }
}

/// Deleting a question: refused when no question has the id, or when an
/// answer refers to it.
pub open spec fn delete_question_spec(s: StoreModel, id: Seq<char>) -> (
    StoreModel,
    Result<(), ErrorModel>,
) {
    if !has_question(s.questions, id) {
        (s, Err(ErrorModel::NotFound(EntityKind::Question, id)))
    } else if is_referenced(s.answers, id) {
        (s, Err(ErrorModel::Conflict("question has answers"@)))
    } else {
        (
            StoreModel {
                questions: s.questions.remove(question_index(s.questions, id)),
                answers: s.answers,
            },
            Ok(()),
        )
    }
}

/// Adding an answer: refused when its question does not exist, checked
/// first, then when its id is empty or taken.
pub open spec fn add_answer_spec(s: StoreModel, id: Seq<char>, n: NewAnswerModel) -> (
    StoreModel,
    Result<AnswerModel, ErrorModel>,
) {
    if !has_question(s.questions, n.question_id) {
        (s, Err(ErrorModel::NotFound(EntityKind::Question, n.question_id)))
    } else if id.len() == 0 {
        (s, Err(ErrorModel::InvalidInput("answer id is empty"@)))
    } else if has_answer(s.answers, id) {
        (s, Err(ErrorModel::Duplicate(EntityKind::Answer, id)))
    } else {
        let a = answer_from(id, n);
        (StoreModel { questions: s.questions, answers: s.answers.push(a) }, Ok(a))
    }
}

/// Replacing an answer: refused when no answer has the id, when the
/// replacement carries another id, or when its question does not exist.
pub open spec fn update_answer_spec(s: StoreModel, id: Seq<char>, r: AnswerModel) -> (
    StoreModel,
    Result<AnswerModel, ErrorModel>,
) {
    if !has_answer(s.answers, id) {
        (s, Err(ErrorModel::NotFound(EntityKind::Answer, id)))
    } else if r.id != id {
        (s, Err(ErrorModel::InvalidInput("answer id cannot change"@)))
    } else if !has_question(s.questions, r.question_id) {
        (s, Err(ErrorModel::NotFound(EntityKind::Question, r.question_id)))
    } else {
        (
            StoreModel {
                questions: s.questions,
                answers: s.answers.update(answer_index(s.answers, id), r),
            },
            Ok(r),
        )
    }
}

/// Deleting an answer: refused when no answer has the id.
pub open spec fn delete_answer_spec(s: StoreModel, id: Seq<char>) -> (
    StoreModel,
    Result<(), ErrorModel>,
) {
    if !has_answer(s.answers, id) {
        (s, Err(ErrorModel::NotFound(EntityKind::Answer, id)))
    } else {
        (
            StoreModel {
                questions: s.questions,
                answers: s.answers.remove(answer_index(s.answers, id)),
            },
            Ok(()),
        )
    }
}

pub open spec fn unit_res_view(r: Result<(), Error>) -> Result<(), ErrorModel> {
    match r {
        Ok(_) => Ok(()),
        Err(e) => Err(e@),
    }
}

/// In a well-formed store the record at `i` is the one that its id looks up.
pub proof fn lemma_index_of_id(s: StoreModel, i: int)
    requires
        s.wf(),
        0 <= i < s.questions.len(),
    ensures
        has_question(s.questions, s.questions[i].id),
        question_index(s.questions, s.questions[i].id) == i,
        lookup_question(s.questions, s.questions[i].id) == Some(s.questions[i]),
{
    assert(has_question(s.questions, s.questions[i].id));
}

pub proof fn lemma_answer_index_of_id(s: StoreModel, i: int)
    requires
        s.wf(),
        0 <= i < s.answers.len(),
    ensures
        has_answer(s.answers, s.answers[i].id),
        answer_index(s.answers, s.answers[i].id) == i,
        lookup_answer(s.answers, s.answers[i].id) == Some(s.answers[i]),
{
    assert(has_answer(s.answers, s.answers[i].id));
}

/// Adding a question keeps the store well formed.
pub proof fn lemma_add_question_wf(s: StoreModel, id: Seq<char>, n: NewQuestionModel)
    requires
        s.wf(),
    ensures
        add_question_spec(s, id, n).0.wf(),
{
    let t = add_question_spec(s, id, n).0;
    if add_question_spec(s, id, n).1 is Ok {
        assert forall|i: int| 0 <= i < t.answers.len() implies has_question(
            t.questions,
            (#[trigger] t.answers[i]).question_id,
        ) by {
            let w = choose|w: int|
                0 <= w < s.questions.len() && (#[trigger] s.questions[w]).id
                    == s.answers[i].question_id;
            assert(t.questions[w] == s.questions[w]);
        }
    }
}

/// Replacing a question keeps the store well formed.
pub proof fn lemma_update_question_wf(s: StoreModel, id: Seq<char>, r: QuestionModel)
    requires
        s.wf(),
    ensures
        update_question_spec(s, id, r).0.wf(),
{
    let t = update_question_spec(s, id, r).0;
    if update_question_spec(s, id, r).1 is Ok {
        assert forall|i: int| 0 <= i < t.questions.len() implies (#[trigger] t.questions[i]).id
            == s.questions[i].id by {}
        assert forall|i: int| 0 <= i < t.answers.len() implies has_question(
            t.questions,
            (#[trigger] t.answers[i]).question_id,
        ) by {
            let w = choose|w: int|
                0 <= w < s.questions.len() && (#[trigger] s.questions[w]).id
                    == s.answers[i].question_id;
            assert(t.questions[w].id == s.questions[w].id);
        }
    }
}

/// Deleting a question keeps the store well formed: no answer is left
/// without its question.
pub proof fn lemma_delete_question_wf(s: StoreModel, id: Seq<char>)
    requires
        s.wf(),
    ensures
        delete_question_spec(s, id).0.wf(),
{
    let t = delete_question_spec(s, id).0;
    if delete_question_spec(s, id).1 is Ok {
        let k = question_index(s.questions, id);
        assert forall|i: int, j: int|
            0 <= i < t.questions.len() && 0 <= j < t.questions.len()
                && (#[trigger] t.questions[i]).id == (#[trigger] t.questions[j]).id implies i
            == j by {
            let oi = if i < k { i } else { i + 1 };
            let oj = if j < k { j } else { j + 1 };
            assert(t.questions[i] == s.questions[oi]);
            assert(t.questions[j] == s.questions[oj]);
        }
        assert forall|i: int| 0 <= i < t.questions.len() implies (#[trigger] t.questions[i]).id.len()
            > 0 && t.questions[i].title.len() > 0 by {
            let oi = if i < k { i } else { i + 1 };
            assert(t.questions[i] == s.questions[oi]);
        }
        assert forall|i: int| 0 <= i < t.answers.len() implies has_question(
            t.questions,
            (#[trigger] t.answers[i]).question_id,
        ) by {
            let w = choose|w: int|
                0 <= w < s.questions.len() && (#[trigger] s.questions[w]).id
                    == s.answers[i].question_id;
            if w == k {
                assert(is_referenced(s.answers, id));
            }
            let nw = if w < k { w } else { w - 1 };
            assert(t.questions[nw] == s.questions[w]);
        }
    }
}

/// Adding an answer keeps the store well formed.
pub proof fn lemma_add_answer_wf(s: StoreModel, id: Seq<char>, n: NewAnswerModel)
    requires
        s.wf(),
    ensures
        add_answer_spec(s, id, n).0.wf(),
{
}

/// Replacing an answer keeps the store well formed.
pub proof fn lemma_update_answer_wf(s: StoreModel, id: Seq<char>, r: AnswerModel)
    requires
        s.wf(),
    ensures
        update_answer_spec(s, id, r).0.wf(),
{
    let t = update_answer_spec(s, id, r).0;
    if update_answer_spec(s, id, r).1 is Ok {
        assert forall|i: int| 0 <= i < t.answers.len() implies (#[trigger] t.answers[i]).id
            == s.answers[i].id by {}
    }
}

/// Deleting an answer keeps the store well formed.
pub proof fn lemma_delete_answer_wf(s: StoreModel, id: Seq<char>)
    requires
        s.wf(),
    ensures
        delete_answer_spec(s, id).0.wf(),
{
    let t = delete_answer_spec(s, id).0;
    if delete_answer_spec(s, id).1 is Ok {
        let k = answer_index(s.answers, id);
        assert forall|i: int, j: int|
            0 <= i < t.answers.len() && 0 <= j < t.answers.len()
                && (#[trigger] t.answers[i]).id == (#[trigger] t.answers[j]).id implies i
            == j by {
            let oi = if i < k { i } else { i + 1 };
            let oj = if j < k { j } else { j + 1 };
            assert(t.answers[i] == s.answers[oi]);
            assert(t.answers[j] == s.answers[oj]);
        }
        assert forall|i: int| 0 <= i < t.answers.len() implies (#[trigger] t.answers[i]).id.len()
            > 0 && has_question(t.questions, t.answers[i].question_id) by {
            let oi = if i < k { i } else { i + 1 };
            assert(t.answers[i] == s.answers[oi]);
        }
    }
}

/// A question added under a fresh id is found again under that id, equal to
/// the record that the addition returned.
pub proof fn lemma_add_then_get(s: StoreModel, id: Seq<char>, n: NewQuestionModel)
    requires
        s.wf(),
        add_question_spec(s, id, n).1 is Ok,
    ensures
        ({
            let (t, r) = add_question_spec(s, id, n);
            &&& r == Ok::<QuestionModel, ErrorModel>(question_from(id, n))
            &&& lookup_question(t.questions, id) == Some(question_from(id, n))
        }),
{
    let t = add_question_spec(s, id, n).0;
    lemma_add_question_wf(s, id, n);
    lemma_index_of_id(t, s.questions.len() as int);
}

/// An answer to a question that does not exist is refused as not found, and
/// the store is left as it was.
pub proof fn lemma_answer_needs_question(s: StoreModel, id: Seq<char>, n: NewAnswerModel)
    requires
        !has_question(s.questions, n.question_id),
    ensures
        add_answer_spec(s, id, n) == (
            s,
            Err::<AnswerModel, ErrorModel>(ErrorModel::NotFound(EntityKind::Question, n.question_id)),
        ),
{
}

/// The fields of a question that its creation supplies besides the id.
pub open spec fn new_part(q: QuestionModel) -> NewQuestionModel {
    NewQuestionModel { title: q.title, content: q.content, tags: q.tags }
}

/// Adds the questions of `batch` one after another, in order, and stops at
/// the first addition that fails, with its failure.
pub open spec fn add_questions_spec(s: StoreModel, batch: Seq<QuestionModel>) -> (
    StoreModel,
    Result<(), ErrorModel>,
)
    decreases batch.len(),
{
    if batch.len() == 0 {
        (s, Ok(()))
    } else {
        let (t, r) = add_question_spec(s, batch[0].id, new_part(batch[0]));
        match r {
            Ok(_) => add_questions_spec(t, batch.drop_first()),
            Err(e) => (t, Err(e)),
        }
    }
}

/// Whether a batch of questions has distinct, non-empty ids that the store
/// does not hold yet, and non-empty titles.
pub open spec fn fresh_batch(s: StoreModel, batch: Seq<QuestionModel>) -> bool {
    &&& forall|i: int, j: int|
        0 <= i < batch.len() && 0 <= j < batch.len() && (#[trigger] batch[i]).id == (
        #[trigger] batch[j]).id ==> i == j
    &&& forall|i: int|
        0 <= i < batch.len() ==> (#[trigger] batch[i]).id.len() > 0 && batch[i].title.len() > 0
            && !has_question(s.questions, batch[i].id)
}

/// Additions of questions with distinct fresh ids, applied one after another
/// in any order, all succeed: the store then lists its earlier questions
/// followed by exactly the added ones, none lost and none twice.
pub proof fn lemma_add_many(s: StoreModel, batch: Seq<QuestionModel>)
    requires
        s.wf(),
        fresh_batch(s, batch),
    ensures
        ({
            let (u, r) = add_questions_spec(s, batch);
            &&& r == Ok::<(), ErrorModel>(())
            &&& u.wf()
            &&& u.questions == s.questions + batch
            &&& u.answers == s.answers
        }),
    decreases batch.len(),
{
    if batch.len() == 0 {
        assert(s.questions + batch =~= s.questions);
    } else {
        let t = add_question_spec(s, batch[0].id, new_part(batch[0])).0;
        lemma_add_question_wf(s, batch[0].id, new_part(batch[0]));
        assert(question_from(batch[0].id, new_part(batch[0])) == batch[0]);
        let rest = batch.drop_first();
        assert forall|i: int| 0 <= i < rest.len() implies !has_question(
            t.questions,
            (#[trigger] rest[i]).id,
        ) by {
            assert(rest[i] == batch[i + 1]);
            if has_question(t.questions, rest[i].id) {
                let w = choose|w: int|
                    0 <= w < t.questions.len() && (#[trigger] t.questions[w]).id == rest[i].id;
                if w < s.questions.len() {
                    assert(s.questions[w] == t.questions[w]);
                }
            }
        }
        assert forall|i: int, j: int|
            0 <= i < rest.len() && 0 <= j < rest.len() && (#[trigger] rest[i]).id == (
            #[trigger] rest[j]).id implies i == j by {
            assert(rest[i] == batch[i + 1]);
            assert(rest[j] == batch[j + 1]);
        }
        lemma_add_many(t, rest);
        assert(t.questions + rest =~= s.questions + batch);
    }
}

/// The store of questions and answers.
#[derive(Debug)]
pub struct Store {
    questions: Vec<Question>,
    answers: Vec<Answer>,
}

impl View for Store {
    type V = StoreModel;

    closed spec fn view(&self) -> StoreModel {
        StoreModel { questions: questions_view(self.questions@), answers: answers_view(self.answers@) }
    }
}

impl Store {
    pub open spec fn wf(&self) -> bool {
        self@.wf()
    }

    /// An empty store.
    pub fn new() -> (r: Store)
        ensures
            r.wf(),
            r@ == StoreModel::empty(),
    {
        let r = Store { questions: Vec::new(), answers: Vec::new() };
        assert(r@.questions =~= Seq::<QuestionModel>::empty());
        assert(r@.answers =~= Seq::<AnswerModel>::empty());
        r
    }

    fn find_question(&self, id: &String) -> (r: Option<usize>)
        requires
            self.wf(),
        ensures
            match r {
                Some(i) => i < self@.questions.len() && question_index(self@.questions, id@) == i
                    && has_question(self@.questions, id@),
                None => !has_question(self@.questions, id@),
            },
    {
        let mut i: usize = 0;
        while i < self.questions.len()
            invariant
                self.wf(),
                i <= self.questions@.len(),
                forall|j: int| 0 <= j < i ==> (#[trigger] self@.questions[j]).id != id@,
            decreases self.questions@.len() - i,
        {
            if self.questions[i].id.0 == *id {
                proof {
                    lemma_index_of_id(self@, i as int);
                }
                return Some(i);
            }
            i = i + 1;
        }
        None
    }

    fn find_answer(&self, id: &String) -> (r: Option<usize>)
        requires
            self.wf(),
        ensures
            match r {
                Some(i) => i < self@.answers.len() && answer_index(self@.answers, id@) == i
                    && has_answer(self@.answers, id@),
                None => !has_answer(self@.answers, id@),
            },
    {
        let mut i: usize = 0;
        while i < self.answers.len()
            invariant
                self.wf(),
                i <= self.answers@.len(),
                forall|j: int| 0 <= j < i ==> (#[trigger] self@.answers[j]).id != id@,
            decreases self.answers@.len() - i,
        {
            if self.answers[i].id.0 == *id {
                proof {
                    lemma_answer_index_of_id(self@, i as int);
                }
                return Some(i);
            }
            i = i + 1;
        }
        None
    }

    fn referenced(&self, qid: &String) -> (r: bool)
        requires
            self.wf(),
        ensures
            r == is_referenced(self@.answers, qid@),
    {
        let mut i: usize = 0;
        while i < self.answers.len()
            invariant
                self.wf(),
                i <= self.answers@.len(),
                forall|j: int| 0 <= j < i ==> (#[trigger] self@.answers[j]).question_id != qid@,
            decreases self.answers@.len() - i,
        {
            if self.answers[i].question_id.0 == *qid {
                assert(self@.answers[i as int].question_id == qid@);
                return true;
            }
            i = i + 1;
        }
        false
    }

    /// The questions in insertion order; with a pagination, those from
    /// `offset` on, at most `limit` of them. An offset past the end gives
    /// an empty list.
    pub fn list_questions(&self, pagination: Option<Pagination>) -> (r: Vec<Question>)
        requires
            self.wf(),
        ensures
            questions_view(r@) == page(self@.questions, pagination),
    {
        let n = self.questions.len();
        let (start, end) = match pagination {
            None => (0, n),
            Some(p) => {
                let start = if p.offset < n { p.offset } else { n };
                let end = match p.limit {
                    None => n,
                    Some(l) => if l < n - start { start + l } else { n },
                };
                (start, end)
            },
        };
        let mut r: Vec<Question> = Vec::new();
        let mut i: usize = start;
        while i < end
            invariant
                start <= i <= end <= n,
                n == self.questions@.len(),
                questions_view(r@) =~= self@.questions.subrange(start as int, i as int),
            decreases end - i,
        {
            let q = self.questions[i].clone();
            let ghost before = r@;
            r.push(q);
            assert(questions_view(r@) =~= questions_view(before).push(self@.questions[i as int]));
            i = i + 1;
        }
        assert(questions_view(r@) =~= page(self@.questions, pagination));
        r
    }

    /// The question with this id, if there is one.
    pub fn get_question(&self, id: &QuestionId) -> (r: Option<Question>)
        requires
            self.wf(),
        ensures
            match r {
                Some(q) => lookup_question(self@.questions, id@) == Some(q@),
                None => lookup_question(self@.questions, id@) is None,
            },
    {
        match self.find_question(&id.0) {
            Some(i) => Some(self.questions[i].clone()),
            None => None,
        }
    }

    /// Adds a question under a caller-supplied id.
    pub fn add_question(&mut self, id: QuestionId, new: NewQuestion) -> (r: Result<Question, Error>)
        requires
            old(self).wf(),
        ensures
            final(self).wf(),
            final(self)@ == add_question_spec(old(self)@, id@, new@).0,
            res_view(r) == add_question_spec(old(self)@, id@, new@).1,
    {
        proof {
            lemma_add_question_wf(self@, id@, new@);
        }
        if id.0.unicode_len() == 0 {
            return Err(Error::InvalidInput(String::from_str("question id is empty")));
        }
        if new.title.unicode_len() == 0 {
            return Err(Error::InvalidInput(String::from_str("question title is empty")));
        }
        if self.find_question(&id.0).is_some() {
            return Err(Error::Duplicate(EntityKind::Question, id.0));
        }
        let q = Question { id, title: new.title, content: new.content, tags: new.tags };
        let ghost old_view = self@;
        self.questions.push(q.clone());
        assert(self@.questions =~= old_view.questions.push(q@));
        Ok(q)
    }

    /// Adds whole records in order, each under its own id, stopping at the
    /// first one that is refused. A batch of distinct fresh ids with titles
    /// is added whole, after the questions already held.
    pub fn add_questions(&mut self, batch: &Vec<Question>) -> (r: Result<(), Error>)
        requires
            old(self).wf(),
        ensures
            final(self).wf(),
            final(self)@ == add_questions_spec(old(self)@, questions_view(batch@)).0,
            unit_res_view(r) == add_questions_spec(old(self)@, questions_view(batch@)).1,
            fresh_batch(old(self)@, questions_view(batch@)) ==> r is Ok && final(self)@.questions
                == old(self)@.questions + questions_view(batch@),
    {
        let ghost all = questions_view(batch@);
        let ghost target = add_questions_spec(self@, all);
        proof {
            if fresh_batch(self@, all) {
                lemma_add_many(self@, all);
            }
            assert(all.subrange(0, all.len() as int) =~= all);
        }
        let n = batch.len();
        let mut i: usize = 0;
        while i < n
            invariant
                self.wf(),
                n == batch@.len(),
                all == questions_view(batch@),
                target == add_questions_spec(old(self)@, all),
                fresh_batch(old(self)@, all) ==> target.1 == Ok::<(), ErrorModel>(())
                    && target.0.questions == old(self)@.questions + all,
                i <= n,
                add_questions_spec(self@, all.subrange(i as int, n as int)) == target,
            decreases n - i,
        {
            let q = batch[i].clone();
            let ghost qv = q@;
            let ghost suffix = all.subrange(i as int, n as int);
            assert(suffix[0] == qv);
            assert(suffix.drop_first() =~= all.subrange(i + 1, n as int));
            let new = NewQuestion { title: q.title, content: q.content, tags: q.tags };
            assert(new@ == new_part(qv));
            let ghost pre = self@;
            match self.add_question(q.id, new) {
                Ok(_) => {},
                Err(e) => {
                    assert(add_question_spec(pre, qv.id, new_part(qv)) == (
                        self@,
                        Err::<QuestionModel, ErrorModel>(e@),
                    ));
                    assert(add_questions_spec(pre, suffix) == (
                        self@,
                        Err::<(), ErrorModel>(e@),
                    ));
                    return Err(e);
                },
            }
            i = i + 1;
        }
        assert(all.subrange(n as int, n as int) =~= Seq::<QuestionModel>::empty());
        Ok(())
    }

    /// Replaces the question with this id, whose id must stay the same.
    pub fn update_question(&mut self, id: &QuestionId, replacement: Question) -> (r: Result<
        Question,
        Error,
    >)
        requires
            old(self).wf(),
        ensures
            final(self).wf(),
            final(self)@ == update_question_spec(old(self)@, id@, replacement@).0,
            res_view(r) == update_question_spec(old(self)@, id@, replacement@).1,
    {
        proof {
            lemma_update_question_wf(self@, id@, replacement@);
        }
        let k = match self.find_question(&id.0) {
            Some(k) => k,
            None => {
                return Err(Error::NotFound(EntityKind::Question, id.0.clone()));
            },
        };
        if !(replacement.id.0 == id.0) {
            return Err(Error::InvalidInput(String::from_str("question id cannot change")));
        }
        if replacement.title.unicode_len() == 0 {
            return Err(Error::InvalidInput(String::from_str("question title is empty")));
        }
        let ghost old_view = self@;
        self.questions.remove(k);
        self.questions.insert(k, replacement.clone());
        assert(self@.questions =~= old_view.questions.update(k as int, replacement@));
        Ok(replacement)
    }

    /// Deletes the question with this id, unless an answer refers to it.
    pub fn delete_question(&mut self, id: &QuestionId) -> (r: Result<(), Error>)
        requires
            old(self).wf(),
        ensures
            final(self).wf(),
            final(self)@ == delete_question_spec(old(self)@, id@).0,
            unit_res_view(r) == delete_question_spec(old(self)@, id@).1,
    {
        proof {
            lemma_delete_question_wf(self@, id@);
        }
        let k = match self.find_question(&id.0) {
            Some(k) => k,
            None => {
                return Err(Error::NotFound(EntityKind::Question, id.0.clone()));
            },
        };
        if self.referenced(&id.0) {
            return Err(Error::Conflict(String::from_str("question has answers")));
        }
        let ghost old_view = self@;
        self.questions.remove(k);
        assert(self@.questions =~= old_view.questions.remove(k as int));
        Ok(())
    }

    /// Adds an answer to an existing question, under a caller-supplied id.
    pub fn add_answer(&mut self, id: AnswerId, new: NewAnswer) -> (r: Result<Answer, Error>)
        requires
            old(self).wf(),
        ensures
            final(self).wf(),
            final(self)@ == add_answer_spec(old(self)@, id@, new@).0,
            res_view(r) == add_answer_spec(old(self)@, id@, new@).1,
    {
        proof {
            lemma_add_answer_wf(self@, id@, new@);
        }
        if self.find_question(&new.question_id.0).is_none() {
            return Err(Error::NotFound(EntityKind::Question, new.question_id.0));
        }
        if id.0.unicode_len() == 0 {
            return Err(Error::InvalidInput(String::from_str("answer id is empty")));
        }
        if self.find_answer(&id.0).is_some() {
            return Err(Error::Duplicate(EntityKind::Answer, id.0));
        }
        let a = Answer { id, content: new.content, question_id: new.question_id };
        let ghost old_view = self@;
        self.answers.push(a.clone());
        assert(self@.answers =~= old_view.answers.push(a@));
        Ok(a)
    }

    /// The answer with this id, if there is one.
    pub fn get_answer(&self, id: &AnswerId) -> (r: Option<Answer>)
        requires
            self.wf(),
        ensures
            match r {
                Some(a) => lookup_answer(self@.answers, id@) == Some(a@),
                None => lookup_answer(self@.answers, id@) is None,
            },
    {
        match self.find_answer(&id.0) {
            Some(i) => Some(self.answers[i].clone()),
            None => None,
        }
    }

    /// Replaces the answer with this id, whose id must stay the same and
    /// whose question must exist.
    pub fn update_answer(&mut self, id: &AnswerId, replacement: Answer) -> (r: Result<
        Answer,
        Error,
    >)
        requires
            old(self).wf(),
        ensures
            final(self).wf(),
            final(self)@ == update_answer_spec(old(self)@, id@, replacement@).0,
            res_view(r) == update_answer_spec(old(self)@, id@, replacement@).1,
    {
        proof {
            lemma_update_answer_wf(self@, id@, replacement@);
        }
        let k = match self.find_answer(&id.0) {
            Some(k) => k,
            None => {
                return Err(Error::NotFound(EntityKind::Answer, id.0.clone()));
            },
        };
        if !(replacement.id.0 == id.0) {
            return Err(Error::InvalidInput(String::from_str("answer id cannot change")));
        }
        if self.find_question(&replacement.question_id.0).is_none() {
            return Err(Error::NotFound(EntityKind::Question, replacement.question_id.0.clone()));
        }
        let ghost old_view = self@;
        self.answers.remove(k);
        self.answers.insert(k, replacement.clone());
        assert(self@.answers =~= old_view.answers.update(k as int, replacement@));
        Ok(replacement)
    }

    /// Deletes the answer with this id.
    pub fn delete_answer(&mut self, id: &AnswerId) -> (r: Result<(), Error>)
        requires
            old(self).wf(),
        ensures
            final(self).wf(),
            final(self)@ == delete_answer_spec(old(self)@, id@).0,
            unit_res_view(r) == delete_answer_spec(old(self)@, id@).1,
    {
        proof {
            lemma_delete_answer_wf(self@, id@);
        }
        let k = match self.find_answer(&id.0) {
            Some(k) => k,
            None => {
                return Err(Error::NotFound(EntityKind::Answer, id.0.clone()));
            },
        };
        let ghost old_view = self@;
        self.answers.remove(k);
        assert(self@.answers =~= old_view.answers.remove(k as int));
        Ok(())
    }
}

} // verus!
