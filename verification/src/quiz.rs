//! The quiz routes: each maps one decoded request to exactly one
//! repository operation, and the outcome to a status code and body.

use vstd::prelude::*;

use crate::quiz_api::{
    has_quiz_id, is_quiz_view, quiz_at, quiz_card_count, quiz_index, rename_cards,
    rename_quizzes, CreateQuiz, Quiz, QuizCompletion, QuizCorrectCount, QuizHint, QuizIndex,
    QuizModel, QuizView, RenameQuiz,
};
use crate::{status_of, status_of_spec, KeikoError, KeikoStore, StoreModel};

verus! {

/// A decoded quiz request: each variant carries what its route decodes
/// from the path or body.
#[derive(Clone, Debug)]
pub enum QuizRequest {
    GetAll,
    Get(u128),
    Ongoing,
    Completed,
    Create(CreateQuiz),
    Update(Quiz),
    Delete(u128),
    SetCompletion(QuizCompletion),
    SetIndex(u128, QuizIndex),
    SetCorrect(u128, QuizCorrectCount),
    SetHint(u128, QuizHint),
    Rename(String, RenameQuiz),
}

/// The body of a quiz response.
#[derive(Clone, Debug)]
pub enum QuizReply {
    Views(Vec<QuizView>),
    View(QuizView),
    Quiz(Quiz),
    Deleted(u128),
    Renamed,
    Failure(KeikoError),
}

/// A quiz response: the status code and the body it carries.
#[derive(Clone, Debug)]
pub struct QuizResponse {
    pub status: u16,
    pub body: QuizReply,
}

/// What serving one quiz request means: the store moves as the one
/// repository operation the request names, a success is a 200 carrying that
/// operation's result, and a failure carries the error under its status.
pub open spec fn quiz_service_spec(
    pre: StoreModel,
    post: StoreModel,
    req: QuizRequest,
    resp: QuizResponse,
) -> bool {
    match req {
        QuizRequest::GetAll => {
            &&& post == pre
            &&& resp.status == 200
            &&& (resp.body matches QuizReply::Views(v) && v@.len() == pre.quizzes.len() && (
            forall|i: int|
                0 <= i < v@.len() ==> is_quiz_view(pre, pre.quizzes[i], (#[trigger] v@[i])@)))
        },
        QuizRequest::Get(id) => {
            &&& post == pre
            &&& if has_quiz_id(pre.quizzes, id) {
                &&& resp.status == 200
                &&& (resp.body matches QuizReply::View(v) && is_quiz_view(
                    pre,
                    quiz_at(pre.quizzes, id),
                    v@,
                ))
            } else {
                &&& resp.status == 404
                &&& resp.body matches QuizReply::Failure(e) && e == KeikoError::NotFound
            }
        },
        QuizRequest::Ongoing => {
            &&& post == pre
            &&& resp.status == 200
            &&& (resp.body matches QuizReply::Views(v) && ({
                let picked = pre.quizzes.filter(|q: QuizModel| !q.is_completed);
                v@.len() == picked.len() && (forall|i: int|
                    0 <= i < v@.len() ==> is_quiz_view(pre, picked[i], (#[trigger] v@[i])@))
            }))
        },
        QuizRequest::Completed => {
            &&& post == pre
            &&& resp.status == 200
            &&& (resp.body matches QuizReply::Views(v) && ({
                let picked = pre.quizzes.filter(|q: QuizModel| q.is_completed);
                v@.len() == picked.len() && (forall|i: int|
                    0 <= i < v@.len() ==> is_quiz_view(pre, picked[i], (#[trigger] v@[i])@))
            }))
        },
        QuizRequest::Create(cr) => {
            match resp.body {
                QuizReply::Quiz(q) => {
                    &&& resp.status == 200
                    &&& q@.course_code == cr.course_code@
                    &&& q@.category == cr.category@
                    &&& q@.current_index == 0
                    &&& q@.correct_count == 0
                    &&& !q@.is_completed
                    &&& !q@.hint_used
                    &&& q@.completed_at is None
                    &&& q@.started_at >= pre.clock
                    &&& post == (StoreModel {
                        quizzes: pre.quizzes.push(q@),
                        clock: q@.started_at,
                        ..pre
                    })
                },
                QuizReply::Failure(e) => {
                    &&& resp.status == status_of_spec(e)
                    &&& e == KeikoError::Conflict
                    &&& post == pre
                },
                _ => false,
            }
        },
        QuizRequest::Update(upd) => {
            match resp.body {
                QuizReply::Quiz(q) => {
                    &&& resp.status == 200
                    &&& has_quiz_id(pre.quizzes, upd.id)
                    &&& 0 <= upd.current_index <= quiz_card_count(pre, quiz_at(pre.quizzes, upd.id))
                    &&& upd.correct_count >= 0
                    &&& q@.current_index == upd.current_index
                    &&& q@.correct_count == upd.correct_count
                    &&& q@.is_completed == upd.is_completed
                    &&& (q@.is_completed <==> q@.completed_at is Some)
                    &&& q@.id == upd.id
                    &&& q@.course_code == quiz_at(pre.quizzes, upd.id).course_code
                    &&& q@.category == quiz_at(pre.quizzes, upd.id).category
                    &&& q@.started_at == quiz_at(pre.quizzes, upd.id).started_at
                    &&& post.quizzes == pre.quizzes.update(quiz_index(pre.quizzes, upd.id), q@)
                    &&& post.cards == pre.cards
                    &&& post.courses == pre.courses
                },
                QuizReply::Failure(e) => {
                    &&& resp.status == status_of_spec(e)
                    &&& (e == KeikoError::NotFound <==> !has_quiz_id(pre.quizzes, upd.id))
                    &&& e == KeikoError::NotFound || e == KeikoError::ValidationError
                    &&& post == pre
                },
                _ => false,
            }
        },
        QuizRequest::Delete(id) => {
            if has_quiz_id(pre.quizzes, id) {
                &&& resp.status == 200
                &&& resp.body matches QuizReply::Deleted(d) && d == id
                &&& post == (StoreModel {
                    quizzes: pre.quizzes.remove(quiz_index(pre.quizzes, id)),
                    ..pre
                })
            } else {
                &&& resp.status == 404
                &&& resp.body matches QuizReply::Failure(e) && e == KeikoError::NotFound
                &&& post == pre
            }
        },
        QuizRequest::SetCompletion(qc) => {
            match resp.body {
                QuizReply::Quiz(q) => {
                    &&& resp.status == 200
                    &&& has_quiz_id(pre.quizzes, qc.id)
                    &&& q@.is_completed == qc.is_completed
                    &&& (if qc.is_completed {
                        &&& q@.completed_at is Some
                        &&& q@.completed_at->Some_0 >= pre.clock
                        &&& q@.current_index == quiz_at(pre.quizzes, qc.id).current_index
                        &&& q@.correct_count == quiz_at(pre.quizzes, qc.id).correct_count
                    } else {
                        &&& q@.completed_at is None
                        &&& q@.current_index == 0
                        &&& q@.correct_count == 0
                    })
                    &&& q@.id == qc.id
                    &&& q@.started_at == quiz_at(pre.quizzes, qc.id).started_at
                    &&& post.quizzes == pre.quizzes.update(quiz_index(pre.quizzes, qc.id), q@)
                    &&& post.cards == pre.cards
                    &&& post.courses == pre.courses
                },
                QuizReply::Failure(e) => {
                    &&& resp.status == 404
                    &&& e == KeikoError::NotFound
                    &&& !has_quiz_id(pre.quizzes, qc.id)
                    &&& post == pre
                },
                _ => false,
            }
        },
        QuizRequest::SetIndex(id, qi) => {
            match resp.body {
                QuizReply::Quiz(q) => {
                    &&& resp.status == 200
                    &&& has_quiz_id(pre.quizzes, id)
                    &&& 0 <= qi.current_index <= quiz_card_count(pre, quiz_at(pre.quizzes, id))
                    &&& q@ == (QuizModel {
                        current_index: qi.current_index,
                        ..quiz_at(pre.quizzes, id)
                    })
                    &&& post == (StoreModel {
                        quizzes: pre.quizzes.update(quiz_index(pre.quizzes, id), q@),
                        ..pre
                    })
                },
                QuizReply::Failure(e) => {
                    &&& resp.status == status_of_spec(e)
                    &&& (e == KeikoError::NotFound <==> !has_quiz_id(pre.quizzes, id))
                    &&& (e == KeikoError::ValidationError <==> has_quiz_id(pre.quizzes, id) && !(0
                        <= qi.current_index <= quiz_card_count(pre, quiz_at(pre.quizzes, id))))
                    &&& e == KeikoError::NotFound || e == KeikoError::ValidationError
                    &&& post == pre
                },
                _ => false,
            }
        },
        QuizRequest::SetCorrect(id, qc) => {
            match resp.body {
                QuizReply::Quiz(q) => {
                    &&& resp.status == 200
                    &&& has_quiz_id(pre.quizzes, id)
                    &&& qc.correct_count >= 0
                    &&& q@ == (QuizModel {
                        correct_count: qc.correct_count,
                        ..quiz_at(pre.quizzes, id)
                    })
                    &&& post == (StoreModel {
                        quizzes: pre.quizzes.update(quiz_index(pre.quizzes, id), q@),
                        ..pre
                    })
                },
                QuizReply::Failure(e) => {
                    &&& resp.status == status_of_spec(e)
                    &&& (e == KeikoError::NotFound <==> !has_quiz_id(pre.quizzes, id))
                    &&& (e == KeikoError::ValidationError <==> has_quiz_id(pre.quizzes, id)
                        && qc.correct_count < 0)
                    &&& e == KeikoError::NotFound || e == KeikoError::ValidationError
                    &&& post == pre
                },
                _ => false,
            }
        },
        QuizRequest::SetHint(id, qh) => {
            if has_quiz_id(pre.quizzes, id) {
                &&& resp.status == 200
                &&& (resp.body matches QuizReply::Quiz(q) && q@ == (QuizModel {
                    hint_used: qh.hint_used,
                    ..quiz_at(pre.quizzes, id)
                }))
                &&& post == (StoreModel {
                    quizzes: pre.quizzes.update(
                        quiz_index(pre.quizzes, id),
                        (QuizModel { hint_used: qh.hint_used, ..quiz_at(pre.quizzes, id) }),
                    ),
                    ..pre
                })
            } else {
                &&& resp.status == 404
                &&& resp.body matches QuizReply::Failure(e) && e == KeikoError::NotFound
                &&& post == pre
            }
        },
        QuizRequest::Rename(code, rn) => {
            &&& resp.status == 200
            &&& resp.body is Renamed
            &&& post == (StoreModel {
                cards: rename_cards(pre.cards, code@, rn.old@, rn.new@),
                quizzes: rename_quizzes(pre.quizzes, code@, rn.old@, rn.new@),
                ..pre
            })
        },
    }
}

/// Serves one quiz request against the store: decodes nothing, invokes
/// exactly one repository operation, and maps its outcome to a status and
/// body as `quiz_service_spec` states.
pub fn service(store: &mut KeikoStore, req: &QuizRequest) -> (resp: QuizResponse)
    requires
        old(store).wf(),
    ensures
        final(store).wf(),
        quiz_service_spec(old(store)@, final(store)@, *req, resp),
{
    match req {
        QuizRequest::GetAll => {
            match store.get_quizzes() {
                Ok(v) => QuizResponse { status: 200, body: QuizReply::Views(v) },
                Err(e) => QuizResponse { status: status_of(&e), body: QuizReply::Failure(e) },
            }
        },
        QuizRequest::Get(id) => {
            match store.get_quiz(*id) {
                Ok(v) => QuizResponse { status: 200, body: QuizReply::View(v) },
                Err(e) => QuizResponse { status: status_of(&e), body: QuizReply::Failure(e) },
            }
        },
        QuizRequest::Ongoing => {
            match store.get_ongoing_quizzes() {
                Ok(v) => QuizResponse { status: 200, body: QuizReply::Views(v) },
                Err(e) => QuizResponse { status: status_of(&e), body: QuizReply::Failure(e) },
            }
        },
        QuizRequest::Completed => {
            match store.get_completed_quizzes() {
                Ok(v) => QuizResponse { status: 200, body: QuizReply::Views(v) },
                Err(e) => QuizResponse { status: status_of(&e), body: QuizReply::Failure(e) },
            }
        },
        QuizRequest::Create(cr) => {
            match store.create_quiz(cr) {
                Ok(q) => QuizResponse { status: 200, body: QuizReply::Quiz(q) },
                Err(e) => QuizResponse { status: status_of(&e), body: QuizReply::Failure(e) },
            }
        },
        QuizRequest::Update(upd) => {
            match store.update_quiz(upd) {
                Ok(q) => QuizResponse { status: 200, body: QuizReply::Quiz(q) },
                Err(e) => QuizResponse { status: status_of(&e), body: QuizReply::Failure(e) },
            }
        },
        QuizRequest::Delete(id) => {
            match store.delete_quiz(*id) {
                Ok(d) => QuizResponse { status: 200, body: QuizReply::Deleted(d) },
                Err(e) => QuizResponse { status: status_of(&e), body: QuizReply::Failure(e) },
            }
        },
        QuizRequest::SetCompletion(qc) => {
            match store.set_quiz_completion(qc) {
                Ok(q) => QuizResponse { status: 200, body: QuizReply::Quiz(q) },
                Err(e) => QuizResponse { status: status_of(&e), body: QuizReply::Failure(e) },
            }
        },
        QuizRequest::SetIndex(id, qi) => {
            match store.set_current_index(*id, qi) {
                Ok(q) => QuizResponse { status: 200, body: QuizReply::Quiz(q) },
                Err(e) => QuizResponse { status: status_of(&e), body: QuizReply::Failure(e) },
            }
        },
        QuizRequest::SetCorrect(id, qc) => {
            match store.set_correct_count(*id, qc) {
                Ok(q) => QuizResponse { status: 200, body: QuizReply::Quiz(q) },
                Err(e) => QuizResponse { status: status_of(&e), body: QuizReply::Failure(e) },
            }
        },
        QuizRequest::SetHint(id, qh) => {
            match store.set_hint_used(*id, qh) {
                Ok(q) => QuizResponse { status: 200, body: QuizReply::Quiz(q) },
                Err(e) => QuizResponse { status: status_of(&e), body: QuizReply::Failure(e) },
            }
        },
        QuizRequest::Rename(code, rn) => {
            match store.rename_quiz(code, rn) {
                Ok(_) => QuizResponse { status: 200, body: QuizReply::Renamed },
                Err(e) => QuizResponse { status: status_of(&e), body: QuizReply::Failure(e) },
            }
        },
    }
}

} // verus!
