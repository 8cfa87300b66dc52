//! The card routes: each maps one decoded request to exactly one
//! repository operation, and the outcome to a status code and body.  The tag listing route is served here too.

use vstd::prelude::*;

use crate::cards_api::{
    card_at, card_index, card_text_valid, cards_of, has_card_id, tag_set, Card, CardModel,
    CreateCard, Tags, UpdateCard,
};
use crate::quiz_api::{has_quiz_id, quiz_at};
use crate::{status_of, status_of_spec, KeikoError, KeikoStore, StoreModel};

verus! {

/// A decoded card request: each variant carries what its route decodes
/// from the path or body.
#[derive(Clone, Debug)]
pub enum CardRequest {
    GetAll,
    Get(u128),
    Create(CreateCard),
    Update(UpdateCard),
    Delete(u128),
    ByCourse(String),
    ByQuiz(u128),
    GetTags,
}

/// The body of a card response.
#[derive(Clone, Debug)]
pub enum CardReply {
    Cards(Vec<Card>),
    Card(Card),
    Deleted(u128),
    Tags(Tags),
    Failure(KeikoError),
}

/// A card response: the status code and the body it carries.
#[derive(Clone, Debug)]
pub struct CardResponse {
    pub status: u16,
    pub body: CardReply,
}

/// What serving one card request means: the store moves as the one
/// repository operation the request names, a success is a 200 carrying that
/// operation's result, and a failure carries the error under its status.
pub open spec fn card_service_spec(
    pre: StoreModel,
    post: StoreModel,
    req: CardRequest,
    resp: CardResponse,
) -> bool {
    match req {
        CardRequest::GetAll => {
            &&& post == pre
            &&& resp.status == 200
            &&& (resp.body matches CardReply::Cards(v) && cards_of(v@) == pre.cards)
        },
        CardRequest::Get(id) => {
            &&& post == pre
            &&& if has_card_id(pre.cards, id) {
                &&& resp.status == 200
                &&& (resp.body matches CardReply::Card(c) && c@ == card_at(pre.cards, id))
            } else {
                &&& resp.status == 404
                &&& resp.body matches CardReply::Failure(e) && e == KeikoError::NotFound
            }
        },
        CardRequest::Create(cr) => {
            match resp.body {
                CardReply::Card(c) => {
                    &&& resp.status == 200
                    &&& card_text_valid(cr.question@, cr.answer@)
                    &&& c@.question == cr.question@
                    &&& c@.answer == cr.answer@
                    &&& c@.course_code == cr.course_code@
                    &&& c@.category == cr.category@
                    &&& c@.difficulty == cr.difficulty@
                    &&& c@.tags == crate::strings_of(cr.tags@)
                    &&& c@.updated_at is None
                    &&& c@.created_at >= pre.clock
                    &&& post == (StoreModel {
                        cards: pre.cards.push(c@),
                        clock: c@.created_at,
                        ..pre
                    })
                },
                CardReply::Failure(e) => {
                    &&& resp.status == status_of_spec(e)
                    &&& (e == KeikoError::ValidationError <==> !card_text_valid(
                        cr.question@,
                        cr.answer@,
                    ))
                    &&& e == KeikoError::ValidationError || e == KeikoError::Conflict
                    &&& post == pre
                },
                _ => false,
            }
        },
        CardRequest::Update(upd) => {
            match resp.body {
                CardReply::Card(c) => {
                    &&& resp.status == 200
                    &&& has_card_id(pre.cards, upd.id)
                    &&& card_text_valid(upd.question@, upd.answer@)
                    &&& c@.id == upd.id
                    &&& c@.question == upd.question@
                    &&& c@.answer == upd.answer@
                    &&& c@.course_code == upd.course_code@
                    &&& c@.category == upd.category@
                    &&& c@.difficulty == upd.difficulty@
                    &&& c@.tags == crate::strings_of(upd.tags@)
                    &&& c@.created_at == pre.cards[card_index(pre.cards, upd.id)].created_at
                    &&& c@.updated_at matches Some(t) && t >= pre.clock
                    &&& post == (StoreModel {
                        cards: pre.cards.update(card_index(pre.cards, upd.id), c@),
                        clock: c@.updated_at->Some_0,
                        ..pre
                    })
                },
                CardReply::Failure(e) => {
                    &&& resp.status == status_of_spec(e)
                    &&& (e == KeikoError::NotFound <==> !has_card_id(pre.cards, upd.id))
                    &&& (e == KeikoError::ValidationError <==> has_card_id(pre.cards, upd.id)
                        && !card_text_valid(upd.question@, upd.answer@))
                    &&& e == KeikoError::NotFound || e == KeikoError::ValidationError
                    &&& post == pre
                },
                _ => false,
            }
        },
        CardRequest::Delete(id) => {
            if has_card_id(pre.cards, id) {
                &&& resp.status == 200
                &&& resp.body matches CardReply::Deleted(d) && d == id
                &&& post == (StoreModel {
                    cards: pre.cards.remove(card_index(pre.cards, id)),
                    ..pre
                })
            } else {
                &&& resp.status == 404
                &&& resp.body matches CardReply::Failure(e) && e == KeikoError::NotFound
                &&& post == pre
            }
        },
        CardRequest::ByCourse(code) => {
            &&& post == pre
            &&& resp.status == 200
            &&& (resp.body matches CardReply::Cards(v) && cards_of(v@) == pre.cards.filter(
                |c: CardModel| c.course_code == code@,
            ))
        },
        CardRequest::ByQuiz(quiz_id) => {
            &&& post == pre
            &&& resp.status == 200
            &&& (resp.body matches CardReply::Cards(v) && (if has_quiz_id(pre.quizzes, quiz_id) {
                cards_of(v@) == pre.cards.filter(
                    |c: CardModel| c.course_code == quiz_at(pre.quizzes, quiz_id).course_code
                        && c.category == quiz_at(pre.quizzes, quiz_id).category,
                )
            } else {
                v@.len() == 0
            }))
        },
        CardRequest::GetTags => {
            &&& post == pre
            &&& resp.status == 200
            &&& (resp.body matches CardReply::Tags(tg) && crate::sorted_strict(
                crate::strings_of(tg.tags@),
            ) && (forall|t: Seq<char>| #[trigger]
                crate::strings_of(tg.tags@).contains(t) <==> tag_set(pre.cards).contains(t)))
        },
    }
}

/// Serves one card request against the store: decodes nothing, invokes
/// exactly one repository operation, and maps its outcome to a status and
/// body as `card_service_spec` states.
pub fn service(store: &mut KeikoStore, req: &CardRequest) -> (resp: CardResponse)
    requires
        old(store).wf(),
    ensures
        final(store).wf(),
        card_service_spec(old(store)@, final(store)@, *req, resp),
{
    match req {
        CardRequest::GetAll => {
            match store.get_cards() {
                Ok(v) => CardResponse { status: 200, body: CardReply::Cards(v) },
                Err(e) => CardResponse { status: status_of(&e), body: CardReply::Failure(e) },
            }
        },
        CardRequest::Get(id) => {
            match store.get_card(*id) {
                Ok(c) => CardResponse { status: 200, body: CardReply::Card(c) },
                Err(e) => CardResponse { status: status_of(&e), body: CardReply::Failure(e) },
            }
        },
        CardRequest::Create(cr) => {
            match store.create_card(cr) {
                Ok(c) => CardResponse { status: 200, body: CardReply::Card(c) },
                Err(e) => CardResponse { status: status_of(&e), body: CardReply::Failure(e) },
            }
        },
        CardRequest::Update(upd) => {
            match store.update_card(upd) {
                Ok(c) => CardResponse { status: 200, body: CardReply::Card(c) },
                Err(e) => CardResponse { status: status_of(&e), body: CardReply::Failure(e) },
            }
        },
        CardRequest::Delete(id) => {
            match store.delete_card(*id) {
                Ok(d) => CardResponse { status: 200, body: CardReply::Deleted(d) },
                Err(e) => CardResponse { status: status_of(&e), body: CardReply::Failure(e) },
            }
        },
        CardRequest::ByCourse(code) => {
            match store.get_cards_by_course_code(code) {
                Ok(v) => CardResponse { status: 200, body: CardReply::Cards(v) },
                Err(e) => CardResponse { status: status_of(&e), body: CardReply::Failure(e) },
            }
        },
        CardRequest::ByQuiz(quiz_id) => {
            match store.get_cards_by_quiz_id(*quiz_id) {
                Ok(v) => CardResponse { status: 200, body: CardReply::Cards(v) },
                Err(e) => CardResponse { status: status_of(&e), body: CardReply::Failure(e) },
            }
        },
        CardRequest::GetTags => {
            match store.get_available_tags() {
                Ok(tg) => CardResponse { status: 200, body: CardReply::Tags(tg) },
                Err(e) => CardResponse { status: status_of(&e), body: CardReply::Failure(e) },
            }
        },
    }
}

} // verus!
