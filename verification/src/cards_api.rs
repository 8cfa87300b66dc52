//! The card (flashcard) resource: a question/answer study unit that belongs
//! to a course and category and carries free-text tag labels.

use vstd::prelude::*;

use crate::quiz_api::{has_quiz_id, quiz_at, quiz_index};
use crate::{string_eq, KeikoError, KeikoResult, KeikoStore, StoreModel, tick_of};

verus! {

broadcast use vstd::seq_lib::group_filter_ensures, Seq::lemma_filter_push, Seq::lemma_map_take_succ, Seq::lemma_push_map_commute;

/// A card row as stored.
#[derive(Clone, Debug, PartialEq)]
pub struct Card {
    pub id: u128,
    pub question: String,
    pub answer: String,
    pub course_code: String,
    pub category: String,
    pub difficulty: String,
    pub tags: Vec<String>,
    pub created_at: u64,
    pub updated_at: Option<u64>,
}

/// The client-supplied fields of a new card.
#[derive(Clone, Debug, PartialEq)]
pub struct CreateCard {
    pub question: String,
    pub answer: String,
    pub course_code: String,
    pub category: String,
    pub difficulty: String,
    pub tags: Vec<String>,
}

/// The client-supplied fields of a card update, addressed by id.
#[derive(Clone, Debug, PartialEq)]
pub struct UpdateCard {
    pub id: u128,
    pub question: String,
    pub answer: String,
    pub course_code: String,
    pub category: String,
    pub difficulty: String,
    pub tags: Vec<String>,
}

/// The set of tags currently in use across all cards, deduplicated.
#[derive(Clone, Debug, PartialEq)]
pub struct Tags {
    pub tags: Vec<String>,
}

/// The model of a stored card.
#[verifier::ext_equal]
pub struct CardModel {
    pub id: u128,
    pub question: Seq<char>,
    pub answer: Seq<char>,
    pub course_code: Seq<char>,
    pub category: Seq<char>,
    pub difficulty: Seq<char>,
    pub tags: Seq<Seq<char>>,
    pub created_at: u64,
    pub updated_at: Option<u64>,
}

impl View for Card {
    type V = CardModel;

    open spec fn view(&self) -> CardModel {
        CardModel {
            id: self.id,
            question: self.question@,
            answer: self.answer@,
            course_code: self.course_code@,
            category: self.category@,
            difficulty: self.difficulty@,
            tags: self.tags@.map_values(|t: String| t@),
            created_at: self.created_at,
            updated_at: self.updated_at,
        }
    }
}

impl CardModel {
    /// Both timestamps of the row are bounded by the store's clock.
    pub open spec fn stamps_ok(self, clock: u64) -> bool {
        &&& self.created_at <= clock
        &&& (self.updated_at matches Some(t) ==> t <= clock)
    }
}

/// The models of a table of cards.
pub open spec fn cards_of(cards: Seq<Card>) -> Seq<CardModel> {
    cards.map_values(|c: Card| c@)
}

/// Some stored card carries the given id.
pub open spec fn has_card_id(cards: Seq<CardModel>, id: u128) -> bool {
    exists|i: int| 0 <= i < cards.len() && (#[trigger] cards[i]).id == id
}

/// The row index of the card with the given id.
pub open spec fn card_index(cards: Seq<CardModel>, id: u128) -> int {
    choose|i: int| 0 <= i < cards.len() && (#[trigger] cards[i]).id == id
}

/// The stored card with the given id.
pub open spec fn card_at(cards: Seq<CardModel>, id: u128) -> CardModel {
    cards[card_index(cards, id)]
}

/// A card create or update is valid exactly when both the question and the
/// answer are non-empty text.
pub open spec fn card_text_valid(question: Seq<char>, answer: Seq<char>) -> bool {
    question.len() > 0 && answer.len() > 0
}

impl Card {
    /// A field-for-field copy of the row.
    pub fn duplicate(&self) -> (r: Card)
        ensures
            r@ == self@,
    {
        Card {
            id: self.id,
            question: self.question.clone(),
            answer: self.answer.clone(),
            course_code: self.course_code.clone(),
            category: self.category.clone(),
            difficulty: self.difficulty.clone(),
            tags: crate::clone_strings(&self.tags),
            created_at: self.created_at,
            updated_at: self.updated_at,
        }
    }
}

impl KeikoStore {
    /// The row index of the card with the given id, if any.
    pub fn find_card(&self, id: u128) -> (r: Option<usize>)
        ensures
            match r {
                Some(i) => i < self@.cards.len() && self@.cards[i as int].id == id,
                None => !has_card_id(self@.cards, id),
            },
    {
        let mut i: usize = 0;
        while i < self.cards.len()
            invariant
                i <= self.cards.len(),
                forall|j: int| 0 <= j < i ==> (#[trigger] self@.cards[j]).id != id,
            decreases self.cards.len() - i,
        {
            if self.cards[i].id == id {
                return Some(i);
            }
            i = i + 1;
        }
        None
    }

    /// Returns all card rows, in row order.
    pub fn get_cards(&self) -> (r: KeikoResult<Vec<Card>>)
        ensures
            match r {
                Ok(v) => cards_of(v@) == self@.cards,
                Err(_) => false,
            },
    {
        let mut v: Vec<Card> = Vec::new();
        let mut i: usize = 0;
        while i < self.cards.len()
            invariant
                i <= self.cards.len(),
                cards_of(v@) =~= self@.cards.take(i as int),
            decreases self.cards.len() - i,
        {
            v.push(self.cards[i].duplicate());
            i = i + 1;
        }
        proof {
            assert(self@.cards.take(self.cards.len() as int) =~= self@.cards);
        }
        Ok(v)
    }

    /// Returns the card addressed by id; fails with `NotFound` exactly when
    /// the id is absent.
    pub fn get_card(&self, card_id: u128) -> (r: KeikoResult<Card>)
        requires
            self.wf(),
        ensures
            match r {
                Ok(c) => {
                    &&& has_card_id(self@.cards, card_id)
                    &&& c@ == card_at(self@.cards, card_id)
                },
                Err(e) => {
                    &&& e == KeikoError::NotFound
                    &&& !has_card_id(self@.cards, card_id)
                },
            },
    {
        let idx = match self.find_card(card_id) {
            Some(i) => i,
            None => { return Err(KeikoError::NotFound) },
        };
        proof {
            assert(card_index(self@.cards, card_id) == idx) by {
                let j = card_index(self@.cards, card_id);
                assert(0 <= j < self@.cards.len() && self@.cards[j].id == card_id);
            }
        }
        Ok(self.cards[idx].duplicate())
    }

    /// Creates a card from the client-supplied fields, at the given
    /// identifier and wall-clock reading.  The question and answer must be
    /// non-empty text; succeeds exactly when they are and the identifier is
    /// free.
    pub fn create_card_at(&mut self, req: &CreateCard, id: u128, now: i64) -> (r: KeikoResult<
        Card,
    >)
        requires
            old(self).wf(),
        ensures
            final(self).wf(),
            ({
                let t = tick_of(old(self)@.clock, now);
                match r {
                    Ok(c) => {
                        &&& card_text_valid(req.question@, req.answer@)
                        &&& !has_card_id(old(self)@.cards, id)
                        &&& c@ == (CardModel {
                            id,
                            question: req.question@,
                            answer: req.answer@,
                            course_code: req.course_code@,
                            category: req.category@,
                            difficulty: req.difficulty@,
                            tags: crate::strings_of(req.tags@),
                            created_at: t,
                            updated_at: None,
                        })
                        &&& final(self)@ == (StoreModel {
                            cards: old(self)@.cards.push(c@),
                            clock: t,
                            ..old(self)@
                        })
                    },
                    Err(e) => {
                        &&& final(self)@ == old(self)@
                        &&& (e == KeikoError::ValidationError <==> !card_text_valid(
                            req.question@,
                            req.answer@,
                        ))
                        &&& (e == KeikoError::Conflict ==> has_card_id(old(self)@.cards, id))
                        &&& e == KeikoError::ValidationError || e == KeikoError::Conflict
                    },
                }
            }),
    {
        if self.question_or_answer_empty(&req.question, &req.answer) {
            return Err(KeikoError::ValidationError);
        }
        if self.find_card(id).is_some() {
            return Err(KeikoError::Conflict);
        }
        let t = self.advance_clock(now);
        let stored = Card {
            id,
            question: req.question.clone(),
            answer: req.answer.clone(),
            course_code: req.course_code.clone(),
            category: req.category.clone(),
            difficulty: req.difficulty.clone(),
            tags: crate::clone_strings(&req.tags),
            created_at: t,
            updated_at: None,
        };
        let returned = stored.duplicate();
        proof {
            assert(cards_of(self.cards@.push(stored)) =~= self@.cards.push(stored@));
        }
        self.cards.push(stored);
        Ok(returned)
    }

    /// Whether the client-supplied question or answer is empty text.
    fn question_or_answer_empty(&self, question: &String, answer: &String) -> (r: bool)
        ensures
            r == !card_text_valid(question@, answer@),
    {
        question.as_str().is_empty() || answer.as_str().is_empty()
    }

    /// Creates a card, stamping it with the current wall-clock reading and a
    /// freshly drawn identifier.  Whatever identifier and instant the
    /// environment supplies, a success appends exactly the row it returns,
    /// and a failure leaves the store unchanged; empty question or answer
    /// text always fails.
    pub fn create_card(&mut self, req: &CreateCard) -> (r: KeikoResult<Card>)
        requires
            old(self).wf(),
        ensures
            final(self).wf(),
            match r {
                Ok(c) => {
                    &&& card_text_valid(req.question@, req.answer@)
                    &&& c@.question == req.question@
                    &&& c@.answer == req.answer@
                    &&& c@.course_code == req.course_code@
                    &&& c@.category == req.category@
                    &&& c@.difficulty == req.difficulty@
                    &&& c@.tags == crate::strings_of(req.tags@)
                    &&& c@.updated_at is None
                    &&& c@.created_at >= old(self)@.clock
                    &&& final(self)@ == (StoreModel {
                        cards: old(self)@.cards.push(c@),
                        clock: c@.created_at,
                        ..old(self)@
                    })
                },
                Err(e) => {
                    &&& final(self)@ == old(self)@
                    &&& (e == KeikoError::ValidationError <==> !card_text_valid(
                        req.question@,
                        req.answer@,
                    ))
                    &&& e == KeikoError::ValidationError || e == KeikoError::Conflict
                },
            },
    {
        let id = crate::sys::fresh_id();
        let now = crate::sys::now_millis();
        self.create_card_at(req, id, now)
    }

    /// Updates the client-supplied fields of the card addressed by id and
    /// stamps it with the write's timestamp.  Fails with `NotFound` exactly
    /// when the id is absent, and with `ValidationError` exactly when the id
    /// is present but the question or answer is empty text.
    pub fn update_card_at(&mut self, upd: &UpdateCard, now: i64) -> (r: KeikoResult<Card>)
        requires
            old(self).wf(),
        ensures
            final(self).wf(),
            ({
                let t = tick_of(old(self)@.clock, now);
                let i = card_index(old(self)@.cards, upd.id);
                match r {
                    Ok(c) => {
                        &&& has_card_id(old(self)@.cards, upd.id)
                        &&& card_text_valid(upd.question@, upd.answer@)
                        &&& c@ == (CardModel {
                            id: upd.id,
                            question: upd.question@,
                            answer: upd.answer@,
                            course_code: upd.course_code@,
                            category: upd.category@,
                            difficulty: upd.difficulty@,
                            tags: crate::strings_of(upd.tags@),
                            created_at: old(self)@.cards[i].created_at,
                            updated_at: Some(t),
                        })
                        &&& final(self)@ == (StoreModel {
                            cards: old(self)@.cards.update(i, c@),
                            clock: t,
                            ..old(self)@
                        })
                        &&& t >= old(self)@.cards[i].created_at
                    },
                    Err(e) => {
                        &&& final(self)@ == old(self)@
                        &&& (e == KeikoError::NotFound <==> !has_card_id(old(self)@.cards, upd.id))
                        &&& (e == KeikoError::ValidationError <==> has_card_id(
                            old(self)@.cards,
                            upd.id,
                        ) && !card_text_valid(upd.question@, upd.answer@))
                        &&& e == KeikoError::NotFound || e == KeikoError::ValidationError
                    },
                }
            }),
    {
        let idx = match self.find_card(upd.id) {
            Some(i) => i,
            None => { return Err(KeikoError::NotFound) },
        };
        proof {
            assert(card_index(old(self)@.cards, upd.id) == idx) by {
                let j = card_index(old(self)@.cards, upd.id);
                assert(0 <= j < old(self)@.cards.len() && old(self)@.cards[j].id == upd.id);
            }
        }
        if self.question_or_answer_empty(&upd.question, &upd.answer) {
            return Err(KeikoError::ValidationError);
        }
        proof {
            assert(old(self)@.cards[idx as int].stamps_ok(old(self)@.clock));
        }
        let t = self.advance_clock(now);
        let created_at = self.cards[idx].created_at;
        let stored = Card {
            id: upd.id,
            question: upd.question.clone(),
            answer: upd.answer.clone(),
            course_code: upd.course_code.clone(),
            category: upd.category.clone(),
            difficulty: upd.difficulty.clone(),
            tags: crate::clone_strings(&upd.tags),
            created_at,
            updated_at: Some(t),
        };
        let returned = stored.duplicate();
        let ghost pre = self@;
        self.cards.remove(idx);
        self.cards.insert(idx, stored);
        proof {
            assert(self@.cards =~= pre.cards.update(idx as int, stored@));
        }
        Ok(returned)
    }

    /// Updates a card, stamping it with the current wall-clock reading; see
    /// `update_card_at` for when each error comes.
    pub fn update_card(&mut self, upd: &UpdateCard) -> (r: KeikoResult<Card>)
        requires
            old(self).wf(),
        ensures
            final(self).wf(),
            ({
                let i = card_index(old(self)@.cards, upd.id);
                match r {
                    Ok(c) => {
                        &&& has_card_id(old(self)@.cards, upd.id)
                        &&& card_text_valid(upd.question@, upd.answer@)
                        &&& c@.question == upd.question@
                        &&& c@.answer == upd.answer@
                        &&& c@.course_code == upd.course_code@
                        &&& c@.category == upd.category@
                        &&& c@.difficulty == upd.difficulty@
                        &&& c@.tags == crate::strings_of(upd.tags@)
                        &&& c@.id == upd.id
                        &&& c@.created_at == old(self)@.cards[i].created_at
                        &&& c@.updated_at matches Some(t) && t >= old(self)@.clock
                        &&& final(self)@ == (StoreModel {
                            cards: old(self)@.cards.update(i, c@),
                            clock: c@.updated_at->Some_0,
                            ..old(self)@
                        })
                    },
                    Err(e) => {
                        &&& final(self)@ == old(self)@
                        &&& (e == KeikoError::NotFound <==> !has_card_id(old(self)@.cards, upd.id))
                        &&& (e == KeikoError::ValidationError <==> has_card_id(
                            old(self)@.cards,
                            upd.id,
                        ) && !card_text_valid(upd.question@, upd.answer@))
                        &&& e == KeikoError::NotFound || e == KeikoError::ValidationError
                    },
                }
            }),
    {
        let now = crate::sys::now_millis();
        self.update_card_at(upd, now)
    }

    /// Removes the card addressed by id and returns the id.  Fails with
    /// `NotFound` exactly when the id is absent.
    pub fn delete_card(&mut self, card_id: u128) -> (r: KeikoResult<u128>)
        requires
            old(self).wf(),
        ensures
            final(self).wf(),
            match r {
                Ok(d) => {
                    &&& d == card_id
                    &&& has_card_id(old(self)@.cards, card_id)
                    &&& final(self)@ == (StoreModel {
                        cards: old(self)@.cards.remove(card_index(old(self)@.cards, card_id)),
                        ..old(self)@
                    })
                },
                Err(e) => {
                    &&& e == KeikoError::NotFound
                    &&& !has_card_id(old(self)@.cards, card_id)
                    &&& final(self)@ == old(self)@
                },
            },
    {
        let idx = match self.find_card(card_id) {
            Some(i) => i,
            None => { return Err(KeikoError::NotFound) },
        };
        proof {
            assert(card_index(old(self)@.cards, card_id) == idx) by {
                let j = card_index(old(self)@.cards, card_id);
                assert(0 <= j < old(self)@.cards.len() && old(self)@.cards[j].id == card_id);
            }
        }
        let ghost pre = self@;
        self.cards.remove(idx);
        proof {
            assert(self@.cards =~= pre.cards.remove(idx as int));
        }
        Ok(card_id)
    }

    /// Returns the cards that belong to the given course code, in row order.
    pub fn get_cards_by_course_code(&self, course_code: &String) -> (r: KeikoResult<Vec<Card>>)
        ensures
            match r {
                Ok(v) => cards_of(v@) == self@.cards.filter(
                    |c: CardModel| c.course_code == course_code@,
                ),
                Err(_) => false,
            },
    {
        let ghost pred = |c: CardModel| c.course_code == course_code@;
        let mut v: Vec<Card> = Vec::new();
        let mut i: usize = 0;
        while i < self.cards.len()
            invariant
                i <= self.cards.len(),
                pred == (|c: CardModel| c.course_code == course_code@),
                cards_of(v@) =~= self@.cards.take(i as int).filter(pred),
            decreases self.cards.len() - i,
        {
            proof {
                assert(self@.cards.take(i + 1) =~= self@.cards.take(i as int).push(
                    self@.cards[i as int],
                ));
            }
            if string_eq(&self.cards[i].course_code, course_code) {
                v.push(self.cards[i].duplicate());
            }
            i = i + 1;
        }
        proof {
            assert(self@.cards.take(self.cards.len() as int) =~= self@.cards);
        }
        Ok(v)
    }

    /// Returns the cards in the scope of the quiz addressed by id: those
    /// sharing its course code and category, in row order.  An absent quiz
    /// id yields the empty list, as a join against no row would.
    pub fn get_cards_by_quiz_id(&self, quiz_id: u128) -> (r: KeikoResult<Vec<Card>>)
        requires
            self.wf(),
        ensures
            match r {
                Ok(v) => {
                    if has_quiz_id(self@.quizzes, quiz_id) {
                        cards_of(v@) == self@.cards.filter(
                            |c: CardModel| c.course_code == quiz_at(
                                self@.quizzes,
                                quiz_id,
                            ).course_code && c.category == quiz_at(
                                self@.quizzes,
                                quiz_id,
                            ).category,
                        )
                    } else {
                        v@.len() == 0
                    }
                },
                Err(_) => false,
            },
    {
        let qidx = match self.find_quiz(quiz_id) {
            Some(i) => i,
            None => { return Ok(Vec::new()) },
        };
        proof {
            assert(quiz_index(self@.quizzes, quiz_id) == qidx) by {
                let j = quiz_index(self@.quizzes, quiz_id);
                assert(0 <= j < self@.quizzes.len() && self@.quizzes[j].id == quiz_id);
            }
        }
        let code = self.quizzes[qidx].course_code.clone();
        let category = self.quizzes[qidx].category.clone();
        let ghost pred = |c: CardModel| c.course_code == quiz_at(self@.quizzes, quiz_id).course_code
            && c.category == quiz_at(self@.quizzes, quiz_id).category;
        let mut v: Vec<Card> = Vec::new();
        let mut i: usize = 0;
        while i < self.cards.len()
            invariant
                i <= self.cards.len(),
                code@ == quiz_at(self@.quizzes, quiz_id).course_code,
                category@ == quiz_at(self@.quizzes, quiz_id).category,
                pred == (|c: CardModel| c.course_code == quiz_at(
                    self@.quizzes,
                    quiz_id,
                ).course_code && c.category == quiz_at(self@.quizzes, quiz_id).category),
                cards_of(v@) =~= self@.cards.take(i as int).filter(pred),
            decreases self.cards.len() - i,
        {
            proof {
                assert(self@.cards.take(i + 1) =~= self@.cards.take(i as int).push(
                    self@.cards[i as int],
                ));
            }
            if string_eq(&self.cards[i].course_code, &code) && string_eq(
                &self.cards[i].category,
                &category,
            ) {
                v.push(self.cards[i].duplicate());
            }
            i = i + 1;
        }
        proof {
            assert(self@.cards.take(self.cards.len() as int) =~= self@.cards);
        }
        Ok(v)
    }
}

/// Every tag currently in use across all cards.
pub open spec fn tag_set(cards: Seq<CardModel>) -> Set<Seq<char>> {
    Set::new(
        |t: Seq<char>|
            exists|i: int| 0 <= i < cards.len() && (#[trigger] cards[i]).tags.contains(t),
    )
}

impl KeikoStore {
    /// Returns every tag in use across all cards, deduplicated (here: in
    /// ascending order; the set of labels is what is promised).
    pub fn get_available_tags(&self) -> (r: KeikoResult<Tags>)
        ensures
            match r {
                Ok(tg) => {
                    &&& crate::sorted_strict(crate::strings_of(tg.tags@))
                    &&& forall|t: Seq<char>| #[trigger]
                        crate::strings_of(tg.tags@).contains(t) <==> tag_set(
                            self@.cards,
                        ).contains(t)
                },
                Err(_) => false,
            },
    {
        let ghost models = self@.cards;
        let mut acc: Vec<String> = Vec::new();
        let mut i: usize = 0;
        while i < self.cards.len()
            invariant
                i <= self.cards.len(),
                models == self@.cards,
                crate::sorted_strict(crate::strings_of(acc@)),
                forall|t: Seq<char>| #[trigger]
                    crate::strings_of(acc@).contains(t) <==> tag_set(
                        models.take(i as int),
                    ).contains(t),
            decreases self.cards.len() - i,
        {
            let ghost card_tags = models[i as int].tags;
            let mut j: usize = 0;
            while j < self.cards[i].tags.len()
                invariant
                    i < self.cards.len(),
                    j <= card_tags.len(),
                    models == self@.cards,
                    card_tags == models[i as int].tags,
                    crate::sorted_strict(crate::strings_of(acc@)),
                    forall|t: Seq<char>| #[trigger]
                        crate::strings_of(acc@).contains(t) <==> (tag_set(
                            models.take(i as int),
                        ).contains(t) || card_tags.take(j as int).contains(t)),
                decreases card_tags.len() - j,
            {
                let ghost pre = crate::strings_of(acc@);
                crate::insert_sorted_string(&mut acc, &self.cards[i].tags[j]);
                j = j + 1;
                proof {
                    let post = crate::strings_of(acc@);
                    let jj = j as int;
                    assert(card_tags.take(jj) =~= card_tags.take(jj - 1).push(
                        card_tags[jj - 1],
                    ));
                    assert forall|t: Seq<char>| #[trigger]
                        card_tags.take(jj).contains(t) implies (card_tags.take(jj - 1).contains(
                        t,
                    ) || t == card_tags[jj - 1]) by {
                        let k = choose|k: int| 0 <= k < jj && #[trigger] card_tags.take(jj)[k] == t;
                        if k < jj - 1 {
                            assert(card_tags.take(jj - 1)[k] == t);
                        }
                    }
                    assert forall|t: Seq<char>|
                        (card_tags.take(jj - 1).contains(t) || t == card_tags[jj - 1])
                            implies #[trigger] card_tags.take(jj).contains(t) by {
                        if card_tags.take(jj - 1).contains(t) {
                            let k = choose|k: int|
                                0 <= k < jj - 1 && #[trigger] card_tags.take(jj - 1)[k] == t;
                            assert(card_tags.take(jj)[k] == t);
                        } else {
                            assert(card_tags.take(jj)[jj - 1] == t);
                        }
                    }
                }
            }
            i = i + 1;
            proof {
                let ii = i as int;
                assert(card_tags.take(card_tags.len() as int) =~= card_tags);
                assert forall|t: Seq<char>| #[trigger]
                    tag_set(models.take(ii)).contains(t) implies (tag_set(
                    models.take(ii - 1),
                ).contains(t) || card_tags.contains(t)) by {
                    let k = choose|k: int|
                        0 <= k < ii && (#[trigger] models.take(ii)[k]).tags.contains(t);
                    if k < ii - 1 {
                        assert(models.take(ii - 1)[k].tags.contains(t));
                    } else {
                        assert(models[ii - 1].tags.contains(t));
                    }
                }
                assert forall|t: Seq<char>|
                    (tag_set(models.take(ii - 1)).contains(t) || card_tags.contains(t))
                        implies #[trigger] tag_set(models.take(ii)).contains(t) by {
                    if tag_set(models.take(ii - 1)).contains(t) {
                        let k = choose|k: int|
                            0 <= k < ii - 1 && (#[trigger] models.take(ii - 1)[k]).tags.contains(
                                t,
                            );
                        assert(models.take(ii)[k].tags.contains(t));
                    } else {
                        assert(models.take(ii)[ii - 1].tags.contains(t));
                    }
                }
            }
        }
        proof {
            assert(models.take(self.cards.len() as int) =~= models);
        }
        Ok(Tags { tags: acc })
    }
}

/// The distinct categories of the cards that belong to the given course
/// code.
pub open spec fn category_set(cards: Seq<CardModel>, code: Seq<char>) -> Set<Seq<char>> {
    Set::new(
        |t: Seq<char>|
            exists|i: int|
                0 <= i < cards.len() && (#[trigger] cards[i]).course_code == code
                    && cards[i].category == t,
    )
}

/// The distinct categories of the cards of one course, in strictly
/// ascending lexicographic order.
pub fn distinct_sorted_categories(cards: &Vec<Card>, code: &String) -> (r: Vec<String>)
    ensures
        crate::sorted_strict(crate::strings_of(r@)),
        forall|t: Seq<char>| #[trigger]
            crate::strings_of(r@).contains(t) <==> category_set(cards_of(cards@), code@).contains(
                t,
            ),
{
    let ghost models = cards_of(cards@);
    let mut r: Vec<String> = Vec::new();
    let mut i: usize = 0;
    while i < cards.len()
        invariant
            i <= cards.len(),
            models == cards_of(cards@),
            crate::sorted_strict(crate::strings_of(r@)),
            forall|t: Seq<char>| #[trigger]
                crate::strings_of(r@).contains(t) <==> category_set(
                    models.take(i as int),
                    code@,
                ).contains(t),
        decreases cards.len() - i,
    {
        let ghost pre = crate::strings_of(r@);
        let matched = string_eq(&cards[i].course_code, code);
        if matched {
            crate::insert_sorted_string(&mut r, &cards[i].category);
        }
        i = i + 1;
        proof {
            let post = crate::strings_of(r@);
            let taken = models.take(i as int);
            assert forall|t: Seq<char>| #[trigger] post.contains(t) implies category_set(
                taken,
                code@,
            ).contains(t) by {
                if pre.contains(t) {
                    let k = choose|k: int|
                        0 <= k < i - 1 && (#[trigger] models.take(i - 1)[k]).course_code == code@
                            && models.take(i - 1)[k].category == t;
                    assert(taken[k].course_code == code@ && taken[k].category == t);
                } else {
                    assert(matched && t == models[i - 1].category);
                    assert(taken[i - 1].course_code == code@ && taken[i - 1].category == t);
                }
            }
            assert forall|t: Seq<char>|
                category_set(taken, code@).contains(t) implies #[trigger] post.contains(t) by {
                let k = choose|k: int|
                    0 <= k < i && (#[trigger] taken[k]).course_code == code@ && taken[k].category
                        == t;
                if k < i - 1 {
                    assert(models.take(i - 1)[k].course_code == code@ && models.take(i - 1)[k].category == t);
                    assert(category_set(models.take(i - 1), code@).contains(t));
                    assert(pre.contains(t));
                } else {
                    assert(models[i - 1].course_code == code@ && models[i - 1].category == t);
                }
            }
        }
    }
    proof {
        assert(models.take(cards.len() as int) =~= models);
    }
    r
}

/// The number of cards that belong to the given course code.
pub fn count_cards_for_code(cards: &Vec<Card>, code: &String) -> (n: u64)
    ensures
        n == cards_of(cards@).filter(|c: CardModel| c.course_code == code@).len(),
{
    let ghost models = cards_of(cards@);
    let ghost pred = |c: CardModel| c.course_code == code@;
    let mut n: u64 = 0;
    let mut i: usize = 0;
    while i < cards.len()
        invariant
            i <= cards.len(),
            models == cards_of(cards@),
            pred == (|c: CardModel| c.course_code == code@),
            n == models.take(i as int).filter(pred).len(),
            n <= i,
        decreases cards.len() - i,
    {
        proof {
            assert(models.take(i + 1) =~= models.take(i as int).push(models[i as int]));
        }
        if string_eq(&cards[i].course_code, code) {
            n = n + 1;
        }
        i = i + 1;
    }
    proof {
        assert(models.take(cards.len() as int) =~= models);
    }
    n
}

/// The number of cards in the scope of one course+category pair.
pub fn count_cards_in_scope(cards: &Vec<Card>, code: &String, category: &String) -> (n: u64)
    ensures
        n == cards_of(cards@).filter(
            |c: CardModel| c.course_code == code@ && c.category == category@,
        ).len(),
{
    let ghost models = cards_of(cards@);
    let ghost pred = |c: CardModel| c.course_code == code@ && c.category == category@;
    let mut n: u64 = 0;
    let mut i: usize = 0;
    while i < cards.len()
        invariant
            i <= cards.len(),
            models == cards_of(cards@),
            pred == (|c: CardModel| c.course_code == code@ && c.category == category@),
            n == models.take(i as int).filter(pred).len(),
            n <= i,
        decreases cards.len() - i,
    {
        proof {
            assert(models.take(i + 1) =~= models.take(i as int).push(models[i as int]));
        }
        if string_eq(&cards[i].course_code, code) && string_eq(&cards[i].category, category) {
            n = n + 1;
        }
        i = i + 1;
    }
    proof {
        assert(models.take(cards.len() as int) =~= models);
    }
    n
}

} // verus!
