//! The quiz resource: a tracked attempt at working through the cards of one
//! course+category pair, with position and correctness counters and a
//! one-directional completion state.

use vstd::prelude::*;

use crate::cards_api::CardModel;
use crate::{string_eq, KeikoError, KeikoResult, KeikoStore, StoreModel, tick_of};

verus! {

broadcast use vstd::seq_lib::group_filter_ensures, Seq::lemma_filter_push, Seq::lemma_map_take_succ;

/// A quiz row as stored.
///
/// `is_completed` holds exactly when `completed_at` is set; `current_index`
/// and `correct_count` never go negative.
#[derive(Clone, Debug, PartialEq)]
pub struct Quiz {
    pub id: u128,
    pub course_code: String,
    pub category: String,
    pub current_index: i32,
    pub correct_count: i32,
    pub is_completed: bool,
    pub hint_used: bool,
    pub started_at: u64,
    pub completed_at: Option<u64>,
}

/// The aggregate projection of a quiz: the stored fields plus the number of
/// cards in scope and the position expressed as a percentage of that number.
#[derive(Clone, Debug, PartialEq)]
pub struct QuizView {
    pub id: u128,
    pub course_code: String,
    pub category: String,
    pub current_index: i32,
    pub is_completed: bool,
    pub started_at: u64,
    pub completed_at: Option<u64>,
    pub card_count: u64,
    pub progress: u64,
}

/// The client-supplied fields of a new quiz.
#[derive(Clone, Debug, PartialEq)]
pub struct CreateQuiz {
    pub course_code: String,
    pub category: String,
}

/// A completion transition request: complete the quiz, or reopen it.
#[derive(Clone, Debug, PartialEq)]
pub struct QuizCompletion {
    pub id: u128,
    pub is_completed: bool,
}

/// A new position within the quiz's card sequence.
#[derive(Clone, Copy, Debug, PartialEq)]
pub struct QuizIndex {
    pub current_index: i32,
}

/// A new value for the quiz's correctness counter.
#[derive(Clone, Copy, Debug, PartialEq)]
pub struct QuizCorrectCount {
    pub correct_count: i32,
}

/// A new value for the quiz's hint flag.
#[derive(Clone, Copy, Debug, PartialEq)]
pub struct QuizHint {
    pub hint_used: bool,
}

/// A bulk category rename within one course, spanning cards and quizzes.
#[derive(Clone, Debug, PartialEq)]
pub struct RenameQuiz {
    pub old: String,
    pub new: String,
}

/// The model of a stored quiz.
#[verifier::ext_equal]
pub struct QuizModel {
    pub id: u128,
    pub course_code: Seq<char>,
    pub category: Seq<char>,
    pub current_index: i32,
    pub correct_count: i32,
    pub is_completed: bool,
    pub hint_used: bool,
    pub started_at: u64,
    pub completed_at: Option<u64>,
}

/// The model of a quiz's aggregate view.
#[verifier::ext_equal]
pub struct QuizViewModel {
    pub id: u128,
    pub course_code: Seq<char>,
    pub category: Seq<char>,
    pub current_index: i32,
    pub is_completed: bool,
    pub started_at: u64,
    pub completed_at: Option<u64>,
    pub card_count: u64,
    pub progress: u64,
}

impl View for Quiz {
    type V = QuizModel;

    open spec fn view(&self) -> QuizModel {
        QuizModel {
            id: self.id,
            course_code: self.course_code@,
            category: self.category@,
            current_index: self.current_index,
            correct_count: self.correct_count,
            is_completed: self.is_completed,
            hint_used: self.hint_used,
            started_at: self.started_at,
            completed_at: self.completed_at,
        }
    }
}

impl View for QuizView {
    type V = QuizViewModel;

    open spec fn view(&self) -> QuizViewModel {
        QuizViewModel {
            id: self.id,
            course_code: self.course_code@,
            category: self.category@,
            current_index: self.current_index,
            is_completed: self.is_completed,
            started_at: self.started_at,
            completed_at: self.completed_at,
            card_count: self.card_count,
            progress: self.progress,
        }
    }
}

impl QuizModel {
    /// Internal consistency of the row: timestamps bounded by the store's
    /// clock, the completion flag tied to the completion timestamp, and
    /// non-negative counters.
    pub open spec fn ok(self, clock: u64) -> bool {
        &&& self.started_at <= clock
        &&& (self.completed_at matches Some(t) ==> t <= clock)
        &&& (self.is_completed <==> self.completed_at is Some)
        &&& self.current_index >= 0
        &&& self.correct_count >= 0
    }
}

/// The models of a table of quizzes.
pub open spec fn quizzes_of(quizzes: Seq<Quiz>) -> Seq<QuizModel> {
    quizzes.map_values(|q: Quiz| q@)
}

/// Some stored quiz carries the given id.
pub open spec fn has_quiz_id(quizzes: Seq<QuizModel>, id: u128) -> bool {
    exists|i: int| 0 <= i < quizzes.len() && (#[trigger] quizzes[i]).id == id
}

/// The row index of the quiz with the given id.
pub open spec fn quiz_index(quizzes: Seq<QuizModel>, id: u128) -> int {
    choose|i: int| 0 <= i < quizzes.len() && (#[trigger] quizzes[i]).id == id
}

/// The stored quiz with the given id.
pub open spec fn quiz_at(quizzes: Seq<QuizModel>, id: u128) -> QuizModel {
    quizzes[quiz_index(quizzes, id)]
}

/// The number of cards in a quiz's scope: those sharing its course code
/// and category.
pub open spec fn quiz_card_count(s: StoreModel, q: QuizModel) -> nat {
    s.cards.filter(
        |c: CardModel| c.course_code == q.course_code && c.category == q.category,
    ).len()
}

/// What the aggregate view of a stored quiz holds: the row's own fields,
/// the number of cards in scope, and the position as a percentage of it.
pub open spec fn is_quiz_view(s: StoreModel, q: QuizModel, v: QuizViewModel) -> bool {
    &&& v.id == q.id
    &&& v.course_code == q.course_code
    &&& v.category == q.category
    &&& v.current_index == q.current_index
    &&& v.is_completed == q.is_completed
    &&& v.started_at == q.started_at
    &&& v.completed_at == q.completed_at
    &&& v.card_count == quiz_card_count(s, q)
    &&& v.progress == crate::percent_of(q.current_index as nat, quiz_card_count(s, q))
}

/// A stored card, with its category renamed if it lies in the given
/// course+category scope.
pub open spec fn rename_card(
    c: CardModel,
    code: Seq<char>,
    old_cat: Seq<char>,
    new_cat: Seq<char>,
) -> CardModel {
    if c.course_code == code && c.category == old_cat {
        CardModel { category: new_cat, ..c }
    } else {
        c
    }
}

/// A stored quiz, with its category renamed if it lies in the given
/// course+category scope.
pub open spec fn rename_quiz_row(
    q: QuizModel,
    code: Seq<char>,
    old_cat: Seq<char>,
    new_cat: Seq<char>,
) -> QuizModel {
    if q.course_code == code && q.category == old_cat {
        QuizModel { category: new_cat, ..q }
    } else {
        q
    }
}

/// A card table with the rename applied to every row.
pub open spec fn rename_cards(
    cards: Seq<CardModel>,
    code: Seq<char>,
    old_cat: Seq<char>,
    new_cat: Seq<char>,
) -> Seq<CardModel> {
    cards.map_values(|c: CardModel| rename_card(c, code, old_cat, new_cat))
}

/// A quiz table with the rename applied to every row.
pub open spec fn rename_quizzes(
    quizzes: Seq<QuizModel>,
    code: Seq<char>,
    old_cat: Seq<char>,
    new_cat: Seq<char>,
) -> Seq<QuizModel> {
    quizzes.map_values(|q: QuizModel| rename_quiz_row(q, code, old_cat, new_cat))
}

impl Quiz {
    /// A field-for-field copy of the row.
    pub fn duplicate(&self) -> (r: Quiz)
        ensures
            r@ == self@,
    {
        Quiz {
            id: self.id,
            course_code: self.course_code.clone(),
            category: self.category.clone(),
            current_index: self.current_index,
            correct_count: self.correct_count,
            is_completed: self.is_completed,
            hint_used: self.hint_used,
            started_at: self.started_at,
            completed_at: self.completed_at,
        }
    }
}

impl crate::KeikoStore {
    /// The row index of the quiz with the given id, if any.
    pub fn find_quiz(&self, id: u128) -> (r: Option<usize>)
        ensures
            match r {
                Some(i) => i < self@.quizzes.len() && self@.quizzes[i as int].id == id,
                None => !has_quiz_id(self@.quizzes, id),
            },
    {
        let mut i: usize = 0;
        while i < self.quizzes.len()
            invariant
                i <= self.quizzes.len(),
                forall|j: int| 0 <= j < i ==> (#[trigger] self@.quizzes[j]).id != id,
            decreases self.quizzes.len() - i,
        {
            if self.quizzes[i].id == id {
                return Some(i);
            }
            i = i + 1;
        }
        None
    }

    /// Builds the aggregate view of one stored quiz.
    fn build_quiz_view(&self, q: &Quiz) -> (v: QuizView)
        requires
            q@.current_index >= 0,
        ensures
            is_quiz_view(self@, q@, v@),
    {
        let card_count = crate::cards_api::count_cards_in_scope(
            &self.cards,
            &q.course_code,
            &q.category,
        );
        let progress = crate::percent(q.current_index as u64, card_count);
        QuizView {
            id: q.id,
            course_code: q.course_code.clone(),
            category: q.category.clone(),
            current_index: q.current_index,
            is_completed: q.is_completed,
            started_at: q.started_at,
            completed_at: q.completed_at,
            card_count,
            progress,
        }
    }

    /// Returns the aggregate views of all quizzes, in row order.
    pub fn get_quizzes(&self) -> (r: KeikoResult<Vec<QuizView>>)
        requires
            self.wf(),
        ensures
            match r {
                Ok(v) => {
                    &&& v@.len() == self@.quizzes.len()
                    &&& forall|i: int|
                        0 <= i < v@.len() ==> is_quiz_view(
                            self@,
                            self@.quizzes[i],
                            (#[trigger] v@[i])@,
                        )
                },
                Err(_) => false,
            },
    {
        let mut v: Vec<QuizView> = Vec::new();
        let mut i: usize = 0;
        while i < self.quizzes.len()
            invariant
                self.wf(),
                i <= self.quizzes.len(),
                v@.len() == i,
                forall|j: int|
                    0 <= j < i ==> is_quiz_view(self@, self@.quizzes[j], (#[trigger] v@[j])@),
            decreases self.quizzes.len() - i,
        {
            proof {
                assert(self@.quizzes[i as int].ok(self@.clock));
            }
            let view = self.build_quiz_view(&self.quizzes[i]);
            v.push(view);
            i = i + 1;
        }
        Ok(v)
    }

    /// Returns the aggregate view of the quiz addressed by id; fails with
    /// `NotFound` exactly when the id is absent.
    pub fn get_quiz(&self, quiz_id: u128) -> (r: KeikoResult<QuizView>)
        requires
            self.wf(),
        ensures
            match r {
                Ok(v) => {
                    &&& has_quiz_id(self@.quizzes, quiz_id)
                    &&& is_quiz_view(self@, quiz_at(self@.quizzes, quiz_id), v@)
                },
                Err(e) => {
                    &&& e == KeikoError::NotFound
                    &&& !has_quiz_id(self@.quizzes, quiz_id)
                },
            },
    {
        let idx = match self.find_quiz(quiz_id) {
            Some(i) => i,
            None => { return Err(KeikoError::NotFound) },
        };
        proof {
            assert(quiz_index(self@.quizzes, quiz_id) == idx) by {
                let j = quiz_index(self@.quizzes, quiz_id);
                assert(0 <= j < self@.quizzes.len() && self@.quizzes[j].id == quiz_id);
            }
        }
        proof {
            assert(self@.quizzes[idx as int].ok(self@.clock));
        }
        Ok(self.build_quiz_view(&self.quizzes[idx]))
    }

    /// Returns the aggregate views of the quizzes not yet completed, in row
    /// order.
    pub fn get_ongoing_quizzes(&self) -> (r: KeikoResult<Vec<QuizView>>)
        requires
            self.wf(),
        ensures
            match r {
                Ok(v) => {
                    let picked = self@.quizzes.filter(|q: QuizModel| !q.is_completed);
                    &&& v@.len() == picked.len()
                    &&& forall|i: int|
                        0 <= i < v@.len() ==> is_quiz_view(self@, picked[i], (#[trigger] v@[i])@)
                },
                Err(_) => false,
            },
    {
        let ghost pred = |q: QuizModel| !q.is_completed;
        let mut v: Vec<QuizView> = Vec::new();
        let mut i: usize = 0;
        while i < self.quizzes.len()
            invariant
                self.wf(),
                i <= self.quizzes.len(),
                pred == (|q: QuizModel| !q.is_completed),
                v@.len() == self@.quizzes.take(i as int).filter(pred).len(),
                forall|j: int|
                    0 <= j < v@.len() ==> is_quiz_view(
                        self@,
                        self@.quizzes.take(i as int).filter(pred)[j],
                        (#[trigger] v@[j])@,
                    ),
            decreases self.quizzes.len() - i,
        {
            proof {
                assert(self@.quizzes.take(i + 1) =~= self@.quizzes.take(i as int).push(
                    self@.quizzes[i as int],
                ));
            }
            if !self.quizzes[i].is_completed {
                proof {
                    assert(self@.quizzes[i as int].ok(self@.clock));
                }
                let view = self.build_quiz_view(&self.quizzes[i]);
                v.push(view);
            }
            i = i + 1;
        }
        proof {
            assert(self@.quizzes.take(self.quizzes.len() as int) =~= self@.quizzes);
        }
        Ok(v)
    }

    /// Returns the aggregate views of the completed quizzes, in row order.
    pub fn get_completed_quizzes(&self) -> (r: KeikoResult<Vec<QuizView>>)
        requires
            self.wf(),
        ensures
            match r {
                Ok(v) => {
                    let picked = self@.quizzes.filter(|q: QuizModel| q.is_completed);
                    &&& v@.len() == picked.len()
                    &&& forall|i: int|
                        0 <= i < v@.len() ==> is_quiz_view(self@, picked[i], (#[trigger] v@[i])@)
                },
                Err(_) => false,
            },
    {
        let ghost pred = |q: QuizModel| q.is_completed;
        let mut v: Vec<QuizView> = Vec::new();
        let mut i: usize = 0;
        while i < self.quizzes.len()
            invariant
                self.wf(),
                i <= self.quizzes.len(),
                pred == (|q: QuizModel| q.is_completed),
                v@.len() == self@.quizzes.take(i as int).filter(pred).len(),
                forall|j: int|
                    0 <= j < v@.len() ==> is_quiz_view(
                        self@,
                        self@.quizzes.take(i as int).filter(pred)[j],
                        (#[trigger] v@[j])@,
                    ),
            decreases self.quizzes.len() - i,
        {
            proof {
                assert(self@.quizzes.take(i + 1) =~= self@.quizzes.take(i as int).push(
                    self@.quizzes[i as int],
                ));
            }
            if self.quizzes[i].is_completed {
                proof {
                    assert(self@.quizzes[i as int].ok(self@.clock));
                }
                let view = self.build_quiz_view(&self.quizzes[i]);
                v.push(view);
            }
            i = i + 1;
        }
        proof {
            assert(self@.quizzes.take(self.quizzes.len() as int) =~= self@.quizzes);
        }
        Ok(v)
    }

    /// Creates a quiz at position zero, not yet completed, from the given
    /// identifier and wall-clock reading.  Succeeds exactly when the
    /// identifier is free.
    pub fn create_quiz_at(&mut self, req: &CreateQuiz, id: u128, now: i64) -> (r: KeikoResult<
        Quiz,
    >)
        requires
            old(self).wf(),
        ensures
            final(self).wf(),
            ({
                let t = tick_of(old(self)@.clock, now);
                match r {
                    Ok(q) => {
                        &&& !has_quiz_id(old(self)@.quizzes, id)
                        &&& q@ == (QuizModel {
                            id,
                            course_code: req.course_code@,
                            category: req.category@,
                            current_index: 0,
                            correct_count: 0,
                            is_completed: false,
                            hint_used: false,
                            started_at: t,
                            completed_at: None,
                        })
                        &&& final(self)@ == (StoreModel {
                            quizzes: old(self)@.quizzes.push(q@),
                            clock: t,
                            ..old(self)@
                        })
                    },
                    Err(e) => {
                        &&& e == KeikoError::Conflict
                        &&& has_quiz_id(old(self)@.quizzes, id)
                        &&& final(self)@ == old(self)@
                    },
                }
            }),
    {
        if self.find_quiz(id).is_some() {
            return Err(KeikoError::Conflict);
        }
        let t = self.advance_clock(now);
        let stored = Quiz {
            id,
            course_code: req.course_code.clone(),
            category: req.category.clone(),
            current_index: 0,
            correct_count: 0,
            is_completed: false,
            hint_used: false,
            started_at: t,
            completed_at: None,
        };
        let returned = stored.duplicate();
        proof {
            assert(quizzes_of(self.quizzes@.push(stored)) =~= self@.quizzes.push(stored@));
        }
        self.quizzes.push(stored);
        Ok(returned)
    }

    /// Creates a quiz, stamping it with the current wall-clock reading and a
    /// freshly drawn identifier.  Whatever identifier and instant the
    /// environment supplies, a success appends exactly the row it returns at
    /// position zero and not yet completed, and a failure is a `Conflict`
    /// that leaves the store unchanged.
    pub fn create_quiz(&mut self, req: &CreateQuiz) -> (r: KeikoResult<Quiz>)
        requires
            old(self).wf(),
        ensures
            final(self).wf(),
            match r {
                Ok(q) => {
                    &&& q@.course_code == req.course_code@
                    &&& q@.category == req.category@
                    &&& q@.current_index == 0
                    &&& q@.correct_count == 0
                    &&& !q@.is_completed
                    &&& !q@.hint_used
                    &&& q@.completed_at is None
                    &&& q@.started_at >= old(self)@.clock
                    &&& final(self)@ == (StoreModel {
                        quizzes: old(self)@.quizzes.push(q@),
                        clock: q@.started_at,
                        ..old(self)@
                    })
                },
                Err(e) => {
                    &&& e == KeikoError::Conflict
                    &&& final(self)@ == old(self)@
                },
            },
    {
        let id = crate::sys::fresh_id();
        let now = crate::sys::now_millis();
        self.create_quiz_at(req, id, now)
    }

    /// Replaces the quiz row at a valid index.
    fn replace_quiz(&mut self, idx: usize, q: Quiz)
        requires
            idx < old(self).quizzes@.len(),
        ensures
            final(self)@ == (StoreModel {
                quizzes: old(self)@.quizzes.update(idx as int, q@),
                ..old(self)@
            }),
    {
        let ghost pre = self@;
        self.quizzes.remove(idx);
        self.quizzes.insert(idx, q);
        proof {
            assert(self@.quizzes =~= pre.quizzes.update(idx as int, q@));
        }
    }

    /// Updates the counters and completion state of the quiz addressed by
    /// the record's id, leaving its scope and start time as stored.  The
    /// completion timestamp is set to the write's timestamp exactly when the
    /// record marks the quiz completed.  Fails with `NotFound` exactly when
    /// the id is absent, and with `ValidationError` exactly when the id is
    /// present but a counter is negative or the position exceeds the number
    /// of cards in scope.
    pub fn update_quiz_at(&mut self, upd: &Quiz, now: i64) -> (r: KeikoResult<Quiz>)
        requires
            old(self).wf(),
        ensures
            final(self).wf(),
            ({
                let t = tick_of(old(self)@.clock, now);
                let i = quiz_index(old(self)@.quizzes, upd.id);
                let q0 = quiz_at(old(self)@.quizzes, upd.id);
                match r {
                    Ok(q) => {
                        &&& has_quiz_id(old(self)@.quizzes, upd.id)
                        &&& 0 <= upd.current_index <= quiz_card_count(old(self)@, q0)
                        &&& upd.correct_count >= 0
                        &&& q@ == (QuizModel {
                            current_index: upd.current_index,
                            correct_count: upd.correct_count,
                            is_completed: upd.is_completed,
                            completed_at: if upd.is_completed {
                                Some(t)
                            } else {
                                None
                            },
                            ..q0
                        })
                        &&& final(self)@ == (StoreModel {
                            quizzes: old(self)@.quizzes.update(i, q@),
                            clock: t,
                            ..old(self)@
                        })
                    },
                    Err(e) => {
                        &&& final(self)@ == old(self)@
                        &&& (e == KeikoError::NotFound <==> !has_quiz_id(
                            old(self)@.quizzes,
                            upd.id,
                        ))
                        &&& (e == KeikoError::ValidationError <==> has_quiz_id(
                            old(self)@.quizzes,
                            upd.id,
                        ) && !(0 <= upd.current_index <= quiz_card_count(old(self)@, q0)
                            && upd.correct_count >= 0))
                        &&& e == KeikoError::NotFound || e == KeikoError::ValidationError
                    },
                }
            }),
    {
        let idx = match self.find_quiz(upd.id) {
            Some(i) => i,
            None => { return Err(KeikoError::NotFound) },
        };
        proof {
            assert(quiz_index(old(self)@.quizzes, upd.id) == idx) by {
                let j = quiz_index(old(self)@.quizzes, upd.id);
                assert(0 <= j < old(self)@.quizzes.len() && old(self)@.quizzes[j].id == upd.id);
            }
        }
        let card_count = crate::cards_api::count_cards_in_scope(
            &self.cards,
            &self.quizzes[idx].course_code,
            &self.quizzes[idx].category,
        );
        if upd.current_index < 0 || upd.correct_count < 0 || (upd.current_index as u64)
            > card_count {
            return Err(KeikoError::ValidationError);
        }
        let t = self.advance_clock(now);
        let stored = Quiz {
            id: self.quizzes[idx].id,
            course_code: self.quizzes[idx].course_code.clone(),
            category: self.quizzes[idx].category.clone(),
            current_index: upd.current_index,
            correct_count: upd.correct_count,
            is_completed: upd.is_completed,
            hint_used: self.quizzes[idx].hint_used,
            started_at: self.quizzes[idx].started_at,
            completed_at: if upd.is_completed {
                Some(t)
            } else {
                None
            },
        };
        let returned = stored.duplicate();
        proof {
            assert(old(self)@.quizzes[idx as int].ok(old(self)@.clock));
        }
        self.replace_quiz(idx, stored);
        Ok(returned)
    }

    /// Updates a quiz, stamping any completion with the current wall-clock
    /// reading; see `update_quiz_at` for when each error comes.
    pub fn update_quiz(&mut self, upd: &Quiz) -> (r: KeikoResult<Quiz>)
        requires
            old(self).wf(),
        ensures
            final(self).wf(),
            ({
                let i = quiz_index(old(self)@.quizzes, upd.id);
                let q0 = quiz_at(old(self)@.quizzes, upd.id);
                match r {
                    Ok(q) => {
                        &&& has_quiz_id(old(self)@.quizzes, upd.id)
                        &&& 0 <= upd.current_index <= quiz_card_count(old(self)@, q0)
                        &&& upd.correct_count >= 0
                        &&& q@.current_index == upd.current_index
                        &&& q@.correct_count == upd.correct_count
                        &&& q@.is_completed == upd.is_completed
                        &&& (q@.is_completed <==> q@.completed_at is Some)
                        &&& q@.id == q0.id
                        &&& q@.course_code == q0.course_code
                        &&& q@.category == q0.category
                        &&& q@.started_at == q0.started_at
                        &&& q@.hint_used == q0.hint_used
                        &&& final(self)@.quizzes == old(self)@.quizzes.update(i, q@)
                        &&& final(self)@.cards == old(self)@.cards
                        &&& final(self)@.courses == old(self)@.courses
                    },
                    Err(e) => {
                        &&& final(self)@ == old(self)@
                        &&& (e == KeikoError::NotFound <==> !has_quiz_id(
                            old(self)@.quizzes,
                            upd.id,
                        ))
                        &&& e == KeikoError::NotFound || e == KeikoError::ValidationError
                    },
                }
            }),
    {
        let now = crate::sys::now_millis();
        self.update_quiz_at(upd, now)
    }

    /// Removes the quiz addressed by id and returns the id.  Fails with
    /// `NotFound` exactly when the id is absent.
    pub fn delete_quiz(&mut self, quiz_id: u128) -> (r: KeikoResult<u128>)
        requires
            old(self).wf(),
        ensures
            final(self).wf(),
            match r {
                Ok(d) => {
                    &&& d == quiz_id
                    &&& has_quiz_id(old(self)@.quizzes, quiz_id)
                    &&& final(self)@ == (StoreModel {
                        quizzes: old(self)@.quizzes.remove(
                            quiz_index(old(self)@.quizzes, quiz_id),
                        ),
                        ..old(self)@
                    })
                },
                Err(e) => {
                    &&& e == KeikoError::NotFound
                    &&& !has_quiz_id(old(self)@.quizzes, quiz_id)
                    &&& final(self)@ == old(self)@
                },
            },
    {
        let idx = match self.find_quiz(quiz_id) {
            Some(i) => i,
            None => { return Err(KeikoError::NotFound) },
        };
        proof {
            assert(quiz_index(old(self)@.quizzes, quiz_id) == idx) by {
                let j = quiz_index(old(self)@.quizzes, quiz_id);
                assert(0 <= j < old(self)@.quizzes.len() && old(self)@.quizzes[j].id == quiz_id);
            }
        }
        let ghost pre = self@;
        self.quizzes.remove(idx);
        proof {
            assert(self@.quizzes =~= pre.quizzes.remove(idx as int));
        }
        Ok(quiz_id)
    }

    /// Applies a completion transition to the quiz addressed by the
    /// record's id at the given wall-clock reading.  Completing stamps
    /// `completed_at` with the write's timestamp and leaves the counters as
    /// they are; reopening clears the stamp and resets both the position and
    /// the correctness counter to zero (this library reopens a quiz as a
    /// fresh attempt).  Fails with `NotFound` exactly when the id is absent.
    pub fn set_quiz_completion_at(&mut self, qc: &QuizCompletion, now: i64) -> (r: KeikoResult<
        Quiz,
    >)
        requires
            old(self).wf(),
        ensures
            final(self).wf(),
            ({
                let t = tick_of(old(self)@.clock, now);
                let i = quiz_index(old(self)@.quizzes, qc.id);
                let q0 = quiz_at(old(self)@.quizzes, qc.id);
                match r {
                    Ok(q) => {
                        &&& has_quiz_id(old(self)@.quizzes, qc.id)
                        &&& (if qc.is_completed {
                            &&& q@ == (QuizModel {
                                is_completed: true,
                                completed_at: Some(t),
                                ..q0
                            })
                            &&& final(self)@ == (StoreModel {
                                quizzes: old(self)@.quizzes.update(i, q@),
                                clock: t,
                                ..old(self)@
                            })
                        } else {
                            &&& q@ == (QuizModel {
                                is_completed: false,
                                completed_at: None,
                                current_index: 0,
                                correct_count: 0,
                                ..q0
                            })
                            &&& final(self)@ == (StoreModel {
                                quizzes: old(self)@.quizzes.update(i, q@),
                                ..old(self)@
                            })
                        })
                    },
                    Err(e) => {
                        &&& e == KeikoError::NotFound
                        &&& !has_quiz_id(old(self)@.quizzes, qc.id)
                        &&& final(self)@ == old(self)@
                    },
                }
            }),
    {
        let idx = match self.find_quiz(qc.id) {
            Some(i) => i,
            None => { return Err(KeikoError::NotFound) },
        };
        proof {
            assert(quiz_index(old(self)@.quizzes, qc.id) == idx) by {
                let j = quiz_index(old(self)@.quizzes, qc.id);
                assert(0 <= j < old(self)@.quizzes.len() && old(self)@.quizzes[j].id == qc.id);
            }
            assert(old(self)@.quizzes[idx as int].ok(old(self)@.clock));
        }
        if qc.is_completed {
            let t = self.advance_clock(now);
            let mut stored = self.quizzes[idx].duplicate();
            stored.is_completed = true;
            stored.completed_at = Some(t);
            let returned = stored.duplicate();
            self.replace_quiz(idx, stored);
            Ok(returned)
        } else {
            let mut stored = self.quizzes[idx].duplicate();
            stored.is_completed = false;
            stored.completed_at = None;
            stored.current_index = 0;
            stored.correct_count = 0;
            let returned = stored.duplicate();
            self.replace_quiz(idx, stored);
            Ok(returned)
        }
    }

    /// Applies a completion transition at the current wall-clock reading;
    /// see `set_quiz_completion_at`.  Completing leaves a non-null
    /// completion timestamp no older than every stored one; reopening
    /// resets the position and correctness counter to zero.
    pub fn set_quiz_completion(&mut self, qc: &QuizCompletion) -> (r: KeikoResult<Quiz>)
        requires
            old(self).wf(),
        ensures
            final(self).wf(),
            ({
                let i = quiz_index(old(self)@.quizzes, qc.id);
                let q0 = quiz_at(old(self)@.quizzes, qc.id);
                match r {
                    Ok(q) => {
                        &&& has_quiz_id(old(self)@.quizzes, qc.id)
                        &&& q@.is_completed == qc.is_completed
                        &&& (if qc.is_completed {
                            &&& q@.completed_at is Some
                            &&& q@.completed_at->Some_0 >= old(self)@.clock
                            &&& q@.current_index == q0.current_index
                            &&& q@.correct_count == q0.correct_count
                        } else {
                            &&& q@.completed_at is None
                            &&& q@.current_index == 0
                            &&& q@.correct_count == 0
                        })
                        &&& q@.id == q0.id
                        &&& q@.course_code == q0.course_code
                        &&& q@.category == q0.category
                        &&& q@.started_at == q0.started_at
                        &&& q@.hint_used == q0.hint_used
                        &&& final(self)@.quizzes == old(self)@.quizzes.update(i, q@)
                        &&& final(self)@.cards == old(self)@.cards
                        &&& final(self)@.courses == old(self)@.courses
                    },
                    Err(e) => {
                        &&& e == KeikoError::NotFound
                        &&& !has_quiz_id(old(self)@.quizzes, qc.id)
                        &&& final(self)@ == old(self)@
                    },
                }
            }),
    {
        let now = crate::sys::now_millis();
        self.set_quiz_completion_at(qc, now)
    }

    /// Sets the position of the quiz addressed by id.  Fails with
    /// `NotFound` exactly when the id is absent, and with
    /// `ValidationError` exactly when the id is present but the position is
    /// negative or exceeds the number of cards in the quiz's scope.
    pub fn set_current_index(&mut self, quiz_id: u128, qi: &QuizIndex) -> (r: KeikoResult<Quiz>)
        requires
            old(self).wf(),
        ensures
            final(self).wf(),
            ({
                let i = quiz_index(old(self)@.quizzes, quiz_id);
                let q0 = quiz_at(old(self)@.quizzes, quiz_id);
                match r {
                    Ok(q) => {
                        &&& has_quiz_id(old(self)@.quizzes, quiz_id)
                        &&& 0 <= qi.current_index <= quiz_card_count(old(self)@, q0)
                        &&& q@ == (QuizModel { current_index: qi.current_index, ..q0 })
                        &&& final(self)@ == (StoreModel {
                            quizzes: old(self)@.quizzes.update(i, q@),
                            ..old(self)@
                        })
                    },
                    Err(e) => {
                        &&& final(self)@ == old(self)@
                        &&& (e == KeikoError::NotFound <==> !has_quiz_id(
                            old(self)@.quizzes,
                            quiz_id,
                        ))
                        &&& (e == KeikoError::ValidationError <==> has_quiz_id(
                            old(self)@.quizzes,
                            quiz_id,
                        ) && !(0 <= qi.current_index <= quiz_card_count(old(self)@, q0)))
                        &&& e == KeikoError::NotFound || e == KeikoError::ValidationError
                    },
                }
            }),
    {
        let idx = match self.find_quiz(quiz_id) {
            Some(i) => i,
            None => { return Err(KeikoError::NotFound) },
        };
        proof {
            assert(quiz_index(old(self)@.quizzes, quiz_id) == idx) by {
                let j = quiz_index(old(self)@.quizzes, quiz_id);
                assert(0 <= j < old(self)@.quizzes.len() && old(self)@.quizzes[j].id == quiz_id);
            }
            assert(old(self)@.quizzes[idx as int].ok(old(self)@.clock));
        }
        let card_count = crate::cards_api::count_cards_in_scope(
            &self.cards,
            &self.quizzes[idx].course_code,
            &self.quizzes[idx].category,
        );
        if qi.current_index < 0 || (qi.current_index as u64) > card_count {
            return Err(KeikoError::ValidationError);
        }
        let mut stored = self.quizzes[idx].duplicate();
        stored.current_index = qi.current_index;
        let returned = stored.duplicate();
        self.replace_quiz(idx, stored);
        Ok(returned)
    }

    /// Sets the correctness counter of the quiz addressed by id.  Fails
    /// with `NotFound` exactly when the id is absent, and with
    /// `ValidationError` exactly when the id is present but the counter is
    /// negative.
    pub fn set_correct_count(&mut self, quiz_id: u128, qc: &QuizCorrectCount) -> (r: KeikoResult<
        Quiz,
    >)
        requires
            old(self).wf(),
        ensures
            final(self).wf(),
            ({
                let i = quiz_index(old(self)@.quizzes, quiz_id);
                let q0 = quiz_at(old(self)@.quizzes, quiz_id);
                match r {
                    Ok(q) => {
                        &&& has_quiz_id(old(self)@.quizzes, quiz_id)
                        &&& qc.correct_count >= 0
                        &&& q@ == (QuizModel { correct_count: qc.correct_count, ..q0 })
                        &&& final(self)@ == (StoreModel {
                            quizzes: old(self)@.quizzes.update(i, q@),
                            ..old(self)@
                        })
                    },
                    Err(e) => {
                        &&& final(self)@ == old(self)@
                        &&& (e == KeikoError::NotFound <==> !has_quiz_id(
                            old(self)@.quizzes,
                            quiz_id,
                        ))
                        &&& (e == KeikoError::ValidationError <==> has_quiz_id(
                            old(self)@.quizzes,
                            quiz_id,
                        ) && qc.correct_count < 0)
                        &&& e == KeikoError::NotFound || e == KeikoError::ValidationError
                    },
                }
            }),
    {
        let idx = match self.find_quiz(quiz_id) {
            Some(i) => i,
            None => { return Err(KeikoError::NotFound) },
        };
        proof {
            assert(quiz_index(old(self)@.quizzes, quiz_id) == idx) by {
                let j = quiz_index(old(self)@.quizzes, quiz_id);
                assert(0 <= j < old(self)@.quizzes.len() && old(self)@.quizzes[j].id == quiz_id);
            }
            assert(old(self)@.quizzes[idx as int].ok(old(self)@.clock));
        }
        if qc.correct_count < 0 {
            return Err(KeikoError::ValidationError);
        }
        let mut stored = self.quizzes[idx].duplicate();
        stored.correct_count = qc.correct_count;
        let returned = stored.duplicate();
        self.replace_quiz(idx, stored);
        Ok(returned)
    }

    /// Sets the hint flag of the quiz addressed by id.  Fails with
    /// `NotFound` exactly when the id is absent.
    pub fn set_hint_used(&mut self, quiz_id: u128, qh: &QuizHint) -> (r: KeikoResult<Quiz>)
        requires
            old(self).wf(),
        ensures
            final(self).wf(),
            ({
                let i = quiz_index(old(self)@.quizzes, quiz_id);
                let q0 = quiz_at(old(self)@.quizzes, quiz_id);
                match r {
                    Ok(q) => {
                        &&& has_quiz_id(old(self)@.quizzes, quiz_id)
                        &&& q@ == (QuizModel { hint_used: qh.hint_used, ..q0 })
                        &&& final(self)@ == (StoreModel {
                            quizzes: old(self)@.quizzes.update(i, q@),
                            ..old(self)@
                        })
                    },
                    Err(e) => {
                        &&& e == KeikoError::NotFound
                        &&& !has_quiz_id(old(self)@.quizzes, quiz_id)
                        &&& final(self)@ == old(self)@
                    },
                }
            }),
    {
        let idx = match self.find_quiz(quiz_id) {
            Some(i) => i,
            None => { return Err(KeikoError::NotFound) },
        };
        proof {
            assert(quiz_index(old(self)@.quizzes, quiz_id) == idx) by {
                let j = quiz_index(old(self)@.quizzes, quiz_id);
                assert(0 <= j < old(self)@.quizzes.len() && old(self)@.quizzes[j].id == quiz_id);
            }
            assert(old(self)@.quizzes[idx as int].ok(old(self)@.clock));
        }
        let mut stored = self.quizzes[idx].duplicate();
        stored.hint_used = qh.hint_used;
        let returned = stored.duplicate();
        self.replace_quiz(idx, stored);
        Ok(returned)
    }

    /// Renames one category of one course across both tables at once: every
    /// card and every quiz sharing the course code and the old label leaves
    /// with the new label, in a single transition of the store.  The
    /// operation holds the store exclusively for its whole duration, so no
    /// reader can observe the cards renamed but the quizzes not, or the
    /// reverse.
    pub fn rename_quiz(&mut self, course_code: &String, rn: &RenameQuiz) -> (r: KeikoResult<()>)
        requires
            old(self).wf(),
        ensures
            final(self).wf(),
            r is Ok,
            final(self)@ == (StoreModel {
                cards: rename_cards(old(self)@.cards, course_code@, rn.old@, rn.new@),
                quizzes: rename_quizzes(old(self)@.quizzes, course_code@, rn.old@, rn.new@),
                ..old(self)@
            }),
    {
        let ghost pre = self@;
        let mut i: usize = 0;
        while i < self.cards.len()
            invariant
                i <= self.cards.len(),
                self@.cards.len() == pre.cards.len(),
                forall|j: int|
                    0 <= j < i ==> #[trigger] self@.cards[j] == rename_card(
                        pre.cards[j],
                        course_code@,
                        rn.old@,
                        rn.new@,
                    ),
                forall|j: int| i <= j < pre.cards.len() ==> #[trigger] self@.cards[j]
                    == pre.cards[j],
                self@.quizzes == pre.quizzes,
                self@.courses == pre.courses,
                self@.clock == pre.clock,
            decreases self.cards.len() - i,
        {
            let ghost cur = self@.cards;
            let is_match = string_eq(&self.cards[i].course_code, course_code) && string_eq(
                &self.cards[i].category,
                &rn.old,
            );
            if is_match {
                let mut c = self.cards.remove(i);
                c.category = rn.new.clone();
                let ghost cm = c@;
                self.cards.insert(i, c);
                proof {
                    assert(cur[i as int] == pre.cards[i as int]);
                    assert(self@.cards =~= cur.update(i as int, cm));
                    assert(cm =~= rename_card(pre.cards[i as int], course_code@, rn.old@, rn.new@));
                }
            } else {
                proof {
                    assert(cur[i as int] == pre.cards[i as int]);
                    assert(self@.cards[i as int] =~= rename_card(
                        pre.cards[i as int],
                        course_code@,
                        rn.old@,
                        rn.new@,
                    ));
                }
            }
            i = i + 1;
        }
        proof {
            assert(self@.cards =~= rename_cards(pre.cards, course_code@, rn.old@, rn.new@));
        }
        let ghost mid = self@;
        let mut k: usize = 0;
        while k < self.quizzes.len()
            invariant
                k <= self.quizzes.len(),
                self@.quizzes.len() == pre.quizzes.len(),
                forall|j: int|
                    0 <= j < k ==> #[trigger] self@.quizzes[j] == rename_quiz_row(
                        pre.quizzes[j],
                        course_code@,
                        rn.old@,
                        rn.new@,
                    ),
                forall|j: int| k <= j < pre.quizzes.len() ==> #[trigger] self@.quizzes[j]
                    == pre.quizzes[j],
                self@.cards == mid.cards,
                self@.courses == pre.courses,
                self@.clock == pre.clock,
            decreases self.quizzes.len() - k,
        {
            let ghost cur = self@.quizzes;
            let is_match = string_eq(&self.quizzes[k].course_code, course_code) && string_eq(
                &self.quizzes[k].category,
                &rn.old,
            );
            if is_match {
                let mut q = self.quizzes.remove(k);
                q.category = rn.new.clone();
                let ghost qm = q@;
                self.quizzes.insert(k, q);
                proof {
                    assert(cur[k as int] == pre.quizzes[k as int]);
                    assert(self@.quizzes =~= cur.update(k as int, qm));
                    assert(qm =~= rename_quiz_row(
                        pre.quizzes[k as int],
                        course_code@,
                        rn.old@,
                        rn.new@,
                    ));
                }
            } else {
                proof {
                    assert(cur[k as int] == pre.quizzes[k as int]);
                    assert(self@.quizzes[k as int] =~= rename_quiz_row(
                        pre.quizzes[k as int],
                        course_code@,
                        rn.old@,
                        rn.new@,
                    ));
                }
            }
            k = k + 1;
        }
        proof {
            assert(self@.quizzes =~= rename_quizzes(pre.quizzes, course_code@, rn.old@, rn.new@));
            let fc = self@.cards;
            let fq = self@.quizzes;
            assert forall|a: int, b: int| 0 <= a < b < fc.len() implies (#[trigger] fc[a]).id
                != (#[trigger] fc[b]).id by {
                assert(fc[a].id == pre.cards[a].id && fc[b].id == pre.cards[b].id);
            }
            assert forall|a: int, b: int| 0 <= a < b < fq.len() implies (#[trigger] fq[a]).id
                != (#[trigger] fq[b]).id by {
                assert(fq[a].id == pre.quizzes[a].id && fq[b].id == pre.quizzes[b].id);
            }
            assert forall|a: int| 0 <= a < fc.len() implies (#[trigger] fc[a]).stamps_ok(
                self@.clock,
            ) by {
                assert(pre.cards[a].stamps_ok(pre.clock));
            }
            assert forall|a: int| 0 <= a < fq.len() implies (#[trigger] fq[a]).ok(
                self@.clock,
            ) by {
                assert(pre.quizzes[a].ok(pre.clock));
            }
        }
        Ok(())
    }
}

/// A category rename is a single transition of the whole store: the state
/// it yields has the rename applied to the card table and to the quiz table
/// together, so no state with one table renamed and the other not exists at
/// all.  Concretely: in the renamed state, no card and no quiz of the
/// course still carries the old label.
pub proof fn lemma_rename_atomic(
    s: StoreModel,
    code: Seq<char>,
    old_cat: Seq<char>,
    new_cat: Seq<char>,
)
    requires
        old_cat != new_cat,
    ensures
        forall|i: int|
            0 <= i < rename_cards(s.cards, code, old_cat, new_cat).len() ==> !((#[trigger]
            rename_cards(s.cards, code, old_cat, new_cat)[i]).course_code == code && rename_cards(
                s.cards,
                code,
                old_cat,
                new_cat,
            )[i].category == old_cat),
        forall|i: int|
            0 <= i < rename_quizzes(s.quizzes, code, old_cat, new_cat).len() ==> !((#[trigger]
            rename_quizzes(s.quizzes, code, old_cat, new_cat)[i]).course_code == code
                && rename_quizzes(s.quizzes, code, old_cat, new_cat)[i].category == old_cat),
{
    assert forall|i: int|
        0 <= i < rename_cards(s.cards, code, old_cat, new_cat).len() implies !((#[trigger]
    rename_cards(s.cards, code, old_cat, new_cat)[i]).course_code == code && rename_cards(
        s.cards,
        code,
        old_cat,
        new_cat,
    )[i].category == old_cat) by {
        assert(rename_cards(s.cards, code, old_cat, new_cat)[i] == rename_card(
            s.cards[i],
            code,
            old_cat,
            new_cat,
        ));
    }
    assert forall|i: int|
        0 <= i < rename_quizzes(s.quizzes, code, old_cat, new_cat).len() implies !((#[trigger]
    rename_quizzes(s.quizzes, code, old_cat, new_cat)[i]).course_code == code && rename_quizzes(
        s.quizzes,
        code,
        old_cat,
        new_cat,
    )[i].category == old_cat) by {
        assert(rename_quizzes(s.quizzes, code, old_cat, new_cat)[i] == rename_quiz_row(
            s.quizzes[i],
            code,
            old_cat,
            new_cat,
        ));
    }
}

/// The number of quizzes that belong to the given course code.
pub fn count_quizzes_for_code(quizzes: &Vec<Quiz>, code: &String) -> (n: u64)
    ensures
        n == quizzes_of(quizzes@).filter(|q: QuizModel| q.course_code == code@).len(),
{
    let ghost models = quizzes_of(quizzes@);
    let ghost pred = |q: QuizModel| q.course_code == code@;
    let mut n: u64 = 0;
    let mut i: usize = 0;
    while i < quizzes.len()
        invariant
            i <= quizzes.len(),
            models == quizzes_of(quizzes@),
            pred == (|q: QuizModel| q.course_code == code@),
            n == models.take(i as int).filter(pred).len(),
            n <= i,
        decreases quizzes.len() - i,
    {
        proof {
            assert(models.take(i + 1) =~= models.take(i as int).push(models[i as int]));
        }
        if string_eq(&quizzes[i].course_code, code) {
            n = n + 1;
        }
        i = i + 1;
    }
    proof {
        assert(models.take(quizzes.len() as int) =~= models);
    }
    n
}

/// The number of completed quizzes that belong to the given course code.
pub fn count_done_for_code(quizzes: &Vec<Quiz>, code: &String) -> (n: u64)
    ensures
        n == quizzes_of(quizzes@).filter(
            |q: QuizModel| q.course_code == code@ && q.is_completed,
        ).len(),
{
    let ghost models = quizzes_of(quizzes@);
    let ghost pred = |q: QuizModel| q.course_code == code@ && q.is_completed;
    let mut n: u64 = 0;
    let mut i: usize = 0;
    while i < quizzes.len()
        invariant
            i <= quizzes.len(),
            models == quizzes_of(quizzes@),
            pred == (|q: QuizModel| q.course_code == code@ && q.is_completed),
            n == models.take(i as int).filter(pred).len(),
            n <= i,
        decreases quizzes.len() - i,
    {
        proof {
            assert(models.take(i + 1) =~= models.take(i as int).push(models[i as int]));
        }
        if string_eq(&quizzes[i].course_code, code) && quizzes[i].is_completed {
            n = n + 1;
        }
        i = i + 1;
    }
    proof {
        assert(models.take(quizzes.len() as int) =~= models);
    }
    n
}

} // verus!
