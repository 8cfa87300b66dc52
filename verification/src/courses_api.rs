//! The course resource: a named subject area keyed by a human-readable
//! course code, together with its read-only aggregate view.

use vstd::prelude::*;

use crate::cards_api::CardModel;
use crate::quiz_api::QuizModel;
use crate::{string_eq, KeikoError, KeikoResult, KeikoStore, StoreModel, tick_of};

verus! {

broadcast use vstd::seq_lib::group_filter_ensures, Seq::lemma_filter_push, Seq::lemma_map_take_succ;

/// A course row as stored: identity, client-supplied fields, and the
/// server-maintained timestamps.
#[derive(Clone, Debug, PartialEq)]
pub struct Course {
    pub id: u128,
    pub name: String,
    pub course_code: String,
    pub description: String,
    pub created_at: u64,
    pub updated_at: Option<u64>,
}

/// The aggregate projection of a course: the stored fields plus the number
/// of cards that belong to it, the percentage of its quizzes that are
/// completed, and the distinct categories of its cards in ascending order.
#[derive(Clone, Debug, PartialEq)]
pub struct CourseView {
    pub id: u128,
    pub name: String,
    pub course_code: String,
    pub description: String,
    pub created_at: u64,
    pub updated_at: Option<u64>,
    pub questions: u64,
    pub progress: u64,
    pub categories: Vec<String>,
}

/// The client-supplied fields of a new course.
#[derive(Clone, Debug, PartialEq)]
pub struct CreateCourse {
    pub name: String,
    pub course_code: String,
    pub description: String,
}

/// The client-supplied fields of a course update, addressed by id.
#[derive(Clone, Debug, PartialEq)]
pub struct UpdateCourse {
    pub id: u128,
    pub name: String,
    pub course_code: String,
    pub description: String,
}

/// One distinct category label of a course's cards.
#[derive(Clone, Debug, PartialEq)]
pub struct CourseCategory {
    pub category: String,
}

impl View for CourseCategory {
    type V = Seq<char>;

    open spec fn view(&self) -> Seq<char> {
        self.category@
    }
}

/// The model of a stored course.
#[verifier::ext_equal]
pub struct CourseModel {
    pub id: u128,
    pub name: Seq<char>,
    pub course_code: Seq<char>,
    pub description: Seq<char>,
    pub created_at: u64,
    pub updated_at: Option<u64>,
}

/// The model of a course's aggregate view.
#[verifier::ext_equal]
pub struct CourseViewModel {
    pub id: u128,
    pub name: Seq<char>,
    pub course_code: Seq<char>,
    pub description: Seq<char>,
    pub created_at: u64,
    pub updated_at: Option<u64>,
    pub questions: u64,
    pub progress: u64,
    pub categories: Seq<Seq<char>>,
}

impl View for Course {
    type V = CourseModel;

    open spec fn view(&self) -> CourseModel {
        CourseModel {
            id: self.id,
            name: self.name@,
            course_code: self.course_code@,
            description: self.description@,
            created_at: self.created_at,
            updated_at: self.updated_at,
        }
    }
}

impl View for CourseView {
    type V = CourseViewModel;

    open spec fn view(&self) -> CourseViewModel {
        CourseViewModel {
            id: self.id,
            name: self.name@,
            course_code: self.course_code@,
            description: self.description@,
            created_at: self.created_at,
            updated_at: self.updated_at,
            questions: self.questions,
            progress: self.progress,
            categories: self.categories@.map_values(|t: String| t@),
        }
    }
}

impl CourseModel {
    /// Both timestamps of the row are bounded by the store's clock.
    pub open spec fn stamps_ok(self, clock: u64) -> bool {
        &&& self.created_at <= clock
        &&& (self.updated_at matches Some(t) ==> t <= clock)
    }
}

/// The models of a table of courses.
pub open spec fn courses_of(courses: Seq<Course>) -> Seq<CourseModel> {
    courses.map_values(|c: Course| c@)
}

/// Some stored course carries the given id.
pub open spec fn has_course_id(courses: Seq<CourseModel>, id: u128) -> bool {
    exists|i: int| 0 <= i < courses.len() && (#[trigger] courses[i]).id == id
}

/// The row index of the course with the given id.
pub open spec fn course_index(courses: Seq<CourseModel>, id: u128) -> int {
    choose|i: int| 0 <= i < courses.len() && (#[trigger] courses[i]).id == id
}

/// The stored course with the given id.
pub open spec fn course_at(courses: Seq<CourseModel>, id: u128) -> CourseModel {
    courses[course_index(courses, id)]
}

/// Some stored course carries the given course code.
pub open spec fn has_course_code(courses: Seq<CourseModel>, code: Seq<char>) -> bool {
    exists|i: int| 0 <= i < courses.len() && (#[trigger] courses[i]).course_code == code
}

/// The row index of the course with the given course code.
pub open spec fn course_code_index(courses: Seq<CourseModel>, code: Seq<char>) -> int {
    choose|i: int| 0 <= i < courses.len() && (#[trigger] courses[i]).course_code == code
}

/// A course other than the one with the given id carries the given code;
/// such a row makes an update of that course to that code a conflict.
pub open spec fn code_conflicts(courses: Seq<CourseModel>, id: u128, code: Seq<char>) -> bool {
    exists|j: int|
        0 <= j < courses.len() && (#[trigger] courses[j]).id != id && courses[j].course_code
            == code
}

/// What the aggregate view of a stored course holds: the row's own fields,
/// the count of its cards, the share of its quizzes that are completed, and
/// its cards' distinct categories in ascending order.
pub open spec fn is_course_view(s: StoreModel, c: CourseModel, v: CourseViewModel) -> bool {
    &&& v.id == c.id
    &&& v.name == c.name
    &&& v.course_code == c.course_code
    &&& v.description == c.description
    &&& v.created_at == c.created_at
    &&& v.updated_at == c.updated_at
    &&& v.questions == s.cards.filter(|cd: CardModel| cd.course_code == c.course_code).len()
    &&& v.progress == crate::percent_of(
        s.quizzes.filter(|q: QuizModel| q.course_code == c.course_code && q.is_completed).len(),
        s.quizzes.filter(|q: QuizModel| q.course_code == c.course_code).len(),
    )
    &&& crate::sorted_strict(v.categories)
    &&& (forall|t: Seq<char>| #[trigger]
        v.categories.contains(t) <==> crate::cards_api::category_set(
            s.cards,
            c.course_code,
        ).contains(t))
}

impl Course {
    /// A field-for-field copy of the row.
    pub fn duplicate(&self) -> (r: Course)
        ensures
            r@ == self@,
    {
        Course {
            id: self.id,
            name: self.name.clone(),
            course_code: self.course_code.clone(),
            description: self.description.clone(),
            created_at: self.created_at,
            updated_at: self.updated_at,
        }
    }
}

impl KeikoStore {
    /// Builds the aggregate view of one stored course.
    fn build_course_view(&self, c: &Course) -> (v: CourseView)
        ensures
            is_course_view(self@, c@, v@),
    {
        let questions = crate::cards_api::count_cards_for_code(&self.cards, &c.course_code);
        let total = crate::quiz_api::count_quizzes_for_code(&self.quizzes, &c.course_code);
        let done = crate::quiz_api::count_done_for_code(&self.quizzes, &c.course_code);
        let progress = crate::percent(done, total);
        let categories = crate::cards_api::distinct_sorted_categories(
            &self.cards,
            &c.course_code,
        );
        CourseView {
            id: c.id,
            name: c.name.clone(),
            course_code: c.course_code.clone(),
            description: c.description.clone(),
            created_at: c.created_at,
            updated_at: c.updated_at,
            questions,
            progress,
            categories,
        }
    }

    /// Returns the aggregate views of all courses, in row order.
    pub fn get_courses(&self) -> (r: KeikoResult<Vec<CourseView>>)
        ensures
            match r {
                Ok(v) => {
                    &&& v@.len() == self@.courses.len()
                    &&& forall|i: int|
                        0 <= i < v@.len() ==> is_course_view(
                            self@,
                            self@.courses[i],
                            (#[trigger] v@[i])@,
                        )
                },
                Err(_) => false,
            },
    {
        let mut v: Vec<CourseView> = Vec::new();
        let mut i: usize = 0;
        while i < self.courses.len()
            invariant
                i <= self.courses.len(),
                v@.len() == i,
                forall|j: int|
                    0 <= j < i ==> is_course_view(self@, self@.courses[j], (#[trigger] v@[j])@),
            decreases self.courses.len() - i,
        {
            let view = self.build_course_view(&self.courses[i]);
            v.push(view);
            i = i + 1;
        }
        Ok(v)
    }

    /// Returns the aggregate view of the course addressed by id; fails with
    /// `NotFound` exactly when the id is absent.
    pub fn get_course(&self, course_id: u128) -> (r: KeikoResult<CourseView>)
        requires
            self.wf(),
        ensures
            match r {
                Ok(v) => {
                    &&& has_course_id(self@.courses, course_id)
                    &&& is_course_view(self@, course_at(self@.courses, course_id), v@)
                },
                Err(e) => {
                    &&& e == KeikoError::NotFound
                    &&& !has_course_id(self@.courses, course_id)
                },
            },
    {
        let idx = match self.find_course(course_id) {
            Some(i) => i,
            None => { return Err(KeikoError::NotFound) },
        };
        proof {
            assert(course_index(self@.courses, course_id) == idx) by {
                let j = course_index(self@.courses, course_id);
                assert(0 <= j < self@.courses.len() && self@.courses[j].id == course_id);
            }
        }
        Ok(self.build_course_view(&self.courses[idx]))
    }

    /// Returns the aggregate view of the course addressed by course code;
    /// fails with `NotFound` exactly when the code is absent.
    pub fn get_course_from_course_code(&self, course_code: &String) -> (r: KeikoResult<
        CourseView,
    >)
        requires
            self.wf(),
        ensures
            match r {
                Ok(v) => {
                    &&& has_course_code(self@.courses, course_code@)
                    &&& is_course_view(
                        self@,
                        self@.courses[course_code_index(self@.courses, course_code@)],
                        v@,
                    )
                },
                Err(e) => {
                    &&& e == KeikoError::NotFound
                    &&& !has_course_code(self@.courses, course_code@)
                },
            },
    {
        let idx = match self.find_course_by_code(course_code) {
            Some(i) => i,
            None => { return Err(KeikoError::NotFound) },
        };
        proof {
            assert(course_code_index(self@.courses, course_code@) == idx) by {
                let j = course_code_index(self@.courses, course_code@);
                assert(0 <= j < self@.courses.len() && self@.courses[j].course_code
                    == course_code@);
            }
        }
        Ok(self.build_course_view(&self.courses[idx]))
    }

    /// Returns the distinct categories of the cards of the course addressed
    /// by id, in ascending order; fails with `NotFound` exactly when the id
    /// is absent.
    pub fn get_categories_for_course(&self, course_id: u128) -> (r: KeikoResult<
        Vec<CourseCategory>,
    >)
        requires
            self.wf(),
        ensures
            match r {
                Ok(v) => {
                    &&& has_course_id(self@.courses, course_id)
                    &&& crate::sorted_strict(v@.map_values(|c: CourseCategory| c@))
                    &&& forall|j: int|
                        0 <= j < v@.len() ==> crate::cards_api::category_set(
                            self@.cards,
                            course_at(self@.courses, course_id).course_code,
                        ).contains((#[trigger] v@[j])@)
                    &&& forall|t: Seq<char>| #[trigger]
                        crate::cards_api::category_set(
                            self@.cards,
                            course_at(self@.courses, course_id).course_code,
                        ).contains(t) ==> v@.map_values(|c: CourseCategory| c@).contains(t)
                },
                Err(e) => {
                    &&& e == KeikoError::NotFound
                    &&& !has_course_id(self@.courses, course_id)
                },
            },
    {
        let idx = match self.find_course(course_id) {
            Some(i) => i,
            None => { return Err(KeikoError::NotFound) },
        };
        proof {
            assert(course_index(self@.courses, course_id) == idx) by {
                let j = course_index(self@.courses, course_id);
                assert(0 <= j < self@.courses.len() && self@.courses[j].id == course_id);
            }
        }
        let cats = crate::cards_api::distinct_sorted_categories(
            &self.cards,
            &self.courses[idx].course_code,
        );
        let mut v: Vec<CourseCategory> = Vec::new();
        let mut k: usize = 0;
        while k < cats.len()
            invariant
                k <= cats.len(),
                v@.len() == k,
                forall|j: int| 0 <= j < k ==> (#[trigger] v@[j])@ == crate::strings_of(cats@)[j],
            decreases cats.len() - k,
        {
            v.push(CourseCategory { category: cats[k].clone() });
            k = k + 1;
        }
        proof {
            assert(v@.map_values(|c: CourseCategory| c@) =~= crate::strings_of(cats@));
            assert forall|j: int| 0 <= j < v@.len() implies crate::cards_api::category_set(
                self@.cards,
                course_at(self@.courses, course_id).course_code,
            ).contains((#[trigger] v@[j])@) by {
                assert(crate::strings_of(cats@)[j] == v@[j]@);
                assert(crate::strings_of(cats@).contains(v@[j]@));
            }
        }
        Ok(v)
    }

    /// The row index of the course with the given id, if any.
    pub fn find_course(&self, id: u128) -> (r: Option<usize>)
        ensures
            match r {
                Some(i) => i < self@.courses.len() && self@.courses[i as int].id == id,
                None => !has_course_id(self@.courses, id),
            },
    {
        let mut i: usize = 0;
        while i < self.courses.len()
            invariant
                i <= self.courses.len(),
                forall|j: int| 0 <= j < i ==> (#[trigger] self@.courses[j]).id != id,
            decreases self.courses.len() - i,
        {
            if self.courses[i].id == id {
                return Some(i);
            }
            i = i + 1;
        }
        None
    }

    /// The row index of the course with the given course code, if any.
    pub fn find_course_by_code(&self, code: &String) -> (r: Option<usize>)
        ensures
            match r {
                Some(i) => i < self@.courses.len() && self@.courses[i as int].course_code
                    == code@,
                None => !has_course_code(self@.courses, code@),
            },
    {
        let mut i: usize = 0;
        while i < self.courses.len()
            invariant
                i <= self.courses.len(),
                forall|j: int| 0 <= j < i ==> (#[trigger] self@.courses[j]).course_code != code@,
            decreases self.courses.len() - i,
        {
            if string_eq(&self.courses[i].course_code, code) {
                return Some(i);
            }
            i = i + 1;
        }
        None
    }

    /// Creates a course from the client-supplied fields, at the given
    /// identifier and wall-clock reading.  Succeeds exactly when neither the
    /// course code nor the identifier is already taken; on success the new
    /// row carries the creation timestamp and no update timestamp yet.
    pub fn create_course_at(&mut self, req: &CreateCourse, id: u128, now: i64) -> (r: KeikoResult<
        Course,
    >)
        requires
            old(self).wf(),
        ensures
            final(self).wf(),
            ({
                let t = tick_of(old(self)@.clock, now);
                match r {
                    Ok(c) => {
                        &&& !has_course_code(old(self)@.courses, req.course_code@)
                        &&& !has_course_id(old(self)@.courses, id)
                        &&& c@ == (CourseModel {
                            id,
                            name: req.name@,
                            course_code: req.course_code@,
                            description: req.description@,
                            created_at: t,
                            updated_at: None,
                        })
                        &&& final(self)@ == (StoreModel {
                            courses: old(self)@.courses.push(c@),
                            clock: t,
                            ..old(self)@
                        })
                    },
                    Err(e) => {
                        &&& e == KeikoError::Conflict
                        &&& has_course_code(old(self)@.courses, req.course_code@)
                            || has_course_id(old(self)@.courses, id)
                        &&& final(self)@ == old(self)@
                    },
                }
            }),
    {
        if self.find_course_by_code(&req.course_code).is_some() {
            return Err(KeikoError::Conflict);
        }
        if self.find_course(id).is_some() {
            return Err(KeikoError::Conflict);
        }
        let t = self.advance_clock(now);
        let stored = Course {
            id,
            name: req.name.clone(),
            course_code: req.course_code.clone(),
            description: req.description.clone(),
            created_at: t,
            updated_at: None,
        };
        let returned = stored.duplicate();
        proof {
            assert(courses_of(self.courses@.push(stored)) =~= self@.courses.push(stored@));
        }
        self.courses.push(stored);
        Ok(returned)
    }

    /// Creates a course, stamping it with the current wall-clock reading and
    /// a freshly drawn identifier.  Whatever identifier and instant the
    /// environment supplies, a success appends exactly the row it returns,
    /// and a failure is a `Conflict` that leaves the store unchanged; a
    /// taken course code always fails.
    pub fn create_course(&mut self, req: &CreateCourse) -> (r: KeikoResult<Course>)
        requires
            old(self).wf(),
        ensures
            final(self).wf(),
            match r {
                Ok(c) => {
                    &&& !has_course_code(old(self)@.courses, req.course_code@)
                    &&& c@.name == req.name@
                    &&& c@.course_code == req.course_code@
                    &&& c@.description == req.description@
                    &&& c@.updated_at is None
                    &&& c@.created_at >= old(self)@.clock
                    &&& final(self)@ == (StoreModel {
                        courses: old(self)@.courses.push(c@),
                        clock: c@.created_at,
                        ..old(self)@
                    })
                },
                Err(e) => {
                    &&& e == KeikoError::Conflict
                    &&& final(self)@ == old(self)@
                },
            },
            has_course_code(old(self)@.courses, req.course_code@) ==> r is Err,
    {
        let id = crate::sys::fresh_id();
        let now = crate::sys::now_millis();
        self.create_course_at(req, id, now)
    }

    /// Updates the client-supplied fields of the course addressed by id and
    /// stamps it with the write's timestamp.  Fails with `NotFound` exactly
    /// when the id is absent, and with `Conflict` exactly when another
    /// course already carries the requested code; the update timestamp never
    /// precedes the row's earlier timestamps.
    pub fn update_course_at(&mut self, upd: &UpdateCourse, now: i64) -> (r: KeikoResult<Course>)
        requires
            old(self).wf(),
        ensures
            final(self).wf(),
            ({
                let t = tick_of(old(self)@.clock, now);
                let i = course_index(old(self)@.courses, upd.id);
                match r {
                    Ok(c) => {
                        &&& has_course_id(old(self)@.courses, upd.id)
                        &&& !code_conflicts(old(self)@.courses, upd.id, upd.course_code@)
                        &&& c@ == (CourseModel {
                            id: upd.id,
                            name: upd.name@,
                            course_code: upd.course_code@,
                            description: upd.description@,
                            created_at: old(self)@.courses[i].created_at,
                            updated_at: Some(t),
                        })
                        &&& final(self)@ == (StoreModel {
                            courses: old(self)@.courses.update(i, c@),
                            clock: t,
                            ..old(self)@
                        })
                        &&& t >= old(self)@.courses[i].created_at
                        &&& (old(self)@.courses[i].updated_at matches Some(u) ==> t >= u)
                    },
                    Err(e) => {
                        &&& final(self)@ == old(self)@
                        &&& (e == KeikoError::NotFound <==> !has_course_id(
                            old(self)@.courses,
                            upd.id,
                        ))
                        &&& (e == KeikoError::Conflict ==> code_conflicts(
                            old(self)@.courses,
                            upd.id,
                            upd.course_code@,
                        ))
                        &&& e == KeikoError::NotFound || e == KeikoError::Conflict
                    },
                }
            }),
    {
        let idx = match self.find_course(upd.id) {
            Some(i) => i,
            None => { return Err(KeikoError::NotFound) },
        };
        proof {
            assert(course_index(old(self)@.courses, upd.id) == idx) by {
                let j = course_index(old(self)@.courses, upd.id);
                assert(0 <= j < old(self)@.courses.len() && old(self)@.courses[j].id == upd.id);
            }
        }
        let code_idx = self.find_course_by_code(&upd.course_code);
        if let Some(j) = code_idx {
            if self.courses[j].id != upd.id {
                return Err(KeikoError::Conflict);
            }
        }
        proof {
            let cs = old(self)@.courses;
            assert forall|k: int|
                0 <= k < cs.len() && k != idx as int implies (#[trigger] cs[k]).course_code
                != upd.course_code@ by {
                if cs[k].course_code == upd.course_code@ {
                    match code_idx {
                        Some(j) => {
                            assert(cs[j as int].course_code == upd.course_code@);
                            assert(cs[j as int].id == upd.id);
                            assert(cs[idx as int].id == upd.id);
                        },
                        None => {
                            assert(has_course_code(cs, upd.course_code@));
                        },
                    }
                }
            }
            assert(cs[idx as int].stamps_ok(old(self)@.clock));
        }
        let t = self.advance_clock(now);
        let created_at = self.courses[idx].created_at;
        let stored = Course {
            id: upd.id,
            name: upd.name.clone(),
            course_code: upd.course_code.clone(),
            description: upd.description.clone(),
            created_at,
            updated_at: Some(t),
        };
        let returned = stored.duplicate();
        let ghost pre = self@;
        self.courses.remove(idx);
        self.courses.insert(idx, stored);
        proof {
            assert(self@.courses =~= pre.courses.update(idx as int, stored@));
        }
        Ok(returned)
    }

    /// Updates a course, stamping it with the current wall-clock reading;
    /// see `update_course_at` for when each error comes.  The update
    /// timestamp never precedes the row's earlier timestamps.
    pub fn update_course(&mut self, upd: &UpdateCourse) -> (r: KeikoResult<Course>)
        requires
            old(self).wf(),
        ensures
            final(self).wf(),
            ({
                let i = course_index(old(self)@.courses, upd.id);
                match r {
                    Ok(c) => {
                        &&& has_course_id(old(self)@.courses, upd.id)
                        &&& !code_conflicts(old(self)@.courses, upd.id, upd.course_code@)
                        &&& c@.id == upd.id
                        &&& c@.name == upd.name@
                        &&& c@.course_code == upd.course_code@
                        &&& c@.description == upd.description@
                        &&& c@.created_at == old(self)@.courses[i].created_at
                        &&& c@.updated_at matches Some(t) && t >= old(self)@.clock
                        &&& (old(self)@.courses[i].updated_at matches Some(u) ==>
                            c@.updated_at->Some_0 >= u)
                        &&& c@.updated_at->Some_0 >= old(self)@.courses[i].created_at
                        &&& final(self)@ == (StoreModel {
                            courses: old(self)@.courses.update(i, c@),
                            clock: c@.updated_at->Some_0,
                            ..old(self)@
                        })
                    },
                    Err(e) => {
                        &&& final(self)@ == old(self)@
                        &&& (e == KeikoError::NotFound <==> !has_course_id(
                            old(self)@.courses,
                            upd.id,
                        ))
                        &&& (e == KeikoError::Conflict ==> code_conflicts(
                            old(self)@.courses,
                            upd.id,
                            upd.course_code@,
                        ))
                        &&& e == KeikoError::NotFound || e == KeikoError::Conflict
                    },
                }
            }),
    {
        let now = crate::sys::now_millis();
        self.update_course_at(upd, now)
    }

    /// Removes the course addressed by id and returns the id.  Fails with
    /// `NotFound` exactly when the id is absent.  Related cards and quizzes
    /// are kept: deletion does not cascade, so they simply no longer resolve
    /// to a course.
    pub fn delete_course(&mut self, id: u128) -> (r: KeikoResult<u128>)
        requires
            old(self).wf(),
        ensures
            final(self).wf(),
            match r {
                Ok(d) => {
                    &&& d == id
                    &&& has_course_id(old(self)@.courses, id)
                    &&& final(self)@ == (StoreModel {
                        courses: old(self)@.courses.remove(
                            course_index(old(self)@.courses, id),
                        ),
                        ..old(self)@
                    })
                },
                Err(e) => {
                    &&& e == KeikoError::NotFound
                    &&& !has_course_id(old(self)@.courses, id)
                    &&& final(self)@ == old(self)@
                },
            },
    {
        let idx = match self.find_course(id) {
            Some(i) => i,
            None => { return Err(KeikoError::NotFound) },
        };
        proof {
            assert(course_index(old(self)@.courses, id) == idx) by {
                let j = course_index(old(self)@.courses, id);
                assert(0 <= j < old(self)@.courses.len() && old(self)@.courses[j].id == id);
            }
        }
        let ghost pre = self@;
        self.courses.remove(idx);
        proof {
            assert(self@.courses =~= pre.courses.remove(idx as int));
        }
        Ok(id)
    }
}

/// Creating a course and then reading it back by its id yields a view equal
/// to the request on every client-supplied field, with the creation
/// timestamp set and the update timestamp null.  The state `post` is the
/// one `create_course_at` ensures on success; `c` is the course it returns.
pub proof fn lemma_create_then_get(
    s: StoreModel,
    post: StoreModel,
    c: CourseModel,
    name: Seq<char>,
    code: Seq<char>,
    description: Seq<char>,
    id: u128,
    t: u64,
)
    requires
        s.inv(),
        !has_course_id(s.courses, id),
        c == (CourseModel { id, name, course_code: code, description, created_at: t, updated_at: None }),
        post == (StoreModel { courses: s.courses.push(c), clock: t, ..s }),
    ensures
        has_course_id(post.courses, id),
        course_at(post.courses, id).name == name,
        course_at(post.courses, id).course_code == code,
        course_at(post.courses, id).description == description,
        course_at(post.courses, id).created_at == t,
        course_at(post.courses, id).updated_at is None,
{
    let n = s.courses.len() as int;
    assert(post.courses[n] == c);
    assert(has_course_id(post.courses, id));
    let j = course_index(post.courses, id);
    assert(0 <= j < post.courses.len() && post.courses[j].id == id);
    if j < n {
        assert(s.courses[j].id == id);
        assert(false);
    }
    assert(course_at(post.courses, id) == c);
}

/// Deleting a course and then asking for the same id finds nothing: the
/// state `delete_course` ensures on success holds no course with that id,
/// so a subsequent `get_course` fails with `NotFound`.
pub proof fn lemma_delete_then_get(s: StoreModel, post: StoreModel, id: u128)
    requires
        s.inv(),
        has_course_id(s.courses, id),
        post == (StoreModel { courses: s.courses.remove(course_index(s.courses, id)), ..s }),
    ensures
        !has_course_id(post.courses, id),
{
    let i = course_index(s.courses, id);
    assert(0 <= i < s.courses.len() && s.courses[i].id == id);
    assert forall|j: int| 0 <= j < post.courses.len() implies (#[trigger] post.courses[j]).id
        != id by {
        if j < i {
            assert(post.courses[j] == s.courses[j]);
        } else {
            assert(post.courses[j] == s.courses[j + 1]);
        }
    }
}

} // verus!
