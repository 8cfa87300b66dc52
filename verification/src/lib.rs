//! A verified core for a flashcard study tracker.
//!
//! The library models the three resources of the tracker — courses, cards
//! (flashcards) and quizzes — and the full repository semantics over them:
//! CRUD operations, derived views with aggregate counts and progress
//! percentages, tag aggregation, and the quiz state machine.  Every operation
//! is specified against a mathematical model of the store and proved to
//! maintain its invariants.
//!
//! Identifiers and timestamps are supplied by the environment (a random
//! identifier generator and the wall clock); those two calls are the only
//! trusted ones, and every function that uses them states what holds of the
//! result whatever value came back.

use vstd::prelude::*;

pub mod cards_api;
pub mod courses;
pub mod courses_api;
pub mod flashcards;
pub mod quiz;
pub mod quiz_api;
pub mod sys;

use cards_api::{Card, CardModel};
use courses_api::{Course, CourseModel};
use quiz_api::{Quiz, QuizModel};

verus! {

/// The closed error taxonomy of the repository layer.
///
/// `NotFound` addresses an absent id or code, `Conflict` a unique-constraint
/// violation (a duplicate course code or identifier), `ValidationError` a
/// rejected field value, and `StorageUnavailable` a storage transport failure
/// (never raised by the in-memory store itself; the taxonomy keeps it for the
/// route layer's status mapping).
#[derive(Clone, Copy, Debug, PartialEq, Eq, Structural)]
pub enum KeikoError {
    NotFound,
    Conflict,
    ValidationError,
    StorageUnavailable,
}

/// The result type of every repository operation.
pub type KeikoResult<T> = Result<T, KeikoError>;

/// The HTTP status that each repository error maps to: an absent id or
/// code is 404, a conflict 409, a rejected field 400, and an unavailable
/// store 503.
pub open spec fn status_of_spec(e: KeikoError) -> u16 {
    match e {
        KeikoError::NotFound => 404,
        KeikoError::Conflict => 409,
        KeikoError::ValidationError => 400,
        KeikoError::StorageUnavailable => 503,
    }
}

/// Computes `status_of_spec` on a repository error.
pub fn status_of(e: &KeikoError) -> (s: u16)
    ensures
        s == status_of_spec(*e),
{
    match e {
        KeikoError::NotFound => 404,
        KeikoError::Conflict => 409,
        KeikoError::ValidationError => 400,
        KeikoError::StorageUnavailable => 503,
    }
}

/// The mathematical model of the whole store: the three tables and the
/// logical clock that bounds every timestamp held in them.
#[verifier::ext_equal]
pub struct StoreModel {
    pub courses: Seq<CourseModel>,
    pub cards: Seq<CardModel>,
    pub quizzes: Seq<QuizModel>,
    pub clock: u64,
}

/// The store that owns the three resource tables.
///
/// All entities live in these rows; the repository operations below read and
/// write through `&self`/`&mut self`, so a reader can never observe a write
/// half-applied.  `clock` is the largest timestamp ever written, which keeps
/// every fresh timestamp at or above every stored one even if the wall clock
/// steps backwards.
pub struct KeikoStore {
    pub courses: Vec<Course>,
    pub cards: Vec<Card>,
    pub quizzes: Vec<Quiz>,
    pub clock: u64,
}

impl View for KeikoStore {
    type V = StoreModel;

    open spec fn view(&self) -> StoreModel {
        StoreModel {
            courses: courses_api::courses_of(self.courses@),
            cards: cards_api::cards_of(self.cards@),
            quizzes: quiz_api::quizzes_of(self.quizzes@),
            clock: self.clock,
        }
    }
}

/// The timestamp a write performed at wall-clock reading `now` carries:
/// the clock never moves backwards, and a reading from before the epoch is
/// treated as the epoch.
pub open spec fn tick_of(clock: u64, now: i64) -> u64 {
    if now >= 0 && now as u64 > clock {
        now as u64
    } else {
        clock
    }
}

impl StoreModel {
    /// Well-formedness of the store: identifiers are unique per table, the
    /// course code is a unique human-readable key, every timestamp is bounded
    /// by the logical clock, and every quiz row is internally consistent.
    pub open spec fn inv(self) -> bool {
        &&& (forall|i: int, j: int|
            0 <= i < j < self.courses.len() ==> #[trigger] self.courses[i].id
                != #[trigger] self.courses[j].id)
        &&& (forall|i: int, j: int|
            0 <= i < j < self.courses.len() ==> #[trigger] self.courses[i].course_code
                != #[trigger] self.courses[j].course_code)
        &&& (forall|i: int, j: int|
            0 <= i < j < self.cards.len() ==> #[trigger] self.cards[i].id
                != #[trigger] self.cards[j].id)
        &&& (forall|i: int, j: int|
            0 <= i < j < self.quizzes.len() ==> #[trigger] self.quizzes[i].id
                != #[trigger] self.quizzes[j].id)
        &&& (forall|i: int|
            0 <= i < self.courses.len() ==> (#[trigger] self.courses[i]).stamps_ok(self.clock))
        &&& (forall|i: int|
            0 <= i < self.cards.len() ==> (#[trigger] self.cards[i]).stamps_ok(self.clock))
        &&& (forall|i: int|
            0 <= i < self.quizzes.len() ==> (#[trigger] self.quizzes[i]).ok(self.clock))
    }
}

/// The character sequences of a list of strings.
pub open spec fn strings_of(ss: Seq<String>) -> Seq<Seq<char>> {
    ss.map_values(|s: String| s@)
}

/// Strict lexicographic order on character sequences, by code point:
/// a proper prefix precedes its extensions.
pub open spec fn lex_lt(a: Seq<char>, b: Seq<char>) -> bool
    decreases a.len(),
{
    if b.len() == 0 {
        false
    } else if a.len() == 0 {
        true
    } else if a[0] == b[0] {
        lex_lt(a.skip(1), b.skip(1))
    } else {
        a[0] < b[0]
    }
}

/// A list of character sequences in strictly ascending lexicographic order;
/// such a list holds no duplicates.
pub open spec fn sorted_strict(ss: Seq<Seq<char>>) -> bool {
    forall|i: int, j: int| 0 <= i < j < ss.len() ==> lex_lt(#[trigger] ss[i], #[trigger] ss[j])
}

/// Sequences that agree on their first `i` characters compare the same way
/// as their tails from `i` on.
pub proof fn lemma_lex_skip(a: Seq<char>, b: Seq<char>, i: int)
    requires
        0 <= i <= a.len(),
        i <= b.len(),
        forall|k: int| 0 <= k < i ==> a[k] == b[k],
    ensures
        lex_lt(a, b) == lex_lt(a.skip(i), b.skip(i)),
    decreases i,
{
    if i > 0 {
        assert(a[0] == b[0]);
        lemma_lex_skip(a.skip(1), b.skip(1), i - 1);
        assert(a.skip(1).skip(i - 1) =~= a.skip(i));
        assert(b.skip(1).skip(i - 1) =~= b.skip(i));
    } else {
        assert(a.skip(0) =~= a);
        assert(b.skip(0) =~= b);
    }
}

/// The order is total: two sequences compare one way or the other, or are
/// equal.
pub proof fn lemma_lex_total(a: Seq<char>, b: Seq<char>)
    ensures
        lex_lt(a, b) || lex_lt(b, a) || a == b,
    decreases a.len(),
{
    if a.len() == 0 {
        if b.len() == 0 {
            assert(a =~= b);
        }
    } else if b.len() == 0 {
    } else if a[0] == b[0] {
        lemma_lex_total(a.skip(1), b.skip(1));
        if !lex_lt(a, b) && !lex_lt(b, a) {
            assert(a.skip(1) == b.skip(1));
            assert(a.skip(1).len() == a.len() - 1);
            assert(b.skip(1).len() == b.len() - 1);
            assert forall|k: int| 0 <= k < a.len() implies a[k] == b[k] by {
                if k >= 1 {
                    assert(a.skip(1)[k - 1] == a[k]);
                    assert(b.skip(1)[k - 1] == b[k]);
                }
            }
            assert(a =~= b);
        }
    } else {
        if a[0] < b[0] {
            assert(lex_lt(a, b));
        } else {
            assert(b[0] < a[0]);
            assert(lex_lt(b, a));
        }
    }
}

/// The order is transitive.
pub proof fn lemma_lex_trans(a: Seq<char>, b: Seq<char>, c: Seq<char>)
    requires
        lex_lt(a, b),
        lex_lt(b, c),
    ensures
        lex_lt(a, c),
    decreases a.len(),
{
    if a.len() > 0 && b.len() > 0 && c.len() > 0 {
        if a[0] == b[0] && b[0] == c[0] {
            lemma_lex_trans(a.skip(1), b.skip(1), c.skip(1));
        }
    }
}

/// Compares two strings in the lexicographic order of their characters.
pub fn string_lt(a: &String, b: &String) -> (r: bool)
    ensures
        r == lex_lt(a@, b@),
{
    let an = a.as_str().unicode_len();
    let bn = b.as_str().unicode_len();
    let mut i: usize = 0;
    while i < an && i < bn
        invariant
            an == a@.len(),
            bn == b@.len(),
            i <= an,
            i <= bn,
            forall|k: int| 0 <= k < i ==> a@[k] == b@[k],
        decreases an - i,
    {
        let ca = a.as_str().get_char(i);
        let cb = b.as_str().get_char(i);
        if ca != cb {
            proof {
                lemma_lex_skip(a@, b@, i as int);
                assert(a@.skip(i as int)[0] == a@[i as int]);
                assert(b@.skip(i as int)[0] == b@[i as int]);
            }
            return ca < cb;
        }
        i = i + 1;
    }
    proof {
        lemma_lex_skip(a@, b@, i as int);
    }
    an < bn
}

/// Inserts a string into a strictly sorted list unless it is already there,
/// keeping the list sorted; afterwards the list holds exactly the old
/// members and the new string.
pub fn insert_sorted_string(list: &mut Vec<String>, s: &String)
    requires
        sorted_strict(strings_of(old(list)@)),
    ensures
        sorted_strict(strings_of(final(list)@)),
        forall|t: Seq<char>| #[trigger] strings_of(final(list)@).contains(t) <==> (strings_of(
            old(list)@,
        ).contains(t) || t == s@),
{
    let ghost pre = strings_of(list@);
    let mut j: usize = 0;
    while j < list.len() && string_lt(&list[j], s)
        invariant
            pre == strings_of(list@),
            j <= list.len(),
            forall|k: int| 0 <= k < j ==> lex_lt(#[trigger] pre[k], s@),
        decreases list.len() - j,
    {
        j = j + 1;
    }
    if j < list.len() && string_eq(&list[j], s) {
        proof {
            assert(strings_of(list@).contains(s@)) by {
                assert(strings_of(list@)[j as int] == s@);
            }
        }
        return ;
    }
    proof {
        if j < list.len() {
            lemma_lex_total(s@, pre[j as int]);
            assert(lex_lt(s@, pre[j as int]));
        }
    }
    list.insert(j, s.clone());
    proof {
        let post = strings_of(list@);
        assert(post =~= pre.insert(j as int, s@));
        assert forall|x: int, y: int| 0 <= x < y < post.len() implies lex_lt(
            #[trigger] post[x],
            #[trigger] post[y],
        ) by {
            let jj = j as int;
            if x < jj && y == jj {
            } else if x == jj && y > jj {
                if jj < pre.len() {
                    if y - 1 > jj {
                        lemma_lex_trans(s@, pre[jj], pre[y - 1]);
                    }
                }
            } else if x < jj && y > jj {
                assert(post[x] == pre[x]);
                assert(post[y] == pre[y - 1]);
                if y - 1 == jj {
                    assert(lex_lt(pre[x], s@));
                    lemma_lex_trans(pre[x], s@, pre[jj]);
                } else {
                }
            }
        }
        assert forall|t: Seq<char>| #[trigger] post.contains(t) implies (pre.contains(t) || t
            == s@) by {
            let m = choose|m: int| 0 <= m < post.len() && post[m] == t;
            if m < j as int {
                assert(pre[m] == t);
            } else if m > j as int {
                assert(pre[m - 1] == t);
            }
        }
        assert forall|t: Seq<char>| (pre.contains(t) || t == s@) implies #[trigger] post.contains(
            t,
        ) by {
            if t == s@ {
                assert(post[j as int] == t);
            } else {
                let m = choose|m: int| 0 <= m < pre.len() && pre[m] == t;
                if m < j as int {
                    assert(post[m] == t);
                } else {
                    assert(post[m + 1] == t);
                }
            }
        }
    }
}

/// The integer percentage `part` makes of `total`, clamped to [0, 100]:
/// an empty total counts as no progress.
pub open spec fn percent_of(part: nat, total: nat) -> u64 {
    if total == 0 {
        0
    } else if part >= total {
        100
    } else {
        ((part * 100) / total) as u64
    }
}

/// A field-for-field copy of a list of strings.
pub fn clone_strings(v: &Vec<String>) -> (r: Vec<String>)
    ensures
        r@ == v@,
{
    let mut r: Vec<String> = Vec::new();
    let mut i: usize = 0;
    while i < v.len()
        invariant
            i <= v.len(),
            r@ =~= v@.take(i as int),
        decreases v.len() - i,
    {
        r.push(v[i].clone());
        i = i + 1;
    }
    proof {
        assert(v@.take(v.len() as int) =~= v@);
    }
    r
}

/// String equality, stated over the character sequences.
pub fn string_eq(a: &String, b: &String) -> (r: bool)
    ensures
        r == (a@ == b@),
{
    a.eq(b)
}

/// Every progress percentage the views derive lies in [0, 100], whatever
/// counts it is computed from.
pub proof fn lemma_percent_bounded(part: nat, total: nat)
    ensures
        percent_of(part, total) <= 100,
{
    if total != 0 && part < total {
        assert((part * 100) / total < 100) by (nonlinear_arith)
            requires
                0 < total,
                part < total,
        ;
    }
}

/// Computes `percent_of` on machine integers.
pub fn percent(part: u64, total: u64) -> (p: u64)
    ensures
        p == percent_of(part as nat, total as nat),
        p <= 100,
{
    if total == 0 {
        0
    } else if part >= total {
        100
    } else {
        let wide: u128 = (part as u128) * 100 / (total as u128);
        proof {
            assert((part as int * 100) / (total as int) < 100) by (nonlinear_arith)
                requires
                    0 < total,
                    part < total,
            ;
        }
        wide as u64
    }
}

impl KeikoStore {
    /// Shorthand for well-formedness of the store's model.
    pub open spec fn wf(&self) -> bool {
        self@.inv()
    }

    /// An empty store.
    pub fn new() -> (s: KeikoStore)
        ensures
            s.wf(),
            s@.courses.len() == 0,
            s@.cards.len() == 0,
            s@.quizzes.len() == 0,
            s@.clock == 0,
    {
        KeikoStore { courses: Vec::new(), cards: Vec::new(), quizzes: Vec::new(), clock: 0 }
    }

    /// Advances the logical clock to the given wall-clock reading, unless the
    /// store has already written a later timestamp, and returns the timestamp
    /// that the current write must carry.
    pub fn advance_clock(&mut self, now: i64) -> (t: u64)
        ensures
            t == tick_of(old(self)@.clock, now),
            final(self)@ == (StoreModel { clock: t, ..old(self)@ }),
            old(self).wf() ==> final(self).wf(),
    {
        if now >= 0 {
            let n: u64 = now as u64;
            if n > self.clock {
                self.clock = n;
            }
        }
        self.clock
    }
}

} // verus!
