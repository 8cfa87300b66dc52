//! The course routes: each maps one decoded request to exactly one
//! repository operation, and the outcome to a status code and body.

use vstd::prelude::*;

use crate::courses_api::{
    code_conflicts, course_at, course_index, has_course_code, has_course_id, is_course_view,
    Course, CourseCategory, CourseView, CreateCourse, UpdateCourse,
};
use crate::{status_of, status_of_spec, KeikoError, KeikoStore, StoreModel};

verus! {

/// A decoded course request: each variant carries what its route decodes
/// from the path or body.
#[derive(Clone, Debug)]
pub enum CourseRequest {
    GetAll,
    Get(u128),
    GetCategories(u128),
    Create(CreateCourse),
    Update(UpdateCourse),
    Delete(u128),
}

/// The body of a course response.
#[derive(Clone, Debug)]
pub enum CourseReply {
    Courses(Vec<CourseView>),
    View(CourseView),
    Categories(Vec<CourseCategory>),
    Course(Course),
    Deleted(u128),
    Failure(KeikoError),
}

/// A course response: the status code and the body it carries.
#[derive(Clone, Debug)]
pub struct CourseResponse {
    pub status: u16,
    pub body: CourseReply,
}

/// What serving one course request means: the store moves as the one
/// repository operation the request names, a success is a 200 carrying that
/// operation's result, and a failure carries the error under its status.
pub open spec fn course_service_spec(
    pre: StoreModel,
    post: StoreModel,
    req: CourseRequest,
    resp: CourseResponse,
) -> bool {
    match req {
        CourseRequest::GetAll => {
            &&& post == pre
            &&& resp.status == 200
            &&& (resp.body matches CourseReply::Courses(v) && v@.len() == pre.courses.len()
                && (forall|i: int|
                0 <= i < v@.len() ==> is_course_view(pre, pre.courses[i], (#[trigger] v@[i])@)))
        },
        CourseRequest::Get(id) => {
            &&& post == pre
            &&& if has_course_id(pre.courses, id) {
                &&& resp.status == 200
                &&& (resp.body matches CourseReply::View(v) && is_course_view(
                    pre,
                    course_at(pre.courses, id),
                    v@,
                ))
            } else {
                &&& resp.status == 404
                &&& resp.body matches CourseReply::Failure(e) && e == KeikoError::NotFound
            }
        },
        CourseRequest::GetCategories(id) => {
            &&& post == pre
            &&& if has_course_id(pre.courses, id) {
                &&& resp.status == 200
                &&& (resp.body matches CourseReply::Categories(v) && crate::sorted_strict(
                    v@.map_values(|c: CourseCategory| c@),
                ) && (forall|j: int|
                    0 <= j < v@.len() ==> crate::cards_api::category_set(
                        pre.cards,
                        course_at(pre.courses, id).course_code,
                    ).contains((#[trigger] v@[j])@)) && (forall|t: Seq<char>| #[trigger]
                    crate::cards_api::category_set(
                        pre.cards,
                        course_at(pre.courses, id).course_code,
                    ).contains(t) ==> v@.map_values(|c: CourseCategory| c@).contains(t)))
            } else {
                &&& resp.status == 404
                &&& resp.body matches CourseReply::Failure(e) && e == KeikoError::NotFound
            }
        },
        CourseRequest::Create(cr) => {
            match resp.body {
                CourseReply::Course(c) => {
                    &&& resp.status == 200
                    &&& !has_course_code(pre.courses, cr.course_code@)
                    &&& c@.name == cr.name@
                    &&& c@.course_code == cr.course_code@
                    &&& c@.description == cr.description@
                    &&& c@.updated_at is None
                    &&& c@.created_at >= pre.clock
                    &&& post == (StoreModel {
                        courses: pre.courses.push(c@),
                        clock: c@.created_at,
                        ..pre
                    })
                },
                CourseReply::Failure(e) => {
                    &&& resp.status == status_of_spec(e)
                    &&& e == KeikoError::Conflict
                    &&& post == pre
                },
                _ => false,
            }
        },
        CourseRequest::Update(upd) => {
            match resp.body {
                CourseReply::Course(c) => {
                    &&& resp.status == 200
                    &&& has_course_id(pre.courses, upd.id)
                    &&& !code_conflicts(pre.courses, upd.id, upd.course_code@)
                    &&& c@.id == upd.id
                    &&& c@.name == upd.name@
                    &&& c@.course_code == upd.course_code@
                    &&& c@.description == upd.description@
                    &&& c@.created_at == pre.courses[course_index(pre.courses, upd.id)].created_at
                    &&& c@.updated_at matches Some(t) && t >= pre.clock
                    &&& post == (StoreModel {
                        courses: pre.courses.update(course_index(pre.courses, upd.id), c@),
                        clock: c@.updated_at->Some_0,
                        ..pre
                    })
                },
                CourseReply::Failure(e) => {
                    &&& resp.status == status_of_spec(e)
                    &&& (e == KeikoError::NotFound <==> !has_course_id(pre.courses, upd.id))
                    &&& (e == KeikoError::Conflict ==> code_conflicts(
                        pre.courses,
                        upd.id,
                        upd.course_code@,
                    ))
                    &&& e == KeikoError::NotFound || e == KeikoError::Conflict
                    &&& post == pre
                },
                _ => false,
            }
        },
        CourseRequest::Delete(id) => {
            if has_course_id(pre.courses, id) {
                &&& resp.status == 200
                &&& resp.body matches CourseReply::Deleted(d) && d == id
                &&& post == (StoreModel {
                    courses: pre.courses.remove(course_index(pre.courses, id)),
                    ..pre
                })
            } else {
                &&& resp.status == 404
                &&& resp.body matches CourseReply::Failure(e) && e == KeikoError::NotFound
                &&& post == pre
            }
        },
    }
}

/// Serves one course request against the store: decodes nothing, invokes
/// exactly one repository operation, and maps its outcome to a status and
/// body as `course_service_spec` states.
pub fn service(store: &mut KeikoStore, req: &CourseRequest) -> (resp: CourseResponse)
    requires
        old(store).wf(),
    ensures
        final(store).wf(),
        course_service_spec(old(store)@, final(store)@, *req, resp),
{
    match req {
        CourseRequest::GetAll => {
            match store.get_courses() {
                Ok(v) => CourseResponse { status: 200, body: CourseReply::Courses(v) },
                Err(e) => CourseResponse { status: status_of(&e), body: CourseReply::Failure(e) },
            }
        },
        CourseRequest::Get(id) => {
            match store.get_course(*id) {
                Ok(v) => CourseResponse { status: 200, body: CourseReply::View(v) },
                Err(e) => CourseResponse { status: status_of(&e), body: CourseReply::Failure(e) },
            }
        },
        CourseRequest::GetCategories(id) => {
            match store.get_categories_for_course(*id) {
                Ok(v) => CourseResponse { status: 200, body: CourseReply::Categories(v) },
                Err(e) => CourseResponse { status: status_of(&e), body: CourseReply::Failure(e) },
            }
        },
        CourseRequest::Create(cr) => {
            match store.create_course(cr) {
                Ok(c) => CourseResponse { status: 200, body: CourseReply::Course(c) },
                Err(e) => CourseResponse { status: status_of(&e), body: CourseReply::Failure(e) },
            }
        },
        CourseRequest::Update(upd) => {
            match store.update_course(upd) {
                Ok(c) => CourseResponse { status: 200, body: CourseReply::Course(c) },
                Err(e) => CourseResponse { status: status_of(&e), body: CourseReply::Failure(e) },
            }
        },
        CourseRequest::Delete(id) => {
            match store.delete_course(*id) {
                Ok(d) => CourseResponse { status: 200, body: CourseReply::Deleted(d) },
                Err(e) => CourseResponse { status: status_of(&e), body: CourseReply::Failure(e) },
            }
        },
    }
}

} // verus!
