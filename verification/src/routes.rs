//! The route layer: one function per REST endpoint, each making exactly one
//! storage call and fixing the HTTP status code and body for every outcome.
//!
//! The mapping, for both entities:
//!
//! - `GET    /<entity>`        → `find_multiple(100)` → 200 with the listing;
//! - `GET    /<entity>/<id>`   → `find(id)`           → 200 with the record,
//!   404 with a generic error body when no row matches;
//! - `POST   /<entity>`        → `create(payload)`    → 201 with the stored
//!   record, 500 when the storage cannot take another row;
//! - `PUT    /<entity>/<id>`   → `update(id, payload)`→ 200 with the updated
//!   record, 404 when no row matches;
//! - `DELETE /<entity>/<id>`   → `delete(id)`         → 204 with an empty
//!   body, whether or not a row was removed.
//!
//! A not-found outcome is surfaced as a distinct 404 rather than folded into
//! the generic 500; in particular, a GET for an id whose row was deleted
//! returns 404. Any other storage failure maps to 500. The error body is
//! always the generic JSON string `"Error"`.
//!
//! The caller (the HTTP shell) parses paths and bodies before calling in,
//! and supplies the current time for creations; malformed request bodies are
//! its concern and never reach this layer.

use vstd::prelude::*;

use crate::models::Crate;
use crate::models::NewCrate;
use crate::models::NewRustacean;
use crate::models::Rustacean;
use crate::repositories::CrateRepository;
use crate::repositories::RepositoryError;
use crate::repositories::RustaceanRepository;
use crate::repositories::contains_crate_id;
use crate::repositories::contains_rustacean_id;
use crate::repositories::crate_index_of;
use crate::repositories::crate_listing;
use crate::repositories::created_crate;
use crate::repositories::created_rustacean;
use crate::repositories::rustacean_index_of;
use crate::repositories::rustacean_listing;
use crate::repositories::spec_find_crate;
use crate::repositories::spec_find_rustacean;
use crate::repositories::updated_crate;
use crate::repositories::updated_rustacean;

verus! {

/// Every listing endpoint returns at most this many records.
pub const RESULT_CAP: i64 = 100;

/// What an endpoint hands back: a status code and the value to serialize.
#[derive(Debug, PartialEq, Eq)]
pub struct HttpResponse {
    pub status: u16,
    pub body: ResponseBody,
}

/// The JSON body of a response, as a typed value; the wire encoding is the
/// HTTP shell's concern.
#[derive(Debug, PartialEq, Eq)]
pub enum ResponseBody {
    /// A single rustacean record.
    RustaceanRecord(Rustacean),
    /// An array of rustacean records.
    RustaceanCollection(Vec<Rustacean>),
    /// A single crate record.
    CrateRecord(Crate),
    /// An array of crate records.
    CrateCollection(Vec<Crate>),
    /// The generic error body: a bare JSON string.
    ErrorMessage(String),
    /// No body at all (204 responses).
    Empty,
}

/// The body every failing endpoint returns: the generic string `"Error"`.
pub open spec fn is_error_body(b: ResponseBody) -> bool {
    b matches ResponseBody::ErrorMessage(m) && m@ == "Error"@
}

/// An error response with the given status and the generic body.
fn error_response(status: u16) -> (r: HttpResponse)
    ensures
        r.status == status,
        is_error_body(r.body),
{
    HttpResponse { status: status, body: ResponseBody::ErrorMessage("Error".to_owned()) }
}

/// The uniform failure mapping: a storage failure whose kind the routes do
/// not surface distinctly becomes 500 with the generic error body.
pub fn server_error() -> (r: HttpResponse)
    ensures
        r.status == 500,
        is_error_body(r.body),
{
    error_response(500)
}

/// `GET /rustaceans`: 200 with up to 100 records in storage order.
pub fn get_rustaceans(repo: &RustaceanRepository) -> (r: HttpResponse)
    requires
        repo.wf(),
    ensures
        r.status == 200,
        r.body matches ResponseBody::RustaceanCollection(v) && v@ == rustacean_listing(
            repo.rows@,
            RESULT_CAP as int,
        ),
{
    match repo.find_multiple(RESULT_CAP) {
        Ok(v) => HttpResponse { status: 200, body: ResponseBody::RustaceanCollection(v) },
        Err(_) => server_error(),
    }
}

/// `GET /rustaceans/<id>`: 200 with the record, or 404 when no row matches
/// (also after the row was deleted).
pub fn view_rustacean(repo: &RustaceanRepository, id: i32) -> (r: HttpResponse)
    requires
        repo.wf(),
    ensures
        contains_rustacean_id(repo.rows@, id) ==> ({
            &&& r.status == 200
            &&& r.body matches ResponseBody::RustaceanRecord(rec)
            &&& Some(rec) == spec_find_rustacean(repo.rows@, id)
        }),
        !contains_rustacean_id(repo.rows@, id) ==> r.status == 404 && is_error_body(r.body),
{
    match repo.find(id) {
        Ok(rec) => HttpResponse { status: 200, body: ResponseBody::RustaceanRecord(rec) },
        Err(RepositoryError::NotFound) => error_response(404),
        Err(_) => server_error(),
    }
}

/// `POST /rustaceans`: 201 with the stored record — the payload's fields
/// echoed, plus the server-assigned fresh id and creation timestamp — or 500
/// when the storage cannot take another row.
pub fn create_rustacean(
    repo: &mut RustaceanRepository,
    new_rustacean: NewRustacean,
    now: i64,
) -> (r: HttpResponse)
    requires
        old(repo).wf(),
    ensures
        final(repo).wf(),
        old(repo).next_id < i32::MAX ==> ({
            &&& r.status == 201
            &&& r.body matches ResponseBody::RustaceanRecord(rec)
            &&& rec == created_rustacean(new_rustacean, old(repo).next_id, now)
            &&& !contains_rustacean_id(old(repo).rows@, rec.id)
            &&& final(repo).rows@ == old(repo).rows@.push(rec)
            &&& final(repo).next_id == old(repo).next_id + 1
        }),
        old(repo).next_id == i32::MAX ==> ({
            &&& r.status == 500
            &&& is_error_body(r.body)
            &&& final(repo).rows@ == old(repo).rows@
            &&& final(repo).next_id == old(repo).next_id
        }),
{
    match repo.create(new_rustacean, now) {
        Ok(rec) => HttpResponse { status: 201, body: ResponseBody::RustaceanRecord(rec) },
        Err(_) => server_error(),
    }
}

/// `PUT /rustaceans/<id>`: 200 with the post-update record — the payload's
/// mutable fields over the row's unchanged `id` and `created_at` — or 404
/// when no row matches.
pub fn update_rustacean(repo: &mut RustaceanRepository, id: i32, rustacean: Rustacean) -> (r:
    HttpResponse)
    requires
        old(repo).wf(),
    ensures
        final(repo).wf(),
        final(repo).next_id == old(repo).next_id,
        contains_rustacean_id(old(repo).rows@, id) ==> ({
            let i = rustacean_index_of(old(repo).rows@, id);
            &&& r.status == 200
            &&& r.body matches ResponseBody::RustaceanRecord(rec)
            &&& rec == updated_rustacean(old(repo).rows@[i], rustacean)
            &&& rec.id == id
            &&& final(repo).rows@ == old(repo).rows@.update(i, rec)
        }),
        !contains_rustacean_id(old(repo).rows@, id) ==> ({
            &&& r.status == 404
            &&& is_error_body(r.body)
            &&& final(repo).rows@ == old(repo).rows@
        }),
{
    match repo.update(id, rustacean) {
        Ok(rec) => HttpResponse { status: 200, body: ResponseBody::RustaceanRecord(rec) },
        Err(RepositoryError::NotFound) => error_response(404),
        Err(_) => server_error(),
    }
}

/// `DELETE /rustaceans/<id>`: 204 with an empty body; the matching row, if
/// any, is gone afterwards, and no other row is touched.
pub fn delete_rustacean(repo: &mut RustaceanRepository, id: i32) -> (r: HttpResponse)
    requires
        old(repo).wf(),
    ensures
        final(repo).wf(),
        final(repo).next_id == old(repo).next_id,
        r.status == 204,
        r.body is Empty,
        contains_rustacean_id(old(repo).rows@, id) ==> final(repo).rows@ == old(
            repo,
        ).rows@.remove(rustacean_index_of(old(repo).rows@, id)),
        !contains_rustacean_id(old(repo).rows@, id) ==> final(repo).rows@ == old(repo).rows@,
        !contains_rustacean_id(final(repo).rows@, id),
{
    match repo.delete(id) {
        Ok(_) => HttpResponse { status: 204, body: ResponseBody::Empty },
        Err(_) => server_error(),
    }
}

/// `GET /crates`: 200 with up to 100 records in storage order.
pub fn get_crates(repo: &CrateRepository) -> (r: HttpResponse)
    requires
        repo.wf(),
    ensures
        r.status == 200,
        r.body matches ResponseBody::CrateCollection(v) && v@ == crate_listing(
            repo.rows@,
            RESULT_CAP as int,
        ),
{
    match repo.find_multiple(RESULT_CAP) {
        Ok(v) => HttpResponse { status: 200, body: ResponseBody::CrateCollection(v) },
        Err(_) => server_error(),
    }
}

/// `GET /crates/<id>`: 200 with the record, or 404 when no row matches
/// (also after the row was deleted).
pub fn view_crate(repo: &CrateRepository, id: i32) -> (r: HttpResponse)
    requires
        repo.wf(),
    ensures
        contains_crate_id(repo.rows@, id) ==> ({
            &&& r.status == 200
            &&& r.body matches ResponseBody::CrateRecord(rec)
            &&& Some(rec) == spec_find_crate(repo.rows@, id)
        }),
        !contains_crate_id(repo.rows@, id) ==> r.status == 404 && is_error_body(r.body),
{
    match repo.find(id) {
        Ok(rec) => HttpResponse { status: 200, body: ResponseBody::CrateRecord(rec) },
        Err(RepositoryError::NotFound) => error_response(404),
        Err(_) => server_error(),
    }
}

/// `POST /crates`: 201 with the stored record — the payload's fields echoed
/// (`rustacean_id` among them), plus the server-assigned fresh id and
/// creation timestamp — or 500 when the storage cannot take another row.
pub fn create_crate(repo: &mut CrateRepository, new_crate: NewCrate, now: i64) -> (r: HttpResponse)
    requires
        old(repo).wf(),
    ensures
        final(repo).wf(),
        old(repo).next_id < i32::MAX ==> ({
            &&& r.status == 201
            &&& r.body matches ResponseBody::CrateRecord(rec)
            &&& rec == created_crate(new_crate, old(repo).next_id, now)
            &&& !contains_crate_id(old(repo).rows@, rec.id)
            &&& final(repo).rows@ == old(repo).rows@.push(rec)
            &&& final(repo).next_id == old(repo).next_id + 1
        }),
        old(repo).next_id == i32::MAX ==> ({
            &&& r.status == 500
            &&& is_error_body(r.body)
            &&& final(repo).rows@ == old(repo).rows@
            &&& final(repo).next_id == old(repo).next_id
        }),
{
    match repo.create(new_crate, now) {
        Ok(rec) => HttpResponse { status: 201, body: ResponseBody::CrateRecord(rec) },
        Err(_) => server_error(),
    }
}

/// `PUT /crates/<id>`: 200 with the post-update record — the payload's
/// mutable fields, `rustacean_id` included, over the row's unchanged `id`
/// and `created_at` — or 404 when no row matches.
pub fn update_crate(repo: &mut CrateRepository, id: i32, a_crate: Crate) -> (r: HttpResponse)
    requires
        old(repo).wf(),
    ensures
        final(repo).wf(),
        final(repo).next_id == old(repo).next_id,
        contains_crate_id(old(repo).rows@, id) ==> ({
            let i = crate_index_of(old(repo).rows@, id);
            &&& r.status == 200
            &&& r.body matches ResponseBody::CrateRecord(rec)
            &&& rec == updated_crate(old(repo).rows@[i], a_crate)
            &&& rec.id == id
            &&& final(repo).rows@ == old(repo).rows@.update(i, rec)
        }),
        !contains_crate_id(old(repo).rows@, id) ==> ({
            &&& r.status == 404
            &&& is_error_body(r.body)
            &&& final(repo).rows@ == old(repo).rows@
        }),
{
    match repo.update(id, a_crate) {
        Ok(rec) => HttpResponse { status: 200, body: ResponseBody::CrateRecord(rec) },
        Err(RepositoryError::NotFound) => error_response(404),
        Err(_) => server_error(),
    }
}

/// `DELETE /crates/<id>`: 204 with an empty body; the matching row, if any,
/// is gone afterwards, and no other row is touched.
pub fn delete_crate(repo: &mut CrateRepository, id: i32) -> (r: HttpResponse)
    requires
        old(repo).wf(),
    ensures
        final(repo).wf(),
        final(repo).next_id == old(repo).next_id,
        r.status == 204,
        r.body is Empty,
        contains_crate_id(old(repo).rows@, id) ==> final(repo).rows@ == old(repo).rows@.remove(
            crate_index_of(old(repo).rows@, id),
        ),
        !contains_crate_id(old(repo).rows@, id) ==> final(repo).rows@ == old(repo).rows@,
        !contains_crate_id(final(repo).rows@, id),
{
    match repo.delete(id) {
        Ok(_) => HttpResponse { status: 204, body: ResponseBody::Empty },
        Err(_) => server_error(),
    }
}

} // verus!
