//! Cross-operation guarantees of the storage port, stated over the same
//! spec-level model (`spec_find_*`, `created_*`, `updated_*`, `*_listing`)
//! that the operations' own contracts use:
//!
//! - a created record is found unchanged by a subsequent lookup;
//! - with at most 100 rows stored, every stored record appears in the
//!   listing, and deleting one record leaves every other in place;
//! - an update changes only the addressed record, and of it only the
//!   mutable fields — `id` and `created_at` stay; for crates that includes
//!   reassigning `rustacean_id`, visible to subsequent lookups;
//! - after a delete, a lookup of the deleted id finds nothing.

use vstd::prelude::*;

use crate::models::Crate;
use crate::models::NewCrate;
use crate::models::NewRustacean;
use crate::models::Rustacean;
use crate::repositories::CrateRepository;
use crate::repositories::RustaceanRepository;
use crate::repositories::contains_crate_id;
use crate::repositories::contains_rustacean_id;
use crate::repositories::crate_ids_unique;
use crate::repositories::crate_index_of;
use crate::repositories::crate_listing;
use crate::repositories::created_crate;
use crate::repositories::created_rustacean;
use crate::repositories::lemma_crate_found_at;
use crate::repositories::lemma_crate_not_found;
use crate::repositories::lemma_rustacean_found_at;
use crate::repositories::lemma_rustacean_not_found;
use crate::repositories::rustacean_ids_unique;
use crate::repositories::rustacean_index_of;
use crate::repositories::rustacean_listing;
use crate::repositories::spec_find_crate;
use crate::repositories::spec_find_rustacean;
use crate::repositories::updated_crate;
use crate::repositories::updated_rustacean;

verus! {

/// Appending a row with a fresh id keeps ids unique, and a lookup of that id
/// yields exactly the appended row.
pub proof fn lemma_rustacean_push_fresh(rows: Seq<Rustacean>, rec: Rustacean)
    requires
        rustacean_ids_unique(rows),
        !contains_rustacean_id(rows, rec.id),
    ensures
        rustacean_ids_unique(rows.push(rec)),
        spec_find_rustacean(rows.push(rec), rec.id) == Some(rec),
{
    let rows2 = rows.push(rec);
    assert forall|i: int, j: int|
        0 <= i < rows2.len() && 0 <= j < rows2.len() && i != j implies rows2[i].id
        != rows2[j].id by {
        if i < rows.len() && j < rows.len() {
            assert(rows2[i] == rows[i] && rows2[j] == rows[j]);
        } else if i < rows.len() {
            assert(rows2[i] == rows[i] && rows2[j] == rec);
        } else {
            assert(rows2[i] == rec && rows2[j] == rows[j]);
        }
    }
    assert(rustacean_ids_unique(rows2));
    assert(rows2[rows.len() as int] == rec);
    lemma_rustacean_found_at(rows2, rec.id, rows.len() as int);
}

/// Removing a row keeps the remaining ids unique.
pub proof fn lemma_rustacean_remove_keeps_unique(rows: Seq<Rustacean>, k: int)
    requires
        rustacean_ids_unique(rows),
        0 <= k < rows.len(),
    ensures
        rustacean_ids_unique(rows.remove(k)),
{
    let rows2 = rows.remove(k);
    assert forall|a: int, b: int|
        0 <= a < rows2.len() && 0 <= b < rows2.len() && a != b implies rows2[a].id
        != rows2[b].id by {
        let a0: int = if a < k {
            a
        } else {
            a + 1
        };
        let b0: int = if b < k {
            b
        } else {
            b + 1
        };
        assert(rows2[a] == rows[a0] && rows2[b] == rows[b0]);
    }
}

/// Round trip: the record `create` stores for a payload is found unchanged
/// by a subsequent lookup with its id — name and email are the payload's,
/// `created_at` is the creation instant.
pub proof fn law_rustacean_create_then_find(
    repo: RustaceanRepository,
    new_rustacean: NewRustacean,
    now: i64,
)
    requires
        repo.wf(),
        repo.next_id < i32::MAX,
    ensures
        ({
            let rec = created_rustacean(new_rustacean, repo.next_id, now);
            &&& rec.name == new_rustacean.name
            &&& rec.email == new_rustacean.email
            &&& rec.created_at == now
            &&& spec_find_rustacean(repo.rows@.push(rec), rec.id) == Some(rec)
        }),
{
    let rec = created_rustacean(new_rustacean, repo.next_id, now);
    assert(!contains_rustacean_id(repo.rows@, rec.id));
    lemma_rustacean_push_fresh(repo.rows@, rec);
}

/// Listing membership: with at most 100 rows stored, every stored record —
/// so every record created and not yet deleted — appears in the listing the
/// collection endpoint returns.
pub proof fn law_rustacean_listing_contains(repo: RustaceanRepository, i: int)
    requires
        repo.wf(),
        repo.rows@.len() <= 100,
        0 <= i < repo.rows@.len(),
    ensures
        rustacean_listing(repo.rows@, 100).contains(repo.rows@[i]),
{
    assert(rustacean_listing(repo.rows@, 100) == repo.rows@);
}

/// Deleting one record leaves every other record in place: a row carrying a
/// different id is still found, unchanged, after the delete.
pub proof fn law_rustacean_delete_keeps_others(repo: RustaceanRepository, id: i32, i: int)
    requires
        repo.wf(),
        0 <= i < repo.rows@.len(),
        repo.rows@[i].id != id,
    ensures
        ({
            let rows2 = if contains_rustacean_id(repo.rows@, id) {
                repo.rows@.remove(rustacean_index_of(repo.rows@, id))
            } else {
                repo.rows@
            };
            spec_find_rustacean(rows2, repo.rows@[i].id) == Some(repo.rows@[i])
        }),
{
    let rows = repo.rows@;
    if contains_rustacean_id(rows, id) {
        let k = rustacean_index_of(rows, id);
        assert(0 <= k < rows.len() && rows[k].id == id);
        let rows2 = rows.remove(k);
        lemma_rustacean_remove_keeps_unique(rows, k);
        let j: int = if i < k {
            i
        } else {
            i - 1
        };
        assert(rows2[j] == rows[i]);
        lemma_rustacean_found_at(rows2, rows[i].id, j);
    } else {
        lemma_rustacean_found_at(rows, rows[i].id, i);
    }
}

/// An update changes only the addressed record, and of it only the mutable
/// fields: the stored record keeps its `id` and `created_at`, takes `name`
/// and `email` from the payload, and a lookup of any other id returns what
/// it returned before.
pub proof fn law_rustacean_update_changes_only_mutable(
    repo: RustaceanRepository,
    id: i32,
    payload: Rustacean,
    other: i32,
)
    requires
        repo.wf(),
        contains_rustacean_id(repo.rows@, id),
        other != id,
    ensures
        ({
            let i = rustacean_index_of(repo.rows@, id);
            let before = repo.rows@[i];
            let rec = updated_rustacean(before, payload);
            let rows2 = repo.rows@.update(i, rec);
            &&& rec.id == before.id
            &&& rec.created_at == before.created_at
            &&& rec.name == payload.name
            &&& rec.email == payload.email
            &&& spec_find_rustacean(rows2, id) == Some(rec)
            &&& spec_find_rustacean(rows2, other) == spec_find_rustacean(repo.rows@, other)
        }),
{
    let rows = repo.rows@;
    let i = rustacean_index_of(rows, id);
    assert(0 <= i < rows.len() && rows[i].id == id);
    let rec = updated_rustacean(rows[i], payload);
    let rows2 = rows.update(i, rec);
    assert forall|k: int| #![trigger rows2[k]] 0 <= k < rows2.len() implies rows2[k].id
        == rows[k].id by {
        if k != i {
            assert(rows2[k] == rows[k]);
        }
    }
    assert forall|a: int, b: int|
        0 <= a < rows2.len() && 0 <= b < rows2.len() && a != b implies rows2[a].id
        != rows2[b].id by {
        assert(rows2[a].id == rows[a].id && rows2[b].id == rows[b].id);
    }
    assert(rustacean_ids_unique(rows2));
    lemma_rustacean_found_at(rows2, id, i);
    if contains_rustacean_id(rows, other) {
        let k = rustacean_index_of(rows, other);
        assert(0 <= k < rows.len() && rows[k].id == other);
        assert(k != i);
        assert(rows2[k] == rows[k]);
        lemma_rustacean_found_at(rows2, other, k);
        lemma_rustacean_found_at(rows, other, k);
    } else {
        assert forall|k: int| #![trigger rows2[k]] 0 <= k < rows2.len() implies rows2[k].id
            != other by {
            assert(rows2[k].id == rows[k].id);
        }
        lemma_rustacean_not_found(rows2, other);
    }
}

/// After a delete, a lookup of the deleted id finds nothing.
pub proof fn law_rustacean_delete_then_find(repo: RustaceanRepository, id: i32)
    requires
        repo.wf(),
    ensures
        ({
            let rows2 = if contains_rustacean_id(repo.rows@, id) {
                repo.rows@.remove(rustacean_index_of(repo.rows@, id))
            } else {
                repo.rows@
            };
            spec_find_rustacean(rows2, id) is None
        }),
{
    let rows = repo.rows@;
    if contains_rustacean_id(rows, id) {
        let k = rustacean_index_of(rows, id);
        assert(0 <= k < rows.len() && rows[k].id == id);
        let rows2 = rows.remove(k);
        assert forall|j: int| #![trigger rows2[j]] 0 <= j < rows2.len() implies rows2[j].id
            != id by {
            if j < k {
                assert(rows2[j] == rows[j]);
            } else {
                assert(rows2[j] == rows[j + 1]);
            }
        }
        lemma_rustacean_not_found(rows2, id);
    }
}

/// Appending a row with a fresh id keeps ids unique, and a lookup of that id
/// yields exactly the appended row.
pub proof fn lemma_crate_push_fresh(rows: Seq<Crate>, rec: Crate)
    requires
        crate_ids_unique(rows),
        !contains_crate_id(rows, rec.id),
    ensures
        crate_ids_unique(rows.push(rec)),
        spec_find_crate(rows.push(rec), rec.id) == Some(rec),
{
    let rows2 = rows.push(rec);
    assert forall|i: int, j: int|
        0 <= i < rows2.len() && 0 <= j < rows2.len() && i != j implies rows2[i].id
        != rows2[j].id by {
        if i < rows.len() && j < rows.len() {
            assert(rows2[i] == rows[i] && rows2[j] == rows[j]);
        } else if i < rows.len() {
            assert(rows2[i] == rows[i] && rows2[j] == rec);
        } else {
            assert(rows2[i] == rec && rows2[j] == rows[j]);
        }
    }
    assert(crate_ids_unique(rows2));
    assert(rows2[rows.len() as int] == rec);
    lemma_crate_found_at(rows2, rec.id, rows.len() as int);
}

/// Removing a row keeps the remaining ids unique.
pub proof fn lemma_crate_remove_keeps_unique(rows: Seq<Crate>, k: int)
    requires
        crate_ids_unique(rows),
        0 <= k < rows.len(),
    ensures
        crate_ids_unique(rows.remove(k)),
{
    let rows2 = rows.remove(k);
    assert forall|a: int, b: int|
        0 <= a < rows2.len() && 0 <= b < rows2.len() && a != b implies rows2[a].id
        != rows2[b].id by {
        let a0: int = if a < k {
            a
        } else {
            a + 1
        };
        let b0: int = if b < k {
            b
        } else {
            b + 1
        };
        assert(rows2[a] == rows[a0] && rows2[b] == rows[b0]);
    }
}

/// Round trip: the record `create` stores for a payload is found unchanged
/// by a subsequent lookup with its id — all payload fields echoed,
/// `rustacean_id` among them, `created_at` the creation instant.
pub proof fn law_crate_create_then_find(repo: CrateRepository, new_crate: NewCrate, now: i64)
    requires
        repo.wf(),
        repo.next_id < i32::MAX,
    ensures
        ({
            let rec = created_crate(new_crate, repo.next_id, now);
            &&& rec.rustacean_id == new_crate.rustacean_id
            &&& rec.code == new_crate.code
            &&& rec.name == new_crate.name
            &&& rec.version == new_crate.version
            &&& rec.description == new_crate.description
            &&& rec.created_at == now
            &&& spec_find_crate(repo.rows@.push(rec), rec.id) == Some(rec)
        }),
{
    let rec = created_crate(new_crate, repo.next_id, now);
    assert(!contains_crate_id(repo.rows@, rec.id));
    lemma_crate_push_fresh(repo.rows@, rec);
}

/// Listing membership: with at most 100 rows stored, every stored record —
/// so every record created and not yet deleted — appears in the listing the
/// collection endpoint returns.
pub proof fn law_crate_listing_contains(repo: CrateRepository, i: int)
    requires
        repo.wf(),
        repo.rows@.len() <= 100,
        0 <= i < repo.rows@.len(),
    ensures
        crate_listing(repo.rows@, 100).contains(repo.rows@[i]),
{
    assert(crate_listing(repo.rows@, 100) == repo.rows@);
}

/// An update changes only the addressed record, and of it only the mutable
/// fields: the stored record keeps its `id` and `created_at`, takes
/// `rustacean_id` — the reassigned owner — and the other mutable fields from
/// the payload, and a lookup of the updated id now reads the payload's
/// `rustacean_id`, while a lookup of any other id returns what it returned
/// before.
pub proof fn law_crate_update_reassigns_owner(
    repo: CrateRepository,
    id: i32,
    payload: Crate,
    other: i32,
)
    requires
        repo.wf(),
        contains_crate_id(repo.rows@, id),
        other != id,
    ensures
        ({
            let i = crate_index_of(repo.rows@, id);
            let before = repo.rows@[i];
            let rec = updated_crate(before, payload);
            let rows2 = repo.rows@.update(i, rec);
            &&& rec.id == before.id
            &&& rec.created_at == before.created_at
            &&& rec.rustacean_id == payload.rustacean_id
            &&& rec.code == payload.code
            &&& rec.name == payload.name
            &&& rec.version == payload.version
            &&& rec.description == payload.description
            &&& spec_find_crate(rows2, id) == Some(rec)
            &&& spec_find_crate(rows2, id).unwrap().rustacean_id == payload.rustacean_id
            &&& spec_find_crate(rows2, other) == spec_find_crate(repo.rows@, other)
        }),
{
    let rows = repo.rows@;
    let i = crate_index_of(rows, id);
    assert(0 <= i < rows.len() && rows[i].id == id);
    let rec = updated_crate(rows[i], payload);
    let rows2 = rows.update(i, rec);
    assert forall|k: int| #![trigger rows2[k]] 0 <= k < rows2.len() implies rows2[k].id
        == rows[k].id by {
        if k != i {
            assert(rows2[k] == rows[k]);
        }
    }
    assert forall|a: int, b: int|
        0 <= a < rows2.len() && 0 <= b < rows2.len() && a != b implies rows2[a].id
        != rows2[b].id by {
        assert(rows2[a].id == rows[a].id && rows2[b].id == rows[b].id);
    }
    assert(crate_ids_unique(rows2));
    lemma_crate_found_at(rows2, id, i);
    if contains_crate_id(rows, other) {
        let k = crate_index_of(rows, other);
        assert(0 <= k < rows.len() && rows[k].id == other);
        assert(k != i);
        assert(rows2[k] == rows[k]);
        lemma_crate_found_at(rows2, other, k);
        lemma_crate_found_at(rows, other, k);
    } else {
        assert forall|k: int| #![trigger rows2[k]] 0 <= k < rows2.len() implies rows2[k].id
            != other by {
            assert(rows2[k].id == rows[k].id);
        }
        lemma_crate_not_found(rows2, other);
    }
}

/// Deleting one record leaves every other record in place: a row carrying a
/// different id is still found, unchanged, after the delete.
pub proof fn law_crate_delete_keeps_others(repo: CrateRepository, id: i32, i: int)
    requires
        repo.wf(),
        0 <= i < repo.rows@.len(),
        repo.rows@[i].id != id,
    ensures
        ({
            let rows2 = if contains_crate_id(repo.rows@, id) {
                repo.rows@.remove(crate_index_of(repo.rows@, id))
            } else {
                repo.rows@
            };
            spec_find_crate(rows2, repo.rows@[i].id) == Some(repo.rows@[i])
        }),
{
    let rows = repo.rows@;
    if contains_crate_id(rows, id) {
        let k = crate_index_of(rows, id);
        assert(0 <= k < rows.len() && rows[k].id == id);
        let rows2 = rows.remove(k);
        lemma_crate_remove_keeps_unique(rows, k);
        let j: int = if i < k {
            i
        } else {
            i - 1
        };
        assert(rows2[j] == rows[i]);
        lemma_crate_found_at(rows2, rows[i].id, j);
    } else {
        lemma_crate_found_at(rows, rows[i].id, i);
    }
}

/// After a delete, a lookup of the deleted id finds nothing.
pub proof fn law_crate_delete_then_find(repo: CrateRepository, id: i32)
    requires
        repo.wf(),
    ensures
        ({
            let rows2 = if contains_crate_id(repo.rows@, id) {
                repo.rows@.remove(crate_index_of(repo.rows@, id))
            } else {
                repo.rows@
            };
            spec_find_crate(rows2, id) is None
        }),
{
    let rows = repo.rows@;
    if contains_crate_id(rows, id) {
        let k = crate_index_of(rows, id);
        assert(0 <= k < rows.len() && rows[k].id == id);
        let rows2 = rows.remove(k);
        assert forall|j: int| #![trigger rows2[j]] 0 <= j < rows2.len() implies rows2[j].id
            != id by {
            if j < k {
                assert(rows2[j] == rows[j]);
            } else {
                assert(rows2[j] == rows[j + 1]);
            }
        }
        lemma_crate_not_found(rows2, id);
    }
}

} // verus!
