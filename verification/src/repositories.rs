//! The storage port: one in-memory table per entity, with the five
//! operations a REST backend needs (find, find_multiple, create, update,
//! delete).
//!
//! Each table keeps its rows in insertion order (the storage-native order
//! that listings return) and assigns ids from a strictly increasing counter,
//! so ids are unique and `created_at` / `id` are never client-settable:
//! `create` takes only the creation payload, and `update` overwrites only
//! the mutable fields of the matched row.

use vstd::prelude::*;

use crate::models::Crate;
use crate::models::NewCrate;
use crate::models::NewRustacean;
use crate::models::Rustacean;

verus! {

/// Failure of a single storage operation.
#[derive(Debug, PartialEq, Eq, Clone, Copy)]
pub enum RepositoryError {
    /// No row matches the given id.
    NotFound,
    /// The table cannot take another row: its id space is exhausted.
    StorageUnavailable,
}

/// All rows carry pairwise distinct ids.
pub open spec fn rustacean_ids_unique(rows: Seq<Rustacean>) -> bool {
    forall|i: int, j: int|
        #![trigger rows[i], rows[j]]
        0 <= i < rows.len() && 0 <= j < rows.len() && i != j ==> rows[i].id != rows[j].id
}

/// All row ids are at least 1 and below `bound` (the next id to assign).
pub open spec fn rustacean_ids_below(rows: Seq<Rustacean>, bound: int) -> bool {
    forall|i: int| #![trigger rows[i]] 0 <= i < rows.len() ==> 1 <= rows[i].id < bound
}

/// Some row carries the given id.
pub open spec fn contains_rustacean_id(rows: Seq<Rustacean>, id: i32) -> bool {
    exists|i: int| #![trigger rows[i]] 0 <= i < rows.len() && rows[i].id == id
}

/// The index of the row carrying the given id (meaningful only when
/// `contains_rustacean_id` holds; unique when ids are unique).
pub open spec fn rustacean_index_of(rows: Seq<Rustacean>, id: i32) -> int {
    choose|i: int| #![trigger rows[i]] 0 <= i < rows.len() && rows[i].id == id
}

/// What a lookup by id returns: the unique matching row, if any.
pub open spec fn spec_find_rustacean(rows: Seq<Rustacean>, id: i32) -> Option<Rustacean> {
    if contains_rustacean_id(rows, id) {
        Some(rows[rustacean_index_of(rows, id)])
    } else {
        None
    }
}

/// The record stored for a creation payload: the payload's fields plus the
/// server-assigned id and timestamp.
pub open spec fn created_rustacean(
    new_rustacean: NewRustacean,
    id: i32,
    created_at: i64,
) -> Rustacean {
    Rustacean {
        id: id,
        name: new_rustacean.name,
        email: new_rustacean.email,
        created_at: created_at,
    }
}

/// The record stored after an update: the payload's mutable fields over the
/// current row's immutable `id` and `created_at`.
pub open spec fn updated_rustacean(current: Rustacean, payload: Rustacean) -> Rustacean {
    Rustacean {
        id: current.id,
        name: payload.name,
        email: payload.email,
        created_at: current.created_at,
    }
}

/// What a capped listing returns: the first `limit` rows in storage order
/// (all rows when fewer are stored).
pub open spec fn rustacean_listing(rows: Seq<Rustacean>, limit: int) -> Seq<Rustacean> {
    if rows.len() <= limit {
        rows
    } else {
        rows.subrange(0, limit)
    }
}

/// With unique ids, a row that carries `id` at index `i` is the one and only
/// row a lookup by `id` yields.
pub proof fn lemma_rustacean_found_at(rows: Seq<Rustacean>, id: i32, i: int)
    requires
        rustacean_ids_unique(rows),
        0 <= i < rows.len(),
        rows[i].id == id,
    ensures
        contains_rustacean_id(rows, id),
        rustacean_index_of(rows, id) == i,
        spec_find_rustacean(rows, id) == Some(rows[i]),
{
    assert(contains_rustacean_id(rows, id));
    let k = rustacean_index_of(rows, id);
    assert(0 <= k < rows.len() && rows[k].id == id);
    assert(k == i);
}

/// When no row carries `id`, a lookup by `id` yields nothing.
pub proof fn lemma_rustacean_not_found(rows: Seq<Rustacean>, id: i32)
    requires
        forall|i: int| #![trigger rows[i]] 0 <= i < rows.len() ==> rows[i].id != id,
    ensures
        !contains_rustacean_id(rows, id),
        spec_find_rustacean(rows, id) is None,
{
}

/// The rustaceans table: rows in insertion order plus the next id to assign.
pub struct RustaceanRepository {
    pub rows: Vec<Rustacean>,
    pub next_id: i32,
}

impl RustaceanRepository {
    /// Table invariant: ids are unique, positive, and below the counter.
    pub open spec fn wf(&self) -> bool {
        &&& 1 <= self.next_id
        &&& rustacean_ids_unique(self.rows@)
        &&& rustacean_ids_below(self.rows@, self.next_id as int)
    }

    /// An empty table; the first assigned id is 1.
    pub fn new() -> (r: Self)
        ensures
            r.wf(),
            r.rows@.len() == 0,
            r.next_id == 1,
    {
        RustaceanRepository { rows: Vec::new(), next_id: 1 }
    }

    /// Looks the row with the given id up; fails with `NotFound` when no row
    /// matches, otherwise returns exactly that row.
    pub fn find(&self, id: i32) -> (r: Result<Rustacean, RepositoryError>)
        requires
            self.wf(),
        ensures
            r is Ok <==> contains_rustacean_id(self.rows@, id),
            r matches Ok(rec) ==> Some(rec) == spec_find_rustacean(self.rows@, id),
            r matches Err(e) ==> e == RepositoryError::NotFound,
    {
        let n = self.rows.len();
        let mut i: usize = 0;
        while i < n && self.rows[i].id != id
            invariant
                n == self.rows@.len(),
                i <= n,
                forall|j: int| #![trigger self.rows@[j]] 0 <= j < i ==> self.rows@[j].id != id,
            decreases n - i,
        {
            i = i + 1;
        }
        if i == n {
            proof {
                lemma_rustacean_not_found(self.rows@, id);
            }
            Err(RepositoryError::NotFound)
        } else {
            proof {
                lemma_rustacean_found_at(self.rows@, id, i as int);
            }
            Ok(self.rows[i].clone())
        }
    }

    /// Returns up to `limit` rows in storage order (a fixed result cap, not
    /// pagination); the cap must not be negative.
    pub fn find_multiple(&self, limit: i64) -> (r: Result<Vec<Rustacean>, RepositoryError>)
        requires
            self.wf(),
            0 <= limit,
        ensures
            r matches Ok(v) && v@ == rustacean_listing(self.rows@, limit as int),
    {
        let len = self.rows.len();
        let n: usize = if (len as u64) <= (limit as u64) {
            len
        } else {
            limit as usize
        };
        let mut v: Vec<Rustacean> = Vec::new();
        let mut i: usize = 0;
        while i < n
            invariant
                n <= self.rows@.len(),
                i <= n,
                v@ == self.rows@.subrange(0, i as int),
            decreases n - i,
        {
            v.push(self.rows[i].clone());
            proof {
                assert(v@ =~= self.rows@.subrange(0, (i + 1) as int));
            }
            i = i + 1;
        }
        proof {
            if self.rows@.len() <= limit {
                assert(self.rows@.subrange(0, n as int) =~= self.rows@);
            }
        }
        Ok(v)
    }

    /// Inserts one row: the server assigns the id and the creation
    /// timestamp, ignoring any client-supplied values for them, and returns
    /// the full stored record. Fails only when the id space is exhausted.
    pub fn create(&mut self, new_rustacean: NewRustacean, now: i64) -> (r: Result<
        Rustacean,
        RepositoryError,
    >)
        requires
            old(self).wf(),
        ensures
            final(self).wf(),
            r is Ok <==> old(self).next_id < i32::MAX,
            r matches Ok(rec) ==> ({
                &&& rec == created_rustacean(new_rustacean, old(self).next_id, now)
                &&& !contains_rustacean_id(old(self).rows@, rec.id)
                &&& final(self).rows@ == old(self).rows@.push(rec)
                &&& final(self).next_id == old(self).next_id + 1
            }),
            r matches Err(e) ==> ({
                &&& e == RepositoryError::StorageUnavailable
                &&& final(self).rows@ == old(self).rows@
                &&& final(self).next_id == old(self).next_id
            }),
    {
        if self.next_id == i32::MAX {
            return Err(RepositoryError::StorageUnavailable);
        }
        let id = self.next_id;
        self.next_id = self.next_id + 1;
        let rec = Rustacean {
            id: id,
            name: new_rustacean.name,
            email: new_rustacean.email,
            created_at: now,
        };
        let out = rec.clone();
        self.rows.push(rec);
        proof {
            let rows0 = old(self).rows@;
            let rows2 = self.rows@;
            assert forall|i: int, j: int|
                0 <= i < rows2.len() && 0 <= j < rows2.len() && i != j implies rows2[i].id
                != rows2[j].id by {
                if i < rows0.len() && j < rows0.len() {
                    assert(rows2[i] == rows0[i] && rows2[j] == rows0[j]);
                } else if i < rows0.len() {
                    assert(rows0[i].id < id);
                } else {
                    assert(rows0[j].id < id);
                }
            }
            assert(rustacean_ids_unique(rows2));
            assert(rustacean_ids_below(rows2, self.next_id as int));
        }
        Ok(out)
    }

    /// Overwrites the mutable fields (`name`, `email`) of the row matching
    /// `id` with the payload's; the row's `id` and `created_at` are kept,
    /// whatever the payload carries for them. Fails with `NotFound` when no
    /// row matches; returns the post-update record.
    pub fn update(&mut self, id: i32, rustacean: Rustacean) -> (r: Result<
        Rustacean,
        RepositoryError,
    >)
        requires
            old(self).wf(),
        ensures
            final(self).wf(),
            final(self).next_id == old(self).next_id,
            r is Ok <==> contains_rustacean_id(old(self).rows@, id),
            r matches Ok(rec) ==> ({
                let i = rustacean_index_of(old(self).rows@, id);
                &&& rec == updated_rustacean(old(self).rows@[i], rustacean)
                &&& rec.id == id
                &&& final(self).rows@ == old(self).rows@.update(i, rec)
            }),
            r matches Err(e) ==> ({
                &&& e == RepositoryError::NotFound
                &&& final(self).rows@ == old(self).rows@
            }),
    {
        let n = self.rows.len();
        let mut i: usize = 0;
        while i < n && self.rows[i].id != id
            invariant
                n == self.rows@.len(),
                i <= n,
                forall|j: int| #![trigger self.rows@[j]] 0 <= j < i ==> self.rows@[j].id != id,
            decreases n - i,
        {
            i = i + 1;
        }
        if i == n {
            proof {
                lemma_rustacean_not_found(self.rows@, id);
            }
            return Err(RepositoryError::NotFound);
        }
        proof {
            lemma_rustacean_found_at(self.rows@, id, i as int);
        }
        let current = self.rows.remove(i);
        let rec = Rustacean {
            id: current.id,
            name: rustacean.name,
            email: rustacean.email,
            created_at: current.created_at,
        };
        let out = rec.clone();
        self.rows.insert(i, rec);
        proof {
            let rows0 = old(self).rows@;
            let rows2 = self.rows@;
            assert(rows2 =~= rows0.update(i as int, rec));
            assert forall|k: int| 0 <= k < rows2.len() implies rows2[k].id == rows0[k].id by {
                if k != i {
                    assert(rows2[k] == rows0[k]);
                }
            }
            assert(rustacean_ids_unique(rows2));
            assert(rustacean_ids_below(rows2, self.next_id as int));
        }
        Ok(out)
    }

    /// Removes the row matching `id` and returns the number of rows removed
    /// (0 or 1); an absent row is not a failure — the count says what
    /// happened.
    pub fn delete(&mut self, id: i32) -> (r: Result<usize, RepositoryError>)
        requires
            old(self).wf(),
        ensures
            final(self).wf(),
            final(self).next_id == old(self).next_id,
            r matches Ok(count) && ((count == 1) <==> contains_rustacean_id(
                old(self).rows@,
                id,
            )) && count <= 1,
            contains_rustacean_id(old(self).rows@, id) ==> final(self).rows@ == old(
                self,
            ).rows@.remove(rustacean_index_of(old(self).rows@, id)),
            !contains_rustacean_id(old(self).rows@, id) ==> final(self).rows@ == old(self).rows@,
            !contains_rustacean_id(final(self).rows@, id),
    {
        let n = self.rows.len();
        let mut i: usize = 0;
        while i < n && self.rows[i].id != id
            invariant
                n == self.rows@.len(),
                i <= n,
                forall|j: int| #![trigger self.rows@[j]] 0 <= j < i ==> self.rows@[j].id != id,
            decreases n - i,
        {
            i = i + 1;
        }
        if i == n {
            proof {
                lemma_rustacean_not_found(self.rows@, id);
            }
            return Ok(0);
        }
        proof {
            lemma_rustacean_found_at(self.rows@, id, i as int);
        }
        self.rows.remove(i);
        proof {
            let rows0 = old(self).rows@;
            let rows2 = self.rows@;
            assert forall|k: int| 0 <= k < rows2.len() implies rows2[k].id != id by {
                if k < i {
                    assert(rows2[k] == rows0[k]);
                } else {
                    assert(rows2[k] == rows0[k + 1]);
                }
            }
            lemma_rustacean_not_found(rows2, id);
            assert forall|k: int, l: int|
                0 <= k < rows2.len() && 0 <= l < rows2.len() && k != l implies rows2[k].id
                != rows2[l].id by {
                let k0: int = if k < i { k } else { k + 1 };
                let l0: int = if l < i { l } else { l + 1 };
                assert(rows2[k] == rows0[k0] && rows2[l] == rows0[l0]);
            }
            assert(rustacean_ids_unique(rows2));
            assert forall|k: int| #![trigger rows2[k]] 0 <= k < rows2.len() implies 1 <= rows2[k].id
                < self.next_id by {
                let k0: int = if k < i { k } else { k + 1 };
                assert(rows2[k] == rows0[k0]);
            }
            assert(rustacean_ids_below(rows2, self.next_id as int));
        }
        Ok(1)
    }
}

/// All rows carry pairwise distinct ids.
pub open spec fn crate_ids_unique(rows: Seq<Crate>) -> bool {
    forall|i: int, j: int|
        #![trigger rows[i], rows[j]]
        0 <= i < rows.len() && 0 <= j < rows.len() && i != j ==> rows[i].id != rows[j].id
}

/// All row ids are at least 1 and below `bound` (the next id to assign).
pub open spec fn crate_ids_below(rows: Seq<Crate>, bound: int) -> bool {
    forall|i: int| #![trigger rows[i]] 0 <= i < rows.len() ==> 1 <= rows[i].id < bound
}

/// Some row carries the given id.
pub open spec fn contains_crate_id(rows: Seq<Crate>, id: i32) -> bool {
    exists|i: int| #![trigger rows[i]] 0 <= i < rows.len() && rows[i].id == id
}

/// The index of the row carrying the given id (meaningful only when
/// `contains_crate_id` holds; unique when ids are unique).
pub open spec fn crate_index_of(rows: Seq<Crate>, id: i32) -> int {
    choose|i: int| #![trigger rows[i]] 0 <= i < rows.len() && rows[i].id == id
}

/// What a lookup by id returns: the unique matching row, if any.
pub open spec fn spec_find_crate(rows: Seq<Crate>, id: i32) -> Option<Crate> {
    if contains_crate_id(rows, id) {
        Some(rows[crate_index_of(rows, id)])
    } else {
        None
    }
}

/// The record stored for a creation payload: the payload's fields plus the
/// server-assigned id and timestamp.
pub open spec fn created_crate(new_crate: NewCrate, id: i32, created_at: i64) -> Crate {
    Crate {
        id: id,
        rustacean_id: new_crate.rustacean_id,
        code: new_crate.code,
        name: new_crate.name,
        version: new_crate.version,
        description: new_crate.description,
        created_at: created_at,
    }
}

/// The record stored after an update: the payload's mutable fields —
/// `rustacean_id` among them, so ownership may be reassigned — over the
/// current row's immutable `id` and `created_at`.
pub open spec fn updated_crate(current: Crate, payload: Crate) -> Crate {
    Crate {
        id: current.id,
        rustacean_id: payload.rustacean_id,
        code: payload.code,
        name: payload.name,
        version: payload.version,
        description: payload.description,
        created_at: current.created_at,
    }
}

/// What a capped listing returns: the first `limit` rows in storage order
/// (all rows when fewer are stored).
pub open spec fn crate_listing(rows: Seq<Crate>, limit: int) -> Seq<Crate> {
    if rows.len() <= limit {
        rows
    } else {
        rows.subrange(0, limit)
    }
}

/// With unique ids, a row that carries `id` at index `i` is the one and only
/// row a lookup by `id` yields.
pub proof fn lemma_crate_found_at(rows: Seq<Crate>, id: i32, i: int)
    requires
        crate_ids_unique(rows),
        0 <= i < rows.len(),
        rows[i].id == id,
    ensures
        contains_crate_id(rows, id),
        crate_index_of(rows, id) == i,
        spec_find_crate(rows, id) == Some(rows[i]),
{
    assert(contains_crate_id(rows, id));
    let k = crate_index_of(rows, id);
    assert(0 <= k < rows.len() && rows[k].id == id);
    assert(k == i);
}

/// When no row carries `id`, a lookup by `id` yields nothing.
pub proof fn lemma_crate_not_found(rows: Seq<Crate>, id: i32)
    requires
        forall|i: int| #![trigger rows[i]] 0 <= i < rows.len() ==> rows[i].id != id,
    ensures
        !contains_crate_id(rows, id),
        spec_find_crate(rows, id) is None,
{
}

/// The crates table: rows in insertion order plus the next id to assign.
///
/// `rustacean_id` is plain data at this layer: referential integrity across
/// tables is the storage engine's concern, outside the single-table port.
pub struct CrateRepository {
    pub rows: Vec<Crate>,
    pub next_id: i32,
}

impl CrateRepository {
    /// Table invariant: ids are unique, positive, and below the counter.
    pub open spec fn wf(&self) -> bool {
        &&& 1 <= self.next_id
        &&& crate_ids_unique(self.rows@)
        &&& crate_ids_below(self.rows@, self.next_id as int)
    }

    /// An empty table; the first assigned id is 1.
    pub fn new() -> (r: Self)
        ensures
            r.wf(),
            r.rows@.len() == 0,
            r.next_id == 1,
    {
        CrateRepository { rows: Vec::new(), next_id: 1 }
    }

    /// Looks the row with the given id up; fails with `NotFound` when no row
    /// matches, otherwise returns exactly that row.
    pub fn find(&self, id: i32) -> (r: Result<Crate, RepositoryError>)
        requires
            self.wf(),
        ensures
            r is Ok <==> contains_crate_id(self.rows@, id),
            r matches Ok(rec) ==> Some(rec) == spec_find_crate(self.rows@, id),
            r matches Err(e) ==> e == RepositoryError::NotFound,
    {
        let n = self.rows.len();
        let mut i: usize = 0;
        while i < n && self.rows[i].id != id
            invariant
                n == self.rows@.len(),
                i <= n,
                forall|j: int| #![trigger self.rows@[j]] 0 <= j < i ==> self.rows@[j].id != id,
            decreases n - i,
        {
            i = i + 1;
        }
        if i == n {
            proof {
                lemma_crate_not_found(self.rows@, id);
            }
            Err(RepositoryError::NotFound)
        } else {
            proof {
                lemma_crate_found_at(self.rows@, id, i as int);
            }
            Ok(self.rows[i].clone())
        }
    }

    /// Returns up to `limit` rows in storage order (a fixed result cap, not
    /// pagination); the cap must not be negative.
    pub fn find_multiple(&self, limit: i64) -> (r: Result<Vec<Crate>, RepositoryError>)
        requires
            self.wf(),
            0 <= limit,
        ensures
            r matches Ok(v) && v@ == crate_listing(self.rows@, limit as int),
    {
        let len = self.rows.len();
        let n: usize = if (len as u64) <= (limit as u64) {
            len
        } else {
            limit as usize
        };
        let mut v: Vec<Crate> = Vec::new();
        let mut i: usize = 0;
        while i < n
            invariant
                n <= self.rows@.len(),
                i <= n,
                v@ == self.rows@.subrange(0, i as int),
            decreases n - i,
        {
            v.push(self.rows[i].clone());
            proof {
                assert(v@ =~= self.rows@.subrange(0, (i + 1) as int));
            }
            i = i + 1;
        }
        proof {
            if self.rows@.len() <= limit {
                assert(self.rows@.subrange(0, n as int) =~= self.rows@);
            }
        }
        Ok(v)
    }

    /// Inserts one row: the server assigns the id and the creation
    /// timestamp, ignoring any client-supplied values for them, and returns
    /// the full stored record. Fails only when the id space is exhausted.
    pub fn create(&mut self, new_crate: NewCrate, now: i64) -> (r: Result<Crate, RepositoryError>)
        requires
            old(self).wf(),
        ensures
            final(self).wf(),
            r is Ok <==> old(self).next_id < i32::MAX,
            r matches Ok(rec) ==> ({
                &&& rec == created_crate(new_crate, old(self).next_id, now)
                &&& !contains_crate_id(old(self).rows@, rec.id)
                &&& final(self).rows@ == old(self).rows@.push(rec)
                &&& final(self).next_id == old(self).next_id + 1
            }),
            r matches Err(e) ==> ({
                &&& e == RepositoryError::StorageUnavailable
                &&& final(self).rows@ == old(self).rows@
                &&& final(self).next_id == old(self).next_id
            }),
    {
        if self.next_id == i32::MAX {
            return Err(RepositoryError::StorageUnavailable);
        }
        let id = self.next_id;
        self.next_id = self.next_id + 1;
        let rec = Crate {
            id: id,
            rustacean_id: new_crate.rustacean_id,
            code: new_crate.code,
            name: new_crate.name,
            version: new_crate.version,
            description: new_crate.description,
            created_at: now,
        };
        let out = rec.clone();
        self.rows.push(rec);
        proof {
            let rows0 = old(self).rows@;
            let rows2 = self.rows@;
            assert forall|i: int, j: int|
                0 <= i < rows2.len() && 0 <= j < rows2.len() && i != j implies rows2[i].id
                != rows2[j].id by {
                if i < rows0.len() && j < rows0.len() {
                    assert(rows2[i] == rows0[i] && rows2[j] == rows0[j]);
                } else if i < rows0.len() {
                    assert(rows0[i].id < id);
                } else {
                    assert(rows0[j].id < id);
                }
            }
            assert(crate_ids_unique(rows2));
            assert(crate_ids_below(rows2, self.next_id as int));
        }
        Ok(out)
    }

    /// Overwrites the mutable fields (`rustacean_id`, `code`, `name`,
    /// `version`, `description`) of the row matching `id` with the
    /// payload's; the row's `id` and `created_at` are kept, whatever the
    /// payload carries for them. Fails with `NotFound` when no row matches;
    /// returns the post-update record.
    pub fn update(&mut self, id: i32, a_crate: Crate) -> (r: Result<Crate, RepositoryError>)
        requires
            old(self).wf(),
        ensures
            final(self).wf(),
            final(self).next_id == old(self).next_id,
            r is Ok <==> contains_crate_id(old(self).rows@, id),
            r matches Ok(rec) ==> ({
                let i = crate_index_of(old(self).rows@, id);
                &&& rec == updated_crate(old(self).rows@[i], a_crate)
                &&& rec.id == id
                &&& final(self).rows@ == old(self).rows@.update(i, rec)
            }),
            r matches Err(e) ==> ({
                &&& e == RepositoryError::NotFound
                &&& final(self).rows@ == old(self).rows@
            }),
    {
        let n = self.rows.len();
        let mut i: usize = 0;
        while i < n && self.rows[i].id != id
            invariant
                n == self.rows@.len(),
                i <= n,
                forall|j: int| #![trigger self.rows@[j]] 0 <= j < i ==> self.rows@[j].id != id,
            decreases n - i,
        {
            i = i + 1;
        }
        if i == n {
            proof {
                lemma_crate_not_found(self.rows@, id);
            }
            return Err(RepositoryError::NotFound);
        }
        proof {
            lemma_crate_found_at(self.rows@, id, i as int);
        }
        let current = self.rows.remove(i);
        let rec = Crate {
            id: current.id,
            rustacean_id: a_crate.rustacean_id,
            code: a_crate.code,
            name: a_crate.name,
            version: a_crate.version,
            description: a_crate.description,
            created_at: current.created_at,
        };
        let out = rec.clone();
        self.rows.insert(i, rec);
        proof {
            let rows0 = old(self).rows@;
            let rows2 = self.rows@;
            assert(rows2 =~= rows0.update(i as int, rec));
            assert forall|k: int| 0 <= k < rows2.len() implies rows2[k].id == rows0[k].id by {
                if k != i {
                    assert(rows2[k] == rows0[k]);
                }
            }
            assert(crate_ids_unique(rows2));
            assert(crate_ids_below(rows2, self.next_id as int));
        }
        Ok(out)
    }

    /// Removes the row matching `id` and returns the number of rows removed
    /// (0 or 1); an absent row is not a failure — the count says what
    /// happened.
    pub fn delete(&mut self, id: i32) -> (r: Result<usize, RepositoryError>)
        requires
            old(self).wf(),
        ensures
            final(self).wf(),
            final(self).next_id == old(self).next_id,
            r matches Ok(count) && ((count == 1) <==> contains_crate_id(old(self).rows@, id))
                && count <= 1,
            contains_crate_id(old(self).rows@, id) ==> final(self).rows@ == old(
                self,
            ).rows@.remove(crate_index_of(old(self).rows@, id)),
            !contains_crate_id(old(self).rows@, id) ==> final(self).rows@ == old(self).rows@,
            !contains_crate_id(final(self).rows@, id),
    {
        let n = self.rows.len();
        let mut i: usize = 0;
        while i < n && self.rows[i].id != id
            invariant
                n == self.rows@.len(),
                i <= n,
                forall|j: int| #![trigger self.rows@[j]] 0 <= j < i ==> self.rows@[j].id != id,
            decreases n - i,
        {
            i = i + 1;
        }
        if i == n {
            proof {
                lemma_crate_not_found(self.rows@, id);
            }
            return Ok(0);
        }
        proof {
            lemma_crate_found_at(self.rows@, id, i as int);
        }
        self.rows.remove(i);
        proof {
            let rows0 = old(self).rows@;
            let rows2 = self.rows@;
            assert forall|k: int| 0 <= k < rows2.len() implies rows2[k].id != id by {
                if k < i {
                    assert(rows2[k] == rows0[k]);
                } else {
                    assert(rows2[k] == rows0[k + 1]);
                }
            }
            lemma_crate_not_found(rows2, id);
            assert forall|k: int, l: int|
                0 <= k < rows2.len() && 0 <= l < rows2.len() && k != l implies rows2[k].id
                != rows2[l].id by {
                let k0: int = if k < i { k } else { k + 1 };
                let l0: int = if l < i { l } else { l + 1 };
                assert(rows2[k] == rows0[k0] && rows2[l] == rows0[l0]);
            }
            assert(crate_ids_unique(rows2));
            assert forall|k: int| #![trigger rows2[k]] 0 <= k < rows2.len() implies 1 <= rows2[k].id
                < self.next_id by {
                let k0: int = if k < i { k } else { k + 1 };
                assert(rows2[k] == rows0[k0]);
            }
            assert(crate_ids_below(rows2, self.next_id as int));
        }
        Ok(1)
    }
}

} // verus!
