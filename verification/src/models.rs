//! Record shapes for the two entities.
//!
//! Each entity comes in two shapes: the full record (with the
//! server-assigned `id` and `created_at`) used for reads and updates, and a
//! creation payload (without them) used for inserts. Timestamps are plain
//! integers (seconds since the epoch), supplied by the caller's clock.

use vstd::prelude::*;

verus! {

/// An author entity: the owner side of the rustacean/crate relation.
#[derive(Debug, PartialEq, Eq)]
pub struct Rustacean {
    /// Server-assigned unique primary key; never client-settable.
    pub id: i32,
    pub name: String,
    pub email: String,
    /// Server-assigned at insert; immutable thereafter.
    pub created_at: i64,
}

/// Creation payload for a [`Rustacean`]: exactly the client-settable fields.
#[derive(Debug, PartialEq, Eq)]
pub struct NewRustacean {
    pub name: String,
    pub email: String,
}

/// A package entity, owned by exactly one rustacean at any time.
#[derive(Debug, PartialEq, Eq)]
pub struct Crate {
    /// Server-assigned unique primary key; never client-settable.
    pub id: i32,
    /// The owning rustacean's id; mutable — ownership may be reassigned.
    pub rustacean_id: i32,
    pub code: String,
    pub name: String,
    pub version: String,
    pub description: String,
    /// Server-assigned at insert; immutable thereafter.
    pub created_at: i64,
}

/// Creation payload for a [`Crate`]: exactly the client-settable fields.
#[derive(Debug, PartialEq, Eq)]
pub struct NewCrate {
    pub rustacean_id: i32,
    pub code: String,
    pub name: String,
    pub version: String,
    pub description: String,
}

impl Clone for Rustacean {
    fn clone(&self) -> (r: Self)
        ensures
            r == *self,
    {
        Rustacean {
            id: self.id,
            name: self.name.clone(),
            email: self.email.clone(),
            created_at: self.created_at,
        }
    }
}

impl Clone for NewRustacean {
    fn clone(&self) -> (r: Self)
        ensures
            r == *self,
    {
        NewRustacean { name: self.name.clone(), email: self.email.clone() }
    }
}

impl Clone for Crate {
    fn clone(&self) -> (r: Self)
        ensures
            r == *self,
    {
        Crate {
            id: self.id,
            rustacean_id: self.rustacean_id,
            code: self.code.clone(),
            name: self.name.clone(),
            version: self.version.clone(),
            description: self.description.clone(),
            created_at: self.created_at,
        }
    }
}

impl Clone for NewCrate {
    fn clone(&self) -> (r: Self)
        ensures
            r == *self,
    {
        NewCrate {
            rustacean_id: self.rustacean_id,
            code: self.code.clone(),
            name: self.name.clone(),
            version: self.version.clone(),
            description: self.description.clone(),
        }
    }
}

} // verus!
