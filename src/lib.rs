//! Safe handles over the annotated tags of an in-memory object store.
//!
//! A [`Repository`] owns every object and tag reference; it is the arena.
//! A [`Tag`] or an [`Object`] is a handle that borrows the repository and
//! names one live object in it, so it can neither outlive the repository nor
//! see it change. Reading a tag's fields borrows from the repository; `target`
//! and `peel` look objects up afresh on every call. Each operation states its
//! result over [`repo::RepoModel`], the abstract state of the repository, and
//! [`lemmas`] proves how the operations relate.

pub mod error;
pub mod lemmas;
pub mod object;
pub mod oid;
pub mod repo;
pub mod signature;
pub mod tag;
pub mod text;

pub use error::{Error, ErrorClass, ErrorCode};
pub use object::{Object, ObjectType};
pub use oid::Oid;
pub use repo::Repository;
pub use signature::{Signature, Time};
pub use tag::Tag;
