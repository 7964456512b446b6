use vstd::prelude::*;

use crate::oid::Oid;
use crate::repo::{Repository, RepoModel};

verus! {

/// The kind of an object in the store.
#[derive(Clone, Copy, Debug, PartialEq, Eq, Structural)]
pub enum ObjectType {
    /// Any kind; used only to ask for an object whatever its kind.
    Any,
    Commit,
    Tree,
    Blob,
    Tag,
}

/// The native code of each kind.
pub open spec fn kind_to_raw(k: ObjectType) -> i32 {
    match k {
        ObjectType::Any => -2i32,
        ObjectType::Commit => 1i32,
        ObjectType::Tree => 2i32,
        ObjectType::Blob => 3i32,
        ObjectType::Tag => 4i32,
    }
}

/// The kind of a native code, if it has one.
pub open spec fn raw_to_kind(raw: i32) -> Option<ObjectType> {
    if raw == -2 {
        Some(ObjectType::Any)
    } else if raw == 1 {
        Some(ObjectType::Commit)
    } else if raw == 2 {
        Some(ObjectType::Tree)
    } else if raw == 3 {
        Some(ObjectType::Blob)
    } else if raw == 4 {
        Some(ObjectType::Tag)
    } else {
        None
    }
}

impl ObjectType {
    /// The native code of this kind.
    pub fn raw(&self) -> (r: i32)
        ensures
            r == kind_to_raw(*self),
    {
        match self {
            ObjectType::Any => -2,
            ObjectType::Commit => 1,
            ObjectType::Tree => 2,
            ObjectType::Blob => 3,
            ObjectType::Tag => 4,
        }
    }

    /// The kind of a native code; `None` for a code that names no kind.
    pub fn from_raw(raw: i32) -> (r: Option<ObjectType>)
        ensures
            r == raw_to_kind(raw),
    {
        if raw == -2 {
            Some(ObjectType::Any)
        } else if raw == 1 {
            Some(ObjectType::Commit)
        } else if raw == 2 {
            Some(ObjectType::Tree)
        } else if raw == 3 {
            Some(ObjectType::Blob)
        } else if raw == 4 {
            Some(ObjectType::Tag)
        } else {
            None
        }
    }

    /// The lower-case name of the kind.
    pub fn str(&self) -> (r: &'static str)
        ensures
            *self == ObjectType::Any ==> r@ == "any"@,
            *self == ObjectType::Commit ==> r@ == "commit"@,
            *self == ObjectType::Tree ==> r@ == "tree"@,
            *self == ObjectType::Blob ==> r@ == "blob"@,
            *self == ObjectType::Tag ==> r@ == "tag"@,
    {
        match self {
            ObjectType::Any => "any",
            ObjectType::Commit => "commit",
            ObjectType::Tree => "tree",
            ObjectType::Blob => "blob",
            ObjectType::Tag => "tag",
        }
    }
}

/// A handle on one live object of a repository; it cannot outlive the repository.
pub struct Object<'repo> {
    repo: &'repo Repository,
    index: usize,
}

impl<'repo> Object<'repo> {
    #[verifier::type_invariant]
    spec fn inv(self) -> bool {
        &&& self.repo@.wf()
        &&& self.index < self.repo@.objects.len()
        &&& self.repo@.objects[self.index as int].live
    }

    /// The state of the repository the handle refers into.
    pub closed spec fn store(&self) -> RepoModel {
        self.repo@
    }

    /// The position of the object in the repository.
    pub closed spec fn position(&self) -> int {
        self.index as int
    }

    /// The identifier of the object.
    pub open spec fn spec_id(&self) -> Oid {
        self.store().objects[self.position()].id
    }

    /// The kind of the object.
    pub open spec fn spec_kind(&self) -> ObjectType {
        self.store().objects[self.position()].kind
    }

    /// A handle on the live object at `index`.
    pub(crate) fn at(repo: &'repo Repository, index: usize) -> (r: Object<'repo>)
        requires
            repo@.wf(),
            index < repo@.objects.len(),
            repo@.objects[index as int].live,
        ensures
            r.store() == repo@,
            r.position() == index,
    {
        Object { repo, index }
    }

    /// The identifier of the object.
    pub fn id(&self) -> (r: Oid)
        ensures
            r == self.spec_id(),
    {
        proof {
            use_type_invariant(self);
        }
        self.repo.id_at(self.index)
    }

    /// The kind of the object.
    pub fn kind(&self) -> (r: ObjectType)
        ensures
            r == self.spec_kind(),
    {
        proof {
            use_type_invariant(self);
        }
        self.repo.kind_at(self.index)
    }
}

} // verus!
