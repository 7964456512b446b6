use vstd::prelude::*;
use vstd::string::StringSliceAdditionalSpecFns;
use vstd::utf8::valid_utf8;

use crate::error::{Error, ErrorClass, ErrorCode};
use crate::object::{raw_to_kind, Object, ObjectType};
use crate::oid::Oid;
use crate::repo::{bytes_view, lemma_ids_unique, signature_view, RepoModel, Repository, TagModel};
use crate::signature::Signature;
use crate::text::str_from_utf8;

verus! {

/// A handle on one live annotated tag of a repository; it cannot outlive the repository.
pub struct Tag<'repo> {
    repo: &'repo Repository,
    index: usize,
}

impl<'repo> Tag<'repo> {
    #[verifier::type_invariant]
    spec fn inv(self) -> bool {
        &&& self.repo@.wf()
        &&& self.index < self.repo@.objects.len()
        &&& self.repo@.objects[self.index as int].live
        &&& self.repo@.objects[self.index as int].tag is Some
    }

    /// The state of the repository the handle refers into.
    pub closed spec fn store(&self) -> RepoModel {
        self.repo@
    }

    /// The position of the tag object in the repository.
    pub closed spec fn position(&self) -> int {
        self.index as int
    }

    /// What the tag object records.
    pub open spec fn record(&self) -> TagModel {
        self.store().objects[self.position()].tag.unwrap()
    }

    /// The identifier of the tag object.
    pub open spec fn spec_id(&self) -> Oid {
        self.store().objects[self.position()].id
    }

    /// A handle on the live tag object at `index`.
    pub(crate) fn at(repo: &'repo Repository, index: usize) -> (r: Tag<'repo>)
        requires
            repo@.wf(),
            index < repo@.objects.len(),
            repo@.objects[index as int].live,
            repo@.objects[index as int].tag is Some,
        ensures
            r.store() == repo@,
            r.position() == index,
    {
        Tag { repo, index }
    }

    /// The identifier of the tag object.
    pub fn id(&self) -> (r: Oid)
        ensures
            r == self.spec_id(),
    {
        proof {
            use_type_invariant(self);
        }
        self.repo.id_at(self.index)
    }

    /// The message of the tag, as raw bytes; `None` when the tag has none.
    pub fn message_bytes(&self) -> (r: Option<&[u8]>)
        ensures
            bytes_view(r) == self.record().message,
    {
        proof {
            use_type_invariant(self);
        }
        self.repo.record_at(self.index).message()
    }

    /// The message of the tag; `None` when it has none or it is not valid UTF-8.
    pub fn message(&self) -> (r: Option<&str>)
        ensures
            r is None <==> (self.record().message is None || !valid_utf8(
                self.record().message.unwrap(),
            )),
            r matches Some(s) ==> self.record().message == Some(s.spec_bytes()),
    {
        match self.message_bytes() {
            Some(b) => str_from_utf8(b),
            None => None,
        }
    }

    /// The name of the tag, as raw bytes; a tag always has one.
    pub fn name_bytes(&self) -> (r: &[u8])
        ensures
            r@ == self.record().name,
    {
        proof {
            use_type_invariant(self);
        }
        self.repo.record_at(self.index).name()
    }

    /// The name of the tag; `None` exactly when it is not valid UTF-8.
    pub fn name(&self) -> (r: Option<&str>)
        ensures
            r is None <==> !valid_utf8(self.record().name),
            r matches Some(s) ==> s.spec_bytes() == self.record().name,
    {
        str_from_utf8(self.name_bytes())
    }

    /// The tagger of the tag; `None` when the tag was made without one.
    pub fn tagger(&self) -> (r: Option<&Signature>)
        ensures
            signature_view(r) == self.record().tagger,
    {
        proof {
            use_type_invariant(self);
        }
        self.repo.record_at(self.index).tagger()
    }

    /// The identifier of the tagged object, as the tag records it.
    pub fn target_id(&self) -> (r: Oid)
        ensures
            r == self.record().target,
    {
        proof {
            use_type_invariant(self);
        }
        self.repo.record_at(self.index).target()
    }

    /// The kind of the tagged object; `None` when the recorded code names no kind.
    pub fn target_type(&self) -> (r: Option<ObjectType>)
        ensures
            r == raw_to_kind(self.record().target_kind),
    {
        proof {
            use_type_invariant(self);
        }
        ObjectType::from_raw(self.repo.record_at(self.index).target_kind())
    }

    /// Looks the tagged object up in the repository; fails with `NotFound`
    /// when it is no longer there.
    pub fn target(&self) -> (r: Result<Object<'repo>, Error>)
        ensures
            r is Ok <==> self.store().find_live(self.record().target) is Some,
            r matches Ok(o) ==> o.store() == self.store() && Some(o.position())
                == self.store().find_live(self.record().target) && o.spec_id()
                == self.record().target,
            r matches Err(e) ==> e.spec_code() == ErrorCode::NotFound,
    {
        proof {
            use_type_invariant(self);
        }
        let target = self.target_id();
        match self.repo.position_of(&target) {
            Some(k) => Ok(Object::at(self.repo, k)),
            None => Err(Error::new(ErrorCode::NotFound, ErrorClass::Object, "tagged object not found")),
        }
    }

    /// Follows the chain of targets, through any number of tags, to the first
    /// object that is not a tag; fails with `NotFound` when a link is missing.
    pub fn peel(&self) -> (r: Result<Object<'repo>, Error>)
        ensures
            r is Ok <==> self.store().peel_at(self.position()) is Some,
            r matches Ok(o) ==> o.store() == self.store() && Some(o.position())
                == self.store().peel_at(self.position()) && o.spec_kind() != ObjectType::Tag,
            r matches Err(e) ==> e.spec_code() == ErrorCode::NotFound,
    {
        proof {
            use_type_invariant(self);
        }
        let ghost m = self.repo@;
        let mut cur: usize = self.index;
        loop
            invariant
                m == self.repo@,
                m.wf(),
                cur < m.objects.len(),
                m.objects[cur as int].tag is Some,
                m.peel_at(cur as int) == m.peel_at(self.position()),
            decreases cur,
        {
            let target = self.repo.record_at(cur).target();
            match self.repo.position_of(&target) {
                None => {
                    return Err(
                        Error::new(ErrorCode::NotFound, ErrorClass::Object, "tagged object not found"),
                    );
                },
                Some(k) => {
                    proof {
                        let i = cur as int;
                        assert(m.earlier_target(i));
                        let j = choose|j: int|
                            0 <= j < i && #[trigger] m.objects[j].id == m.objects[i].tag.unwrap().target
                                && m.objects[i].tag.unwrap().target_kind == crate::object::kind_to_raw(
                                m.objects[j].kind,
                            );
                        assert(m.live_at(k as int, target));
                        lemma_ids_unique(m, j, k as int);
                    }
                    if self.repo.kind_at(k) == ObjectType::Tag {
                        cur = k;
                    } else {
                        return Ok(Object::at(self.repo, k));
                    }
                },
            }
        }
    }
}

} // verus!
