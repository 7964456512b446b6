use vstd::prelude::*;
use vstd::slice::slice_to_vec;

use crate::error::{Error, ErrorClass, ErrorCode};
use crate::object::{kind_to_raw, Object, ObjectType};
use crate::oid::{lemma_seq_bytes_injective, lemma_seq_number_inverts, seq_bytes, Oid};
use crate::signature::{Signature, SignatureModel};
use crate::tag::Tag;
use crate::text::bytes_equal;

verus! {

/// What an annotated tag object records.
pub struct TagModel {
    /// The identifier of the tagged object.
    pub target: Oid,
    /// The native kind code of the tagged object.
    pub target_kind: i32,
    pub name: Seq<u8>,
    pub message: Option<Seq<u8>>,
    pub tagger: Option<SignatureModel>,
}

/// One object of the store.
pub struct EntryModel {
    pub id: Oid,
    pub kind: ObjectType,
    /// Whether the object is still in the store (deleted tags are not).
    pub live: bool,
    /// The tag record, for a tag object.
    pub tag: Option<TagModel>,
}

/// A tag reference: a name and the tag object it names.
pub struct RefModel {
    pub name: Seq<u8>,
    pub target: Oid,
}

/// The abstract state of a repository: its objects in order of creation,
/// and its tag references.
pub struct RepoModel {
    pub objects: Seq<EntryModel>,
    pub refs: Seq<RefModel>,
}

/// Whether an object of kind `have` answers a request for kind `want`.
pub open spec fn kind_fits(want: Option<ObjectType>, have: ObjectType) -> bool {
    match want {
        None => true,
        Some(ObjectType::Any) => true,
        Some(k) => k == have,
    }
}

/// The view of an optional borrowed signature.
pub open spec fn signature_view(s: Option<&Signature>) -> Option<SignatureModel> {
    match s {
        Some(s) => Some(s@),
        None => None,
    }
}

/// The view of optional borrowed bytes.
pub open spec fn bytes_view(b: Option<&[u8]>) -> Option<Seq<u8>> {
    match b {
        Some(b) => Some(b@),
        None => None,
    }
}

impl RepoModel {
    /// The state of a new, empty repository.
    pub open spec fn empty() -> RepoModel {
        RepoModel { objects: Seq::empty(), refs: Seq::empty() }
    }

    /// Object `i` is live and has identifier `id`.
    pub open spec fn live_at(self, i: int, id: Oid) -> bool {
        &&& 0 <= i < self.objects.len()
        &&& self.objects[i].live
        &&& self.objects[i].id == id
    }

    /// The position of the live object with identifier `id`, if there is one.
    pub open spec fn find_live(self, id: Oid) -> Option<int> {
        if exists|i: int| self.live_at(i, id) {
            Some(choose|i: int| self.live_at(i, id))
        } else {
            None
        }
    }

    /// Reference `k` has name `name`.
    pub open spec fn named_at(self, k: int, name: Seq<u8>) -> bool {
        0 <= k < self.refs.len() && self.refs[k].name == name
    }

    /// The position of the tag reference called `name`, if there is one.
    pub open spec fn find_ref(self, name: Seq<u8>) -> Option<int> {
        if exists|k: int| self.named_at(k, name) {
            Some(choose|k: int| self.named_at(k, name))
        } else {
            None
        }
    }

    /// Some object created before object `i` is the one that the tag at `i` points at,
    /// and its kind is the kind the tag records.
    pub open spec fn earlier_target(self, i: int) -> bool {
        exists|j: int|
            0 <= j < i && #[trigger] self.objects[j].id == self.objects[i].tag.unwrap().target
                && self.objects[i].tag.unwrap().target_kind == kind_to_raw(self.objects[j].kind)
    }

    /// The invariant of a repository.
    pub open spec fn wf(self) -> bool {
        &&& self.objects.len() <= u64::MAX
        &&& forall|i: int|
            0 <= i < self.objects.len() ==> (#[trigger] self.objects[i]).id.spec_bytes()
                == seq_bytes(i as u64)
        &&& forall|i: int|
            0 <= i < self.objects.len() ==> ((#[trigger] self.objects[i]).kind == ObjectType::Tag
                <==> self.objects[i].tag is Some)
        &&& forall|i: int|
            0 <= i < self.objects.len() ==> (#[trigger] self.objects[i]).kind != ObjectType::Any
        &&& forall|i: int|
            0 <= i < self.objects.len() && (#[trigger] self.objects[i]).tag is Some
                ==> self.earlier_target(i)
        &&& forall|a: int, b: int|
            0 <= a < b < self.refs.len() ==> (#[trigger] self.refs[a]).name != (#[trigger] self.refs[b]).name
    }

    /// Where peeling the tag at `i` ends: the position of the first object along
    /// its chain of targets that is not a tag, or `None` if a link is missing.
    pub open spec fn peel_at(self, i: int) -> Option<int>
        decreases i,
    {
        if 0 <= i < self.objects.len() && self.objects[i].tag is Some {
            match self.find_live(self.objects[i].tag.unwrap().target) {
                None => None,
                Some(k) => if self.objects[k].tag is None {
                    Some(k)
                } else if 0 <= k < i {
                    self.peel_at(k)
                } else {
                    None
                },
            }
        } else {
            None
        }
    }

    /// The repository after adding a new object of kind `kind` under `id`.
    pub open spec fn after_add(self, id: Oid, kind: ObjectType) -> RepoModel {
        RepoModel {
            objects: self.objects.push(EntryModel { id, kind, live: true, tag: None }),
            refs: self.refs,
        }
    }

    /// The record of a new tag called `name` on the live object `target`.
    pub open spec fn new_record(
        self,
        name: Seq<u8>,
        target: Oid,
        tagger: Option<SignatureModel>,
        message: Option<Seq<u8>>,
    ) -> TagModel {
        TagModel {
            target,
            target_kind: kind_to_raw(self.objects[self.find_live(target).unwrap()].kind),
            name,
            message,
            tagger,
        }
    }

    /// The repository after adding the tag object `rec` under `id`, with the
    /// reference of its name (new or replaced) pointing at it.
    pub open spec fn after_tag(self, id: Oid, rec: TagModel) -> RepoModel {
        RepoModel {
            objects: self.objects.push(
                EntryModel { id, kind: ObjectType::Tag, live: true, tag: Some(rec) },
            ),
            refs: match self.find_ref(rec.name) {
                Some(k) => self.refs.update(k, RefModel { name: rec.name, target: id }),
                None => self.refs.push(RefModel { name: rec.name, target: id }),
            },
        }
    }

    /// The repository after deleting reference `k` and the tag object it names.
    pub open spec fn after_delete(self, k: int) -> RepoModel {
        RepoModel {
            objects: match self.find_live(self.refs[k].target) {
                Some(j) => self.objects.update(
                    j,
                    EntryModel {
                        id: self.objects[j].id,
                        kind: self.objects[j].kind,
                        live: false,
                        tag: self.objects[j].tag,
                    },
                ),
                None => self.objects,
            },
            refs: self.refs.remove(k),
        }
    }
}

/// Two objects of a well-formed repository with one identifier are the same object.
pub proof fn lemma_ids_unique(m: RepoModel, a: int, b: int)
    requires
        m.wf(),
        0 <= a < m.objects.len(),
        0 <= b < m.objects.len(),
        m.objects[a].id == m.objects[b].id,
    ensures
        a == b,
{
    lemma_seq_bytes_injective(a as u64, b as u64);
}

/// The live object at `k` is the one that a lookup of its identifier finds.
pub proof fn lemma_find_live_at(m: RepoModel, k: int)
    requires
        m.wf(),
        0 <= k < m.objects.len(),
        m.objects[k].live,
    ensures
        m.find_live(m.objects[k].id) == Some(k),
{
    let id = m.objects[k].id;
    assert(m.live_at(k, id));
    let c = choose|i: int| m.live_at(i, id);
    lemma_ids_unique(m, c, k);
}

/// The reference at `k` is the one that a lookup of its name finds.
pub proof fn lemma_find_ref_at(m: RepoModel, k: int)
    requires
        m.wf(),
        0 <= k < m.refs.len(),
    ensures
        m.find_ref(m.refs[k].name) == Some(k),
{
    let name = m.refs[k].name;
    assert(m.named_at(k, name));
    let c = choose|i: int| m.named_at(i, name);
    if c < k {
        assert(m.refs[c].name != m.refs[k].name);
    } else if k < c {
        assert(m.refs[k].name != m.refs[c].name);
    }
}

/// A tag record as the store holds it.
pub(crate) struct TagRecord {
    target: Oid,
    target_kind: i32,
    name: Vec<u8>,
    message: Option<Vec<u8>>,
    tagger: Option<Signature>,
}

impl View for TagRecord {
    type V = TagModel;

    closed spec fn view(&self) -> TagModel {
        TagModel {
            target: self.target,
            target_kind: self.target_kind,
            name: self.name@,
            message: match self.message {
                Some(m) => Some(m@),
                None => None,
            },
            tagger: match self.tagger {
                Some(s) => Some(s@),
                None => None,
            },
        }
    }
}

impl TagRecord {
    pub(crate) fn target(&self) -> (r: Oid)
        ensures
            r == self@.target,
    {
        self.target
    }

    pub(crate) fn target_kind(&self) -> (r: i32)
        ensures
            r == self@.target_kind,
    {
        self.target_kind
    }

    pub(crate) fn name(&self) -> (r: &[u8])
        ensures
            r@ == self@.name,
    {
        self.name.as_slice()
    }

    pub(crate) fn message(&self) -> (r: Option<&[u8]>)
        ensures
            bytes_view(r) == self@.message,
    {
        match &self.message {
            Some(m) => Some(m.as_slice()),
            None => None,
        }
    }

    pub(crate) fn tagger(&self) -> (r: Option<&Signature>)
        ensures
            signature_view(r) == self@.tagger,
    {
        match &self.tagger {
            Some(s) => Some(s),
            None => None,
        }
    }
}

/// An object as the store holds it; whether it is live is kept beside it.
struct Entry {
    id: Oid,
    kind: ObjectType,
    tag: Option<TagRecord>,
}

impl Entry {
    spec fn model(&self, live: bool) -> EntryModel {
        EntryModel {
            id: self.id,
            kind: self.kind,
            live,
            tag: match self.tag {
                Some(t) => Some(t@),
                None => None,
            },
        }
    }
}

/// A tag reference as the store holds it.
struct TagRef {
    name: Vec<u8>,
    target: Oid,
}

impl TagRef {
    spec fn model(&self) -> RefModel {
        RefModel { name: self.name@, target: self.target }
    }
}

/// The contents of a repository.
struct Store {
    objects: Vec<Entry>,
    live: Vec<bool>,
    refs: Vec<TagRef>,
}

impl Store {
    spec fn view(&self) -> RepoModel {
        RepoModel {
            objects: Seq::new(
                self.objects@.len(),
                |i: int| self.objects@[i].model(self.live@[i]),
            ),
            refs: Seq::new(self.refs@.len(), |k: int| self.refs@[k].model()),
        }
    }

    spec fn inv(&self) -> bool {
        &&& self.objects@.len() == self.live@.len()
        &&& self.view().wf()
    }

    fn empty() -> (r: Store)
        ensures
            r.inv(),
            r.view() == RepoModel::empty(),
    {
        let r = Store { objects: Vec::new(), live: Vec::new(), refs: Vec::new() };
        assert(r.view().objects =~= Seq::<EntryModel>::empty());
        assert(r.view().refs =~= Seq::<RefModel>::empty());
        r
    }

    /// The position of the live object with identifier `id`.
    fn find_index(&self, id: &Oid) -> (r: Option<usize>)
        requires
            self.inv(),
        ensures
            match r {
                Some(k) => self.view().find_live(*id) == Some(k as int),
                None => self.view().find_live(*id) is None,
            },
    {
        let n = id.sequence();
        let len = self.objects.len();
        if n < len as u64 {
            let k = n as usize;
            if self.live[k] && self.objects[k].id.same_as(id) {
                proof {
                    assert(self.view().objects[k as int].id == *id);
                    lemma_find_live_at(self.view(), k as int);
                }
                return Some(k);
            }
        }
        proof {
            let m = self.view();
            assert forall|i: int| !m.live_at(i, *id) by {
                if m.live_at(i, *id) {
                    assert(m.objects[i].id.spec_bytes() == seq_bytes(i as u64));
                    lemma_seq_number_inverts(i as u64);
                }
            }
        }
        None
    }

    /// The position of the reference called `name`.
    fn find_ref(&self, name: &[u8]) -> (r: Option<usize>)
        requires
            self.inv(),
        ensures
            match r {
                Some(k) => self.view().find_ref(name@) == Some(k as int),
                None => self.view().find_ref(name@) is None,
            },
    {
        let mut k: usize = 0;
        while k < self.refs.len()
            invariant
                self.inv(),
                k <= self.refs@.len(),
                forall|j: int| 0 <= j < k ==> !self.view().named_at(j, name@),
            decreases self.refs@.len() - k,
        {
            if bytes_equal(self.refs[k].name.as_slice(), name) {
                proof {
                    lemma_find_ref_at(self.view(), k as int);
                }
                return Some(k);
            }
            k = k + 1;
        }
        None
    }

    /// Appends a non-tag object of kind `kind` and returns its new identifier.
    fn push_object(&mut self, kind: ObjectType) -> (id: Oid)
        requires
            old(self).inv(),
            kind != ObjectType::Any,
            kind != ObjectType::Tag,
        ensures
            final(self).inv(),
            final(self).view() == old(self).view().after_add(id, kind),
            id.spec_bytes() == seq_bytes(old(self).view().objects.len() as u64),
    {
        let ghost m = self.view();
        let n = self.objects.len() as u64;
        let id = Oid::from_sequence(n);
        self.objects.push(Entry { id, kind, tag: None });
        self.live.push(true);
        let _len = self.objects.len();
        proof {
            let m2 = self.view();
            assert(m2.objects =~= m.after_add(id, kind).objects);
            assert(m2.refs =~= m.refs);
            assert forall|i: int|
                0 <= i < m2.objects.len() && (#[trigger] m2.objects[i]).tag is Some implies m2.earlier_target(i) by {
                assert(m.objects[i].tag is Some);
                assert(m.earlier_target(i));
                let j = choose|j: int|
                    0 <= j < i && #[trigger] m.objects[j].id == m.objects[i].tag.unwrap().target
                        && m.objects[i].tag.unwrap().target_kind == kind_to_raw(m.objects[j].kind);
                assert(m2.objects[j] == m.objects[j]);
            }
        }
        id
    }

    /// Appends the tag object `rec` and points the reference of its name at it;
    /// `existing` is where that reference already stands, if it does.
    fn push_tag(&mut self, rec: TagRecord, existing: Option<usize>) -> (id: Oid)
        requires
            old(self).inv(),
            old(self).view().find_live(rec@.target) is Some,
            rec@.target_kind == kind_to_raw(
                old(self).view().objects[old(self).view().find_live(rec@.target).unwrap()].kind,
            ),
            match existing {
                Some(k) => old(self).view().find_ref(rec@.name) == Some(k as int),
                None => old(self).view().find_ref(rec@.name) is None,
            },
        ensures
            final(self).inv(),
            final(self).view() == old(self).view().after_tag(id, rec@),
            id.spec_bytes() == seq_bytes(old(self).view().objects.len() as u64),
    {
        let ghost m = self.view();
        let ghost r = rec@;
        let n = self.objects.len() as u64;
        let id = Oid::from_sequence(n);
        let name = slice_to_vec(rec.name.as_slice());
        self.objects.push(Entry { id, kind: ObjectType::Tag, tag: Some(rec) });
        self.live.push(true);
        let _len = self.objects.len();
        match existing {
            Some(k) => {
                self.refs[k] = TagRef { name, target: id };
            },
            None => {
                self.refs.push(TagRef { name, target: id });
            },
        }
        proof {
            let m2 = self.view();
            let after = m.after_tag(id, r);
            assert(m2.objects =~= after.objects);
            assert(m2.refs =~= after.refs);
            let t = m.find_live(r.target).unwrap();
            assert(m.live_at(t, r.target));
            assert forall|i: int|
                0 <= i < m2.objects.len() && (#[trigger] m2.objects[i]).tag is Some implies m2.earlier_target(i) by {
                if i < m.objects.len() {
                    assert(m.objects[i].tag is Some);
                    assert(m.earlier_target(i));
                    let j = choose|j: int|
                        0 <= j < i && #[trigger] m.objects[j].id == m.objects[i].tag.unwrap().target
                            && m.objects[i].tag.unwrap().target_kind == kind_to_raw(m.objects[j].kind);
                    assert(m2.objects[j] == m.objects[j]);
                } else {
                    assert(m2.objects[t] == m.objects[t]);
                }
            }
            match existing {
                Some(k) => {
                    assert forall|a: int, b: int| 0 <= a < b < m2.refs.len() implies (
                    #[trigger] m2.refs[a]).name != (#[trigger] m2.refs[b]).name by {
                        assert(m.refs[a].name != m.refs[b].name);
                    }
                },
                None => {
                    assert forall|a: int, b: int| 0 <= a < b < m2.refs.len() implies (
                    #[trigger] m2.refs[a]).name != (#[trigger] m2.refs[b]).name by {
                        if b < m.refs.len() {
                            assert(m.refs[a].name != m.refs[b].name);
                        } else {
                            assert(!m.named_at(a, r.name));
                        }
                    }
                },
            }
        }
        id
    }

    /// Removes reference `k` and marks the object at `j`, the one it names, as gone.
    fn remove_ref(&mut self, k: usize, j: Option<usize>)
        requires
            old(self).inv(),
            k < old(self).view().refs.len(),
            match j {
                Some(j) => old(self).view().find_live(old(self).view().refs[k as int].target)
                    == Some(j as int),
                None => old(self).view().find_live(old(self).view().refs[k as int].target) is None,
            },
        ensures
            final(self).inv(),
            final(self).view() == old(self).view().after_delete(k as int),
    {
        let ghost m = self.view();
        self.refs.remove(k);
        match j {
            Some(j) => {
                self.live[j] = false;
            },
            None => {},
        }
        proof {
            let m2 = self.view();
            let after = m.after_delete(k as int);
            assert(m2.objects =~= after.objects);
            assert(m2.refs =~= after.refs);
            assert forall|i: int|
                0 <= i < m2.objects.len() && (#[trigger] m2.objects[i]).tag is Some implies m2.earlier_target(i) by {
                assert(m.objects[i].tag is Some);
                assert(m.earlier_target(i));
                let w = choose|w: int|
                    0 <= w < i && #[trigger] m.objects[w].id == m.objects[i].tag.unwrap().target
                        && m.objects[i].tag.unwrap().target_kind == kind_to_raw(m.objects[w].kind);
                assert(m2.objects[w].id == m.objects[w].id);
            }
            assert forall|a: int, b: int| 0 <= a < b < m2.refs.len() implies (
            #[trigger] m2.refs[a]).name != (#[trigger] m2.refs[b]).name by {
                if b < k {
                    assert(m.refs[a].name != m.refs[b].name);
                } else if a < k {
                    assert(m.refs[a].name != m.refs[b + 1].name);
                } else {
                    assert(m.refs[a + 1].name != m.refs[b + 1].name);
                }
            }
        }
    }
}

/// A repository: an in-memory store of objects and tag references.
pub struct Repository {
    store: Store,
}

impl View for Repository {
    type V = RepoModel;

    closed spec fn view(&self) -> RepoModel {
        self.store.view()
    }
}

impl Repository {
    #[verifier::type_invariant]
    spec fn inv(self) -> bool {
        self.store.inv()
    }

    /// A new, empty repository.
    pub fn new() -> (r: Repository)
        ensures
            r@ == RepoModel::empty(),
            r@.wf(),
    {
        Repository { store: Store::empty() }
    }

    /// Records a new commit, tree or blob object and returns its identifier;
    /// any other kind fails with `InvalidSpec` and leaves the repository as it was.
    pub fn add_object(&mut self, kind: ObjectType) -> (r: Result<Oid, Error>)
        ensures
            final(self)@.wf(),
            r is Ok <==> (kind == ObjectType::Commit || kind == ObjectType::Tree || kind
                == ObjectType::Blob),
            r matches Ok(id) ==> final(self)@ == old(self)@.after_add(id, kind)
                && id.spec_bytes() == seq_bytes(old(self)@.objects.len() as u64),
            r matches Err(e) ==> e.spec_code() == ErrorCode::InvalidSpec && final(self)@ == old(
                self,
            )@,
    {
        proof {
            use_type_invariant(&*self);
        }
        if kind == ObjectType::Any || kind == ObjectType::Tag {
            return Err(
                Error::new(ErrorCode::InvalidSpec, ErrorClass::Object, "cannot add an object of this kind"),
            );
        }
        let mut s = Store::empty();
        std::mem::swap(&mut s, &mut self.store);
        let id = s.push_object(kind);
        self.store = s;
        Ok(id)
    }

    /// Looks up a live object by identifier; `kind`, unless it is `None` or `Any`,
    /// must match the object's kind. Fails with `NotFound` otherwise.
    pub fn find_object(&self, id: Oid, kind: Option<ObjectType>) -> (r: Result<Object<'_>, Error>)
        ensures
            r is Ok <==> (self@.find_live(id) matches Some(k) && kind_fits(
                kind,
                self@.objects[k].kind,
            )),
            r matches Ok(o) ==> o.store() == self@ && Some(o.position()) == self@.find_live(id)
                && o.spec_id() == id,
            r matches Err(e) ==> e.spec_code() == ErrorCode::NotFound,
    {
        proof {
            use_type_invariant(self);
        }
        match self.store.find_index(&id) {
            Some(k) => {
                let have = self.store.objects[k].kind;
                let fits = match kind {
                    None => true,
                    Some(ObjectType::Any) => true,
                    Some(want) => want == have,
                };
                if fits {
                    Ok(Object::at(self, k))
                } else {
                    Err(Error::new(ErrorCode::NotFound, ErrorClass::Object, "object kind does not match"))
                }
            },
            None => Err(Error::new(ErrorCode::NotFound, ErrorClass::Odb, "object not found")),
        }
    }

    /// Looks up a live tag object by identifier; fails with `NotFound` when there
    /// is no live object with that identifier or it is not a tag.
    pub fn find_tag(&self, id: Oid) -> (r: Result<Tag<'_>, Error>)
        ensures
            r is Ok <==> (self@.find_live(id) matches Some(k) && self@.objects[k].tag is Some),
            r matches Ok(t) ==> t.store() == self@ && Some(t.position()) == self@.find_live(id)
                && t.spec_id() == id,
            r matches Err(e) ==> e.spec_code() == ErrorCode::NotFound,
    {
        proof {
            use_type_invariant(self);
        }
        match self.store.find_index(&id) {
            Some(k) => {
                if self.store.objects[k].kind == ObjectType::Tag {
                    Ok(Tag::at(self, k))
                } else {
                    Err(Error::new(ErrorCode::NotFound, ErrorClass::Tag, "object is not a tag"))
                }
            },
            None => Err(Error::new(ErrorCode::NotFound, ErrorClass::Odb, "object not found")),
        }
    }

    /// Creates an annotated tag called `name` on the live object `target`, with an
    /// optional tagger and message, and points the tag reference `name` at it.
    /// Fails with `InvalidSpec` on an empty name, `NotFound` when the target is
    /// missing, and `Exists` when the name is taken and `force` is false; a
    /// failure leaves the repository as it was.
    pub fn tag(
        &mut self,
        name: &[u8],
        target: Oid,
        tagger: Option<&Signature>,
        message: Option<&[u8]>,
        force: bool,
    ) -> (r: Result<Oid, Error>)
        ensures
            final(self)@.wf(),
            r is Ok <==> (name@.len() > 0 && old(self)@.find_live(target) is Some && (force
                || old(self)@.find_ref(name@) is None)),
            name@.len() == 0 ==> (r matches Err(e) && e.spec_code() == ErrorCode::InvalidSpec),
            name@.len() > 0 && old(self)@.find_live(target) is None ==> (r matches Err(e)
                && e.spec_code() == ErrorCode::NotFound),
            name@.len() > 0 && old(self)@.find_live(target) is Some && !force && old(
                self,
            )@.find_ref(name@) is Some ==> (r matches Err(e) && e.spec_code()
                == ErrorCode::Exists),
            r is Err ==> final(self)@ == old(self)@,
            r matches Ok(id) ==> final(self)@ == old(self)@.after_tag(
                id,
                old(self)@.new_record(name@, target, signature_view(tagger), bytes_view(message)),
            ) && id.spec_bytes() == seq_bytes(old(self)@.objects.len() as u64),
    {
        proof {
            use_type_invariant(&*self);
        }
        if name.len() == 0 {
            return Err(Error::new(ErrorCode::InvalidSpec, ErrorClass::Tag, "tag name is empty"));
        }
        let t = match self.store.find_index(&target) {
            Some(t) => t,
            None => {
                return Err(
                    Error::new(ErrorCode::NotFound, ErrorClass::Odb, "target object not found"),
                );
            },
        };
        let existing = self.store.find_ref(name);
        if existing.is_some() && !force {
            return Err(Error::new(ErrorCode::Exists, ErrorClass::Tag, "tag already exists"));
        }
        let rec = TagRecord {
            target,
            target_kind: self.store.objects[t].kind.raw(),
            name: slice_to_vec(name),
            message: match message {
                Some(m) => Some(slice_to_vec(m)),
                None => None,
            },
            tagger: match tagger {
                Some(sig) => Some(sig.duplicate()),
                None => None,
            },
        };
        assert(rec@ == self@.new_record(name@, target, signature_view(tagger), bytes_view(message)));
        let mut s = Store::empty();
        std::mem::swap(&mut s, &mut self.store);
        let id = s.push_tag(rec, existing);
        self.store = s;
        Ok(id)
    }

    /// Deletes the tag reference `name` and the tag object it names; fails with
    /// `NotFound`, changing nothing, when there is no such reference.
    pub fn tag_delete(&mut self, name: &[u8]) -> (r: Result<(), Error>)
        ensures
            final(self)@.wf(),
            r is Ok <==> old(self)@.find_ref(name@) is Some,
            r is Ok ==> final(self)@ == old(self)@.after_delete(old(self)@.find_ref(name@).unwrap()),
            r matches Err(e) ==> e.spec_code() == ErrorCode::NotFound && final(self)@ == old(
                self,
            )@,
    {
        proof {
            use_type_invariant(&*self);
        }
        let k = match self.store.find_ref(name) {
            Some(k) => k,
            None => {
                return Err(Error::new(ErrorCode::NotFound, ErrorClass::Reference, "tag not found"));
            },
        };
        let target = self.store.refs[k].target;
        let j = self.store.find_index(&target);
        let mut s = Store::empty();
        std::mem::swap(&mut s, &mut self.store);
        s.remove_ref(k, j);
        self.store = s;
        Ok(())
    }

    /// The names of the tag references, in the order the repository keeps them.
    pub fn tag_names(&self) -> (r: Vec<&[u8]>)
        ensures
            r@.len() == self@.refs.len(),
            forall|k: int| 0 <= k < r@.len() ==> (#[trigger] r@[k])@ == self@.refs[k].name,
    {
        let mut names: Vec<&[u8]> = Vec::new();
        let mut k: usize = 0;
        while k < self.store.refs.len()
            invariant
                k <= self.store.refs@.len(),
                names@.len() == k,
                forall|i: int| 0 <= i < k ==> (#[trigger] names@[i])@ == self@.refs[i].name,
            decreases self.store.refs@.len() - k,
        {
            names.push(self.store.refs[k].name.as_slice());
            k = k + 1;
        }
        names
    }

    /// The identifier of the object at `index`.
    pub(crate) fn id_at(&self, index: usize) -> (r: Oid)
        requires
            index < self@.objects.len(),
        ensures
            r == self@.objects[index as int].id,
    {
        proof {
            use_type_invariant(self);
        }
        self.store.objects[index].id
    }

    /// The kind of the object at `index`.
    pub(crate) fn kind_at(&self, index: usize) -> (r: ObjectType)
        requires
            index < self@.objects.len(),
        ensures
            r == self@.objects[index as int].kind,
    {
        proof {
            use_type_invariant(self);
        }
        self.store.objects[index].kind
    }

    /// The record of the tag object at `index`.
    pub(crate) fn record_at(&self, index: usize) -> (r: &TagRecord)
        requires
            index < self@.objects.len(),
            self@.objects[index as int].tag is Some,
        ensures
            r@ == self@.objects[index as int].tag.unwrap(),
    {
        proof {
            use_type_invariant(self);
        }
        self.store.objects[index].tag.as_ref().unwrap()
    }

    /// The position of the live object with identifier `id`.
    pub(crate) fn position_of(&self, id: &Oid) -> (r: Option<usize>)
        ensures
            match r {
                Some(k) => self@.find_live(*id) == Some(k as int),
                None => self@.find_live(*id) is None,
            },
            self@.wf(),
    {
        proof {
            use_type_invariant(self);
        }
        self.store.find_index(id)
    }
}

} // verus!
