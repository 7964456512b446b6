//! Facts relating the operations of a repository and its tag handles.
use vstd::prelude::*;

use crate::object::{kind_to_raw, ObjectType};
use crate::oid::{lemma_seq_bytes_injective, seq_bytes, Oid};
use crate::repo::{lemma_ids_unique, RepoModel};
use crate::signature::SignatureModel;

verus! {

/// A lookup by identifier finds a live object with exactly that identifier; so
/// a tag's recorded target identifier is the identifier of the object that
/// resolving the target yields.
pub proof fn lemma_lookup_agrees(m: RepoModel, id: Oid)
    requires
        m.wf(),
    ensures
        m.find_live(id) matches Some(k) ==> m.live_at(k, id),
{
}

/// Peeling a tag whose target is a live object that is not a tag yields that
/// object, in one step.
pub proof fn lemma_peel_direct(m: RepoModel, i: int)
    requires
        m.wf(),
        0 <= i < m.objects.len(),
        m.objects[i].tag is Some,
        m.find_live(m.objects[i].tag.unwrap().target) matches Some(k) && m.objects[k].tag is None,
    ensures
        m.peel_at(i) == m.find_live(m.objects[i].tag.unwrap().target),
{
}

/// Peeling a tag whose target is a live tag gives what peeling that tag gives.
pub proof fn lemma_peel_through_tag(m: RepoModel, i: int)
    requires
        m.wf(),
        0 <= i < m.objects.len(),
        m.objects[i].tag is Some,
        m.find_live(m.objects[i].tag.unwrap().target) matches Some(k) && m.objects[k].tag is Some,
    ensures
        m.peel_at(i) == m.peel_at(m.find_live(m.objects[i].tag.unwrap().target).unwrap()),
{
    let target = m.objects[i].tag.unwrap().target;
    let k = m.find_live(target).unwrap();
    assert(m.live_at(k, target));
    assert(m.earlier_target(i));
    let j = choose|j: int|
        0 <= j < i && #[trigger] m.objects[j].id == m.objects[i].tag.unwrap().target
            && m.objects[i].tag.unwrap().target_kind == kind_to_raw(m.objects[j].kind);
    lemma_ids_unique(m, j, k);
}

/// Peeling never stops on a tag: where it succeeds it lands on a live object
/// that is not a tag.
pub proof fn lemma_peel_lands_on_non_tag(m: RepoModel, i: int)
    requires
        m.wf(),
    ensures
        m.peel_at(i) matches Some(k) ==> (0 <= k < m.objects.len() && m.objects[k].live
            && m.objects[k].tag is None && m.objects[k].kind != ObjectType::Tag),
    decreases i,
{
    if 0 <= i < m.objects.len() && m.objects[i].tag is Some {
        let target = m.objects[i].tag.unwrap().target;
        if let Some(k) = m.find_live(target) {
            assert(m.live_at(k, target));
            if m.objects[k].tag is Some && 0 <= k < i {
                lemma_peel_lands_on_non_tag(m, k);
            }
        }
    }
}

/// A tag just created reads back as it was made: the lookup of its new
/// identifier finds it, and it records the given name, message, tagger and
/// target, and the kind of the target. In particular it has no tagger exactly
/// when it was made without one.
pub proof fn lemma_created_tag_reads_back(
    m: RepoModel,
    name: Seq<u8>,
    target: Oid,
    tagger: Option<SignatureModel>,
    message: Option<Seq<u8>>,
    id: Oid,
)
    requires
        m.wf(),
        m.find_live(target) is Some,
        id.spec_bytes() == seq_bytes(m.objects.len() as u64),
    ensures
        ({
            let m2 = m.after_tag(id, m.new_record(name, target, tagger, message));
            let n = m.objects.len() as int;
            &&& m2.find_live(id) == Some(n)
            &&& m2.objects[n].kind == ObjectType::Tag
            &&& m2.objects[n].tag.unwrap().name == name
            &&& m2.objects[n].tag.unwrap().message == message
            &&& m2.objects[n].tag.unwrap().target == target
            &&& m2.objects[n].tag.unwrap().target_kind == kind_to_raw(
                m.objects[m.find_live(target).unwrap()].kind,
            )
            &&& (m2.objects[n].tag.unwrap().tagger is None <==> tagger is None)
            &&& m2.objects[n].tag.unwrap().tagger == tagger
        }),
{
    let m2 = m.after_tag(id, m.new_record(name, target, tagger, message));
    let n = m.objects.len() as int;
    assert(m2.live_at(n, id));
    let c = choose|c: int| m2.live_at(c, id);
    if c != n {
        assert(m.objects[c].id.spec_bytes() == seq_bytes(c as u64));
        lemma_seq_bytes_injective(c as u64, n as u64);
    }
}

/// Once a tag reference is deleted, the tag object it named can no longer be
/// found by its identifier.
pub proof fn lemma_deleted_tag_not_found(m: RepoModel, k: int)
    requires
        m.wf(),
        0 <= k < m.refs.len(),
    ensures
        m.after_delete(k).find_live(m.refs[k].target) is None,
{
    let t = m.refs[k].target;
    let m2 = m.after_delete(k);
    if exists|i: int| m2.live_at(i, t) {
        let i = choose|i: int| m2.live_at(i, t);
        assert(m.live_at(i, t));
        let j = m.find_live(t).unwrap();
        assert(m.live_at(j, t));
        lemma_ids_unique(m, i, j);
    }
}

} // verus!
