use git_tags::{Error, ErrorClass, ErrorCode, Object, ObjectType, Oid, Repository, Signature, Tag, Time};

fn sig() -> Signature {
    Signature::new("foo", "foo@example.com", Time::new(1234567890, 60))
}

fn repo_with_commit() -> (Repository, Oid) {
    let mut repo = Repository::new();
    let id = repo.add_object(ObjectType::Commit).unwrap();
    (repo, id)
}

#[test]
fn smoke() {
    let (mut repo, id) = repo_with_commit();
    assert!(repo.find_tag(id).is_err());

    let obj_id = repo.find_object(id, None).unwrap().id();
    let sig = sig();
    let tag_id = repo.tag(b"foo", obj_id, Some(&sig), Some(b"msg"), false).unwrap();
    let tag = repo.find_tag(tag_id).unwrap();
    assert_eq!(tag.id(), tag_id);

    let tags = repo.tag_names();
    assert_eq!(tags.len(), 1);
    assert_eq!(tags.get(0).copied(), Some(&b"foo"[..]));

    assert_eq!(tag.name(), Some("foo"));
    assert_eq!(tag.message(), Some("msg"));
    assert_eq!(tag.peel().unwrap().id(), obj_id);
    assert_eq!(tag.target_id(), obj_id);
    assert_eq!(tag.target_type(), Some(ObjectType::Commit));

    assert_eq!(tag.tagger().unwrap().name(), sig.name());
    tag.target().unwrap();

    repo.tag_delete(b"foo").unwrap();
}

#[test]
fn deleted_tag_is_not_found() {
    let (mut repo, id) = repo_with_commit();
    let tag_id = repo.tag(b"foo", id, Some(&sig()), Some(b"msg"), false).unwrap();
    repo.tag_delete(b"foo").unwrap();
    let err = repo.find_tag(tag_id).err().unwrap();
    assert_eq!(err.code(), ErrorCode::NotFound);
    assert!(repo.tag_names().is_empty());
    assert_eq!(repo.tag_delete(b"foo").err().unwrap().code(), ErrorCode::NotFound);
}

#[test]
fn commit_id_is_not_a_tag() {
    let (repo, id) = repo_with_commit();
    let err = repo.find_tag(id).err().unwrap();
    assert_eq!(err.code(), ErrorCode::NotFound);
    assert_eq!(err.raw_code(), -3);
}

#[test]
fn target_id_matches_resolved_target() {
    let (mut repo, id) = repo_with_commit();
    let blob = repo.add_object(ObjectType::Blob).unwrap();
    let tag_id = repo.tag(b"v1", blob, None, None, false).unwrap();
    let tag = repo.find_tag(tag_id).unwrap();
    let target: Object = tag.target().unwrap();
    assert_eq!(tag.target_id(), target.id());
    assert_eq!(target.id(), blob);
    assert_ne!(target.id(), id);
    assert_eq!(target.kind(), ObjectType::Blob);
    assert_eq!(tag.target_type(), Some(ObjectType::Blob));
}

#[test]
fn id_is_stable() {
    let (mut repo, id) = repo_with_commit();
    let tag_id = repo.tag(b"v1", id, None, None, false).unwrap();
    let tag = repo.find_tag(tag_id).unwrap();
    assert_eq!(tag.id(), tag.id());
    assert_eq!(tag.id(), tag_id);
}

#[test]
fn peel_follows_chain_of_tags() {
    let (mut repo, id) = repo_with_commit();
    let inner = repo.tag(b"inner", id, None, Some(b"a"), false).unwrap();
    let outer = repo.tag(b"outer", inner, None, Some(b"b"), false).unwrap();
    let outermost = repo.tag(b"outermost", outer, None, None, false).unwrap();

    let tag: Tag = repo.find_tag(outermost).unwrap();
    assert_eq!(tag.target_type(), Some(ObjectType::Tag));
    let direct = tag.target().unwrap();
    assert_eq!(direct.id(), outer);
    assert_eq!(direct.kind(), ObjectType::Tag);
    let peeled = tag.peel().unwrap();
    assert_eq!(peeled.id(), id);
    assert_eq!(peeled.kind(), ObjectType::Commit);

    let one_step = repo.find_tag(inner).unwrap().peel().unwrap();
    assert_eq!(one_step.id(), id);
}

#[test]
fn peel_fails_on_missing_link() {
    let (mut repo, id) = repo_with_commit();
    let inner = repo.tag(b"inner", id, None, None, false).unwrap();
    let outer = repo.tag(b"outer", inner, None, None, false).unwrap();
    repo.tag_delete(b"inner").unwrap();
    let tag = repo.find_tag(outer).unwrap();
    assert_eq!(tag.peel().err().unwrap().code(), ErrorCode::NotFound);
    assert_eq!(tag.target().err().unwrap().code(), ErrorCode::NotFound);
    assert_eq!(tag.target_id(), inner);
}

#[test]
fn message_absent_or_invalid() {
    let (mut repo, id) = repo_with_commit();
    let none = repo.tag(b"none", id, None, None, false).unwrap();
    let bad = repo.tag(b"bad", id, None, Some(&[0x66, 0xff, 0xfe]), false).unwrap();
    let empty = repo.tag(b"empty", id, None, Some(b""), false).unwrap();

    let t = repo.find_tag(none).unwrap();
    assert_eq!(t.message_bytes(), None);
    assert_eq!(t.message(), None);

    let t = repo.find_tag(bad).unwrap();
    assert_eq!(t.message_bytes(), Some(&[0x66u8, 0xff, 0xfe][..]));
    assert_eq!(t.message(), None);

    let t = repo.find_tag(empty).unwrap();
    assert_eq!(t.message_bytes(), Some(&b""[..]));
    assert_eq!(t.message(), Some(""));
}

#[test]
fn name_bytes_present_even_when_not_utf8() {
    let (mut repo, id) = repo_with_commit();
    let bad = repo.tag(&[0xc3, 0x28], id, None, None, false).unwrap();
    let good = repo.tag("héllo".as_bytes(), id, None, None, false).unwrap();

    let t = repo.find_tag(bad).unwrap();
    assert_eq!(t.name_bytes(), &[0xc3u8, 0x28][..]);
    assert_eq!(t.name(), None);

    let t = repo.find_tag(good).unwrap();
    assert_eq!(t.name(), Some("héllo"));
    assert_eq!(t.name_bytes(), "héllo".as_bytes());
}

#[test]
fn tagger_absent_iff_unsigned() {
    let (mut repo, id) = repo_with_commit();
    let signed = repo.tag(b"signed", id, Some(&sig()), None, false).unwrap();
    let unsigned = repo.tag(b"unsigned", id, None, None, false).unwrap();

    let t = repo.find_tag(unsigned).unwrap();
    assert!(t.tagger().is_none());

    let t = repo.find_tag(signed).unwrap();
    let who = t.tagger().unwrap();
    assert_eq!(who.name(), Some("foo"));
    assert_eq!(who.email(), Some("foo@example.com"));
    assert_eq!(who.when().seconds(), 1234567890);
    assert_eq!(who.when().offset_minutes(), 60);
}

#[test]
fn tag_creation_errors() {
    let (mut repo, id) = repo_with_commit();
    let empty = repo.tag(b"", id, None, None, false).err().unwrap();
    assert_eq!(empty.code(), ErrorCode::InvalidSpec);
    assert_eq!(empty.raw_code(), -12);

    let missing = Oid::from_bytes(&[7u8; 20]).unwrap();
    let err = repo.tag(b"x", missing, None, None, false).err().unwrap();
    assert_eq!(err.code(), ErrorCode::NotFound);

    let first = repo.tag(b"x", id, None, Some(b"one"), false).unwrap();
    let err = repo.tag(b"x", id, None, Some(b"two"), false).err().unwrap();
    assert_eq!(err.code(), ErrorCode::Exists);
    assert_eq!(err.raw_code(), -4);
    assert_eq!(repo.tag_names().len(), 1);

    let second = repo.tag(b"x", id, None, Some(b"two"), true).unwrap();
    assert_ne!(first, second);
    assert_eq!(repo.tag_names(), vec![&b"x"[..]]);
    assert_eq!(repo.find_tag(second).unwrap().message(), Some("two"));
    assert_eq!(repo.find_tag(first).unwrap().message(), Some("one"));
}

#[test]
fn add_object_kinds() {
    let mut repo = Repository::new();
    let c = repo.add_object(ObjectType::Commit).unwrap();
    let t = repo.add_object(ObjectType::Tree).unwrap();
    let b = repo.add_object(ObjectType::Blob).unwrap();
    assert_ne!(c, t);
    assert_ne!(t, b);
    assert_eq!(repo.add_object(ObjectType::Tag).err().unwrap().code(), ErrorCode::InvalidSpec);
    assert_eq!(repo.add_object(ObjectType::Any).err().unwrap().code(), ErrorCode::InvalidSpec);
    assert_eq!(repo.find_object(t, None).unwrap().kind(), ObjectType::Tree);
    assert_eq!(repo.find_object(b, Some(ObjectType::Any)).unwrap().id(), b);
    assert_eq!(repo.find_object(b, Some(ObjectType::Blob)).unwrap().id(), b);
    let err = repo.find_object(b, Some(ObjectType::Commit)).err().unwrap();
    assert_eq!(err.code(), ErrorCode::NotFound);
    assert_eq!(err.class(), ErrorClass::Object);
}

#[test]
fn object_ids_follow_creation_order() {
    let mut repo = Repository::new();
    let first = repo.add_object(ObjectType::Commit).unwrap();
    let second = repo.add_object(ObjectType::Commit).unwrap();
    let mut expected = [0u8; 20];
    assert_eq!(first.as_bytes(), &expected[..]);
    assert!(first.is_zero());
    expected[19] = 1;
    assert_eq!(second.as_bytes(), &expected[..]);
    assert!(!second.is_zero());
}

#[test]
fn oid_from_bytes() {
    let bytes: Vec<u8> = (0u8..20).collect();
    let oid = Oid::from_bytes(&bytes).unwrap();
    assert_eq!(oid.as_bytes(), &bytes[..]);
    let err = Oid::from_bytes(&bytes[..19]).err().unwrap();
    assert_eq!(err.code(), ErrorCode::GenericError);
    assert_eq!(err.class(), ErrorClass::Invalid);
    assert!(Oid::zero().is_zero());
    assert_eq!(Oid::zero(), Oid::from_bytes(&[0u8; 20]).unwrap());
}

#[test]
fn object_type_codes() {
    assert_eq!(ObjectType::from_raw(1), Some(ObjectType::Commit));
    assert_eq!(ObjectType::from_raw(2), Some(ObjectType::Tree));
    assert_eq!(ObjectType::from_raw(3), Some(ObjectType::Blob));
    assert_eq!(ObjectType::from_raw(4), Some(ObjectType::Tag));
    assert_eq!(ObjectType::from_raw(-2), Some(ObjectType::Any));
    assert_eq!(ObjectType::from_raw(-1), None);
    assert_eq!(ObjectType::from_raw(7), None);
    assert_eq!(ObjectType::Tag.raw(), 4);
    assert_eq!(ObjectType::Commit.str(), "commit");
}

#[test]
fn error_translation() {
    assert_eq!(Error::check(0, ErrorClass::Odb, "x").ok(), Some(0));
    assert_eq!(Error::check(5, ErrorClass::Odb, "x").ok(), Some(5));
    let e = Error::check(-3, ErrorClass::Odb, "missing").err().unwrap();
    assert_eq!(e.code(), ErrorCode::NotFound);
    assert_eq!(e.class(), ErrorClass::Odb);
    assert_eq!(e.message(), "missing");
    let e = Error::check(-99, ErrorClass::Os, "odd").err().unwrap();
    assert_eq!(e.code(), ErrorCode::GenericError);
    assert_eq!(e.raw_code(), -99);
    assert_eq!(ErrorCode::from_raw(-12), ErrorCode::InvalidSpec);
    assert_eq!(ErrorCode::Exists.raw(), -4);
    let e = Error::new(ErrorCode::Ambiguous, ErrorClass::Tag, "two");
    assert_eq!(e.raw_code(), -5);
    assert_eq!(e.message(), "two");
}

#[test]
fn signature_bytes() {
    let s = Signature::from_bytes(&[0xff], b"a@b", Time::new(-5, -120));
    assert_eq!(s.name(), None);
    assert_eq!(s.name_bytes(), &[0xffu8][..]);
    assert_eq!(s.email(), Some("a@b"));
    assert_eq!(s.email_bytes(), b"a@b");
    assert_eq!(s.when(), Time::new(-5, -120));
    let d = s.duplicate();
    assert_eq!(d.name_bytes(), s.name_bytes());
    assert_eq!(d.when().seconds(), -5);
}

#[test]
fn oid_order_and_hex() {
    let mut repo = Repository::new();
    let a = repo.add_object(ObjectType::Commit).unwrap();
    let b = repo.add_object(ObjectType::Commit).unwrap();
    assert!(a < b);
    assert_eq!(a.compare(&b), std::cmp::Ordering::Less);
    assert_eq!(b.compare(&a), std::cmp::Ordering::Greater);
    assert_eq!(a.compare(&a), std::cmp::Ordering::Equal);
    assert_eq!(b.to_hex(), "0000000000000000000000000000000000000001");
    let bytes: Vec<u8> = (0u8..20).map(|i| i * 13).collect();
    let c = Oid::from_bytes(&bytes).unwrap();
    assert_eq!(c.to_hex(), "000d1a2734414e5b6875828f9ca9b6c3d0ddeaf7");
    let mut high = [0u8; 20];
    high[0] = 1;
    assert!(Oid::from_bytes(&high).unwrap() > b);
}
