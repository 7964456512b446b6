use vstd::prelude::*;
use vstd::slice::slice_to_vec;
use vstd::string::StringSliceAdditionalSpecFns;
use vstd::utf8::valid_utf8;

use crate::text::str_from_utf8;

verus! {

/// A point in time: seconds since the epoch and the UTC offset in minutes.
#[derive(Clone, Copy, Debug, PartialEq, Eq, Structural)]
pub struct Time {
    seconds: i64,
    offset: i32,
}

impl Time {
    pub closed spec fn spec_seconds(&self) -> i64 {
        self.seconds
    }

    pub closed spec fn spec_offset(&self) -> i32 {
        self.offset
    }

    /// A time of `seconds` since the epoch, at `offset` minutes from UTC.
    pub fn new(seconds: i64, offset: i32) -> (r: Time)
        ensures
            r.spec_seconds() == seconds,
            r.spec_offset() == offset,
    {
        Time { seconds, offset }
    }

    /// Seconds since the epoch.
    pub fn seconds(&self) -> (r: i64)
        ensures
            r == self.spec_seconds(),
    {
        self.seconds
    }

    /// Offset from UTC, in minutes.
    pub fn offset_minutes(&self) -> (r: i32)
        ensures
            r == self.spec_offset(),
    {
        self.offset
    }
}

/// The abstract content of a signature.
pub struct SignatureModel {
    pub name: Seq<u8>,
    pub email: Seq<u8>,
    pub when: Time,
}

/// An author or tagger record: name, email and time.
#[derive(Debug)]
pub struct Signature {
    name: Vec<u8>,
    email: Vec<u8>,
    when: Time,
}

impl View for Signature {
    type V = SignatureModel;

    closed spec fn view(&self) -> SignatureModel {
        SignatureModel { name: self.name@, email: self.email@, when: self.when }
    }
}

impl Signature {
    /// A signature with the given name, email and time.
    pub fn new(name: &str, email: &str, when: Time) -> (r: Signature)
        ensures
            r@.name == name.spec_bytes(),
            r@.email == email.spec_bytes(),
            r@.when == when,
    {
        Signature {
            name: slice_to_vec(name.as_bytes()),
            email: slice_to_vec(email.as_bytes()),
            when,
        }
    }

    /// A signature whose name and email are given as raw bytes.
    pub fn from_bytes(name: &[u8], email: &[u8], when: Time) -> (r: Signature)
        ensures
            r@.name == name@,
            r@.email == email@,
            r@.when == when,
    {
        Signature { name: slice_to_vec(name), email: slice_to_vec(email), when }
    }

    /// An independent copy of this signature.
    pub fn duplicate(&self) -> (r: Signature)
        ensures
            r@ == self@,
    {
        Signature {
            name: slice_to_vec(self.name.as_slice()),
            email: slice_to_vec(self.email.as_slice()),
            when: self.when,
        }
    }

    /// The name, as raw bytes.
    pub fn name_bytes(&self) -> (r: &[u8])
        ensures
            r@ == self@.name,
    {
        self.name.as_slice()
    }

    /// The name, or `None` when it is not valid UTF-8.
    pub fn name(&self) -> (r: Option<&str>)
        ensures
            r is None <==> !valid_utf8(self@.name),
            r matches Some(s) ==> s.spec_bytes() == self@.name,
    {
        str_from_utf8(self.name.as_slice())
    }

    /// The email, as raw bytes.
    pub fn email_bytes(&self) -> (r: &[u8])
        ensures
            r@ == self@.email,
    {
        self.email.as_slice()
    }

    /// The email, or `None` when it is not valid UTF-8.
    pub fn email(&self) -> (r: Option<&str>)
        ensures
            r is None <==> !valid_utf8(self@.email),
            r matches Some(s) ==> s.spec_bytes() == self@.email,
    {
        str_from_utf8(self.email.as_slice())
    }

    /// When the signature was made.
    pub fn when(&self) -> (r: Time)
        ensures
            r == self@.when,
    {
        self.when
    }
}

} // verus!
