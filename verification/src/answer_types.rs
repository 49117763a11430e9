//! The fixed payload shapes of user-facing answers.

use vstd::prelude::*;

verus! {

/// The operation went through and only a short status word is owed.
#[derive(Clone, PartialEq, Eq, Debug)]
pub struct OkInfo {
    pub ok: String,
}

impl OkInfo {
    pub fn new(msg: &str) -> (r: OkInfo)
        ensures
            r.ok@ == msg@,
    {
        OkInfo { ok: msg.to_owned() }
    }
}

/// One field of the request was wrong; names the field and the reason.
#[derive(Clone, PartialEq, Eq, Debug)]
pub struct FieldErrorInfo {
    pub field: String,
    pub reason: String,
}

impl FieldErrorInfo {
    pub fn new(field: &str, reason: &str) -> (r: FieldErrorInfo)
        ensures
            r.field@ == field@,
            r.reason@ == reason@,
    {
        FieldErrorInfo { field: field.to_owned(), reason: reason.to_owned() }
    }
}

/// Something was wrong with a photo named by the request.
#[derive(Clone, PartialEq, Eq, Debug)]
pub struct PhotoErrorInfo {
    pub photo: String,
}

impl PhotoErrorInfo {
    pub fn bad_image() -> (r: PhotoErrorInfo)
        ensures
            r.photo@ == "bad_image"@,
    {
        PhotoErrorInfo { photo: String::from_str("bad_image") }
    }

    pub fn too_big() -> (r: PhotoErrorInfo)
        ensures
            r.photo@ == "too_big"@,
    {
        PhotoErrorInfo { photo: String::from_str("too_big") }
    }

    pub fn unknown_format() -> (r: PhotoErrorInfo)
        ensures
            r.photo@ == "unknown_format"@,
    {
        PhotoErrorInfo { photo: String::from_str("unknown_format") }
    }

    pub fn not_found() -> (r: PhotoErrorInfo)
        ensures
            r.photo@ == "not_found"@,
    {
        PhotoErrorInfo { photo: String::from_str("not_found") }
    }
}

/// The requesting user may not act on the object.
#[derive(Clone, PartialEq, Eq, Debug)]
pub struct AccessErrorInfo {
    pub access: String,
}

impl AccessErrorInfo {
    pub fn new() -> (r: AccessErrorInfo)
        ensures
            r.access@ == "denied"@,
    {
        AccessErrorInfo { access: String::from_str("denied") }
    }
}

/// A bare count.
#[derive(Clone, Copy, PartialEq, Eq, Structural, Debug)]
pub struct CountInfo {
    pub count: u32,
}

impl CountInfo {
    pub fn new(count: u32) -> (r: CountInfo)
        ensures
            r.count == count,
    {
        CountInfo { count }
    }
}

} // verus!
