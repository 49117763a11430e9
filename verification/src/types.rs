//! Common identifiers, users, photo records and the typed error kinds shared
//! by the whole engine.

use vstd::prelude::*;

verus! {

/// Identifier assigned by the storage layer (users, groups, photos,
/// scheduled instances all draw from this space).
pub type Id = u64;

/// Errors that abort an invocation of an event hook. Field-level problems a
/// user can correct (wrong photo owner, already voted) are not errors: they
/// come back as a bad [`crate::answer::Answer`].
#[derive(Clone, Copy, PartialEq, Eq, Structural, Debug)]
pub enum CommonError {
    /// The stored payload could not be decoded by the variant that owns it.
    /// Carries the variant id whose decode failed.
    PayloadDecode { variant: Id },
    /// No event variant is registered under this id.
    UnknownVariant { id: Id },
    /// The request body did not carry the action this variant expects.
    RequestDecode,
    /// The storage layer could not complete the operation.
    DataAccess,
}

/// Result of a hook that only has side effects.
pub type EmptyResult = Result<(), CommonError>;

/// Result of a hook that computes a value.
pub type CommonResult<T> = Result<T, CommonError>;

/// An authenticated user as the request context hands it to the engine.
pub struct User {
    pub id: Id,
    pub name: String,
    pub mail: String,
}

impl Clone for User {
    fn clone(&self) -> (r: Self)
        ensures
            r == *self,
    {
        User { id: self.id, name: self.name.clone(), mail: self.mail.clone() }
    }
}

/// Encoding of a stored photo.
#[derive(Clone, Copy, PartialEq, Eq, Structural, Debug)]
pub enum ImageType {
    Jpeg,
    Png,
}

impl ImageType {
    /// The storage code of this image type.
    pub fn to_code(&self) -> (r: &'static str)
        ensures
            r@ == self.spec_code(),
    {
        proof {
            reveal_strlit("jpg");
            reveal_strlit("png");
        }
        match self {
            ImageType::Jpeg => "jpg",
            ImageType::Png => "png",
        }
    }

    /// The image type a storage code names, if any.
    pub fn from_code(code: &str) -> (r: Option<ImageType>)
        ensures
            r == ImageType::spec_from_code(code@),
    {
        proof {
            reveal_strlit("jpg");
            reveal_strlit("png");
        }
        let code_string = code.to_owned();
        if code_string.eq(&String::from_str("jpg")) {
            Some(ImageType::Jpeg)
        } else if code_string.eq(&String::from_str("png")) {
            Some(ImageType::Png)
        } else {
            None
        }
    }

    pub open spec fn spec_code(self) -> Seq<char> {
        match self {
            ImageType::Jpeg => "jpg"@,
            ImageType::Png => "png"@,
        }
    }

    pub open spec fn spec_from_code(code: Seq<char>) -> Option<ImageType> {
        if code == "jpg"@ {
            Some(ImageType::Jpeg)
        } else if code == "png"@ {
            Some(ImageType::Png)
        } else {
            None
        }
    }
}

/// What the engine records about one photo. The storage layer owns richer
/// camera metadata; the engine only needs identity, ownership linkage and
/// display basics.
pub struct PhotoRecord {
    pub id: Id,
    pub owner_id: Id,
    pub upload_time: u64,
    pub image_type: ImageType,
    pub width: u32,
    pub height: u32,
    pub name: String,
}

impl Clone for PhotoRecord {
    fn clone(&self) -> (r: Self)
        ensures
            r == *self,
    {
        PhotoRecord {
            id: self.id,
            owner_id: self.owner_id,
            upload_time: self.upload_time,
            image_type: self.image_type,
            width: self.width,
            height: self.height,
            name: self.name.clone(),
        }
    }
}

} // verus!
