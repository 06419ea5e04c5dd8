//! The store's errors.

use vstd::prelude::*;
use vstd::string::*;

verus! {

/// What went wrong.
#[derive(PartialEq, Eq, Structural, Debug, Clone, Copy)]
pub enum Kind {
    BucketNotFound,
    ObjectAlreadyExist,
    ObjectNotFound,
    IO,
}

/// An error, with the bucket and the object it concerns.
#[derive(Debug)]
pub struct Error {
    pub bucket: String,
    pub object: String,
    pub kind: Kind,
}

/// The message that describes an error.
pub open spec fn message_spec(kind: Kind, bucket: Seq<char>, object: Seq<char>) -> Seq<char> {
    match kind {
        Kind::BucketNotFound => "bucket "@ + bucket + " not found"@,
        Kind::ObjectAlreadyExist => "object "@ + object + " already exist in "@ + bucket + " bucket"@,
        Kind::ObjectNotFound => "object "@ + object + " is not found in "@ + bucket + " bucket"@,
        Kind::IO => "error writing object "@ + object + " into "@ + bucket + " bucket"@,
    }
}

impl Error {
    pub fn new(kind: Kind, bucket: &str, object: &str) -> (r: Error)
        ensures
            r.kind == kind,
            r.bucket@ == bucket@,
            r.object@ == object@,
    {
        Error { bucket: bucket.to_owned(), object: object.to_owned(), kind }
    }

    /// The error's description.
    pub fn message(&self) -> (r: String)
        ensures
            r@ == message_spec(self.kind, self.bucket@, self.object@),
    {
        let mut s: String;
        match self.kind {
            Kind::BucketNotFound => {
                s = String::from_str("bucket ");
                s.append(self.bucket.as_str());
                s.append(" not found");
            },
            Kind::ObjectAlreadyExist => {
                s = String::from_str("object ");
                s.append(self.object.as_str());
                s.append(" already exist in ");
                s.append(self.bucket.as_str());
                s.append(" bucket");
            },
            Kind::ObjectNotFound => {
                s = String::from_str("object ");
                s.append(self.object.as_str());
                s.append(" is not found in ");
                s.append(self.bucket.as_str());
                s.append(" bucket");
            },
            Kind::IO => {
                s = String::from_str("error writing object ");
                s.append(self.object.as_str());
                s.append(" into ");
                s.append(self.bucket.as_str());
                s.append(" bucket");
            },
        }
        s
    }
}

} // verus!
