use vstd::prelude::*;
use crate::error::{Error, StoreError};
use crate::s3_object::S3Object;
use crate::traits::S3Item;

verus! {

/// What a fetch of an object produced.
pub enum Fetched {
    /// The whole payload was read.
    Body(Vec<u8>),
    /// The store answered, but its payload stream broke off.
    StreamFailed,
    /// The store refused the request.
    Failed(StoreError),
}

/// A write to hand to the store.
pub struct PutObject {
    pub bucket: String,
    pub key: String,
    pub body: Vec<u8>,
    pub content_type: String,
}

pub open spec fn view_result<T: View>(r: Result<T, Error>) -> Result<T::V, Error> {
    match r {
        Ok(x) => Ok(x@),
        Err(e) => Err(e),
    }
}

pub open spec fn view_maybe<T: View>(r: Result<Option<T>, Error>) -> Result<Option<T::V>, Error> {
    match r {
        Ok(Some(x)) => Ok(Some(x@)),
        Ok(None) => Ok(None),
        Err(e) => Err(e),
    }
}

/// The object read under `key`, given what the fetch produced, as bytes.
pub open spec fn spec_get_object(key: Seq<char>, fetched: Fetched) -> Result<(Seq<u8>, Seq<char>), Error> {
    match fetched {
        Fetched::Failed(e) => Err(Error::GetError(e)),
        Fetched::StreamFailed => Err(Error::ByteStreamCollectionError),
        Fetched::Body(b) => Ok((b@, key)),
    }
}

pub open spec fn view_object(r: Result<S3Object, Error>) -> Result<(Seq<u8>, Seq<char>), Error> {
    match r {
        Ok(o) => Ok((o.bytes@, o.key@)),
        Err(e) => Err(e),
    }
}

/// The record read under `key`, given what the fetch produced.
pub open spec fn spec_get<T: S3Item>(key: Seq<char>, fetched: Fetched) -> Result<T::V, Error> {
    match fetched {
        Fetched::Failed(e) => Err(Error::GetError(e)),
        Fetched::StreamFailed => Err(Error::ByteStreamCollectionError),
        Fetched::Body(b) => match T::spec_decode(b@, key) {
            Some(v) => Ok(v),
            None => Err(Error::TryFromByteError),
        },
    }
}

/// As `spec_get`, but a missing object is an answer, not an error.
pub open spec fn spec_get_maybe<T: S3Item>(key: Seq<char>, fetched: Fetched) -> Result<Option<T::V>, Error> {
    match fetched {
        Fetched::Failed(StoreError::NoSuchKey) => Ok(None),
        _ => match spec_get::<T>(key, fetched) {
            Ok(v) => Ok(Some(v)),
            Err(e) => Err(e),
        },
    }
}

/// The outcome of a delete: removing what is not there succeeds.
pub open spec fn spec_delete(sent: Result<(), StoreError>) -> Result<(), Error> {
    match sent {
        Ok(()) => Ok(()),
        Err(StoreError::NoSuchKey) => Ok(()),
        Err(e) => Err(Error::DeleteError(e)),
    }
}

/// The operations on the objects of one bucket: each builds the request for
/// the store, or turns the store's answer into a typed result.
pub struct S3Bucket {
    pub bucket_name: String,
}

impl S3Bucket {
    pub fn new(bucket_name: String) -> (r: S3Bucket)
        ensures
            r.bucket_name == bucket_name,
    {
        S3Bucket { bucket_name }
    }

    /// The bucket that holds the records of type `T`.
    pub fn for_type<T: S3Item>() -> (r: S3Bucket)
        ensures
            r.bucket_name@ == T::spec_bucket_name(),
    {
        S3Bucket { bucket_name: T::get_bucket_name() }
    }

    /// The write that stores `body` under `key` in this bucket.
    pub fn put_object(&self, key: String, body: Vec<u8>, content_type: String) -> (r: PutObject)
        ensures
            r.bucket@ == self.bucket_name@,
            r.key == key,
            r.body == body,
            r.content_type == content_type,
    {
        PutObject { bucket: self.bucket_name.clone(), key, body, content_type }
    }

    /// The write that stores `item` under its own key.
    pub fn put<T: S3Item>(&self, item: &T) -> (r: Result<PutObject, Error>)
        ensures
            r is Ok <==> T::spec_encode(item@) is Some,
            r matches Ok(req) ==> {
                &&& req.bucket@ == self.bucket_name@
                &&& req.key@ == T::spec_key(item@)
                &&& T::spec_encode(item@) == Some(req.body@)
                &&& req.content_type@ == T::spec_content_type()
            },
            r matches Err(e) ==> e == Error::TryIntoByteError,
    {
        let key = item.get_key();
        let body = item.try_into_bytes()?;
        Ok(self.put_object(key, body, T::get_content_type()))
    }

    /// The outcome of a write, given the store's answer.
    pub fn finish_put(&self, sent: Result<(), StoreError>) -> (r: Result<(), Error>)
        ensures
            r == match sent {
                Ok(()) => Ok(()),
                Err(e) => Err(Error::PutError(e)),
            },
    {
        match sent {
            Ok(()) => Ok(()),
            Err(e) => Err(Error::PutError(e)),
        }
    }

    /// The object stored under `key`, given what fetching it produced.
    pub fn get_object(&self, key: String, fetched: Fetched) -> (r: Result<S3Object, Error>)
        ensures
            view_object(r) == spec_get_object(key@, fetched),
    {
        match fetched {
            Fetched::Failed(e) => Err(Error::GetError(e)),
            Fetched::StreamFailed => Err(Error::ByteStreamCollectionError),
            Fetched::Body(bytes) => Ok(S3Object::new(bytes, key)),
        }
    }

    /// As `get_object`, but a missing object gives `Ok(None)`.
    pub fn get_object_maybe(&self, key: String, fetched: Fetched) -> (r: Result<Option<S3Object>, Error>)
        ensures
            fetched == Fetched::Failed(StoreError::NoSuchKey) ==> r matches Ok(None),
            fetched != Fetched::Failed(StoreError::NoSuchKey) ==> match r {
                Ok(Some(o)) => spec_get_object(key@, fetched) == Ok::<(Seq<u8>, Seq<char>), Error>((o.bytes@, o.key@)),
                Ok(None) => false,
                Err(e) => spec_get_object(key@, fetched) == Err::<(Seq<u8>, Seq<char>), Error>(e),
            },
    {
        match fetched {
            Fetched::Failed(StoreError::NoSuchKey) => Ok(None),
            other => match self.get_object(key, other) {
                Ok(o) => Ok(Some(o)),
                Err(e) => Err(e),
            },
        }
    }

    /// The record stored under `key`, given what fetching it produced.
    pub fn get<T: S3Item>(&self, key: String, fetched: Fetched) -> (r: Result<T, Error>)
        ensures
            view_result(r) == spec_get::<T>(key@, fetched),
    {
        match self.get_object(key, fetched) {
            Ok(object) => T::try_from_object(object),
            Err(e) => Err(e),
        }
    }

    /// As `get`, but a missing object gives `Ok(None)`.
    pub fn get_maybe<T: S3Item>(&self, key: String, fetched: Fetched) -> (r: Result<Option<T>, Error>)
        ensures
            view_maybe(r) == spec_get_maybe::<T>(key@, fetched),
    {
        match self.get_object_maybe(key, fetched) {
            Ok(Some(object)) => match T::try_from_object(object) {
                Ok(x) => Ok(Some(x)),
                Err(e) => Err(e),
            },
            Ok(None) => Ok(None),
            Err(e) => Err(e),
        }
    }

    /// The outcome of a delete, given the store's answer.
    pub fn delete(&self, sent: Result<(), StoreError>) -> (r: Result<(), Error>)
        ensures
            r == spec_delete(sent),
    {
        match sent {
            Ok(()) => Ok(()),
            Err(StoreError::NoSuchKey) => Ok(()),
            Err(e) => Err(Error::DeleteError(e)),
        }
    }

    /// The presigned URL, given the store's answer to the signing request.
    pub fn generate_presigned_url(&self, signed: Result<String, StoreError>) -> (r: Result<String, Error>)
        ensures
            r == match signed {
                Ok(url) => Ok(url),
                Err(e) => Err(Error::PresignError(e)),
            },
    {
        match signed {
            Ok(url) => Ok(url),
            Err(e) => Err(Error::PresignError(e)),
        }
    }
}

/// A missing object reads as `None` through `get_maybe`, as an error through
/// `get`, and deleting it succeeds.
pub proof fn missing_object_semantics<T: S3Item>(key: Seq<char>)
    ensures
        spec_get_maybe::<T>(key, Fetched::Failed(StoreError::NoSuchKey)) == Ok::<Option<T::V>, Error>(None),
        spec_get::<T>(key, Fetched::Failed(StoreError::NoSuchKey)) is Err,
        spec_delete(Err(StoreError::NoSuchKey)) == Ok::<(), Error>(()),
{
}

/// Once a key is gone, whether the store reports the delete as done or the
/// key as missing, a further delete of it succeeds.
pub proof fn repeated_delete_succeeds(second: Result<(), StoreError>)
    requires
        second is Ok || second == Err::<(), StoreError>(StoreError::NoSuchKey),
    ensures
        spec_delete(second) == Ok::<(), Error>(()),
{
}

/// A valid record, stored under its own key and fetched back whole, reads as
/// itself through `get` and `get_maybe`.
pub proof fn stored_record_reads_back<T: S3Item>(r: T::V, fetched: Fetched)
    requires
        T::spec_valid(r),
        fetched matches Fetched::Body(b) && T::spec_encode(r) == Some(b@),
    ensures
        spec_get::<T>(T::spec_key(r), fetched) == Ok::<T::V, Error>(r),
        spec_get_maybe::<T>(T::spec_key(r), fetched) == Ok::<Option<T::V>, Error>(Some(r)),
{
    T::lemma_round_trip(r);
}

} // verus!
