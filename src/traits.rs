use vstd::prelude::*;
use crate::error::Error;
use crate::key::{render, views};
use crate::s3_object::S3Object;

verus! {

/// Builds the full key of a type from its partial-key arguments, one per
/// placeholder occurrence, in order.
pub trait KeyBuilder {
    /// The literal pieces of the type's key template: the text before, between
    /// and after its placeholders, one more piece than there are placeholders.
    spec fn spec_key_pieces() -> Seq<Seq<char>>;

    fn build_key(arguments: &Vec<String>) -> (r: Result<String, Error>)
        ensures
            Self::spec_key_pieces().len() >= 1,
            r is Ok <==> arguments@.len() + 1 == Self::spec_key_pieces().len(),
            r matches Ok(key) ==> key@ == render(Self::spec_key_pieces(), views(arguments@)),
            r matches Err(e) ==> e == Error::KeyArityMismatch,
    ;
}

/// A record type that can be kept in the object store: where it lives, how
/// it is keyed, and how it turns into bytes and back.
pub trait S3Item: Sized + View {
    spec fn spec_bucket_name() -> Seq<char>;

    spec fn spec_content_type() -> Seq<char>;

    /// The key under which a record is stored.
    spec fn spec_key(r: Self::V) -> Seq<char>;

    /// The payload of a record, or `None` where it cannot be encoded.
    spec fn spec_encode(r: Self::V) -> Option<Seq<u8>>;

    /// The record stored as `bytes` under `key`, or `None` where they do not
    /// decode.
    spec fn spec_decode(bytes: Seq<u8>, key: Seq<char>) -> Option<Self::V>;

    /// The records that survive a round trip through the store.
    spec fn spec_valid(r: Self::V) -> bool;

    fn get_bucket_name() -> (r: String)
        ensures
            r@ == Self::spec_bucket_name(),
    ;

    fn get_content_type() -> (r: String)
        ensures
            r@ == Self::spec_content_type(),
    ;

    fn get_key(&self) -> (r: String)
        ensures
            r@ == Self::spec_key(self@),
    ;

    fn try_into_bytes(&self) -> (r: Result<Vec<u8>, Error>)
        ensures
            r matches Ok(b) ==> Self::spec_encode(self@) == Some(b@),
            r matches Err(e) ==> Self::spec_encode(self@) is None && e == Error::TryIntoByteError,
    ;

    fn try_from_object(object: S3Object) -> (r: Result<Self, Error>)
        ensures
            r matches Ok(x) ==> Self::spec_decode(object.bytes@, object.key@) == Some(x@),
            r matches Err(e) ==> Self::spec_decode(object.bytes@, object.key@) is None && e
                == Error::TryFromByteError,
    ;

    /// Decoding the payload of a valid record under its own key gives the
    /// record back.
    proof fn lemma_round_trip(r: Self::V)
        requires
            Self::spec_valid(r),
        ensures
            Self::spec_encode(r) matches Some(b) && Self::spec_decode(b, Self::spec_key(r)) == Some(r),
    ;
}

} // verus!
