use vstd::prelude::*;

verus! {

/// An object as read from the store: its payload and the key it was read under.
pub struct S3Object {
    pub bytes: Vec<u8>,
    pub key: String,
}

impl S3Object {
    pub fn new(bytes: Vec<u8>, key: String) -> (r: S3Object)
        ensures
            r.bytes == bytes,
            r.key == key,
    {
        S3Object { bytes, key }
    }
}

} // verus!
