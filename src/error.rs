use vstd::prelude::*;

verus! {

/// Why the store refused a request.
#[derive(Debug, Clone, PartialEq, Eq)]
pub enum StoreError {
    /// The object named by the key does not exist.
    NoSuchKey,
    /// Any other service or transport failure, with its diagnostic text.
    Service(String),
}

/// Errors of the typed object-store layer.
#[derive(Debug, Clone, PartialEq, Eq)]
pub enum Error {
    /// The store refused or failed a write; carries the service's diagnostic.
    PutError(StoreError),
    /// The store failed a read for a reason other than a missing key.
    GetError(StoreError),
    /// The store failed a delete.
    DeleteError(StoreError),
    /// The store could not sign a URL, or the lifetime was refused.
    PresignError(StoreError),
    /// A record could not be turned into bytes.
    TryIntoByteError,
    /// Bytes could not be turned into a record.
    TryFromByteError,
    /// The payload read from the store was empty.
    EmptyByteStream,
    /// A payload was not valid UTF-8 text.
    ByteArrayToString,
    /// The payload stream could not be read to its end.
    ByteStreamCollectionError,
    /// The number of partial-key arguments differs from the number of placeholders.
    KeyArityMismatch,
    /// A key placeholder names a field that the record does not declare.
    FieldNotFound(String),
    /// A key pattern has unbalanced or nested braces.
    MalformedKeyPattern,
}

} // verus!
