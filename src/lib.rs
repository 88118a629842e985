//! Typed access to objects in a blob store. Record types declare a bucket, a
//! key pattern with `{field}` placeholders and a payload codec; the library
//! compiles the patterns, resolves keys from records or from ordered partial
//! keys, builds the store requests and turns the store's answers into typed
//! results.

pub mod error;
pub mod key;
pub mod struct_info;
pub mod s3_object;
pub mod traits;
pub mod s3_bucket;
pub mod my_app_build;
