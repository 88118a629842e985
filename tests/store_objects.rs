use s3_bucket::error::{Error, StoreError};
use s3_bucket::my_app_build::{File, MyAppBuild, TargetArch, TargetOs};
use s3_bucket::s3_bucket::{Fetched, S3Bucket};
use s3_bucket::traits::S3Item;

fn text(s: &str) -> String {
    s.to_string()
}

fn sample(file: File) -> MyAppBuild {
    MyAppBuild {
        target_os: TargetOs::Windows,
        target_arch: TargetArch::X86_64,
        version: text("0.1.0"),
        name: text("my-app.exe"),
        file,
    }
}

const KEY: &str = "my-app-builds/Windows/X86_64/0.1.0/my-app.exe";

#[test]
fn put_builds_the_write_request() {
    let bucket = S3Bucket::new(text("myBucketName"));
    let req = bucket.put(&sample(File::FileContent(vec![1, 2, 3]))).unwrap();
    assert_eq!(req.bucket, text("myBucketName"));
    assert_eq!(req.key, text(KEY));
    assert_eq!(req.body, vec![1, 2, 3]);
    assert_eq!(req.content_type, text("application/octet-stream"));
}

#[test]
fn put_of_unread_file_fails_to_encode() {
    let bucket = S3Bucket::new(text("b"));
    let r = bucket.put(&sample(File::FilePath(text("/tmp/app.exe"))));
    assert_eq!(r.err(), Some(Error::TryIntoByteError));
}

#[test]
fn finish_put_maps_store_failure() {
    let bucket = S3Bucket::new(text("b"));
    assert_eq!(bucket.finish_put(Ok(())), Ok(()));
    let failure = StoreError::Service(text("denied"));
    assert_eq!(bucket.finish_put(Err(failure.clone())), Err(Error::PutError(failure)));
}

#[test]
fn stored_build_reads_back() {
    let bucket = S3Bucket::new(text("b"));
    let stored = sample(File::FileContent(vec![9, 8, 7]));
    let req = bucket.put(&stored).unwrap();
    let read: MyAppBuild = bucket.get(req.key.clone(), Fetched::Body(req.body.clone())).unwrap();
    assert_eq!(read.target_os, stored.target_os);
    assert_eq!(read.target_arch, stored.target_arch);
    assert_eq!(read.version, stored.version);
    assert_eq!(read.name, stored.name);
    assert!(matches!(read.file, File::FileContent(ref b) if *b == vec![9, 8, 7]));
    let maybe: Option<MyAppBuild> = bucket.get_maybe(req.key, Fetched::Body(req.body)).unwrap();
    assert_eq!(maybe.unwrap().version, text("0.1.0"));
}

#[test]
fn missing_object_reads_as_none_or_error() {
    let bucket = S3Bucket::new(text("b"));
    let maybe = bucket.get_maybe::<MyAppBuild>(text(KEY), Fetched::Failed(StoreError::NoSuchKey));
    assert!(matches!(maybe, Ok(None)));
    let got = bucket.get::<MyAppBuild>(text(KEY), Fetched::Failed(StoreError::NoSuchKey));
    assert_eq!(got.err(), Some(Error::GetError(StoreError::NoSuchKey)));
    assert_eq!(bucket.delete(Err(StoreError::NoSuchKey)), Ok(()));
}

#[test]
fn other_failures_propagate() {
    let bucket = S3Bucket::new(text("b"));
    let failure = StoreError::Service(text("timeout"));
    let maybe = bucket.get_maybe::<MyAppBuild>(text(KEY), Fetched::Failed(failure.clone()));
    assert_eq!(maybe.err(), Some(Error::GetError(failure.clone())));
    let stream = bucket.get::<MyAppBuild>(text(KEY), Fetched::StreamFailed);
    assert_eq!(stream.err(), Some(Error::ByteStreamCollectionError));
    let stream_maybe = bucket.get_maybe::<MyAppBuild>(text(KEY), Fetched::StreamFailed);
    assert_eq!(stream_maybe.err(), Some(Error::ByteStreamCollectionError));
    assert_eq!(bucket.delete(Err(failure.clone())), Err(Error::DeleteError(failure)));
}

#[test]
fn undecodable_key_fails_to_decode() {
    let bucket = S3Bucket::new(text("b"));
    let bad_os = bucket.get::<MyAppBuild>(text("my-app-builds/Mac/X86_64/1/a"), Fetched::Body(vec![]));
    assert_eq!(bad_os.err(), Some(Error::TryFromByteError));
    let short = bucket.get_maybe::<MyAppBuild>(text("my-app-builds/Linux/ARM64/1"), Fetched::Body(vec![]));
    assert_eq!(short.err(), Some(Error::TryFromByteError));
}

#[test]
fn delete_twice_succeeds() {
    let bucket = S3Bucket::new(text("b"));
    assert_eq!(bucket.delete(Ok(())), Ok(()));
    assert_eq!(bucket.delete(Ok(())), Ok(()));
    assert_eq!(bucket.delete(Err(StoreError::NoSuchKey)), Ok(()));
}

#[test]
fn presigned_url_outcome() {
    let bucket = S3Bucket::new(text("b"));
    let url = text("https://example.invalid/object?sig=1");
    assert_eq!(bucket.generate_presigned_url(Ok(url.clone())), Ok(url));
    let failure = StoreError::Service(text("bad lifetime"));
    assert_eq!(bucket.generate_presigned_url(Err(failure.clone())), Err(Error::PresignError(failure)));
}

#[test]
fn content_type_and_bucket_of_builds() {
    assert_eq!(MyAppBuild::get_content_type(), text("application/octet-stream"));
    assert_eq!(<MyAppBuild as S3Item>::get_bucket_name(), text("myBucketName"));
}

#[test]
fn raw_objects_pass_through() {
    let bucket = S3Bucket::new(text("raw"));
    let req = bucket.put_object(text("a/b.json"), vec![123, 125], text("application/json"));
    assert_eq!(req.bucket, text("raw"));
    assert_eq!(req.key, text("a/b.json"));
    assert_eq!(req.body, vec![123, 125]);
    assert_eq!(req.content_type, text("application/json"));
    let object = bucket.get_object(text("a/b.json"), Fetched::Body(vec![1])).unwrap();
    assert_eq!(object.bytes, vec![1]);
    assert_eq!(object.key, text("a/b.json"));
    let none = bucket.get_object_maybe(text("a/b.json"), Fetched::Failed(StoreError::NoSuchKey));
    assert!(matches!(none, Ok(None)));
    let err = bucket.get_object(text("a/b.json"), Fetched::Failed(StoreError::NoSuchKey));
    assert_eq!(err.err(), Some(Error::GetError(StoreError::NoSuchKey)));
    let stream = bucket.get_object_maybe(text("k"), Fetched::StreamFailed);
    assert_eq!(stream.err(), Some(Error::ByteStreamCollectionError));
}

#[test]
fn bucket_of_a_record_type() {
    assert_eq!(S3Bucket::for_type::<MyAppBuild>().bucket_name, text("myBucketName"));
}
