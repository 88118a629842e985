use s3_bucket::error::Error;
use s3_bucket::struct_info::{FieldInfo, StructInfo};

fn text(s: &str) -> String {
    s.to_string()
}

fn names(list: &[&str]) -> Vec<String> {
    list.iter().map(|s| s.to_string()).collect()
}

#[test]
fn register_accepts_declared_placeholders() {
    let key = Some(text("posts/{post_id}/comments.json"));
    let fields = names(&["post_id", "comments"]);
    assert_eq!(StructInfo::check_description(&key, &fields), Ok(()));
    let info = StructInfo::register(
        text("PostComments"),
        Some(text("MyBucket")),
        key,
        Some(text("application/json")),
        fields,
    );
    assert_eq!(info.struct_name, text("PostComments"));
    assert_eq!(info.bucket, Some(text("MyBucket")));
    assert_eq!(info.content_type, Some(text("application/json")));
    assert_eq!(info.fields.len(), 2);
    assert_eq!(info.fields[1].name, text("comments"));
    let key = info.key.as_ref().unwrap();
    assert_eq!(key.arguments, vec![text("post_id")]);
    assert!(info.field_exists(&text("post_id")));
    assert!(!info.field_exists(&text("missing")));
    assert_eq!(info.missing_field(), None);
    info.perform_checks();
}

#[test]
fn check_refuses_unknown_field() {
    let r = StructInfo::check_description(&Some(text("builds/{os}/{arch}/{ver}")), &names(&["os"]));
    assert_eq!(r, Err(Error::FieldNotFound(text("arch"))));
}

#[test]
fn check_refuses_malformed_pattern() {
    for pattern in ["builds/{os", "a/{x}}", "a/{x{y}}"] {
        let r = StructInfo::check_description(&Some(text(pattern)), &names(&["os", "x", "y"]));
        assert_eq!(r, Err(Error::MalformedKeyPattern), "{}", pattern);
    }
}

#[test]
fn check_accepts_repeated_and_adjacent_placeholders() {
    let r = StructInfo::check_description(&Some(text("{a}/{b}")), &names(&["a", "b"]));
    assert_eq!(r, Ok(()));
    let r = StructInfo::check_description(&Some(text("{a}{a}")), &names(&["a"]));
    assert_eq!(r, Ok(()));
}

#[test]
fn register_without_key() {
    assert_eq!(StructInfo::check_description(&None, &vec![]), Ok(()));
    let info = StructInfo::register(text("Blob"), Some(text("b")), None, None, vec![]);
    assert!(info.key.is_none());
    assert!(info.content_type.is_none());
    assert_eq!(info.missing_field(), None);
}

#[test]
fn step_by_step_description() {
    let mut info = StructInfo::new(text("Item"));
    assert!(info.bucket.is_none() && info.key.is_none() && info.fields.is_empty());
    info.fields.push(FieldInfo::new(text("id")));
    info.set_content_type(text("text/plain"));
    assert_eq!(info.content_type, Some(text("text/plain")));
    assert_eq!(info.set_key(text("items/{id")), Err(Error::MalformedKeyPattern));
    assert!(info.key.is_none());
    assert_eq!(info.set_key(text("items/{id}/{rev}")), Ok(()));
    assert_eq!(info.missing_field(), Some(text("rev")));
    info.fields.push(FieldInfo::new(text("rev")));
    assert_eq!(info.missing_field(), None);
    info.perform_checks();
}

#[test]
fn missing_field_names_the_first_undeclared_placeholder() {
    let mut info = StructInfo::new(text("PostComments"));
    info.fields.push(FieldInfo::new(text("post_id")));
    info.fields.push(FieldInfo::new(text("comments")));
    assert_eq!(info.set_key(text("posts/{user_id}/{lang}/c.json")), Ok(()));
    assert_eq!(info.missing_field(), Some(text("user_id")));
}

#[test]
fn description_accessors() {
    let info = StructInfo::register(
        text("PostComments"),
        Some(text("MyBucket")),
        Some(text("posts/{post_id}/comments.json")),
        Some(text("application/json")),
        names(&["post_id", "comments"]),
    );
    assert_eq!(info.bucket_name(), Some(text("MyBucket")));
    assert_eq!(info.content_type(), Some(&text("application/json")));
    let key = info.key_template().unwrap();
    assert_eq!(key.resolve_by_arguments(&vec![text("7")]), Ok(text("posts/7/comments.json")));
    let bare = StructInfo::new(text("Bare"));
    assert_eq!(bare.bucket_name(), None);
    assert!(bare.content_type().is_none() && bare.key_template().is_none());
}
