use s3_bucket::error::Error;
use s3_bucket::my_app_build::{get_bucket_name, key_template, File, MyAppBuild, TargetArch, TargetOs};
use s3_bucket::s3_object::S3Object;
use s3_bucket::traits::{KeyBuilder, S3Item};

fn text(s: &str) -> String {
    s.to_string()
}

#[test]
fn build_key_from_fields() {
    let build = MyAppBuild {
        target_os: TargetOs::Linux,
        target_arch: TargetArch::ARM64,
        version: text("2.3.4"),
        name: text("my-app"),
        file: File::FilePath(text("/home/myuser/build_folder/my-app")),
    };
    assert_eq!(build.get_key(), text("my-app-builds/Linux/ARM64/2.3.4/my-app"));
}

#[test]
fn build_key_from_partial_keys() {
    let args = vec![text("Windows"), text("X86_64"), text("0.1.0"), text("my-app.exe")];
    assert_eq!(MyAppBuild::build_key(&args), Ok(text("my-app-builds/Windows/X86_64/0.1.0/my-app.exe")));
    assert_eq!(MyAppBuild::build_key(&args[..3].to_vec()), Err(Error::KeyArityMismatch));
}

#[test]
fn template_matches_compiled_pattern() {
    let k = key_template();
    assert_eq!(k.value, text("my-app-builds/{target_os}/{target_arch}/{version}/{name}"));
    assert_eq!(k.arguments, vec![text("target_os"), text("target_arch"), text("version"), text("name")]);
}

#[test]
fn bucket_name_of_builds() {
    assert_eq!(get_bucket_name(), text("myBucketName"));
}

#[test]
fn target_names_parse_exactly() {
    assert_eq!(TargetOs::parse(&text("Windows")), Some(TargetOs::Windows));
    assert_eq!(TargetOs::parse(&text("Linux")), Some(TargetOs::Linux));
    assert_eq!(TargetOs::parse(&text("linux")), None);
    assert_eq!(TargetArch::parse(&text("X86_64")), Some(TargetArch::X86_64));
    assert_eq!(TargetArch::parse(&text("ARM64")), Some(TargetArch::ARM64));
    assert_eq!(TargetArch::parse(&text("arm64")), None);
    assert_eq!(TargetOs::Linux.to_text(), text("Linux"));
    assert_eq!(TargetArch::X86_64.to_text(), text("X86_64"));
}

#[test]
fn decode_reads_fields_from_key() {
    let object = S3Object::new(vec![5, 6], text("prefix/Linux/ARM64/1.0/tool/extra"));
    let build = MyAppBuild::try_from_object(object).unwrap();
    assert_eq!(build.target_os, TargetOs::Linux);
    assert_eq!(build.target_arch, TargetArch::ARM64);
    assert_eq!(build.version, text("1.0"));
    assert_eq!(build.name, text("tool"));
    assert!(matches!(build.file, File::FileContent(ref b) if *b == vec![5, 6]));
}

#[test]
fn decode_refuses_short_or_unknown_keys() {
    let short = S3Object::new(vec![], text("my-app-builds/Linux/ARM64/1.0"));
    assert_eq!(MyAppBuild::try_from_object(short).err(), Some(Error::TryFromByteError));
    let arch = S3Object::new(vec![], text("my-app-builds/Linux/MIPS/1.0/a"));
    assert_eq!(MyAppBuild::try_from_object(arch).err(), Some(Error::TryFromByteError));
}

#[test]
fn encode_passes_content_through() {
    let build = MyAppBuild {
        target_os: TargetOs::Windows,
        target_arch: TargetArch::X86_64,
        version: text("0.1.0"),
        name: text("my-app.exe"),
        file: File::FileContent(vec![0, 255]),
    };
    assert_eq!(build.try_into_bytes(), Ok(vec![0, 255]));
    let round = MyAppBuild::try_from_object(S3Object::new(build.try_into_bytes().unwrap(), build.get_key())).unwrap();
    assert_eq!(round.version, build.version);
    assert_eq!(round.name, build.name);
    assert_eq!(round.target_os, build.target_os);
}
