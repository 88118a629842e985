use vstd::prelude::*;
use vstd::string::*;
use crate::error::Error;
use crate::key::{interleave, placeholders, render, views, Key};
use crate::s3_object::S3Object;
use crate::traits::{KeyBuilder, S3Item};

verus! {

/// The pieces of `s` between the occurrences of `sep`, in order; one more
/// than there are separators.
pub open spec fn split_on(s: Seq<char>, sep: char) -> Seq<Seq<char>>
    decreases s.len(),
{
    if s.len() == 0 {
        seq![Seq::empty()]
    } else if s.last() == sep {
        split_on(s.drop_last(), sep).push(Seq::empty())
    } else {
        let p = split_on(s.drop_last(), sep);
        p.update(p.len() - 1, p.last().push(s.last()))
    }
}

pub open spec fn lacks(s: Seq<char>, c: char) -> bool {
    forall|i: int| 0 <= i < s.len() ==> #[trigger] s[i] != c
}

proof fn lemma_split_len(s: Seq<char>, sep: char)
    ensures
        split_on(s, sep).len() >= 1,
    decreases s.len(),
{
    if s.len() > 0 {
        lemma_split_len(s.drop_last(), sep);
    }
}

proof fn lemma_split_none(s: Seq<char>, sep: char)
    requires
        lacks(s, sep),
    ensures
        split_on(s, sep) == seq![s],
    decreases s.len(),
{
    if s.len() > 0 {
        assert(lacks(s.drop_last(), sep)) by {
            assert forall|i: int| 0 <= i < s.drop_last().len() implies #[trigger] s.drop_last()[i] != sep by {
                assert(s.drop_last()[i] == s[i]);
            }
        }
        assert(s[s.len() - 1] != sep);
        lemma_split_none(s.drop_last(), sep);
        assert(s.drop_last().push(s.last()) =~= s);
        assert(seq![s.drop_last()].update(0, s.drop_last().push(s.last())) =~= seq![s]);
    } else {
        assert(s =~= Seq::<char>::empty());
    }
}

proof fn lemma_split_join(a: Seq<char>, b: Seq<char>, sep: char)
    ensures
        split_on(a + seq![sep] + b, sep) == split_on(a, sep) + split_on(b, sep),
    decreases b.len(),
{
    let s = a + seq![sep] + b;
    lemma_split_len(a, sep);
    if b.len() == 0 {
        assert(s.drop_last() =~= a);
        assert(split_on(b, sep) =~= seq![Seq::<char>::empty()]);
        assert(split_on(s, sep) =~= split_on(a, sep) + split_on(b, sep));
    } else {
        let b0 = b.drop_last();
        assert(s.drop_last() =~= a + seq![sep] + b0);
        lemma_split_join(a, b0, sep);
        lemma_split_len(b0, sep);
        assert(split_on(s, sep) =~= split_on(a, sep) + split_on(b, sep));
    }
}

/// Cuts `text` at every `/`.
fn split_slash(text: &String) -> (r: Vec<String>)
    ensures
        views(r@) == split_on(text@, '/'),
{
    let t = text.as_str();
    let n = t.unicode_len();
    let mut parts: Vec<String> = Vec::new();
    let mut start: usize = 0;
    let mut i: usize = 0;
    let ghost s = text@;
    assert(s.take(0) =~= Seq::<char>::empty());
    assert(views(parts@).push(s.subrange(0, 0)) =~= seq![Seq::<char>::empty()]);
    while i < n
        invariant
            t@ == s,
            n == s.len(),
            start <= i <= n,
            views(parts@).push(s.subrange(start as int, i as int)) == split_on(s.take(i as int), '/'),
        decreases n - i,
    {
        let c = t.get_char(i);
        assert(s.take(i + 1).drop_last() =~= s.take(i as int));
        assert(s.take(i + 1).last() == c);
        if c == '/' {
            let piece = String::from_str(t.substring_char(start, i));
            let ghost before = views(parts@);
            parts.push(piece);
            assert(views(parts@) =~= before.push(piece@));
            assert(s.subrange(i + 1, i + 1) =~= Seq::<char>::empty());
        } else {
            assert(s.subrange(start as int, i + 1) =~= s.subrange(start as int, i as int).push(c));
            assert(views(parts@).push(s.subrange(start as int, i + 1)) =~= split_on(s.take(i + 1), '/'));
        }
        i = i + 1;
        if c == '/' {
            start = i;
        }
    }
    let last = String::from_str(t.substring_char(start, n));
    let ghost before = views(parts@);
    parts.push(last);
    assert(views(parts@) =~= before.push(last@));
    assert(s.take(n as int) =~= s);
    parts
}

/// The operating system a build targets.
#[derive(Clone, Copy, Debug, PartialEq, Eq, Structural)]
pub enum TargetOs {
    Windows,
    Linux,
}

impl TargetOs {
    pub open spec fn spec_text(self) -> Seq<char> {
        match self {
            TargetOs::Windows => "Windows"@,
            TargetOs::Linux => "Linux"@,
        }
    }

    pub open spec fn spec_parse(s: Seq<char>) -> Option<TargetOs> {
        if s == "Windows"@ {
            Some(TargetOs::Windows)
        } else if s == "Linux"@ {
            Some(TargetOs::Linux)
        } else {
            None
        }
    }

    /// The variant's name.
    pub fn to_text(&self) -> (r: String)
        ensures
            r@ == self.spec_text(),
    {
        match self {
            TargetOs::Windows => String::from_str("Windows"),
            TargetOs::Linux => String::from_str("Linux"),
        }
    }

    /// The variant with the name `s`, matched exactly.
    pub fn parse(s: &String) -> (r: Option<TargetOs>)
        ensures
            r == Self::spec_parse(s@),
    {
        if *s == String::from_str("Windows") {
            Some(TargetOs::Windows)
        } else if *s == String::from_str("Linux") {
            Some(TargetOs::Linux)
        } else {
            None
        }
    }
}

/// The processor architecture a build targets.
#[derive(Clone, Copy, Debug, PartialEq, Eq, Structural)]
pub enum TargetArch {
    X86_64,
    ARM64,
}

impl TargetArch {
    pub open spec fn spec_text(self) -> Seq<char> {
        match self {
            TargetArch::X86_64 => "X86_64"@,
            TargetArch::ARM64 => "ARM64"@,
        }
    }

    pub open spec fn spec_parse(s: Seq<char>) -> Option<TargetArch> {
        if s == "X86_64"@ {
            Some(TargetArch::X86_64)
        } else if s == "ARM64"@ {
            Some(TargetArch::ARM64)
        } else {
            None
        }
    }

    /// The variant's name.
    pub fn to_text(&self) -> (r: String)
        ensures
            r@ == self.spec_text(),
    {
        match self {
            TargetArch::X86_64 => String::from_str("X86_64"),
            TargetArch::ARM64 => String::from_str("ARM64"),
        }
    }

    /// The variant with the name `s`, matched exactly.
    pub fn parse(s: &String) -> (r: Option<TargetArch>)
        ensures
            r == Self::spec_parse(s@),
    {
        if *s == String::from_str("X86_64") {
            Some(TargetArch::X86_64)
        } else if *s == String::from_str("ARM64") {
            Some(TargetArch::ARM64)
        } else {
            None
        }
    }
}

/// The payload of a build: a local file still to be read, or its bytes.
#[derive(Clone, Debug)]
pub enum File {
    FilePath(String),
    FileContent(Vec<u8>),
}

pub enum FileView {
    FilePath(Seq<char>),
    FileContent(Seq<u8>),
}

impl View for File {
    type V = FileView;

    open spec fn view(&self) -> FileView {
        match self {
            File::FilePath(p) => FileView::FilePath(p@),
            File::FileContent(b) => FileView::FileContent(b@),
        }
    }
}

/// One build of an application, stored under a key made of its target,
/// version and file name; its payload is the build's file.
#[derive(Clone, Debug)]
pub struct MyAppBuild {
    pub target_os: TargetOs,
    pub target_arch: TargetArch,
    pub version: String,
    pub name: String,
    pub file: File,
}

pub struct MyAppBuildView {
    pub target_os: TargetOs,
    pub target_arch: TargetArch,
    pub version: Seq<char>,
    pub name: Seq<char>,
    pub file: FileView,
}

impl View for MyAppBuild {
    type V = MyAppBuildView;

    open spec fn view(&self) -> MyAppBuildView {
        MyAppBuildView {
            target_os: self.target_os,
            target_arch: self.target_arch,
            version: self.version@,
            name: self.name@,
            file: self.file@,
        }
    }
}

/// The bucket that holds the builds.
pub fn get_bucket_name() -> (r: String)
    ensures
        r@ == "myBucketName"@,
{
    String::from_str("myBucketName")
}


/// The compiled key pattern of builds,
/// `my-app-builds/{target_os}/{target_arch}/{version}/{name}`.
pub fn key_template() -> (k: Key)
    ensures
        k.wf(),
        k.value@ == "my-app-builds/{target_os}/{target_arch}/{version}/{name}"@,
        k.pieces() == build_pieces(),
        k.names() == seq!["target_os"@, "target_arch"@, "version"@, "name"@],
{
    let value = String::from_str("my-app-builds/{target_os}/{target_arch}/{version}/{name}");
    let arguments = vec![
        String::from_str("target_os"),
        String::from_str("target_arch"),
        String::from_str("version"),
        String::from_str("name"),
    ];
    let literals = vec![
        String::from_str("my-app-builds/"),
        String::from_str("/"),
        String::from_str("/"),
        String::from_str("/"),
        String::from_str(""),
    ];
    let k = Key { value, arguments, literals };
    proof {
        reveal_strlit("my-app-builds/{target_os}/{target_arch}/{version}/{name}");
        reveal_strlit("target_os");
        reveal_strlit("target_arch");
        reveal_strlit("version");
        reveal_strlit("name");
        reveal_strlit("my-app-builds/");
        reveal_strlit("/");
        reveal_strlit("");
        assert(k.pieces() =~= seq!["my-app-builds/"@, "/"@, "/"@, "/"@, ""@]);
        assert(k.names() =~= seq!["target_os"@, "target_arch"@, "version"@, "name"@]);
        reveal_with_fuel(interleave, 5);
        assert(render(k.pieces(), placeholders(k.names())) =~= k.value@);
    }
    k
}

pub open spec fn build_pieces() -> Seq<Seq<char>> {
    seq!["my-app-builds/"@, "/"@, "/"@, "/"@, ""@]
}

impl KeyBuilder for MyAppBuild {
    open spec fn spec_key_pieces() -> Seq<Seq<char>> {
        build_pieces()
    }

    fn build_key(arguments: &Vec<String>) -> (r: Result<String, Error>) {
        key_template().resolve_by_arguments(arguments)
    }
}

impl S3Item for MyAppBuild {
    open spec fn spec_bucket_name() -> Seq<char> {
        "myBucketName"@
    }

    open spec fn spec_content_type() -> Seq<char> {
        "application/octet-stream"@
    }

    open spec fn spec_key(r: MyAppBuildView) -> Seq<char> {
        "my-app-builds/"@ + r.target_os.spec_text() + "/"@ + r.target_arch.spec_text() + "/"@ + r.version
            + "/"@ + r.name
    }

    open spec fn spec_encode(r: MyAppBuildView) -> Option<Seq<u8>> {
        match r.file {
            FileView::FileContent(b) => Some(b),
            FileView::FilePath(_) => None,
        }
    }

    open spec fn spec_decode(bytes: Seq<u8>, key: Seq<char>) -> Option<MyAppBuildView> {
        let p = split_on(key, '/');
        if p.len() >= 5 && TargetOs::spec_parse(p[1]) is Some && TargetArch::spec_parse(p[2]) is Some {
            Some(
                MyAppBuildView {
                    target_os: TargetOs::spec_parse(p[1])->0,
                    target_arch: TargetArch::spec_parse(p[2])->0,
                    version: p[3],
                    name: p[4],
                    file: FileView::FileContent(bytes),
                },
            )
        } else {
            None
        }
    }

    open spec fn spec_valid(r: MyAppBuildView) -> bool {
        &&& r.file is FileContent
        &&& lacks(r.version, '/')
        &&& lacks(r.name, '/')
    }

    fn get_bucket_name() -> (r: String) {
        get_bucket_name()
    }

    fn get_content_type() -> (r: String) {
        String::from_str("application/octet-stream")
    }

    fn get_key(&self) -> (r: String) {
        let arguments = vec![
            self.target_os.to_text(),
            self.target_arch.to_text(),
            self.version.clone(),
            self.name.clone(),
        ];
        match Self::build_key(&arguments) {
            Ok(key) => {
                proof {
                    reveal_strlit("my-app-builds/");
                    reveal_strlit("/");
                    reveal_strlit("");
                    reveal_with_fuel(interleave, 5);
                    assert(key@ =~= Self::spec_key(self@));
                }
                key
            },
            Err(_) => {
                assert(views(arguments@).len() == 4);
                String::new()
            },
        }
    }

    /// The payload is the file's content; a build that still names a path
    /// must have its file read first.
    fn try_into_bytes(&self) -> (r: Result<Vec<u8>, Error>) {
        match &self.file {
            File::FileContent(bytes) => {
                let copy = bytes.clone();
                assert(copy@ =~= bytes@);
                Ok(copy)
            },
            File::FilePath(_) => Err(Error::TryIntoByteError),
        }
    }

    fn try_from_object(object: S3Object) -> (r: Result<MyAppBuild, Error>) {
        let parts = split_slash(&object.key);
        assert(views(parts@).len() == parts@.len());
        if parts.len() < 5 {
            return Err(Error::TryFromByteError);
        }
        assert(views(parts@)[1] == parts@[1]@ && views(parts@)[2] == parts@[2]@);
        let target_os = match TargetOs::parse(&parts[1]) {
            Some(os) => os,
            None => return Err(Error::TryFromByteError),
        };
        let target_arch = match TargetArch::parse(&parts[2]) {
            Some(arch) => arch,
            None => return Err(Error::TryFromByteError),
        };
        let version = parts[3].clone();
        let name = parts[4].clone();
        assert(views(parts@)[3] == version@ && views(parts@)[4] == name@);
        Ok(MyAppBuild { target_os, target_arch, version, name, file: File::FileContent(object.bytes) })
    }

    proof fn lemma_round_trip(r: MyAppBuildView) {
        reveal_strlit("my-app-builds/");
        reveal_strlit("my-app-builds");
        reveal_strlit("/");
        reveal_strlit("Windows");
        reveal_strlit("Linux");
        reveal_strlit("X86_64");
        reveal_strlit("ARM64");
        let slash = seq!['/'];
        let head = "my-app-builds"@;
        let os = r.target_os.spec_text();
        let arch = r.target_arch.spec_text();
        assert("my-app-builds/"@ =~= head + slash);
        assert("/"@ =~= slash);
        let k1 = head + slash + os;
        let k2 = k1 + slash + arch;
        let k3 = k2 + slash + r.version;
        let k4 = k3 + slash + r.name;
        assert(Self::spec_key(r) =~= k4);
        lemma_split_none(head, '/');
        lemma_split_none(os, '/');
        lemma_split_none(arch, '/');
        lemma_split_none(r.version, '/');
        lemma_split_none(r.name, '/');
        lemma_split_join(head, os, '/');
        lemma_split_join(k1, arch, '/');
        lemma_split_join(k2, r.version, '/');
        lemma_split_join(k3, r.name, '/');
        let p = split_on(k4, '/');
        assert(p =~= seq![head, os, arch, r.version, r.name]);
        assert(TargetOs::spec_parse(os) == Some(r.target_os));
        assert(TargetArch::spec_parse(arch) == Some(r.target_arch));
    }
}

} // verus!
