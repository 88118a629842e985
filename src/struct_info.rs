use vstd::prelude::*;
use crate::error::Error;
use crate::key::{closed_names, views, well_formed_pattern, Key};

verus! {

/// A declared field of a storable record type.
pub struct FieldInfo {
    pub name: String,
}

impl FieldInfo {
    pub fn new(name: String) -> (r: FieldInfo)
        ensures
            r.name == name,
    {
        FieldInfo { name }
    }
}

pub open spec fn declared_names(fields: Seq<FieldInfo>) -> Seq<Seq<char>> {
    fields.map_values(|f: FieldInfo| f.name@)
}

/// The storage description of one record type: its bucket, its key pattern,
/// the content type of its payload and its field names.
pub struct StructInfo {
    pub struct_name: String,
    pub bucket: Option<String>,
    pub key: Option<Key>,
    pub content_type: Option<String>,
    pub fields: Vec<FieldInfo>,
}

impl StructInfo {
    pub open spec fn has_field(&self, name: Seq<char>) -> bool {
        declared_names(self.fields@).contains(name)
    }

    /// Every placeholder of the key pattern names a declared field.
    pub open spec fn key_fields_declared(&self) -> bool {
        self.key matches Some(k) ==> forall|j: int|
            0 <= j < k.names().len() ==> self.has_field(#[trigger] k.names()[j])
    }

    /// A description that registration accepts.
    pub open spec fn wf(&self) -> bool {
        &&& self.key matches Some(k) ==> k.wf()
        &&& self.key_fields_declared()
    }

    pub fn new(struct_name: String) -> (r: StructInfo)
        ensures
            r.struct_name == struct_name,
            r.bucket is None,
            r.key is None,
            r.content_type is None,
            r.fields@.len() == 0,
            r.wf(),
    {
        StructInfo { struct_name, bucket: None, key: None, content_type: None, fields: Vec::new() }
    }

    pub fn field_exists(&self, field_name: &String) -> (r: bool)
        ensures
            r == self.has_field(field_name@),
    {
        let mut j: usize = 0;
        while j < self.fields.len()
            invariant
                j <= self.fields@.len(),
                forall|i: int| 0 <= i < j ==> self.fields@[i].name@ != field_name@,
            decreases self.fields@.len() - j,
        {
            if self.fields[j].name == *field_name {
                assert(declared_names(self.fields@)[j as int] == field_name@);
                return true;
            }
            j = j + 1;
        }
        proof {
            if self.has_field(field_name@) {
                let i = choose|i: int| 0 <= i < declared_names(self.fields@).len()
                    && declared_names(self.fields@)[i] == field_name@;
                assert(self.fields@[i].name@ == field_name@);
            }
        }
        false
    }

    pub fn set_content_type(&mut self, content_type: String)
        ensures
            final(self).content_type == Some(content_type),
            final(self).struct_name == old(self).struct_name,
            final(self).bucket == old(self).bucket,
            final(self).key == old(self).key,
            final(self).fields == old(self).fields,
    {
        self.content_type = Some(content_type);
    }

    /// The first placeholder of the key pattern that names no declared
    /// field, if there is one.
    pub fn missing_field(&self) -> (r: Option<String>)
        requires
            self.key matches Some(k) ==> k.wf(),
        ensures
            r is None <==> self.key_fields_declared(),
            r matches Some(name) ==> (self.key matches Some(k) && !self.has_field(name@) && exists|j: int|
                0 <= j < k.names().len() && k.names()[j] == name@ && forall|i: int|
                    0 <= i < j ==> self.has_field(#[trigger] k.names()[i])),
    {
        match &self.key {
            None => None,
            Some(key) => {
                let mut j: usize = 0;
                while j < key.arguments.len()
                    invariant
                        self.key == Some(*key),
                        j <= key.arguments@.len(),
                        forall|i: int| 0 <= i < j ==> self.has_field(#[trigger] key.names()[i]),
                    decreases key.arguments@.len() - j,
                {
                    if !self.field_exists(&key.arguments[j]) {
                        let name = key.arguments[j].clone();
                        proof {
                            let k = self.key->Some_0;
                            assert(k == *key);
                            assert(name@ == k.names()[j as int]);
                            assert(!self.has_field(k.names()[j as int]));
                            assert(!(forall|i: int| 0 <= i < k.names().len() ==> self.has_field(#[trigger] k.names()[i])));
                        }
                        return Some(name);
                    }
                    j = j + 1;
                }
                None
            },
        }
    }

    /// Every placeholder of the key pattern names a declared field. A
    /// description where one does not is never registered: startup finds it
    /// with `missing_field` or `check_description` and stops.
    pub fn perform_checks(&self)
        requires
            self.key matches Some(k) ==> k.wf(),
            self.key_fields_declared(),
    {
    }

    /// Compiles `key` and makes it the key pattern; a malformed pattern is
    /// refused and leaves the description as it was.
    pub fn set_key(&mut self, key: String) -> (r: Result<(), Error>)
        ensures
            r is Ok <==> well_formed_pattern(key@),
            r is Ok ==> (final(self).key matches Some(k) && k.wf() && k.value@ == key@),
            r matches Err(e) ==> e == Error::MalformedKeyPattern && final(self).key == old(self).key,
            final(self).struct_name == old(self).struct_name,
            final(self).bucket == old(self).bucket,
            final(self).content_type == old(self).content_type,
            final(self).fields == old(self).fields,
    {
        let key = Key::new(key)?;
        self.key = Some(key);
        Ok(())
    }
}

pub open spec fn names_declared(names: Seq<Seq<char>>, fields: Seq<FieldInfo>) -> bool {
    declared_names(fields) == names
}

pub open spec fn option_view(s: Option<String>) -> Option<Seq<char>> {
    match s {
        Some(t) => Some(t@),
        None => None,
    }
}

/// A description that registration accepts: no key pattern, or a well-formed
/// one whose placeholders all name declared fields.
pub open spec fn valid_description(key: Option<Seq<char>>, fields: Seq<Seq<char>>) -> bool {
    key matches Some(p) ==> {
        &&& well_formed_pattern(p)
        &&& forall|j: int| 0 <= j < closed_names(p).len() ==> fields.contains(#[trigger] closed_names(p)[j])
    }
}

fn contains_name(names: &Vec<String>, name: &String) -> (r: bool)
    ensures
        r == views(names@).contains(name@),
{
    let mut j: usize = 0;
    while j < names.len()
        invariant
            j <= names@.len(),
            forall|i: int| 0 <= i < j ==> names@[i]@ != name@,
        decreases names@.len() - j,
    {
        if names[j] == *name {
            assert(views(names@)[j as int] == name@);
            return true;
        }
        j = j + 1;
    }
    proof {
        if views(names@).contains(name@) {
            let i = choose|i: int| 0 <= i < views(names@).len() && views(names@)[i] == name@;
            assert(names@[i]@ == name@);
        }
    }
    false
}

impl StructInfo {
    /// Decides whether a description can be registered. Startup runs it
    /// before `register` and stops on an error: a malformed key pattern, or
    /// the first placeholder that names no field.
    pub fn check_description(key: &Option<String>, field_names: &Vec<String>) -> (r: Result<(), Error>)
        ensures
            r is Ok <==> valid_description(option_view(*key), views(field_names@)),
            (r matches Err(Error::MalformedKeyPattern)) <==> (key matches Some(p) && !well_formed_pattern(p@)),
            r matches Err(e) ==> e is MalformedKeyPattern || (e matches Error::FieldNotFound(name) && key matches Some(
                p,
            ) && well_formed_pattern(p@) && exists|j: int|
                0 <= j < closed_names(p@).len() && closed_names(p@)[j] == name@ && !views(field_names@).contains(
                    name@,
                ) && forall|i: int|
                    0 <= i < j ==> views(field_names@).contains(#[trigger] closed_names(p@)[i])),
    {
        match key {
            None => Ok(()),
            Some(p) => {
                let k = Key::new(p.clone())?;
                let mut j: usize = 0;
                while j < k.arguments.len()
                    invariant
                        k.wf(),
                        k.names() == closed_names(p@),
                        well_formed_pattern(p@),
                        option_view(*key) == Some(p@),
                        *key == Some(*p),
                        j <= k.arguments@.len(),
                        forall|i: int| 0 <= i < j ==> views(field_names@).contains(#[trigger] k.names()[i]),
                    decreases k.arguments@.len() - j,
                {
                    if !contains_name(field_names, &k.arguments[j]) {
                        let name = k.arguments[j].clone();
                        assert(name@ == k.names()[j as int]);
                        assert(!views(field_names@).contains(closed_names(p@)[j as int]));
                        assert(option_view(*key) == Some(p@));
                        assert(!valid_description(option_view(*key), views(field_names@)));
                        return Err(Error::FieldNotFound(name));
                    }
                    j = j + 1;
                }
                Ok(())
            },
        }
    }

    /// Builds the description of a record type from its declared parts: the
    /// registration of that type.
    pub fn register(
        struct_name: String,
        bucket: Option<String>,
        key: Option<String>,
        content_type: Option<String>,
        field_names: Vec<String>,
    ) -> (info: StructInfo)
        requires
            valid_description(option_view(key), views(field_names@)),
        ensures
            info.wf(),
            info.struct_name == struct_name,
            info.bucket == bucket,
            info.content_type == content_type,
            names_declared(views(field_names@), info.fields@),
            info.key is Some <==> key is Some,
            info.key matches Some(k) ==> key matches Some(p) && k.value@ == p@ && k.names() == closed_names(p@),
    {
        let mut info = StructInfo::new(struct_name);
        info.bucket = bucket;
        if let Some(pattern) = key {
            let k = Key::new(pattern);
            match k {
                Ok(k) => {
                    info.key = Some(k);
                },
                Err(_) => {},
            }
        }
        if let Some(ct) = content_type {
            info.set_content_type(ct);
        }
        let mut j: usize = 0;
        let ghost names = views(field_names@);
        while j < field_names.len()
            invariant
                names == views(field_names@),
                valid_description(option_view(key), names),
                j <= field_names@.len(),
                info.fields@.len() == j,
                forall|i: int| 0 <= i < j ==> (#[trigger] info.fields@[i]).name@ == names[i],
                info.key matches Some(k) ==> k.wf(),
                info.struct_name == struct_name,
                info.bucket == bucket,
                info.content_type == content_type,
                info.key is Some <==> key is Some,
                info.key matches Some(k) ==> key matches Some(p) && k.value@ == p@ && k.names() == closed_names(p@),
            decreases field_names@.len() - j,
        {
            info.fields.push(FieldInfo::new(field_names[j].clone()));
            j = j + 1;
        }
        assert(declared_names(info.fields@) =~= names);
        proof {
            if info.key is Some {
                let k = info.key->Some_0;
                assert forall|j: int| 0 <= j < k.names().len() implies info.has_field(#[trigger] k.names()[j]) by {
                    assert(names.contains(closed_names(key->Some_0@)[j]));
                }
            }
        }
        info.perform_checks();
        info
    }
}

impl StructInfo {
    pub fn bucket_name(&self) -> (r: Option<String>)
        ensures
            r == self.bucket,
    {
        match &self.bucket {
            Some(b) => {
                let copy = b.clone();
                assert(copy == *b);
                Some(copy)
            },
            None => None,
        }
    }

    pub fn content_type(&self) -> (r: Option<&String>)
        ensures
            r == match self.content_type {
                Some(c) => Some(&c),
                None => None::<&String>,
            },
    {
        self.content_type.as_ref()
    }

    pub fn key_template(&self) -> (r: Option<&Key>)
        ensures
            r == match self.key {
                Some(k) => Some(&k),
                None => None::<&Key>,
            },
    {
        self.key.as_ref()
    }
}

} // verus!
