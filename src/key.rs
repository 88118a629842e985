use vstd::prelude::*;
use crate::error::Error;
use vstd::string::*;

verus! {

/// A character that delimits a placeholder.
pub open spec fn is_brace(c: char) -> bool {
    c == '{' || c == '}'
}

/// Text holding no placeholder delimiter.
pub open spec fn brace_free(s: Seq<char>) -> bool {
    forall|i: int| 0 <= i < s.len() ==> !is_brace(#[trigger] s[i])
}

/// `literals[0] values[0] literals[1] values[1] ... literals[n-1] values[n-1]`.
pub open spec fn interleave(literals: Seq<Seq<char>>, values: Seq<Seq<char>>, n: nat) -> Seq<char>
    decreases n,
{
    if n == 0 {
        Seq::empty()
    } else {
        interleave(literals, values, (n - 1) as nat) + literals[n - 1] + values[n - 1]
    }
}

/// The literals with one value between each two of them, in order.
pub open spec fn render(literals: Seq<Seq<char>>, values: Seq<Seq<char>>) -> Seq<char> {
    interleave(literals, values, values.len()) + literals[values.len() as int]
}

/// How a placeholder named `name` is written in a pattern.
pub open spec fn braced(name: Seq<char>) -> Seq<char> {
    seq!['{'] + name + seq!['}']
}

pub open spec fn placeholders(names: Seq<Seq<char>>) -> Seq<Seq<char>> {
    names.map_values(|n: Seq<char>| braced(n))
}

/// Opening braces minus closing braces in `s`.
pub open spec fn depth(s: Seq<char>) -> int
    decreases s.len(),
{
    if s.len() == 0 {
        0
    } else {
        depth(s.drop_last()) + if s.last() == '{' {
            1int
        } else if s.last() == '}' {
            -1int
        } else {
            0int
        }
    }
}

/// Every `}` closes an open `{`, no `{` opens inside another, and none is left open.
pub open spec fn well_formed_pattern(s: Seq<char>) -> bool {
    &&& forall|i: int| 0 <= i <= s.len() ==> 0 <= #[trigger] depth(s.take(i)) <= 1
    &&& depth(s) == 0
}

/// The text after the last `{` of `s`, or all of `s` where it holds none.
pub open spec fn open_text(s: Seq<char>) -> Seq<char>
    decreases s.len(),
{
    if s.len() == 0 || s.last() == '{' {
        Seq::empty()
    } else {
        open_text(s.drop_last()).push(s.last())
    }
}

/// The names between the braces of the placeholders that `s` closes, in order.
pub open spec fn closed_names(s: Seq<char>) -> Seq<Seq<char>>
    decreases s.len(),
{
    if s.len() == 0 {
        Seq::empty()
    } else if s.last() == '}' {
        closed_names(s.drop_last()).push(open_text(s.drop_last()))
    } else {
        closed_names(s.drop_last())
    }
}

pub open spec fn views(v: Seq<String>) -> Seq<Seq<char>> {
    v.map_values(|s: String| s@)
}

/// A named field value of a record, in its textual form.
pub struct FieldValue {
    pub name: String,
    pub value: String,
}

/// The value of the first field of `fields` that is called `name`.
pub open spec fn lookup(fields: Seq<FieldValue>, name: Seq<char>) -> Option<Seq<char>>
    decreases fields.len(),
{
    if fields.len() == 0 {
        None
    } else if fields[0].name@ == name {
        Some(fields[0].value@)
    } else {
        lookup(fields.drop_first(), name)
    }
}

/// A compiled key pattern: literal text with `{name}` placeholders between.
///
/// `literals` holds the text around the placeholders, one more piece than
/// `arguments`, which holds the placeholder names in the order they occur.
pub struct Key {
    pub value: String,
    pub arguments: Vec<String>,
    pub literals: Vec<String>,
}

impl Key {
    pub open spec fn names(&self) -> Seq<Seq<char>> {
        views(self.arguments@)
    }

    pub open spec fn pieces(&self) -> Seq<Seq<char>> {
        views(self.literals@)
    }

    /// The pattern is exactly its pieces and its placeholders, none holding a brace.
    pub open spec fn wf(&self) -> bool {
        &&& self.literals@.len() == self.arguments@.len() + 1
        &&& forall|i: int| 0 <= i < self.literals@.len() ==> brace_free(#[trigger] self.pieces()[i])
        &&& forall|i: int| 0 <= i < self.arguments@.len() ==> brace_free(#[trigger] self.names()[i])
        &&& render(self.pieces(), placeholders(self.names())) == self.value@
    }

    /// The key for positional arguments: one per placeholder occurrence, in order.
    pub open spec fn spec_resolve_by_arguments(&self, args: Seq<Seq<char>>) -> Option<Seq<char>> {
        if args.len() == self.names().len() {
            Some(render(self.pieces(), args))
        } else {
            None
        }
    }

    /// The key for a record: each placeholder takes the value of the field it names.
    pub open spec fn spec_resolve_by_fields(&self, fields: Seq<FieldValue>) -> Option<Seq<char>> {
        if forall|k: int| 0 <= k < self.names().len() ==> (#[trigger] lookup(fields, self.names()[k])) is Some {
            Some(render(self.pieces(), self.names().map_values(|n: Seq<char>| lookup(fields, n)->0)))
        } else {
            None
        }
    }
}


proof fn lemma_interleave_prefix(
    l1: Seq<Seq<char>>,
    v1: Seq<Seq<char>>,
    l2: Seq<Seq<char>>,
    v2: Seq<Seq<char>>,
    n: nat,
)
    requires
        n <= l1.len(),
        n <= l2.len(),
        n <= v1.len(),
        n <= v2.len(),
        forall|k: int| 0 <= k < n ==> l1[k] == l2[k] && v1[k] == v2[k],
    ensures
        interleave(l1, v1, n) == interleave(l2, v2, n),
    decreases n,
{
    if n > 0 {
        lemma_interleave_prefix(l1, v1, l2, v2, (n - 1) as nat);
    }
}

proof fn lemma_depth_push(s: Seq<char>, c: char)
    ensures
        depth(s.push(c)) == depth(s) + if c == '{' {
            1int
        } else if c == '}' {
            -1int
        } else {
            0int
        },
{
    assert(s.push(c).drop_last() =~= s);
}

impl Key {
    /// Compiles `value`, splitting it at `{` and `}` into literal text and
    /// placeholder names; fails where the braces do not pair up.
    pub fn new(value: String) -> (r: Result<Key, Error>)
        ensures
            r is Ok <==> well_formed_pattern(value@),
            r matches Ok(k) ==> k.wf() && k.value@ == value@ && k.names() == closed_names(value@),
            r matches Err(e) ==> e == Error::MalformedKeyPattern,
    {
        let text = value.as_str();
        let n = text.unicode_len();
        let mut literals: Vec<String> = Vec::new();
        let mut arguments: Vec<String> = Vec::new();
        let mut in_brace = false;
        let mut start: usize = 0;
        let mut i: usize = 0;
        let ghost s = value@;
        while i < n
            invariant
                text@ == s,
                s == value@,
                n == s.len(),
                start <= i <= n,
                forall|j: int| 0 <= j <= i ==> 0 <= #[trigger] depth(s.take(j)) <= 1,
                depth(s.take(i as int)) == if in_brace {
                    1int
                } else {
                    0int
                },
                brace_free(s.subrange(start as int, i as int)),
                views(arguments@) == closed_names(s.take(i as int)),
                in_brace ==> s.subrange(start as int, i as int) == open_text(s.take(i as int)),
                forall|k: int| 0 <= k < literals@.len() ==> brace_free(#[trigger] views(literals@)[k]),
                forall|k: int| 0 <= k < arguments@.len() ==> brace_free(#[trigger] views(arguments@)[k]),
                literals@.len() == arguments@.len() + if in_brace {
                    1int
                } else {
                    0int
                },
                !in_brace ==> interleave(views(literals@), placeholders(views(arguments@)), arguments@.len())
                    + s.subrange(start as int, i as int) == s.take(i as int),
                in_brace ==> interleave(views(literals@), placeholders(views(arguments@)), arguments@.len())
                    + views(literals@).last() + seq!['{'] + s.subrange(start as int, i as int) == s.take(i as int),
            decreases n - i,
        {
            let c = text.get_char(i);
            proof {
                lemma_depth_push(s.take(i as int), c);
                assert(s.take(i + 1) =~= s.take(i as int).push(c));
                assert(s.take(i + 1).drop_last() =~= s.take(i as int));
            }
            if c == '{' {
                if in_brace {
                    assert(depth(s.take(i + 1)) == 2);
                    return Err(Error::MalformedKeyPattern);
                }
                let piece = String::from_str(text.substring_char(start, i));
                let ghost old_lits = literals@;
                literals.push(piece);
                proof {
                    let a = placeholders(views(arguments@));
                    assert(views(literals@) =~= views(old_lits).push(piece@));
                    lemma_interleave_prefix(views(literals@), a, views(old_lits), a, arguments@.len() as nat);
                    assert(s.take(i + 1) =~= s.take(i as int) + seq!['{']);
                    assert(s.subrange(i + 1, i + 1) =~= Seq::<char>::empty());
                    assert(open_text(s.take(i + 1)) =~= Seq::<char>::empty());
                    assert(s.take(i + 1) =~= interleave(views(literals@), a, arguments@.len())
                        + views(literals@).last() + seq!['{'] + s.subrange(i + 1, i + 1));
                }
                in_brace = true;
                start = i + 1;
            } else if c == '}' {
                if !in_brace {
                    assert(depth(s.take(i + 1)) == -1);
                    return Err(Error::MalformedKeyPattern);
                }
                let name = String::from_str(text.substring_char(start, i));
                let ghost old_args = arguments@;
                arguments.push(name);
                proof {
                    let l = views(literals@);
                    let a0 = placeholders(views(old_args));
                    let a1 = placeholders(views(arguments@));
                    assert(views(arguments@) =~= views(old_args).push(name@));
                    assert(a1 =~= a0.push(braced(name@)));
                    lemma_interleave_prefix(l, a1, l, a0, old_args.len() as nat);
                    assert(s.take(i + 1) =~= s.take(i as int) + seq!['}']);
                    assert(s.subrange(i + 1, i + 1) =~= Seq::<char>::empty());
                    assert(interleave(l, a1, arguments@.len()) =~= interleave(l, a0, old_args.len())
                        + l[old_args.len() as int] + braced(name@));
                    assert(s.take(i + 1) =~= interleave(l, a1, arguments@.len()) + s.subrange(i + 1, i + 1));
                }
                in_brace = false;
                start = i + 1;
            } else {
                proof {
                    assert(s.subrange(start as int, i + 1) =~= s.subrange(start as int, i as int).push(c));
                    if in_brace {
                        assert(s.take(i + 1) =~= interleave(views(literals@), placeholders(views(arguments@)), arguments@.len())
                            + views(literals@).last() + seq!['{'] + s.subrange(start as int, i + 1));
                    } else {
                        assert(s.take(i + 1) =~= interleave(views(literals@), placeholders(views(arguments@)), arguments@.len())
                            + s.subrange(start as int, i + 1));
                    }
                }
            }
            i = i + 1;
        }
        proof {
            assert(s.take(n as int) =~= s);
        }
        if in_brace {
            return Err(Error::MalformedKeyPattern);
        }
        let last = String::from_str(text.substring_char(start, n));
        let ghost old_lits = literals@;
        literals.push(last);
        proof {
            let a = placeholders(views(arguments@));
            assert(views(literals@) =~= views(old_lits).push(last@));
            lemma_interleave_prefix(views(literals@), a, views(old_lits), a, arguments@.len() as nat);
            assert(placeholders(views(arguments@)).len() == arguments@.len());
            assert(render(views(literals@), a) =~= s);
        }
        Ok(Key { value, arguments, literals })
    }

    /// Whether the pattern holds no placeholder.
    pub fn is_static_key(&self) -> (r: bool)
        ensures
            r == (self.arguments@.len() == 0),
    {
        self.arguments.len() == 0
    }
}

fn find_field(fields: &Vec<FieldValue>, name: &String) -> (r: Option<usize>)
    ensures
        lookup(fields@, name@) is None <==> r is None,
        r matches Some(j) ==> j < fields@.len() && lookup(fields@, name@) == Some(fields@[j as int].value@),
{
    let mut j: usize = 0;
    assert(fields@.skip(0) =~= fields@);
    while j < fields.len()
        invariant
            j <= fields@.len(),
            lookup(fields@, name@) == lookup(fields@.skip(j as int), name@),
        decreases fields@.len() - j,
    {
        if fields[j].name == *name {
            return Some(j);
        }
        assert(fields@.skip(j as int).drop_first() =~= fields@.skip(j + 1));
        j = j + 1;
    }
    assert(fields@.skip(j as int) =~= Seq::<FieldValue>::empty());
    None
}

impl Key {
    /// Puts the `k`-th argument in place of the `k`-th placeholder; fails when
    /// there are more or fewer arguments than placeholder occurrences.
    pub fn resolve_by_arguments(&self, args: &Vec<String>) -> (r: Result<String, Error>)
        requires
            self.wf(),
        ensures
            r matches Ok(key) ==> self.spec_resolve_by_arguments(views(args@)) == Some(key@),
            r matches Err(e) ==> self.spec_resolve_by_arguments(views(args@)) is None
                && e == Error::KeyArityMismatch,
    {
        if args.len() != self.arguments.len() {
            return Err(Error::KeyArityMismatch);
        }
        let ghost l = self.pieces();
        let ghost v = views(args@);
        let mut out = String::new();
        let mut k: usize = 0;
        while k < args.len()
            invariant
                self.wf(),
                l == self.pieces(),
                v == views(args@),
                args@.len() == self.arguments@.len(),
                k <= args@.len(),
                out@ == interleave(l, v, k as nat),
            decreases args@.len() - k,
        {
            out.append(self.literals[k].as_str());
            out.append(args[k].as_str());
            k = k + 1;
        }
        out.append(self.literals[k].as_str());
        Ok(out)
    }

    /// Puts the value of the field each placeholder names in its place; fails
    /// with the name of the first placeholder that no field matches.
    pub fn resolve_by_fields(&self, fields: &Vec<FieldValue>) -> (r: Result<String, Error>)
        requires
            self.wf(),
        ensures
            r matches Ok(key) ==> self.spec_resolve_by_fields(fields@) == Some(key@),
            r matches Err(e) ==> self.spec_resolve_by_fields(fields@) is None && (e matches Error::FieldNotFound(
                name,
            ) && exists|k: int|
                0 <= k < self.names().len() && self.names()[k] == name@ && lookup(fields@, name@) is None
                    && forall|i: int| 0 <= i < k ==> (#[trigger] lookup(fields@, self.names()[i])) is Some),
    {
        let ghost l = self.pieces();
        let ghost v = self.names().map_values(|n: Seq<char>| lookup(fields@, n)->0);
        let mut out = String::new();
        let mut k: usize = 0;
        while k < self.arguments.len()
            invariant
                self.wf(),
                l == self.pieces(),
                v == self.names().map_values(|n: Seq<char>| lookup(fields@, n)->0),
                k <= self.arguments@.len(),
                forall|j: int| 0 <= j < k ==> (#[trigger] lookup(fields@, self.names()[j])) is Some,
                out@ == interleave(l, v, k as nat),
            decreases self.arguments@.len() - k,
        {
            match find_field(fields, &self.arguments[k]) {
                None => {
                    let name = self.arguments[k].clone();
                    assert(lookup(fields@, self.names()[k as int]) is None);
                    assert(name@ == self.names()[k as int]);
                    return Err(Error::FieldNotFound(name));
                },
                Some(j) => {
                    out.append(self.literals[k].as_str());
                    out.append(fields[j].value.as_str());
                },
            }
            k = k + 1;
        }
        out.append(self.literals[k].as_str());
        Ok(out)
    }
}

/// A key built from positional arguments whose count differs from the number
/// of placeholder occurrences is refused, never padded or truncated.
pub proof fn arity_mismatch_is_refused(k: Key, args: Seq<Seq<char>>)
    requires
        k.wf(),
        args.len() != k.names().len(),
    ensures
        k.spec_resolve_by_arguments(args) is None,
{
}

/// A pattern without placeholders resolves to itself, whatever the record and
/// for the empty argument list.
pub proof fn static_pattern_resolves_to_itself(k: Key, fields: Seq<FieldValue>)
    requires
        k.wf(),
        k.names().len() == 0,
    ensures
        k.spec_resolve_by_fields(fields) == Some(k.value@),
        k.spec_resolve_by_arguments(Seq::empty()) == Some(k.value@),
{
    assert(placeholders(k.names()).len() == 0);
}

/// The key of a record depends on the values of its fields alone: two records
/// whose fields read the same give the same key.
pub proof fn key_depends_on_field_values_only(k: Key, f1: Seq<FieldValue>, f2: Seq<FieldValue>)
    requires
        k.wf(),
        forall|name: Seq<char>| lookup(f1, name) == lookup(f2, name),
    ensures
        k.spec_resolve_by_fields(f1) == k.spec_resolve_by_fields(f2),
{
    assert(k.names().map_values(|n: Seq<char>| lookup(f1, n)->0) =~= k.names().map_values(
        |n: Seq<char>| lookup(f2, n)->0,
    ));
    assert forall|j: int| 0 <= j < k.names().len() implies (#[trigger] lookup(f1, k.names()[j])) == lookup(
        f2,
        k.names()[j],
    ) by {}
}

/// Resolving from a record and resolving from the record's values listed in
/// placeholder order give the same key.
pub proof fn fields_and_arguments_agree(k: Key, fields: Seq<FieldValue>)
    requires
        k.wf(),
        k.spec_resolve_by_fields(fields) is Some,
    ensures
        k.spec_resolve_by_arguments(k.names().map_values(|n: Seq<char>| lookup(fields, n)->0))
            == k.spec_resolve_by_fields(fields),
{
}

} // verus!
