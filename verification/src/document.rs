use vstd::prelude::*;

verus! {

/// One named member of a document object.
pub struct DocField {
    pub name: String,
    pub value: DocValue,
}

/// The library's own shape for an untrusted, loosely structured document.
/// Numbers outside the signed 64-bit range carry no information the library
/// reads, so they arrive as `Null`, exactly like any other unusable member.
pub enum DocValue {
    Null,
    Bool(bool),
    Int(i64),
    Text(String),
    List(Vec<DocValue>),
    Object(Vec<DocField>),
}

/// Relies on str's `PartialEq`: true exactly when the two texts hold the same
/// characters.
#[verifier::external_body]
fn str_eq(a: &str, b: &str) -> (r: bool)
    ensures
        r == (a@ == b@),
{
    a == b
}

/// The first member of `fields` named `name`, if any.
pub open spec fn spec_field_lookup(fields: Seq<DocField>, name: Seq<char>) -> Option<DocValue>
    decreases fields.len(),
{
    if fields.len() == 0 {
        None
    } else if fields[0].name@ == name {
        Some(fields[0].value)
    } else {
        spec_field_lookup(fields.drop_first(), name)
    }
}

/// Member lookup: meaningful only on objects; every other shape has no members.
pub open spec fn spec_get(doc: DocValue, name: Seq<char>) -> Option<DocValue> {
    match doc {
        DocValue::Object(fields) => spec_field_lookup(fields@, name),
        _ => None,
    }
}

pub open spec fn spec_as_text(doc: DocValue) -> Option<Seq<char>> {
    match doc {
        DocValue::Text(s) => Some(s@),
        _ => None,
    }
}

pub open spec fn spec_as_int(doc: DocValue) -> Option<i64> {
    match doc {
        DocValue::Int(n) => Some(n),
        _ => None,
    }
}

pub open spec fn spec_as_bool(doc: DocValue) -> Option<bool> {
    match doc {
        DocValue::Bool(b) => Some(b),
        _ => None,
    }
}

pub open spec fn spec_as_list(doc: DocValue) -> Option<Seq<DocValue>> {
    match doc {
        DocValue::List(items) => Some(items@),
        _ => None,
    }
}

impl DocValue {
    /// Looks up the first object member named `name`.
    pub fn get<'a>(&'a self, name: &str) -> (r: Option<&'a DocValue>)
        ensures
            match r {
                Some(v) => spec_get(*self, name@) == Some(*v),
                None => spec_get(*self, name@) is None,
            },
    {
        match self {
            DocValue::Object(fields) => {
                proof {
                    assert(fields@.skip(0) =~= fields@);
                }
                let mut i: usize = 0;
                while i < fields.len()
                    invariant
                        i <= fields.len(),
                        spec_get(*self, name@) == spec_field_lookup(fields@, name@),
                        spec_field_lookup(fields@, name@) == spec_field_lookup(
                            fields@.skip(i as int),
                            name@,
                        ),
                    decreases fields.len() - i,
                {
                    if str_eq(fields[i].name.as_str(), name) {
                        proof {
                            assert(fields@.skip(i as int)[0] == fields@[i as int]);
                            assert(spec_field_lookup(fields@.skip(i as int), name@) == Some(
                                fields@[i as int].value,
                            ));
                        }
                        return Some(&fields[i].value);
                    }
                    proof {
                        assert(fields@.skip(i as int).drop_first() =~= fields@.skip(i as int + 1));
                    }
                    i = i + 1;
                }
                None
            },
            _ => None,
        }
    }

    pub fn as_text(&self) -> (r: Option<&String>)
        ensures
            match r {
                Some(s) => spec_as_text(*self) == Some(s@),
                None => spec_as_text(*self) is None,
            },
    {
        match self {
            DocValue::Text(s) => Some(s),
            _ => None,
        }
    }

    pub fn as_int(&self) -> (r: Option<i64>)
        ensures
            r == spec_as_int(*self),
    {
        match self {
            DocValue::Int(n) => Some(*n),
            _ => None,
        }
    }

    pub fn as_bool(&self) -> (r: Option<bool>)
        ensures
            r == spec_as_bool(*self),
    {
        match self {
            DocValue::Bool(b) => Some(*b),
            _ => None,
        }
    }

    pub fn as_list(&self) -> (r: Option<&Vec<DocValue>>)
        ensures
            match r {
                Some(items) => spec_as_list(*self) == Some(items@),
                None => spec_as_list(*self) is None,
            },
    {
        match self {
            DocValue::List(items) => Some(items),
            _ => None,
        }
    }
}

} // verus!
