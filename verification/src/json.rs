use vstd::prelude::*;
use vstd::string::StrSliceExecFns;

verus! {

/// The mathematical shape of one decoded wire-protocol value: the view of
/// [`JsonValue`].
pub enum JsonModel {
    Null,
    Bool(bool),
    UInt(u64),
    /// A number that does not fit `u64`; the translator never reads its value.
    NumOther,
    Str(Seq<char>),
    Arr(Seq<JsonModel>),
    Obj(Seq<(Seq<char>, JsonModel)>),
}

/// One decoded line of the wire protocol, held as plain values.
#[derive(Debug, PartialEq, Eq)]
pub enum JsonValue {
    Null,
    Bool(bool),
    UInt(u64),
    /// A number that does not fit `u64`; the translator never reads its value.
    NumOther,
    Str(String),
    Arr(Vec<JsonValue>),
    Obj(Vec<(String, JsonValue)>),
}

/// The model of an array's elements, element for element.
pub open spec fn arr_model(s: Seq<JsonValue>) -> Seq<JsonModel>
    decreases s,
{
    Seq::new(
        s.len(),
        |i: int|
            if 0 <= i < s.len() {
                s[i]@
            } else {
                JsonModel::Null
            },
    )
}

/// The model of an object's entries, entry for entry, in order.
pub open spec fn obj_model(s: Seq<(String, JsonValue)>) -> Seq<(Seq<char>, JsonModel)>
    decreases s,
{
    Seq::new(
        s.len(),
        |i: int|
            if 0 <= i < s.len() {
                (s[i].0@, s[i].1@)
            } else {
                (Seq::<char>::empty(), JsonModel::Null)
            },
    )
}

impl View for JsonValue {
    type V = JsonModel;

    open spec fn view(&self) -> JsonModel
        decreases self,
    {
        match *self {
            JsonValue::Null => JsonModel::Null,
            JsonValue::Bool(b) => JsonModel::Bool(b),
            JsonValue::UInt(u) => JsonModel::UInt(u),
            JsonValue::NumOther => JsonModel::NumOther,
            JsonValue::Str(ref s) => JsonModel::Str(s@),
            JsonValue::Arr(ref a) => JsonModel::Arr(arr_model(a@)),
            JsonValue::Obj(ref es) => JsonModel::Obj(obj_model(es@)),
        }
    }
}

/// First entry of `es` whose key is `key`, if any.
pub open spec fn obj_lookup(es: Seq<(Seq<char>, JsonModel)>, key: Seq<char>) -> Option<JsonModel>
    decreases es.len(),
{
    if es.len() == 0 {
        None
    } else if es[0].0 == key {
        Some(es[0].1)
    } else {
        obj_lookup(es.drop_first(), key)
    }
}

/// Field access as the wire protocol reads it: a missing field, a field of a
/// non-object value, and an explicit null all read as null.
pub open spec fn jfield(m: JsonModel, key: Seq<char>) -> JsonModel {
    match m {
        JsonModel::Obj(es) => match obj_lookup(es, key) {
            Some(f) => f,
            None => JsonModel::Null,
        },
        _ => JsonModel::Null,
    }
}

/// The characters of a string value, if the value is a string.
pub open spec fn jstr(m: JsonModel) -> Option<Seq<char>> {
    match m {
        JsonModel::Str(s) => Some(s),
        _ => None,
    }
}

/// The value of an unsigned number, if the value is one that fits `u64`.
pub open spec fn ju64(m: JsonModel) -> Option<u64> {
    match m {
        JsonModel::UInt(u) => Some(u),
        _ => None,
    }
}

/// Character-by-character equality of two string slices.
pub fn str_eq(a: &str, b: &str) -> (r: bool)
    ensures
        r == (a@ == b@),
{
    let an: usize = a.unicode_len();
    let bn: usize = b.unicode_len();
    if an != bn {
        return false;
    }
    let mut i: usize = 0;
    while i < an
        invariant
            i <= an,
            an == a@.len(),
            an == b@.len(),
            forall|j: int| 0 <= j < i ==> a@[j] == b@[j],
        decreases an - i,
    {
        if a.get_char(i) != b.get_char(i) {
            return false;
        }
        i += 1;
    }
    proof {
        assert(a@ =~= b@);
    }
    true
}

impl JsonValue {
    /// Looks the key up among this value's object entries. `None` stands for
    /// a missing field or a non-object value, both of which read as null.
    pub fn get<'a>(&'a self, key: &str) -> (r: Option<&'a JsonValue>)
        ensures
            match r {
                Some(f) => f@ == jfield(self@, key@),
                None => jfield(self@, key@) == JsonModel::Null,
            },
    {
        match self {
            JsonValue::Obj(es) => {
                let ghost entries = obj_model(es@);
                proof {
                    assert(entries.skip(0) =~= entries);
                }
                let n: usize = es.len();
                let mut i: usize = 0;
                while i < n
                    invariant
                        i <= n,
                        n == es@.len(),
                        entries == obj_model(es@),
                        self@ == JsonModel::Obj(entries),
                        obj_lookup(entries, key@) == obj_lookup(entries.skip(i as int), key@),
                    decreases n - i,
                {
                    if str_eq(es[i].0.as_str(), key) {
                        proof {
                            assert(entries.skip(i as int)[0] == entries[i as int]);
                            assert(obj_lookup(entries.skip(i as int), key@) == Some(
                                entries[i as int].1,
                            ));
                        }
                        return Some(&es[i].1);
                    }
                    proof {
                        assert(entries.skip(i as int).drop_first() =~= entries.skip(i as int + 1));
                        assert(entries.skip(i as int)[0] == entries[i as int]);
                    }
                    i += 1;
                }
                proof {
                    assert(entries.skip(n as int) =~= Seq::<(Seq<char>, JsonModel)>::empty());
                }
                None
            },
            _ => None,
        }
    }

    /// The borrowed string slice of a string value.
    pub fn as_str(&self) -> (r: Option<&str>)
        ensures
            match r {
                Some(s) => jstr(self@) == Some(s@),
                None => jstr(self@) is None,
            },
    {
        match self {
            JsonValue::Str(s) => Some(s.as_str()),
            _ => None,
        }
    }

    /// The value of an unsigned number that fits `u64`.
    pub fn as_u64(&self) -> (r: Option<u64>)
        ensures
            r == ju64(self@),
    {
        match self {
            JsonValue::UInt(u) => Some(*u),
            _ => None,
        }
    }

    /// The borrowed elements of an array value.
    pub fn as_array(&self) -> (r: Option<&Vec<JsonValue>>)
        ensures
            match r {
                Some(a) => self@ == JsonModel::Arr(arr_model(a@)),
                None => !(self@ is Arr),
            },
    {
        match self {
            JsonValue::Arr(a) => Some(a),
            _ => None,
        }
    }
}

/// What serde_json decodes a line of text into, carried as the library's
/// structured value; `None` where the text is not well-formed JSON.
pub uninterp spec fn decoded(s: Seq<char>) -> Option<JsonModel>;

#[verifier::external_type_specification]
#[verifier::external_body]
pub struct ExSerdeValue(serde_json::Value);

/// Converts a document decoded by serde_json into the library's structured
/// value, variant for variant; a number outside `u64` keeps only the fact
/// that it was a number.
#[verifier::external_body]
fn value_of(v: serde_json::Value) -> JsonValue {
    match v {
        serde_json::Value::Null => JsonValue::Null,
        serde_json::Value::Bool(b) => JsonValue::Bool(b),
        serde_json::Value::Number(n) => match n.as_u64() {
            Some(u) => JsonValue::UInt(u),
            None => JsonValue::NumOther,
        },
        serde_json::Value::String(s) => JsonValue::Str(s),
        serde_json::Value::Array(a) => JsonValue::Arr(a.into_iter().map(value_of).collect()),
        serde_json::Value::Object(m) => JsonValue::Obj(
            m.into_iter().map(|e| (e.0, value_of(e.1))).collect(),
        ),
    }
}

/// Relies on serde_json::from_str: decodes one line of text as a JSON
/// document, failing exactly on text that is not well-formed JSON; the
/// result is a function of the text alone.
#[verifier::external_body]
pub(crate) fn decode_json(line: &str) -> (r: Option<JsonValue>)
    ensures
        match r {
            Some(v) => decoded(line@) == Some(v@),
            None => decoded(line@) is None,
        },
{
    match serde_json::from_str::<serde_json::Value>(line) {
        Ok(v) => Some(value_of(v)),
        Err(_) => None,
    }
}

} // verus!
