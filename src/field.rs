//! Field types and field entries of a document schema.
use vstd::prelude::*;

use crate::json::Json;
use crate::text::chars_of;
use vstd::string::StringExecFns;

verus! {

broadcast use vstd::std_specs::vec::group_vec_axioms;

/// The longest field name, in characters.
pub const MAX_FIELD_NAME_LEN: usize = 64;

/// Why a schema item was refused.
#[derive(Clone, Debug, PartialEq, Eq)]
pub enum SchemaError {
    /// The field name breaks the naming rules.
    FieldName(String),
    /// A field value does not match its declared type.
    FieldValue(String),
}

/// Type of a field: a basic type, or a composite of field types.
#[derive(Debug, PartialEq)]
pub enum FieldType {
    /// Unsigned 64-bit integer.
    U64,
    /// Signed 64-bit integer.
    I64,
    /// 64-bit floating point number.
    F64,
    /// 32-bit floating point number.
    F32,
    /// 16-bit bfloat16 floating point number.
    Bf16,
    /// Binary data.
    Bytes,
    /// UTF-8 text.
    Text,
    /// Boolean.
    Bool,
    /// Any JSON value.
    Json,
    /// Array: no type for any values, one type for all elements, or one
    /// type for each position.
    Array(Vec<FieldType>),
    /// Map from text keys to values of the given types, one entry per key.
    Dict(Vec<(String, FieldType)>),
    /// A value of the inner type, or null.
    Nullable(Box<FieldType>),
}

/// How `{:?}` writes a string: quoted, with escapes.
pub uninterp spec fn debug_text(s: Seq<char>) -> Seq<char>;

/// Relies on the `Debug` formatting of `str`: the quoted, escaped form of
/// the text, which depends on the text alone.
#[verifier::external_body]
fn debug_str(s: &str) -> (r: String)
    ensures
        r@ == debug_text(s@),
{
    format!("{:?}", s)
}

/// How a field type is written: its variant name, with the element types of
/// an array in brackets, the entries of a map in braces, and the inner type of
/// a nullable type, in the notation `Array([U64])`, `Map({"key": Text})`,
/// `Option(Bool)`.
pub open spec fn type_text(t: FieldType) -> Seq<char>
    decreases t, 0nat,
{
    match t {
        FieldType::U64 => "U64"@,
        FieldType::I64 => "I64"@,
        FieldType::F64 => "F64"@,
        FieldType::F32 => "F32"@,
        FieldType::Bf16 => "Bf16"@,
        FieldType::Bytes => "Bytes"@,
        FieldType::Text => "Text"@,
        FieldType::Bool => "Bool"@,
        FieldType::Json => "Json"@,
        FieldType::Array(ts) => "Array(["@ + list_text(ts, ts.len() as nat) + "])"@,
        FieldType::Dict(es) => "Map({"@ + entries_text(es, es.len() as nat) + "})"@,
        FieldType::Nullable(b) => "Option("@ + type_text(*b) + ")"@,
    }
}

/// The first `n` types of `ts`, written and separated by `", "`.
pub open spec fn list_text(ts: Vec<FieldType>, n: nat) -> Seq<char>
    decreases ts, n,
{
    if n == 0 || n > ts.len() {
        seq![]
    } else if n == 1 {
        type_text(ts[0])
    } else {
        list_text(ts, (n - 1) as nat) + ", "@ + type_text(ts[n - 1])
    }
}

/// The first `n` entries of `es`, each as `"key": type`, separated by `", "`.
pub open spec fn entries_text(es: Vec<(String, FieldType)>, n: nat) -> Seq<char>
    decreases es, n,
{
    if n == 0 || n > es.len() {
        seq![]
    } else if n == 1 {
        debug_text(es[0].0@) + ": "@ + type_text(es[0].1)
    } else {
        entries_text(es, (n - 1) as nat) + ", "@ + debug_text(es[n - 1].0@) + ": "@ + type_text(
            es[n - 1].1,
        )
    }
}

/// A value of one of the field types. Floating point numbers are held as
/// their IEEE 754 bit patterns; a map holds its entries in order, one per key.
#[derive(Debug, PartialEq)]
pub enum FieldValue {
    U64(u64),
    I64(i64),
    /// Bits of a 64-bit float.
    F64(u64),
    /// Bits of a 32-bit float.
    F32(u32),
    /// Bits of a bfloat16.
    Bf16(u16),
    Bytes(Vec<u8>),
    Text(String),
    Bool(bool),
    Array(Vec<FieldValue>),
    Dict(Vec<(String, FieldValue)>),
    Json(Json),
    Null,
}

/// The position of the first entry with key `k` among the first `n`, or -1.
pub open spec fn key_index(vs: Seq<(String, FieldValue)>, k: Seq<char>, n: int) -> int
    decreases n,
{
    if n <= 0 {
        -1
    } else if key_index(vs, k, n - 1) >= 0 {
        key_index(vs, k, n - 1)
    } else if vs[n - 1].0@ == k {
        n - 1
    } else {
        -1
    }
}

/// Whether some type entry has key `k`.
pub open spec fn has_type_key(ts: Seq<(String, FieldType)>, k: Seq<char>) -> bool {
    exists|i: int| 0 <= i < ts.len() && (#[trigger] ts[i]).0@ == k
}

/// Whether a value matches a type: the variant that belongs to the type;
/// for an array type with no element type any elements, with one type every
/// element of it, with several one element of each type in order; for a map
/// type only keys it names, and under each key it names a matching value, or
/// a missing value where null matches; for a nullable type null or a match of
/// the inner type.
pub open spec fn conforms(t: FieldType, v: FieldValue) -> bool
    decreases t, 0nat,
{
    match (t, v) {
        (FieldType::U64, FieldValue::U64(_)) => true,
        (FieldType::I64, FieldValue::I64(_)) => true,
        (FieldType::F64, FieldValue::F64(_)) => true,
        (FieldType::F32, FieldValue::F32(_)) => true,
        (FieldType::Bf16, FieldValue::Bf16(_)) => true,
        (FieldType::Bytes, FieldValue::Bytes(_)) => true,
        (FieldType::Text, FieldValue::Text(_)) => true,
        (FieldType::Bool, FieldValue::Bool(_)) => true,
        (FieldType::Json, FieldValue::Json(_)) => true,
        (FieldType::Array(ts), FieldValue::Array(vs)) => if ts.len() == 0 {
            true
        } else if ts.len() == 1 {
            all_conform(ts, vs, vs.len() as nat)
        } else {
            vs.len() == ts.len() && each_conforms(ts, vs, ts.len() as nat)
        },
        (FieldType::Dict(ts), FieldValue::Dict(vs)) => (forall|i: int|
            0 <= i < vs.len() ==> has_type_key(ts@, (#[trigger] vs[i]).0@)) && entries_conform(
            ts,
            vs,
            ts.len() as nat,
        ),
        (FieldType::Nullable(inner), v) => v is Null || conforms(*inner, v),
        _ => false,
    }
}

/// The first `n` values all match the one element type of `ts`.
pub open spec fn all_conform(ts: Vec<FieldType>, vs: Vec<FieldValue>, n: nat) -> bool
    decreases ts, n,
{
    if n == 0 || n > vs.len() || ts.len() == 0 {
        true
    } else {
        all_conform(ts, vs, (n - 1) as nat) && conforms(ts[0], vs[n - 1])
    }
}

/// The first `n` values each match the type at their position.
pub open spec fn each_conforms(ts: Vec<FieldType>, vs: Vec<FieldValue>, n: nat) -> bool
    decreases ts, n,
{
    if n == 0 || n > ts.len() || n > vs.len() {
        true
    } else {
        each_conforms(ts, vs, (n - 1) as nat) && conforms(ts[n - 1], vs[n - 1])
    }
}

/// Under each of the first `n` type keys, the value matches its type; a
/// missing value counts as null.
pub open spec fn entries_conform(ts: Vec<(String, FieldType)>, vs: Vec<(String, FieldValue)>, n: nat) -> bool
    decreases ts, n,
{
    if n == 0 || n > ts.len() {
        true
    } else {
        let j = key_index(vs@, ts[n - 1].0@, vs.len() as int);
        entries_conform(ts, vs, (n - 1) as nat) && if j >= 0 {
            conforms(ts[n - 1].1, vs[j].1)
        } else {
            conforms(ts[n - 1].1, FieldValue::Null)
        }
    }
}

proof fn lemma_all_conform(ts: Vec<FieldType>, vs: Vec<FieldValue>, n: nat, k: int)
    requires
        all_conform(ts, vs, n),
        0 <= k < n <= vs.len(),
        ts.len() > 0,
    ensures
        conforms(ts[0], vs[k]),
    decreases n,
{
    if k < n - 1 {
        lemma_all_conform(ts, vs, (n - 1) as nat, k);
    }
}

proof fn lemma_each_conforms(ts: Vec<FieldType>, vs: Vec<FieldValue>, n: nat, k: int)
    requires
        each_conforms(ts, vs, n),
        0 <= k < n <= ts.len(),
        n <= vs.len(),
    ensures
        conforms(ts[k], vs[k]),
    decreases n,
{
    if k < n - 1 {
        lemma_each_conforms(ts, vs, (n - 1) as nat, k);
    }
}

proof fn lemma_entries_conform(ts: Vec<(String, FieldType)>, vs: Vec<(String, FieldValue)>, n: nat, k: int)
    requires
        entries_conform(ts, vs, n),
        0 <= k < n <= ts.len(),
    ensures
        ({
            let j = key_index(vs@, ts[k].0@, vs.len() as int);
            if j >= 0 {
                conforms(ts[k].1, vs[j].1)
            } else {
                conforms(ts[k].1, FieldValue::Null)
            }
        }),
    decreases n,
{
    if k < n - 1 {
        lemma_entries_conform(ts, vs, (n - 1) as nat, k);
    }
}

proof fn lemma_key_index_first(vs: Seq<(String, FieldValue)>, k: Seq<char>, j: int, n: int)
    requires
        0 <= j < n <= vs.len(),
        vs[j].0@ == k,
        key_index(vs, k, j) == -1,
    ensures
        key_index(vs, k, n) == j,
    decreases n - j,
{
    if n > j + 1 {
        lemma_key_index_first(vs, k, j, n - 1);
    }
}

proof fn lemma_key_index_none(vs: Seq<(String, FieldValue)>, k: Seq<char>, n: int)
    requires
        0 <= n <= vs.len(),
        forall|b: int| 0 <= b < n ==> (#[trigger] vs[b]).0@ != k,
    ensures
        key_index(vs, k, n) == -1,
    decreases n,
{
    if n > 0 {
        lemma_key_index_none(vs, k, n - 1);
    }
}

proof fn lemma_key_index_bounds(vs: Seq<(String, FieldValue)>, k: Seq<char>, n: int)
    requires
        0 <= n <= vs.len(),
    ensures
        -1 <= key_index(vs, k, n) < n,
        key_index(vs, k, n) >= 0 ==> vs[key_index(vs, k, n)].0@ == k,
        key_index(vs, k, n) < 0 ==> forall|i: int| 0 <= i < n ==> (#[trigger] vs[i]).0@ != k,
    decreases n,
{
    if n > 0 {
        lemma_key_index_bounds(vs, k, n - 1);
    }
}

/// Relies on `format!`: a message that names the expected type and the value.
#[verifier::external_body]
fn mismatch_message(expected: &str, value: &FieldValue) -> String {
    format!("expected type {}, got value {:?}", expected, value)
}

/// Relies on `format!`: a message that names two array lengths.
#[verifier::external_body]
fn length_mismatch_message(expected: usize, got: usize) -> String {
    format!("invalid array length, expected {:?}, got {:?}", expected, got)
}

/// Relies on `format!`: a message that names a map key.
#[verifier::external_body]
fn key_message(key: &str) -> String {
    format!("invalid map key {:?}", key)
}

/// Relies on `format!`: a message that names a map key and the inner error.
#[verifier::external_body]
fn key_value_message(key: &str, inner: &str) -> String {
    format!("invalid map value at key {:?}, error: {}", key, inner)
}

/// Relies on `format!`: a message that names a field and its error.
#[verifier::external_body]
fn field_message(name: &str, what: &str, detail: &str) -> String {
    format!("field {} is {}, {}", name, what, detail)
}

/// The text of an error.
fn error_text(e: &SchemaError) -> &str {
    match e {
        SchemaError::FieldName(m) => m.as_str(),
        SchemaError::FieldValue(m) => m.as_str(),
    }
}

/// A character allowed in a field name.
pub open spec fn is_name_char(c: char) -> bool {
    ('a' <= c && c <= 'z') || ('0' <= c && c <= '9') || c == '_'
}

/// A field name: 1 to 64 lower-case letters, digits and underscores.
pub open spec fn is_valid_field_name(s: Seq<char>) -> bool {
    &&& 0 < s.len() <= MAX_FIELD_NAME_LEN
    &&& forall|i: int| 0 <= i < s.len() ==> is_name_char(#[trigger] s[i])
}

/// Relies on `format!`: a message that names the length of a field name.
#[verifier::external_body]
fn length_message(n: usize) -> String {
    format!("string length {} exceeds the limit {}", n, MAX_FIELD_NAME_LEN)
}

/// Relies on `format!`: a message that names a refused character.
#[verifier::external_body]
fn character_message(c: char, s: &str) -> String {
    format!("Invalid character {:?} in {:?}", c, s)
}

/// Checks the naming rules of a field name.
pub fn validate_field_name(s: &str) -> (r: Result<(), SchemaError>)
    ensures
        r is Ok <==> is_valid_field_name(s@),
        r matches Err(e) ==> e is FieldName,
{
    broadcast use vstd::string::group_string_axioms;
    let cs = chars_of(s);
    if cs.len() == 0 {
        return Err(SchemaError::FieldName("empty string".to_string()));
    }
    if cs.len() > MAX_FIELD_NAME_LEN {
        return Err(SchemaError::FieldName(length_message(cs.len())));
    }
    for i in 0..cs.len()
        invariant
            cs@ == s@,
            forall|j: int| 0 <= j < i ==> is_name_char(#[trigger] s@[j]),
    {
        let c = cs[i];
        if !(('a' <= c && c <= 'z') || ('0' <= c && c <= '9') || c == '_') {
            return Err(SchemaError::FieldName(character_message(c, s)));
        }
    }
    Ok(())
}

impl FieldType {
    /// Checks that a value matches this type, as `conforms` says.
    pub fn validate(&self, value: &FieldValue) -> (r: Result<(), SchemaError>)
        ensures
            r is Ok <==> conforms(*self, *value),
            r matches Err(e) ==> e is FieldValue,
        decreases self,
    {
        let ok = match self {
            FieldType::U64 => matches!(value, FieldValue::U64(_)),
            FieldType::I64 => matches!(value, FieldValue::I64(_)),
            FieldType::F64 => matches!(value, FieldValue::F64(_)),
            FieldType::F32 => matches!(value, FieldValue::F32(_)),
            FieldType::Bf16 => matches!(value, FieldValue::Bf16(_)),
            FieldType::Bytes => matches!(value, FieldValue::Bytes(_)),
            FieldType::Text => matches!(value, FieldValue::Text(_)),
            FieldType::Bool => matches!(value, FieldValue::Bool(_)),
            FieldType::Json => matches!(value, FieldValue::Json(_)),
            FieldType::Array(ts) => match value {
                FieldValue::Array(vs) => {
                    return self.validate_array(ts, vs);
                },
                _ => false,
            },
            FieldType::Dict(ts) => match value {
                FieldValue::Dict(vs) => {
                    return self.validate_dict(ts, vs);
                },
                _ => false,
            },
            FieldType::Nullable(inner) => {
                if matches!(value, FieldValue::Null) {
                    return Ok(());
                }
                proof {
                    let ghost tv = *self;
                    assert(decreases_to!(tv => *inner));
                }
                return inner.validate(value);
            },
        };
        if ok {
            Ok(())
        } else {
            let expected = self.describe();
            Err(SchemaError::FieldValue(mismatch_message(expected.as_str(), value)))
        }
    }

    fn validate_array(&self, ts: &Vec<FieldType>, vs: &Vec<FieldValue>) -> (r: Result<(), SchemaError>)
        requires
            *self == FieldType::Array(*ts),
        ensures
            r is Ok <==> conforms(*self, FieldValue::Array(*vs)),
            r matches Err(e) ==> e is FieldValue,
        decreases self, 0nat,
    {
        if ts.len() == 0 {
            return Ok(());
        }
        if ts.len() == 1 {
            let mut i: usize = 0;
            while i < vs.len()
                invariant
                    *self == FieldType::Array(*ts),
                    ts.len() == 1,
                    i <= vs.len(),
                    all_conform(*ts, *vs, i as nat),
                decreases vs.len() - i,
            {
                proof {
                    let ghost tv = *self;
                    assert(decreases_to!(tv => tv->Array_0[0]));
                }
                match ts[0].validate(&vs[i]) {
                    Ok(()) => {},
                    Err(e) => {
                        proof {
                            if conforms(*self, FieldValue::Array(*vs)) {
                                lemma_all_conform(*ts, *vs, vs.len() as nat, i as int);
                            }
                        }
                        return Err(e);
                    },
                }
                i = i + 1;
            }
            return Ok(());
        }
        if vs.len() != ts.len() {
            return Err(SchemaError::FieldValue(length_mismatch_message(ts.len(), vs.len())));
        }
        let mut i: usize = 0;
        while i < ts.len()
            invariant
                *self == FieldType::Array(*ts),
                ts.len() == vs.len(),
                ts.len() > 1,
                i <= ts.len(),
                each_conforms(*ts, *vs, i as nat),
            decreases ts.len() - i,
        {
            proof {
                let ghost tv = *self;
                assert(decreases_to!(tv => tv->Array_0[i as int]));
            }
            match ts[i].validate(&vs[i]) {
                Ok(()) => {},
                Err(e) => {
                    proof {
                        if conforms(*self, FieldValue::Array(*vs)) {
                            lemma_each_conforms(*ts, *vs, ts.len() as nat, i as int);
                        }
                    }
                    return Err(e);
                },
            }
            i = i + 1;
        }
        Ok(())
    }

    fn validate_dict(&self, ts: &Vec<(String, FieldType)>, vs: &Vec<(String, FieldValue)>) -> (r:
        Result<(), SchemaError>)
        requires
            *self == FieldType::Dict(*ts),
        ensures
            r is Ok <==> conforms(*self, FieldValue::Dict(*vs)),
            r matches Err(e) ==> e is FieldValue,
        decreases self, 0nat,
    {
        let mut i: usize = 0;
        while i < vs.len()
            invariant
                *self == FieldType::Dict(*ts),
                i <= vs.len(),
                forall|a: int| 0 <= a < i ==> has_type_key(ts@, (#[trigger] vs[a]).0@),
            decreases vs.len() - i,
        {
            let mut j: usize = 0;
            let mut found = false;
            while j < ts.len()
                invariant
                    j <= ts.len(),
                    i < vs.len(),
                    found ==> has_type_key(ts@, vs[i as int].0@),
                    !found ==> forall|b: int| 0 <= b < j ==> (#[trigger] ts[b]).0@ != vs[i as int].0@,
                decreases ts.len() - j,
            {
                if ts[j].0 == vs[i].0 {
                    found = true;
                    assert(ts@[j as int].0@ == vs[i as int].0@);
                }
                j = j + 1;
            }
            if !found {
                assert(!has_type_key(ts@, vs[i as int].0@));
                return Err(SchemaError::FieldValue(key_message(vs[i].0.as_str())));
            }
            i = i + 1;
        }
        let null = FieldValue::Null;
        let mut n: usize = 0;
        while n < ts.len()
            invariant
                *self == FieldType::Dict(*ts),
                null == FieldValue::Null,
                n <= ts.len(),
                forall|a: int| 0 <= a < vs.len() ==> has_type_key(ts@, (#[trigger] vs[a]).0@),
                entries_conform(*ts, *vs, n as nat),
            decreases ts.len() - n,
        {
            let mut j: usize = 0;
            let mut at: usize = vs.len();
            proof {
                lemma_key_index_bounds(vs@, ts[n as int].0@, vs.len() as int);
            }
            while j < vs.len() && at == vs.len()
                invariant
                    j <= vs.len(),
                    at <= vs.len(),
                    n < ts.len(),
                    at == vs.len() ==> key_index(vs@, ts[n as int].0@, j as int) == -1,
                    at < vs.len() ==> at == key_index(vs@, ts[n as int].0@, vs.len() as int),
                    key_index(vs@, ts[n as int].0@, j as int) == -1 ==> forall|b: int|
                        0 <= b < j ==> (#[trigger] vs[b]).0@ != ts[n as int].0@,
                decreases vs.len() - j,
            {
                proof {
                    lemma_key_index_bounds(vs@, ts[n as int].0@, j as int);
                    lemma_key_index_bounds(vs@, ts[n as int].0@, vs.len() as int);
                }
                if vs[j].0 == ts[n].0 {
                    at = j;
                    proof {
                        lemma_key_index_first(vs@, ts[n as int].0@, j as int, vs.len() as int);
                    }
                }
                j = j + 1;
            }
            proof {
                let ghost tv = *self;
                assert(decreases_to!(tv => tv->Dict_0[n as int]));
                assert(decreases_to!(tv->Dict_0[n as int] => tv->Dict_0[n as int].1));
                if at == vs.len() {
                    lemma_key_index_none(vs@, ts[n as int].0@, vs.len() as int);
                }
            }
            let checked = if at < vs.len() {
                ts[n].1.validate(&vs[at].1)
            } else {
                ts[n].1.validate(&null)
            };
            let ghost key_at = key_index(vs@, ts[n as int].0@, vs.len() as int);
            proof {
                if at < vs.len() {
                    assert(key_at == at as int);
                } else {
                    assert(key_at == -1);
                }
            }
            match checked {
                Ok(()) => {
                    proof {
                        if at < vs.len() {
                            assert(conforms(ts[n as int].1, vs[key_at].1));
                        } else {
                            assert(conforms(ts[n as int].1, FieldValue::Null));
                        }
                        assert(entries_conform(*ts, *vs, (n + 1) as nat));
                    }
                },
                Err(e) => {
                    proof {
                        if conforms(*self, FieldValue::Dict(*vs)) {
                            lemma_entries_conform(*ts, *vs, ts.len() as nat, n as int);
                        }
                    }
                    return Err(
                        SchemaError::FieldValue(key_value_message(ts[n].0.as_str(), error_text(&e))),
                    );
                },
            }
            n = n + 1;
        }
        Ok(())
    }

    /// Writes the type as `type_text` says.
    pub fn describe(&self) -> (r: String)
        ensures
            r@ == type_text(*self),
        decreases self,
    {
        broadcast use vstd::string::group_string_axioms;
        match self {
            FieldType::U64 => {
                let r = String::from_str("U64");
                r
            },
            FieldType::I64 => String::from_str("I64"),
            FieldType::F64 => String::from_str("F64"),
            FieldType::F32 => String::from_str("F32"),
            FieldType::Bf16 => String::from_str("Bf16"),
            FieldType::Bytes => String::from_str("Bytes"),
            FieldType::Text => String::from_str("Text"),
            FieldType::Bool => String::from_str("Bool"),
            FieldType::Json => String::from_str("Json"),
            FieldType::Array(ts) => {
                let mut out = String::from_str("Array([");
                let mut i: usize = 0;
                while i < ts.len()
                    invariant
                        i <= ts.len(),
                        *self == FieldType::Array(*ts),
                        out@ == "Array(["@ + list_text(*ts, i as nat),
                    decreases ts.len() - i,
                {
                    if i > 0 {
                        out.append(", ");
                    }
                    proof {
                        let ghost tv = *self;
                        assert(decreases_to!(tv => tv->Array_0[i as int]));
                        assert(tv->Array_0[i as int] == ts[i as int]);
                    }
                    let t = ts[i].describe();
                    out.append(t.as_str());
                    i = i + 1;
                    assert(out@ =~= "Array(["@ + list_text(*ts, i as nat));
                }
                out.append("])");
                out
            },
            FieldType::Dict(es) => {
                let mut out = String::from_str("Map({");
                let mut i: usize = 0;
                while i < es.len()
                    invariant
                        i <= es.len(),
                        *self == FieldType::Dict(*es),
                        out@ == "Map({"@ + entries_text(*es, i as nat),
                    decreases es.len() - i,
                {
                    if i > 0 {
                        out.append(", ");
                    }
                    let k = debug_str(es[i].0.as_str());
                    out.append(k.as_str());
                    out.append(": ");
                    proof {
                        let ghost tv = *self;
                        assert(decreases_to!(tv => tv->Dict_0[i as int]));
                        assert(decreases_to!(tv->Dict_0[i as int] => tv->Dict_0[i as int].1));
                        assert(tv->Dict_0[i as int].1 == es[i as int].1);
                    }
                    let t = es[i].1.describe();
                    out.append(t.as_str());
                    i = i + 1;
                    assert(out@ =~= "Map({"@ + entries_text(*es, i as nat));
                }
                out.append("})");
                out
            },
            FieldType::Nullable(b) => {
                let mut out = String::from_str("Option(");
                let t = b.describe();
                out.append(t.as_str());
                out.append(")");
                out
            },
        }
    }
}

/// A field of a document schema: its name, description, type, constraints
/// and position among the fields.
#[derive(Debug, PartialEq)]
pub struct FieldEntry {
    name: String,
    description: String,
    field_type: FieldType,
    required: bool,
    unique: bool,
    idx: usize,
}

/// What a field entry holds.
pub struct FieldEntryView {
    pub name: Seq<char>,
    pub description: Seq<char>,
    pub field_type: FieldType,
    pub required: bool,
    pub unique: bool,
    pub idx: usize,
}

impl View for FieldEntry {
    type V = FieldEntryView;

    closed spec fn view(&self) -> FieldEntryView {
        FieldEntryView {
            name: self.name@,
            description: self.description@,
            field_type: self.field_type,
            required: self.required,
            unique: self.unique,
            idx: self.idx,
        }
    }
}

impl FieldEntry {
    /// A field with a valid name, an empty description, no constraints and
    /// position 0.
    pub fn new(name: String, field_type: FieldType) -> (r: Result<FieldEntry, SchemaError>)
        ensures
            r is Ok <==> is_valid_field_name(name@),
            r matches Err(e) ==> e is FieldName,
            r matches Ok(f) ==> f@.name == name@ && f@.description.len() == 0 && f@.field_type
                == field_type && !f@.required && !f@.unique && f@.idx == 0,
    {
        match validate_field_name(name.as_str()) {
            Err(e) => Err(e),
            Ok(()) => Ok(
                FieldEntry {
                    name,
                    description: String::new(),
                    field_type,
                    required: false,
                    unique: false,
                    idx: 0,
                },
            ),
        }
    }

    /// The same field with the given description.
    pub fn with_description(self, description: String) -> (r: FieldEntry)
        ensures
            r@ == (FieldEntryView { description: description@, ..self@ }),
    {
        FieldEntry { description, ..self }
    }

    /// The same field, marked as required (never null).
    pub fn with_required(self) -> (r: FieldEntry)
        ensures
            r@ == (FieldEntryView { required: true, ..self@ }),
    {
        FieldEntry { required: true, ..self }
    }

    /// The same field, marked as unique within its collection.
    pub fn with_unique(self) -> (r: FieldEntry)
        ensures
            r@ == (FieldEntryView { unique: true, ..self@ }),
    {
        FieldEntry { unique: true, ..self }
    }

    /// The same field at the given position.
    pub fn with_idx(self, idx: usize) -> (r: FieldEntry)
        ensures
            r@ == (FieldEntryView { idx, ..self@ }),
    {
        FieldEntry { idx, ..self }
    }

    /// The field name.
    pub fn name(&self) -> (r: &str)
        ensures
            r@ == self@.name,
    {
        self.name.as_str()
    }

    /// The field description.
    pub fn description(&self) -> (r: &str)
        ensures
            r@ == self@.description,
    {
        self.description.as_str()
    }

    /// The field type.
    pub fn field_type(&self) -> (r: &FieldType)
        ensures
            *r == self@.field_type,
    {
        &self.field_type
    }

    /// Whether the field may not be null.
    pub fn required(&self) -> (r: bool)
        ensures
            r == self@.required,
    {
        self.required
    }

    /// Whether the field value must be unique within its collection.
    pub fn unique(&self) -> (r: bool)
        ensures
            r == self@.unique,
    {
        self.unique
    }

    /// Checks a value against this field: null is accepted exactly when the
    /// field is not required; any other value must match the field type.
    pub fn validate(&self, value: &FieldValue) -> (r: Result<(), SchemaError>)
        ensures
            r is Ok <==> if *value is Null {
                !self@.required
            } else {
                conforms(self@.field_type, *value)
            },
            r matches Err(e) ==> e is FieldValue,
    {
        if matches!(value, FieldValue::Null) {
            if self.required {
                let mut detail = String::from_str("expected type ");
                let t = self.field_type.describe();
                detail.append(t.as_str());
                return Err(
                    SchemaError::FieldValue(
                        field_message(self.name.as_str(), "required", detail.as_str()),
                    ),
                );
            }
            return Ok(());
        }
        match self.field_type.validate(value) {
            Ok(()) => Ok(()),
            Err(e) => {
                let mut detail = String::from_str("error: ");
                detail.append(error_text(&e));
                Err(
                    SchemaError::FieldValue(
                        field_message(self.name.as_str(), "invalid", detail.as_str()),
                    ),
                )
            },
        }
    }

    /// The position of the field among the fields of its schema.
    pub fn idx(&self) -> (r: usize)
        ensures
            r == self@.idx,
    {
        self.idx
    }
}

} // verus!
