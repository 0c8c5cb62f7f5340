//! The typed values of the JSON output: every attribute is sent as a field
//! description, a few tags and a value that names its own type.

use crate::formats::tree::{Json, JsonView};
use crate::text::{decimal, signed_to_string, str_eq, unsigned_to_string};
use vstd::prelude::*;

verus! {

/// Which attribute an entry describes.
#[derive(Debug, Clone, PartialEq, Eq)]
pub struct Field {
    /// Position of the attribute in the sender's table.
    pub pos: usize,
    /// Name of the attribute.
    pub name: String,
}

/// How the sender classifies an attribute.
#[derive(Debug, Clone, PartialEq, Eq)]
pub struct Tags {
    pub origin: String,
    pub nature: String,
    pub scope: String,
}

/// A value together with the type that the sender gave it.
#[derive(Debug, Clone, PartialEq, Eq)]
pub enum Value {
    S32(i32),
    S64(i64),
    U32(u32),
    U64(u64),
    Str(String),
}

/// What a value says once its wire type is forgotten: a number or a text.
pub enum Scalar {
    Int(int),
    Text(Seq<char>),
}

impl View for Field {
    type V = (usize, Seq<char>);

    open spec fn view(&self) -> (usize, Seq<char>) {
        (self.pos, self.name@)
    }
}

impl View for Tags {
    type V = (Seq<char>, Seq<char>, Seq<char>);

    open spec fn view(&self) -> (Seq<char>, Seq<char>, Seq<char>) {
        (self.origin@, self.nature@, self.scope@)
    }
}

impl View for Value {
    type V = Scalar;

    open spec fn view(&self) -> Scalar {
        match self {
            Value::S32(v) => Scalar::Int(*v as int),
            Value::S64(v) => Scalar::Int(*v as int),
            Value::U32(v) => Scalar::Int(*v as int),
            Value::U64(v) => Scalar::Int(*v as int),
            Value::Str(v) => Scalar::Text(v@),
        }
    }
}

impl Scalar {
    /// The text of the value: a number in decimal, a text as it is.
    pub open spec fn text(self) -> Seq<char> {
        match self {
            Scalar::Int(n) => decimal(n),
            Scalar::Text(s) => s,
        }
    }
}

impl Value {
    /// The name of the wire type that the value was sent with.
    pub open spec fn kind(&self) -> Seq<char> {
        match self {
            Value::S32(_) => "s32"@,
            Value::S64(_) => "s64"@,
            Value::U32(_) => "u32"@,
            Value::U64(_) => "u64"@,
            Value::Str(_) => "str"@,
        }
    }

    /// The number, if it was sent as a signed 32-bit one.
    pub fn as_i32(&self) -> (r: Option<i32>)
        ensures
            r == (match *self {
                Value::S32(v) => Some(v),
                _ => None,
            }),
    {
        match self {
            Value::S32(v) => Some(*v),
            _ => None,
        }
    }

    /// The number, if it was sent as a signed one of either width.
    pub fn as_i64(&self) -> (r: Option<i64>)
        ensures
            r == (match *self {
                Value::S32(v) => Some(v as i64),
                Value::S64(v) => Some(v),
                _ => None,
            }),
    {
        match self {
            Value::S32(v) => Some(*v as i64),
            Value::S64(v) => Some(*v),
            _ => None,
        }
    }

    /// The number, if it was sent as an unsigned 32-bit one.
    pub fn as_u32(&self) -> (r: Option<u32>)
        ensures
            r == (match *self {
                Value::U32(v) => Some(v),
                _ => None,
            }),
    {
        match self {
            Value::U32(v) => Some(*v),
            _ => None,
        }
    }

    /// The number, if it was sent as an unsigned one of either width.
    pub fn as_u64(&self) -> (r: Option<u64>)
        ensures
            r == (match *self {
                Value::U32(v) => Some(v as u64),
                Value::U64(v) => Some(v),
                _ => None,
            }),
    {
        match self {
            Value::U32(v) => Some(*v as u64),
            Value::U64(v) => Some(*v),
            _ => None,
        }
    }

    /// The text, if the value was sent as one.
    pub fn as_str(&self) -> (r: Option<&str>)
        ensures
            self is Str <==> r is Some,
            r matches Some(s) ==> self@ == Scalar::Text(s@),
    {
        match self {
            Value::Str(v) => Some(v.as_str()),
            _ => None,
        }
    }

    /// The value as text: a number in decimal, a text unchanged.
    pub fn value_to_string(&self) -> (r: String)
        ensures
            r@ == self@.text(),
    {
        match self {
            Value::S32(v) => signed_to_string(*v as i64),
            Value::S64(v) => signed_to_string(*v),
            Value::U32(v) => unsigned_to_string(*v as u64),
            Value::U64(v) => unsigned_to_string(*v),
            Value::Str(v) => v.clone(),
        }
    }
}

/// One entry of a field list, as mathematics sees it.
pub struct EntryView {
    pub field: (usize, Seq<char>),
    pub process_num: usize,
    pub tags: (Seq<char>, Seq<char>, Seq<char>),
    /// The name of the value's wire type.
    pub kind: Seq<char>,
    pub value: Scalar,
}

/// Whether `n` is in the range of the wire type called `kind`.
pub open spec fn in_range(kind: Seq<char>, n: int) -> bool {
    if kind == "s32"@ {
        i32::MIN <= n <= i32::MAX
    } else if kind == "s64"@ {
        i64::MIN <= n <= i64::MAX
    } else if kind == "u32"@ {
        0 <= n <= u32::MAX
    } else if kind == "u64"@ {
        0 <= n <= u64::MAX
    } else {
        false
    }
}

/// The typed value that a JSON value stands for: an object whose `type`
/// names a wire type and whose `value` is of that type.
pub open spec fn typed_value(j: JsonView) -> Option<(Seq<char>, Scalar)> {
    match (j.text_at("type"@), j.get("value"@)) {
        (Some(kind), Some(v)) => if kind == "str"@ {
            match v.as_text() {
                Some(s) => Some((kind, Scalar::Text(s))),
                None => None,
            }
        } else {
            match v.as_integer() {
                Some(n) => if in_range(kind, n) {
                    Some((kind, Scalar::Int(n)))
                } else {
                    None
                },
                None => None,
            }
        },
        _ => None,
    }
}

/// The field description that a JSON value stands for: an object with a
/// position `pos` and a `name`.
pub open spec fn field_view(j: JsonView) -> Option<(usize, Seq<char>)> {
    match (j.count_at("pos"@), j.text_at("name"@)) {
        (Some(pos), Some(name)) => Some((pos, name)),
        _ => None,
    }
}

/// The tags that a JSON value stands for: an object with the texts `origin`,
/// `nature` and `scope`.
pub open spec fn tags_view(j: JsonView) -> Option<(Seq<char>, Seq<char>, Seq<char>)> {
    match (j.text_at("origin"@), j.text_at("nature"@), j.text_at("scope"@)) {
        (Some(origin), Some(nature), Some(scope)) => Some((origin, nature, scope)),
        _ => None,
    }
}

/// The entry that a JSON value stands for: an object with the members
/// `field`, `processNum`, `tags` and `value`, each of its own shape. Other
/// members are not looked at.
pub open spec fn entry_view(j: JsonView) -> Option<EntryView> {
    match (j.get("field"@), j.count_at("processNum"@), j.get("tags"@), j.get("value"@)) {
        (Some(f), Some(process_num), Some(t), Some(v)) => match (
            field_view(f),
            tags_view(t),
            typed_value(v),
        ) {
            (Some(field), Some(tags), Some(typed)) => Some(
                EntryView { field, process_num, tags, kind: typed.0, value: typed.1 },
            ),
            _ => None,
        },
        _ => None,
    }
}

/// One entry of a field list.
#[derive(Debug, Clone, PartialEq, Eq)]
pub struct Entry {
    pub field: Field,
    pub process_num: usize,
    pub tags: Tags,
    pub value: Value,
}

impl View for Entry {
    type V = EntryView;

    open spec fn view(&self) -> EntryView {
        EntryView {
            field: self.field@,
            process_num: self.process_num,
            tags: self.tags@,
            kind: self.value.kind(),
            value: self.value@,
        }
    }
}

impl Value {
    /// Reads a typed value from the object that carries it.
    pub fn from_json(j: &Json) -> (r: Option<Value>)
        ensures
            match r {
                Some(v) => typed_value(j@) == Some((v.kind(), v@)),
                None => typed_value(j@) is None,
            },
    {
        let kind = match j.text_at("type") {
            Some(kind) => kind,
            None => {
                return None;
            },
        };
        let v = match j.get("value") {
            Some(v) => v,
            None => {
                return None;
            },
        };
        if str_eq(kind.as_str(), "str") {
            return match v.text() {
                Some(s) => Some(Value::Str(s.clone())),
                None => None,
            };
        }
        let n = match v.integer() {
            Some(n) => n,
            None => {
                return None;
            },
        };
        if str_eq(kind.as_str(), "s32") {
            if -2147483648 <= n && n <= 2147483647 {
                Some(Value::S32(n as i32))
            } else {
                None
            }
        } else if str_eq(kind.as_str(), "s64") {
            if -9223372036854775808 <= n && n <= 9223372036854775807 {
                Some(Value::S64(n as i64))
            } else {
                None
            }
        } else if str_eq(kind.as_str(), "u32") {
            if 0 <= n && n <= 4294967295 {
                Some(Value::U32(n as u32))
            } else {
                None
            }
        } else if str_eq(kind.as_str(), "u64") {
            if 0 <= n && n <= 18446744073709551615 {
                Some(Value::U64(n as u64))
            } else {
                None
            }
        } else {
            None
        }
    }
}

impl Field {
    /// Reads a field description from the object that carries it.
    pub fn from_json(j: &Json) -> (r: Option<Field>)
        ensures
            match r {
                Some(f) => field_view(j@) == Some(f@),
                None => field_view(j@) is None,
            },
    {
        match (j.count_at("pos"), j.text_at("name")) {
            (Some(pos), Some(name)) => Some(Field { pos, name }),
            _ => None,
        }
    }
}

impl Tags {
    /// Reads tags from the object that carries them.
    pub fn from_json(j: &Json) -> (r: Option<Tags>)
        ensures
            match r {
                Some(t) => tags_view(j@) == Some(t@),
                None => tags_view(j@) is None,
            },
    {
        match (j.text_at("origin"), j.text_at("nature"), j.text_at("scope")) {
            (Some(origin), Some(nature), Some(scope)) => Some(Tags { origin, nature, scope }),
            _ => None,
        }
    }
}

impl Entry {
    /// Reads an entry from the object that carries it.
    pub fn from_json(j: &Json) -> (r: Option<Entry>)
        ensures
            match r {
                Some(e) => entry_view(j@) == Some(e@),
                None => entry_view(j@) is None,
            },
    {
        let field = match j.get("field") {
            Some(f) => Field::from_json(f),
            None => None,
        };
        let process_num = j.count_at("processNum");
        let tags = match j.get("tags") {
            Some(t) => Tags::from_json(t),
            None => None,
        };
        let value = match j.get("value") {
            Some(v) => Value::from_json(v),
            None => None,
        };
        match (field, process_num, tags, value) {
            (Some(field), Some(process_num), Some(tags), Some(value)) => Some(
                Entry { field, process_num, tags, value },
            ),
            _ => None,
        }
    }
}

} // verus!
