//! Typed binding: turning a list of named, loosely typed attributes into the
//! typed fields of a record, by a fixed schema.
//!
//! Every decoder ends here. A row of the CSV dump is paired with the header
//! into attributes; the field list of the JSON output is pivoted into
//! attributes; the lines of a key/value block are attributes already. A
//! schema names the fields of a record in order, each with the kind of value
//! it holds. Fields are bound one by one in schema order, and the first field
//! that cannot be bound decides the error.

use crate::formats::json::{Scalar, Value};
use crate::text::{count_value, parse_count};
use vstd::prelude::*;

verus! {

/// A named value, as some response carried it.
#[derive(Debug, Clone, PartialEq, Eq)]
pub struct Attribute {
    pub name: String,
    pub value: Value,
}

impl View for Attribute {
    type V = (Seq<char>, Scalar);

    open spec fn view(&self) -> (Seq<char>, Scalar) {
        (self.name@, self.value@)
    }
}

/// The attributes `attrs` as names and scalars.
pub open spec fn attribute_views(attrs: Seq<Attribute>) -> Seq<(Seq<char>, Scalar)> {
    Seq::new(attrs.len(), |i: int| attrs[i]@)
}

/// What a field of a record holds, and whether the record can do without it.
#[derive(Debug, Clone, Copy, PartialEq, Eq, Structural)]
pub enum FieldKind {
    /// A text that must be present.
    Text,
    /// A text that is empty when the attribute is absent.
    TextOrEmpty,
    /// A counter that must be present.
    Count,
    /// A counter that may be absent or sent as an empty text.
    OptCount,
    /// A text that may be absent or empty.
    OptText,
}

/// One field of a schema.
#[derive(Debug, Clone, PartialEq, Eq)]
pub struct FieldDef {
    pub name: String,
    pub kind: FieldKind,
}

impl View for FieldDef {
    type V = (Seq<char>, FieldKind);

    open spec fn view(&self) -> (Seq<char>, FieldKind) {
        (self.name@, self.kind)
    }
}

impl FieldDef {
    /// The field called `name` that holds a `kind`.
    pub fn new(name: &str, kind: FieldKind) -> (r: FieldDef)
        ensures
            r@ == (name@, kind),
    {
        FieldDef { name: name.to_owned(), kind }
    }
}

/// The schema `defs` as names and kinds.
pub open spec fn schema_view(defs: Seq<FieldDef>) -> Seq<(Seq<char>, FieldKind)> {
    Seq::new(defs.len(), |i: int| defs[i]@)
}

/// The typed value of one field.
#[derive(Debug, Clone, PartialEq, Eq)]
pub enum Slot {
    Text(String),
    Count(usize),
    OptCount(Option<usize>),
    OptText(Option<String>),
}

/// The typed value of one field, as mathematics sees it.
pub enum SlotView {
    Text(Seq<char>),
    Count(usize),
    OptCount(Option<usize>),
    OptText(Option<Seq<char>>),
}

impl View for Slot {
    type V = SlotView;

    open spec fn view(&self) -> SlotView {
        match self {
            Slot::Text(s) => SlotView::Text(s@),
            Slot::Count(n) => SlotView::Count(*n),
            Slot::OptCount(n) => SlotView::OptCount(*n),
            Slot::OptText(s) => SlotView::OptText(
                match s {
                    Some(t) => Some(t@),
                    None => None,
                },
            ),
        }
    }
}

/// The slots `slots` as mathematical values.
pub open spec fn slot_views(slots: Seq<Slot>) -> Seq<SlotView> {
    Seq::new(slots.len(), |i: int| slots[i]@)
}

/// Whether a slot is of the shape that fields of kind `kind` have.
pub open spec fn slot_fits(kind: FieldKind, slot: SlotView) -> bool {
    match kind {
        FieldKind::Text | FieldKind::TextOrEmpty => slot is Text,
        FieldKind::Count => slot is Count,
        FieldKind::OptCount => slot is OptCount,
        FieldKind::OptText => slot is OptText,
    }
}

/// Whether `slots` holds one slot of the right shape for each field of
/// `schema`.
pub open spec fn conforms(schema: Seq<(Seq<char>, FieldKind)>, slots: Seq<SlotView>) -> bool {
    &&& slots.len() == schema.len()
    &&& forall|i: int| 0 <= i < schema.len() ==> slot_fits(schema[i].1, #[trigger] slots[i])
}

/// Why a field could not be bound.
#[derive(Debug, Clone, Copy, PartialEq, Eq, Structural)]
pub enum Fault {
    /// No attribute has the field's name, and the field is required.
    Missing,
    /// More than one attribute has the field's name.
    Repeated,
    /// The attribute's value cannot be read as the field's kind.
    Invalid,
}

/// The field that stopped a binding, and why.
#[derive(Debug, Clone, PartialEq, Eq)]
pub struct BindError {
    /// Position of the field in the schema.
    pub index: usize,
    /// Name of the field.
    pub field: String,
    pub fault: Fault,
}

/// The field that stopped a binding, and why, as mathematics sees it.
pub struct BindFailure {
    /// Position of the field in the schema.
    pub index: int,
    /// Name of the field.
    pub field: Seq<char>,
    pub fault: Fault,
}

impl View for BindError {
    type V = BindFailure;

    open spec fn view(&self) -> BindFailure {
        BindFailure { index: self.index as int, field: self.field@, fault: self.fault }
    }
}

/// What a search for a name among attributes finds.
pub enum Found {
    /// No attribute has the name.
    Absent,
    /// Exactly one attribute has the name; this is its value.
    Single(Scalar),
    /// Several attributes have the name.
    Repeated,
}

/// Searches `attrs` for the attributes called `name`.
pub open spec fn lookup(attrs: Seq<(Seq<char>, Scalar)>, name: Seq<char>) -> Found
    decreases attrs.len(),
{
    if attrs.len() == 0 {
        Found::Absent
    } else {
        let before = lookup(attrs.drop_last(), name);
        if attrs.last().0 == name {
            match before {
                Found::Absent => Found::Single(attrs.last().1),
                _ => Found::Repeated,
            }
        } else {
            before
        }
    }
}

/// A search finds nothing exactly when no attribute has the name, and finds
/// a single value exactly when one attribute has the name and holds that
/// value.
pub proof fn lemma_lookup_counts(attrs: Seq<(Seq<char>, Scalar)>, name: Seq<char>)
    ensures
        lookup(attrs, name) is Absent <==> forall|i: int|
            0 <= i < attrs.len() ==> (#[trigger] attrs[i]).0 != name,
        lookup(attrs, name) matches Found::Single(v) ==> exists|i: int|
            {
                &&& 0 <= i < attrs.len()
                &&& (#[trigger] attrs[i]) == (name, v)
                &&& forall|j: int|
                    0 <= j < attrs.len() && j != i ==> (#[trigger] attrs[j]).0 != name
            },
        forall|i: int|
            {
                &&& 0 <= i < attrs.len()
                &&& (#[trigger] attrs[i]).0 == name
                &&& forall|j: int|
                    0 <= j < attrs.len() && j != i ==> (#[trigger] attrs[j]).0 != name
            } ==> lookup(attrs, name) == Found::Single(attrs[i].1),
    decreases attrs.len(),
{
    if attrs.len() > 0 {
        let before = attrs.drop_last();
        let last = attrs.len() - 1;
        lemma_lookup_counts(before, name);
        assert forall|i: int| 0 <= i < before.len() implies (#[trigger] before[i]) == attrs[i] by {}
        if lookup(attrs, name) is Absent {
            assert forall|i: int| 0 <= i < attrs.len() implies (#[trigger] attrs[i]).0 != name by {
                if i < last {
                    assert(before[i].0 != name);
                }
            }
        }
        if forall|i: int| 0 <= i < attrs.len() ==> (#[trigger] attrs[i]).0 != name {
            assert(attrs[last].0 != name);
            assert forall|i: int| 0 <= i < before.len() implies (#[trigger] before[i]).0
                != name by {
                assert(attrs[i].0 != name);
            }
        }
        if let Found::Single(v) = lookup(attrs, name) {
            if attrs.last().0 == name {
                assert(attrs[last] == (name, v));
                assert forall|j: int| 0 <= j < attrs.len() && j != last implies (
                #[trigger] attrs[j]).0 != name by {
                    assert(before[j].0 != name);
                }
            } else {
                let i = choose|i: int|
                    {
                        &&& 0 <= i < before.len()
                        &&& (#[trigger] before[i]) == (name, v)
                        &&& forall|j: int|
                            0 <= j < before.len() && j != i ==> (#[trigger] before[j]).0 != name
                    };
                assert(attrs[i] == (name, v));
                assert forall|j: int| 0 <= j < attrs.len() && j != i implies (
                #[trigger] attrs[j]).0 != name by {
                    if j < last {
                        assert(before[j].0 != name);
                    }
                }
            }
        }
        assert forall|i: int|
            {
                &&& 0 <= i < attrs.len()
                &&& (#[trigger] attrs[i]).0 == name
                &&& forall|j: int|
                    0 <= j < attrs.len() && j != i ==> (#[trigger] attrs[j]).0 != name
            } implies lookup(attrs, name) == Found::Single(attrs[i].1) by {
            if i == last {
                assert forall|k: int| 0 <= k < before.len() implies (#[trigger] before[k]).0
                    != name by {
                    assert(attrs[k].0 != name);
                }
            } else {
                assert(attrs[last].0 != name);
                assert(before[i].0 == name);
                assert forall|j: int| 0 <= j < before.len() && j != i implies (
                #[trigger] before[j]).0 != name by {
                    assert(attrs[j].0 != name);
                }
            }
        }
    }
}

/// The counter that a scalar holds: a number that fits the machine word, or a
/// text that writes one.
pub open spec fn scalar_count(v: Scalar) -> Option<usize> {
    match v {
        Scalar::Int(n) => if 0 <= n <= usize::MAX {
            Some(n as usize)
        } else {
            None
        },
        Scalar::Text(s) => count_value(s),
    }
}

/// The slot that a field of kind `kind` gets from what was found under its
/// name.
pub open spec fn bound_field(kind: FieldKind, found: Found) -> Result<SlotView, Fault> {
    match found {
        Found::Repeated => Err(Fault::Repeated),
        Found::Absent => match kind {
            FieldKind::Text | FieldKind::Count => Err(Fault::Missing),
            FieldKind::TextOrEmpty => Ok(SlotView::Text(Seq::empty())),
            FieldKind::OptCount => Ok(SlotView::OptCount(None)),
            FieldKind::OptText => Ok(SlotView::OptText(None)),
        },
        Found::Single(v) => match kind {
            FieldKind::Text | FieldKind::TextOrEmpty => match v {
                Scalar::Text(s) => Ok(SlotView::Text(s)),
                Scalar::Int(_) => Err(Fault::Invalid),
            },
            FieldKind::Count => match scalar_count(v) {
                Some(n) => Ok(SlotView::Count(n)),
                None => Err(Fault::Invalid),
            },
            FieldKind::OptCount => if v == Scalar::Text(Seq::empty()) {
                Ok(SlotView::OptCount(None))
            } else {
                match scalar_count(v) {
                    Some(n) => Ok(SlotView::OptCount(Some(n))),
                    None => Err(Fault::Invalid),
                }
            },
            FieldKind::OptText => match v {
                Scalar::Text(s) => Ok(
                    SlotView::OptText(
                        if s.len() == 0 {
                            None
                        } else {
                            Some(s)
                        },
                    ),
                ),
                Scalar::Int(_) => Err(Fault::Invalid),
            },
        },
    }
}

/// Binds the first `n` fields of `schema`: their slots in order, or the first
/// field that fails.
pub open spec fn bound_prefix(
    schema: Seq<(Seq<char>, FieldKind)>,
    attrs: Seq<(Seq<char>, Scalar)>,
    n: int,
) -> Result<Seq<SlotView>, BindFailure>
    decreases n,
{
    if n <= 0 {
        Ok(Seq::empty())
    } else {
        match bound_prefix(schema, attrs, n - 1) {
            Err(e) => Err(e),
            Ok(slots) => match bound_field(schema[n - 1].1, lookup(attrs, schema[n - 1].0)) {
                Ok(slot) => Ok(slots.push(slot)),
                Err(fault) => Err(BindFailure { index: n - 1, field: schema[n - 1].0, fault }),
            },
        }
    }
}

/// Binds `attrs` to the fields of `schema`.
pub open spec fn bound(schema: Seq<(Seq<char>, FieldKind)>, attrs: Seq<(Seq<char>, Scalar)>)
    -> Result<Seq<SlotView>, BindFailure> {
    bound_prefix(schema, attrs, schema.len() as int)
}

/// A binding that succeeds gives each field of the schema a slot of its kind.
pub proof fn lemma_bound_conforms(
    schema: Seq<(Seq<char>, FieldKind)>,
    attrs: Seq<(Seq<char>, Scalar)>,
    n: int,
)
    requires
        0 <= n <= schema.len(),
        bound_prefix(schema, attrs, n) is Ok,
    ensures
        conforms(schema.take(n), bound_prefix(schema, attrs, n)->Ok_0),
    decreases n,
{
    if n > 0 {
        lemma_bound_conforms(schema, attrs, n - 1);
        let before = bound_prefix(schema, attrs, n - 1)->Ok_0;
        let slots = bound_prefix(schema, attrs, n)->Ok_0;
        assert forall|i: int| 0 <= i < n implies slot_fits(
            schema.take(n)[i].1,
            #[trigger] slots[i],
        ) by {
            if i < n - 1 {
                assert(slots[i] == before[i]);
                assert(schema.take(n - 1)[i] == schema.take(n)[i]);
            }
        }
    }
}

/// A binding that fails names a field of the schema, and every field before
/// it could be bound.
pub proof fn lemma_bound_failure(
    schema: Seq<(Seq<char>, FieldKind)>,
    attrs: Seq<(Seq<char>, Scalar)>,
    n: int,
)
    requires
        0 <= n <= schema.len(),
        bound_prefix(schema, attrs, n) is Err,
    ensures
        ({
            let e = bound_prefix(schema, attrs, n)->Err_0;
            &&& 0 <= e.index < n
            &&& e.field == schema[e.index].0
            &&& bound_prefix(schema, attrs, e.index) is Ok
            &&& bound_field(schema[e.index].1, lookup(attrs, schema[e.index].0)) == Err::<
                SlotView,
                Fault,
            >(e.fault)
        }),
    decreases n,
{
    if n > 0 {
        if bound_prefix(schema, attrs, n - 1) is Err {
            lemma_bound_failure(schema, attrs, n - 1);
        }
    }
}

/// The first `n` fields are bound exactly when each of them can be bound,
/// and then each has the slot that it alone is bound to.
proof fn lemma_bound_prefix_by_field(
    schema: Seq<(Seq<char>, FieldKind)>,
    attrs: Seq<(Seq<char>, Scalar)>,
    n: int,
)
    requires
        0 <= n <= schema.len(),
    ensures
        bound_prefix(schema, attrs, n) is Ok <==> forall|i: int|
            0 <= i < n ==> bound_field(#[trigger] schema[i].1, lookup(attrs, schema[i].0)) is Ok,
        bound_prefix(schema, attrs, n) matches Ok(slots) ==> {
            &&& slots.len() == n
            &&& forall|i: int|
                0 <= i < n ==> bound_field(schema[i].1, lookup(attrs, schema[i].0)) == Ok::<
                    SlotView,
                    Fault,
                >(#[trigger] slots[i])
        },
    decreases n,
{
    if n > 0 {
        lemma_bound_prefix_by_field(schema, attrs, n - 1);
        if bound_prefix(schema, attrs, n - 1) is Err {
            lemma_bound_failure(schema, attrs, n - 1);
            let k = bound_prefix(schema, attrs, n - 1)->Err_0.index;
            assert(!(bound_field(schema[k].1, lookup(attrs, schema[k].0)) is Ok));
        } else if bound_prefix(schema, attrs, n) is Err {
            assert(!(bound_field(schema[n - 1].1, lookup(attrs, schema[n - 1].0)) is Ok));
        }
    }
}

/// A binding succeeds exactly when every field of the schema can be bound,
/// and then holds for each field what that field alone is bound to.
pub proof fn lemma_bound_by_field(
    schema: Seq<(Seq<char>, FieldKind)>,
    attrs: Seq<(Seq<char>, Scalar)>,
)
    ensures
        bound(schema, attrs) is Ok <==> forall|i: int|
            0 <= i < schema.len() ==> bound_field(
                #[trigger] schema[i].1,
                lookup(attrs, schema[i].0),
            ) is Ok,
        bound(schema, attrs) matches Ok(slots) ==> {
            &&& slots.len() == schema.len()
            &&& forall|i: int|
                0 <= i < schema.len() ==> bound_field(schema[i].1, lookup(attrs, schema[i].0))
                    == Ok::<SlotView, Fault>(#[trigger] slots[i])
        },
{
    lemma_bound_prefix_by_field(schema, attrs, schema.len() as int);
}

/// Binding goes by name alone: two lists of attributes in which every name
/// of the schema finds the same are bound to the same, whatever their order
/// and whatever else they hold. This is why the forms of a response that
/// carry the same attributes give the same record.
pub proof fn lemma_bound_same_lookups(
    schema: Seq<(Seq<char>, FieldKind)>,
    a: Seq<(Seq<char>, Scalar)>,
    b: Seq<(Seq<char>, Scalar)>,
)
    requires
        forall|i: int|
            0 <= i < schema.len() ==> lookup(a, #[trigger] schema[i].0) == lookup(b, schema[i].0),
    ensures
        bound(schema, a) == bound(schema, b),
{
    lemma_bound_prefix_same_lookups(schema, a, b, schema.len() as int);
}

/// The first `n` fields are bound to the same from two lists of attributes
/// in which their names find the same.
proof fn lemma_bound_prefix_same_lookups(
    schema: Seq<(Seq<char>, FieldKind)>,
    a: Seq<(Seq<char>, Scalar)>,
    b: Seq<(Seq<char>, Scalar)>,
    n: int,
)
    requires
        0 <= n <= schema.len(),
        forall|i: int| 0 <= i < n ==> lookup(a, #[trigger] schema[i].0) == lookup(b, schema[i].0),
    ensures
        bound_prefix(schema, a, n) == bound_prefix(schema, b, n),
    decreases n,
{
    if n > 0 {
        lemma_bound_prefix_same_lookups(schema, a, b, n - 1);
        assert(lookup(a, schema[n - 1].0) == lookup(b, schema[n - 1].0));
    }
}

/// What the search for `name` among `attrs` finds: nothing, the position of
/// the only attribute of that name, or that there are several.
enum Hit {
    Absent,
    Single(usize),
    Repeated,
}

impl Hit {
    /// What the hit stands for among `attrs`.
    spec fn found(self, attrs: Seq<(Seq<char>, Scalar)>) -> Found {
        match self {
            Hit::Absent => Found::Absent,
            Hit::Single(i) => Found::Single(attrs[i as int].1),
            Hit::Repeated => Found::Repeated,
        }
    }
}

/// Searches `attrs` for the attributes called `name`.
fn search(attrs: &[Attribute], name: &String) -> (r: Hit)
    ensures
        r.found(attribute_views(attrs@)) == lookup(attribute_views(attrs@), name@),
        r matches Hit::Single(i) ==> i < attrs@.len(),
{
    let ghost all = attribute_views(attrs@);
    let mut hit = Hit::Absent;
    let mut i: usize = 0;
    proof {
        assert(all.take(0) =~= Seq::<(Seq<char>, Scalar)>::empty());
    }
    while i < attrs.len()
        invariant
            i <= attrs@.len(),
            all == attribute_views(attrs@),
            hit.found(all) == lookup(all.take(i as int), name@),
            hit matches Hit::Single(k) ==> k < i,
        decreases attrs.len() - i,
    {
        proof {
            assert(all.take(i + 1).drop_last() =~= all.take(i as int));
            assert(all.take(i + 1).last() == attrs@[i as int]@);
        }
        if attrs[i].name == *name {
            hit = match hit {
                Hit::Absent => Hit::Single(i),
                _ => Hit::Repeated,
            };
        }
        i += 1;
    }
    proof {
        assert(all.take(attrs@.len() as int) =~= all);
    }
    hit
}

/// The value of the only attribute called `name`, if exactly one is called
/// so.
pub fn find_single<'a>(attrs: &'a Vec<Attribute>, name: &str) -> (r: Option<&'a Value>)
    ensures
        match r {
            Some(v) => lookup(attribute_views(attrs@), name@) == Found::Single(v@),
            None => !(lookup(attribute_views(attrs@), name@) is Single),
        },
{
    let wanted = name.to_owned();
    match search(attrs.as_slice(), &wanted) {
        Hit::Single(i) => {
            proof {
                assert(attribute_views(attrs@)[i as int] == attrs@[i as int]@);
            }
            Some(&attrs[i].value)
        },
        _ => None,
    }
}

/// The counter that `value` holds, if it holds one.
pub fn value_count(value: &Value) -> (r: Option<usize>)
    ensures
        r == scalar_count(value@),
{
    match value {
        Value::S32(v) => if *v >= 0 {
            Some(*v as usize)
        } else {
            None
        },
        Value::S64(v) => if *v >= 0 && (*v as u64) <= usize::MAX as u64 {
            Some(*v as usize)
        } else {
            None
        },
        Value::U32(v) => Some(*v as usize),
        Value::U64(v) => if *v <= usize::MAX as u64 {
            Some(*v as usize)
        } else {
            None
        },
        Value::Str(s) => parse_count(s.as_str()),
    }
}

/// Binds one field: searches `attrs` for `def`'s name and reads the value
/// found as `def`'s kind.
pub fn bind_field(def: &FieldDef, attrs: &[Attribute]) -> (r: Result<Slot, Fault>)
    ensures
        match r {
            Ok(slot) => bound_field(def.kind, lookup(attribute_views(attrs@), def.name@)) == Ok::<
                SlotView,
                Fault,
            >(slot@),
            Err(fault) => bound_field(def.kind, lookup(attribute_views(attrs@), def.name@))
                == Err::<SlotView, Fault>(fault),
        },
{
    match search(attrs, &def.name) {
        Hit::Repeated => Err(Fault::Repeated),
        Hit::Absent => match def.kind {
            FieldKind::Text | FieldKind::Count => Err(Fault::Missing),
            FieldKind::TextOrEmpty => Ok(Slot::Text(String::new())),
            FieldKind::OptCount => Ok(Slot::OptCount(None)),
            FieldKind::OptText => Ok(Slot::OptText(None)),
        },
        Hit::Single(i) => {
            let value = &attrs[i].value;
            match def.kind {
                FieldKind::Text | FieldKind::TextOrEmpty => match value {
                    Value::Str(s) => Ok(Slot::Text(s.clone())),
                    _ => Err(Fault::Invalid),
                },
                FieldKind::Count => match value_count(value) {
                    Some(n) => Ok(Slot::Count(n)),
                    None => Err(Fault::Invalid),
                },
                FieldKind::OptCount => {
                    let empty = match value {
                        Value::Str(s) => s.as_str().is_empty(),
                        _ => false,
                    };
                    if empty {
                        proof {
                            assert(value@->Text_0 =~= Seq::<char>::empty());
                        }
                        Ok(Slot::OptCount(None))
                    } else {
                        match value_count(value) {
                            Some(n) => Ok(Slot::OptCount(Some(n))),
                            None => Err(Fault::Invalid),
                        }
                    }
                },
                FieldKind::OptText => match value {
                    Value::Str(s) => if s.as_str().is_empty() {
                        Ok(Slot::OptText(None))
                    } else {
                        Ok(Slot::OptText(Some(s.clone())))
                    },
                    _ => Err(Fault::Invalid),
                },
            }
        },
    }
}

/// Binds `attrs` to the fields of `schema`, in schema order. The result is
/// one slot per field, or the first field that cannot be bound.
pub fn bind(schema: &[FieldDef], attrs: &[Attribute]) -> (r: Result<Vec<Slot>, BindError>)
    ensures
        match r {
            Ok(slots) => {
                &&& bound(schema_view(schema@), attribute_views(attrs@)) == Ok::<
                    Seq<SlotView>,
                    BindFailure,
                >(slot_views(slots@))
                &&& conforms(schema_view(schema@), slot_views(slots@))
            },
            Err(e) => {
                &&& bound(schema_view(schema@), attribute_views(attrs@)) == Err::<
                    Seq<SlotView>,
                    BindFailure,
                >(e@)
                &&& e.index < schema@.len()
            },
        },
{
    let ghost fields = schema_view(schema@);
    let ghost given = attribute_views(attrs@);
    let mut slots: Vec<Slot> = Vec::new();
    let mut i: usize = 0;
    proof {
        assert(slot_views(slots@) =~= Seq::<SlotView>::empty());
    }
    while i < schema.len()
        invariant
            i <= schema@.len(),
            fields == schema_view(schema@),
            given == attribute_views(attrs@),
            bound_prefix(fields, given, i as int) == Ok::<Seq<SlotView>, BindFailure>(
                slot_views(slots@),
            ),
        decreases schema.len() - i,
    {
        let ghost before = slot_views(slots@);
        match bind_field(&schema[i], attrs) {
            Ok(slot) => {
                slots.push(slot);
                proof {
                    assert(slot_views(slots@) =~= before.push(slot@));
                }
            },
            Err(fault) => {
                proof {
                    assert(fields[i as int] == schema@[i as int]@);
                    lemma_failure_stays(fields, given, i + 1, fields.len() as int);
                }
                return Err(BindError { index: i, field: schema[i].name.clone(), fault });
            },
        }
        i += 1;
    }
    proof {
        lemma_bound_conforms(fields, given, fields.len() as int);
        assert(fields.take(fields.len() as int) =~= fields);
    }
    Ok(slots)
}

/// Once a field has failed, binding more fields fails in the same way.
proof fn lemma_failure_stays(
    schema: Seq<(Seq<char>, FieldKind)>,
    attrs: Seq<(Seq<char>, Scalar)>,
    n: int,
    m: int,
)
    requires
        0 <= n <= m,
        bound_prefix(schema, attrs, n) is Err,
    ensures
        bound_prefix(schema, attrs, m) == bound_prefix(schema, attrs, n),
    decreases m - n,
{
    if n < m {
        lemma_failure_stays(schema, attrs, n, m - 1);
    }
}

impl Slot {
    /// The text in a text slot.
    pub(crate) fn text(&self) -> (r: String)
        requires
            self@ is Text,
        ensures
            r@ == self@->Text_0,
    {
        match self {
            Slot::Text(s) => s.clone(),
            _ => String::new(),
        }
    }

    /// The counter in a counter slot.
    pub(crate) fn count(&self) -> (r: usize)
        requires
            self@ is Count,
        ensures
            r == self@->Count_0,
    {
        match self {
            Slot::Count(n) => *n,
            _ => 0,
        }
    }

    /// The counter in an optional counter slot.
    pub(crate) fn opt_count(&self) -> (r: Option<usize>)
        requires
            self@ is OptCount,
        ensures
            r == self@->OptCount_0,
    {
        match self {
            Slot::OptCount(n) => *n,
            _ => None,
        }
    }

    /// The text in an optional text slot.
    pub(crate) fn opt_text(&self) -> (r: Option<String>)
        requires
            self@ is OptText,
        ensures
            r is Some <==> self@->OptText_0 is Some,
            r matches Some(s) ==> s@ == self@->OptText_0->0,
    {
        match self {
            Slot::OptText(Some(s)) => Some(s.clone()),
            _ => None,
        }
    }
}

/// The position of the first of `attrs` that is called `name`.
pub open spec fn index_of(attrs: Seq<(Seq<char>, Scalar)>, name: Seq<char>) -> Option<int>
    decreases attrs.len(),
{
    if attrs.len() == 0 {
        None
    } else {
        match index_of(attrs.drop_last(), name) {
            Some(i) => Some(i),
            None => if attrs.last().0 == name {
                Some(attrs.len() - 1)
            } else {
                None
            },
        }
    }
}

/// `attrs` with `entry` put in: in the place of the attribute of the same
/// name if there is one, at the end otherwise.
pub open spec fn upserted(attrs: Seq<(Seq<char>, Scalar)>, entry: (Seq<char>, Scalar)) -> Seq<
    (Seq<char>, Scalar),
> {
    match index_of(attrs, entry.0) {
        Some(i) => attrs.update(i, entry),
        None => attrs.push(entry),
    }
}

/// The entries of a field list pivoted into attributes: every name once, in
/// the order in which the names first come, each with the value that came
/// last under it.
pub open spec fn pivoted(entries: Seq<(Seq<char>, Scalar)>) -> Seq<(Seq<char>, Scalar)>
    decreases entries.len(),
{
    if entries.len() == 0 {
        Seq::empty()
    } else {
        upserted(pivoted(entries.drop_last()), entries.last())
    }
}

/// The value that came last under `name` among `entries`.
pub open spec fn last_value(entries: Seq<(Seq<char>, Scalar)>, name: Seq<char>) -> Option<Scalar>
    decreases entries.len(),
{
    if entries.len() == 0 {
        None
    } else if entries.last().0 == name {
        Some(entries.last().1)
    } else {
        last_value(entries.drop_last(), name)
    }
}

/// Whether no name comes twice among `attrs`.
pub open spec fn single_valued(attrs: Seq<(Seq<char>, Scalar)>) -> bool {
    forall|name: Seq<char>| !(#[trigger] lookup(attrs, name) is Repeated)
}

/// The first place of a name holds that name, and there is one exactly when
/// the name finds something.
proof fn lemma_index_of_bounds(attrs: Seq<(Seq<char>, Scalar)>, name: Seq<char>)
    ensures
        index_of(attrs, name) matches Some(i) ==> 0 <= i < attrs.len() && attrs[i].0 == name,
        index_of(attrs, name) is None <==> lookup(attrs, name) is Absent,
    decreases attrs.len(),
{
    if attrs.len() > 0 {
        lemma_index_of_bounds(attrs.drop_last(), name);
    }
}

/// Attributes among which no name comes twice stay so without their last.
proof fn lemma_single_valued_prefix(attrs: Seq<(Seq<char>, Scalar)>)
    requires
        attrs.len() > 0,
        single_valued(attrs),
    ensures
        single_valued(attrs.drop_last()),
{
    assert forall|name: Seq<char>| !(#[trigger] lookup(attrs.drop_last(), name) is Repeated) by {
        assert(!(lookup(attrs, name) is Repeated));
    }
}

/// Replacing the value of an attribute changes what its name finds, and
/// nothing else.
proof fn lemma_lookup_update(
    attrs: Seq<(Seq<char>, Scalar)>,
    at: int,
    entry: (Seq<char>, Scalar),
    name: Seq<char>,
)
    requires
        single_valued(attrs),
        0 <= at < attrs.len(),
        attrs[at].0 == entry.0,
    ensures
        lookup(attrs.update(at, entry), name) == (if name == entry.0 {
            Found::Single(entry.1)
        } else {
            lookup(attrs, name)
        }),
    decreases attrs.len(),
{
    let after = attrs.update(at, entry);
    let last = attrs.len() - 1;
    assert(!(lookup(attrs, name) is Repeated));
    if at == last {
        assert(after.drop_last() =~= attrs.drop_last());
    } else {
        lemma_single_valued_prefix(attrs);
        lemma_lookup_update(attrs.drop_last(), at, entry, name);
        assert(after.drop_last() =~= attrs.drop_last().update(at, entry));
        assert(after.last() == attrs.last());
        if attrs.last().0 == name && name == entry.0 {
            lemma_index_of_bounds(attrs.drop_last(), name);
            assert(attrs.drop_last()[at].0 == name);
            assert(index_of(attrs.drop_last(), name) is Some) by {
                lemma_index_of_finds(attrs.drop_last(), name, at);
            }
        }
    }
}

/// A name that some attribute has is found.
proof fn lemma_index_of_finds(attrs: Seq<(Seq<char>, Scalar)>, name: Seq<char>, at: int)
    requires
        0 <= at < attrs.len(),
        attrs[at].0 == name,
    ensures
        index_of(attrs, name) is Some,
    decreases attrs.len(),
{
    if at < attrs.len() - 1 {
        lemma_index_of_finds(attrs.drop_last(), name, at);
    }
}

/// Pivoting is building a map: among the pivoted attributes every name
/// comes once, and finds the value that came last under it.
pub proof fn lemma_pivoted_lookup(entries: Seq<(Seq<char>, Scalar)>, name: Seq<char>)
    ensures
        single_valued(pivoted(entries)),
        lookup(pivoted(entries), name) == (match last_value(entries, name) {
            Some(v) => Found::Single(v),
            None => Found::Absent,
        }),
    decreases entries.len(),
{
    if entries.len() == 0 {
        assert forall|other: Seq<char>| !(#[trigger] lookup(pivoted(entries), other)
            is Repeated) by {}
    } else {
        let before = pivoted(entries.drop_last());
        let entry = entries.last();
        lemma_pivoted_lookup(entries.drop_last(), name);
        assert forall|other: Seq<char>| #[trigger]
            lookup(upserted(before, entry), other) == (if other == entry.0 {
                Found::Single(entry.1)
            } else {
                lookup(before, other)
            }) by {
            lemma_index_of_bounds(before, entry.0);
            match index_of(before, entry.0) {
                Some(at) => {
                    lemma_lookup_update(before, at, entry, other);
                },
                None => {
                    assert(before.push(entry).drop_last() =~= before);
                },
            }
        }
        assert forall|other: Seq<char>| !(#[trigger] lookup(pivoted(entries), other)
            is Repeated) by {
            assert(!(lookup(before, other) is Repeated));
        }
    }
}

/// The position of the first of `attrs` that is called `name`.
fn find_attribute(attrs: &Vec<Attribute>, name: &String) -> (r: Option<usize>)
    ensures
        match r {
            Some(i) => index_of(attribute_views(attrs@), name@) == Some(i as int) && i
                < attrs@.len(),
            None => index_of(attribute_views(attrs@), name@) is None,
        },
{
    let ghost all = attribute_views(attrs@);
    let mut i: usize = 0;
    proof {
        assert(all.take(0) =~= Seq::<(Seq<char>, Scalar)>::empty());
    }
    while i < attrs.len()
        invariant
            i <= attrs@.len(),
            all == attribute_views(attrs@),
            index_of(all.take(i as int), name@) is None,
        decreases attrs.len() - i,
    {
        proof {
            assert(all.take(i + 1).drop_last() =~= all.take(i as int));
            assert(all.take(i + 1).last() == attrs@[i as int]@);
        }
        if attrs[i].name == *name {
            proof {
                lemma_index_of_stays(all, name@, i + 1, all.len() as int);
                assert(all.take(all.len() as int) =~= all);
            }
            return Some(i);
        }
        i += 1;
    }
    proof {
        assert(all.take(all.len() as int) =~= all);
    }
    None
}

/// A name found among the first attributes is found at the same place among
/// more.
proof fn lemma_index_of_stays(attrs: Seq<(Seq<char>, Scalar)>, name: Seq<char>, n: int, m: int)
    requires
        0 <= n <= m <= attrs.len(),
        index_of(attrs.take(n), name) is Some,
    ensures
        index_of(attrs.take(m), name) == index_of(attrs.take(n), name),
    decreases m - n,
{
    if n < m {
        lemma_index_of_stays(attrs, name, n, m - 1);
        assert(attrs.take(m).drop_last() =~= attrs.take(m - 1));
    }
}

/// Pivots the entries of a field list into attributes: every name once, each
/// with the value that came last under it.
pub fn pivot(entries: Vec<Attribute>) -> (r: Vec<Attribute>)
    ensures
        attribute_views(r@) == pivoted(attribute_views(entries@)),
{
    let ghost given = entries@;
    let ghost all = attribute_views(entries@);
    let mut out: Vec<Attribute> = Vec::new();
    proof {
        assert(all.take(0) =~= Seq::<(Seq<char>, Scalar)>::empty());
        assert(attribute_views(out@) =~= Seq::<(Seq<char>, Scalar)>::empty());
    }
    for entry in it: entries.into_iter()
        invariant
            it.seq() == given,
            all == attribute_views(given),
            attribute_views(out@) == pivoted(all.take(it.index() as int)),
    {
        let ghost before = attribute_views(out@);
        proof {
            let i = it.index() as int;
            assert(all.take(i + 1).drop_last() =~= all.take(i));
            assert(all.take(i + 1).last() == entry@);
        }
        match find_attribute(&out, &entry.name) {
            Some(at) => {
                out.set(at, entry);
                proof {
                    assert(attribute_views(out@) =~= before.update(at as int, entry@));
                }
            },
            None => {
                out.push(entry);
                proof {
                    assert(attribute_views(out@) =~= before.push(entry@));
                }
            },
        }
    }
    proof {
        assert(all.take(all.len() as int) =~= all);
    }
    out
}

} // verus!
