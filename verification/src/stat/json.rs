//! Decoding the statistics dump in its JSON form.
//!
//! The document is a list with one item per proxy object. Each item is a
//! field list: the attributes of the object as entries, each with its name
//! and a typed value. An item is pivoted into attributes and then bound like
//! a row of the CSV form. The role comes from the attribute `type`, whose
//! number is turned into text first, so that the discriminants of both forms
//! are read by the same table.

use crate::bind::{
    attribute_views, bound, find_single, lookup, pivot, pivoted, Attribute, BindError,
    BindFailure, Found,
};
use crate::formats::json::{entry_view, Entry, EntryView, Field, Scalar, Tags, Value};
use crate::formats::tree::{EnvelopeError, Json, JsonView};
use crate::outside::{into_tree, json_document, read_document};
use crate::stat::{
    role_of, statistic_views, Role, Schemas, Statistic, StatisticView, Statistics,
};
use crate::text::str_eq;
use vstd::prelude::*;

verus! {

/// One entry of the field list of a proxy object.
#[derive(Debug, Clone, PartialEq, Eq)]
pub struct JsonOutputItem {
    pub obj_type: String,
    pub proxy_id: usize,
    pub id: usize,
    pub field: Field,
    pub process_num: usize,
    pub tags: Tags,
    pub value: Value,
}

/// One entry of the field list of a proxy object, as mathematics sees it.
pub struct ItemView {
    pub obj_type: Seq<char>,
    pub proxy_id: usize,
    pub id: usize,
    pub entry: EntryView,
}

impl View for JsonOutputItem {
    type V = ItemView;

    open spec fn view(&self) -> ItemView {
        ItemView {
            obj_type: self.obj_type@,
            proxy_id: self.proxy_id,
            id: self.id,
            entry: EntryView {
                field: self.field@,
                process_num: self.process_num,
                tags: self.tags@,
                kind: self.value.kind(),
                value: self.value@,
            },
        }
    }
}

/// The field lists of all proxy objects.
#[derive(Debug, Clone, PartialEq, Eq)]
pub struct JsonOutput(pub Vec<Vec<JsonOutputItem>>);

/// The entries `items` as mathematics sees them.
pub open spec fn item_views(items: Seq<JsonOutputItem>) -> Seq<ItemView> {
    Seq::new(items.len(), |i: int| items[i]@)
}

impl View for JsonOutput {
    type V = Seq<Seq<ItemView>>;

    open spec fn view(&self) -> Seq<Seq<ItemView>> {
        Seq::new(self.0@.len(), |i: int| item_views(self.0@[i]@))
    }
}

/// The entry that a JSON value stands for: an entry of a field list that
/// also says, in `objType`, `proxyId` and `id`, which object it belongs to.
pub open spec fn item_view(j: JsonView) -> Option<ItemView> {
    match (j.text_at("objType"@), j.count_at("proxyId"@), j.count_at("id"@), entry_view(j)) {
        (Some(obj_type), Some(proxy_id), Some(id), Some(entry)) => Some(
            ItemView { obj_type, proxy_id, id, entry },
        ),
        _ => None,
    }
}

/// The field list that a JSON value stands for: a list whose items are all
/// entries.
pub open spec fn object_envelope(j: JsonView) -> Option<Seq<ItemView>> {
    match j.as_list() {
        Some(items) => if forall|i: int|
            0 <= i < items.len() ==> item_view(#[trigger] items[i]) is Some {
            Some(Seq::new(items.len(), |i: int| item_view(items[i])->0))
        } else {
            None
        },
        None => None,
    }
}

/// The field lists that a document holds: a list whose items are all field
/// lists.
pub open spec fn stat_envelope(tree: JsonView) -> Option<Seq<Seq<ItemView>>> {
    match tree.as_list() {
        Some(objects) => if forall|i: int|
            0 <= i < objects.len() ==> object_envelope(#[trigger] objects[i]) is Some {
            Some(Seq::new(objects.len(), |i: int| object_envelope(objects[i])->0))
        } else {
            None
        },
        None => None,
    }
}

/// The attribute that an entry gives: its value under the name of its
/// field. The discriminant `type` becomes a text: a number in decimal.
pub open spec fn item_attribute(item: ItemView) -> (Seq<char>, Scalar) {
    (
        item.entry.field.1,
        if item.entry.field.1 == "type"@ {
            Scalar::Text(item.entry.value.text())
        } else {
            item.entry.value
        },
    )
}

/// The attributes that the field list of an object gives, pivoted.
pub open spec fn object_attributes(items: Seq<ItemView>) -> Seq<(Seq<char>, Scalar)> {
    pivoted(Seq::new(items.len(), |i: int| item_attribute(items[i])))
}

/// Why the field list of an object gives no record.
#[derive(Debug, Clone, PartialEq, Eq)]
pub enum ObjectErrorKind {
    /// The object has no attribute `type`.
    TypeMissing,
    /// The attribute `type`, given here, is no known discriminant.
    UnknownType(String),
    /// A field could not be bound.
    Field(BindError),
}

/// The object that gives no record, and why.
#[derive(Debug, Clone, PartialEq, Eq)]
pub struct ObjectError {
    /// Number of the object in the document, counted from 0.
    pub object: usize,
    pub kind: ObjectErrorKind,
}

/// Why the field list of an object gives no record, as mathematics sees it.
pub enum ObjectFault {
    TypeMissing,
    UnknownType(Seq<char>),
    Field(BindFailure),
}

/// The object that gives no record, and why, as mathematics sees it.
pub struct ObjectFailure {
    pub object: int,
    pub fault: ObjectFault,
}

impl View for ObjectErrorKind {
    type V = ObjectFault;

    open spec fn view(&self) -> ObjectFault {
        match self {
            ObjectErrorKind::TypeMissing => ObjectFault::TypeMissing,
            ObjectErrorKind::UnknownType(tag) => ObjectFault::UnknownType(tag@),
            ObjectErrorKind::Field(e) => ObjectFault::Field(e@),
        }
    }
}

impl View for ObjectError {
    type V = ObjectFailure;

    open spec fn view(&self) -> ObjectFailure {
        ObjectFailure { object: self.object as int, fault: self.kind@ }
    }
}

/// Why the JSON form of the dump could not be decoded.
#[derive(Debug)]
pub enum StatisticsFromJsonBytesError {
    /// The bytes are no list of field lists.
    DeOutputFailed(EnvelopeError),
    /// An object gives no record.
    DeFailed(ObjectError),
}

/// The record that attributes give: the role is read from the attribute
/// `type`, then the attributes are bound to the schema of that role.
pub open spec fn decoded_attributes(attrs: Seq<(Seq<char>, Scalar)>) -> Result<
    StatisticView,
    ObjectFault,
> {
    match lookup(attrs, "type"@) {
        Found::Single(Scalar::Text(tag)) => match role_of(tag) {
            Some(role) => match bound(role.fields(), attrs) {
                Ok(slots) => Ok(StatisticView { role, slots }),
                Err(failure) => Err(ObjectFault::Field(failure)),
            },
            None => Err(ObjectFault::UnknownType(tag)),
        },
        _ => Err(ObjectFault::TypeMissing),
    }
}

/// The records that the first `n` objects give, or the first among them
/// that gives none.
pub open spec fn decoded_objects(objects: Seq<Seq<ItemView>>, n: int) -> Result<
    Seq<StatisticView>,
    ObjectFailure,
>
    decreases n,
{
    if n <= 0 {
        Ok(Seq::empty())
    } else {
        match decoded_objects(objects, n - 1) {
            Err(e) => Err(e),
            Ok(done) => match decoded_attributes(object_attributes(objects[n - 1])) {
                Ok(record) => Ok(done.push(record)),
                Err(fault) => Err(ObjectFailure { object: n - 1, fault }),
            },
        }
    }
}

/// What a document of the JSON form gives; `Err(None)` where it is no list
/// of field lists.
pub open spec fn decoded_tree(tree: JsonView) -> Result<Seq<StatisticView>, Option<ObjectFailure>> {
    match stat_envelope(tree) {
        None => Err(None),
        Some(objects) => match decoded_objects(objects, objects.len() as int) {
            Ok(records) => Ok(records),
            Err(failure) => Err(Some(failure)),
        },
    }
}

/// A document that is decoded gives one record for each object, in the order
/// of the objects: each record is what the attributes of its object alone
/// give.
pub proof fn lemma_one_record_per_object(objects: Seq<Seq<ItemView>>, n: int)
    requires
        0 <= n <= objects.len(),
        decoded_objects(objects, n) is Ok,
    ensures
        ({
            let done = decoded_objects(objects, n)->Ok_0;
            &&& done.len() == n
            &&& forall|k: int|
                0 <= k < n ==> decoded_attributes(object_attributes(objects[k])) == Ok::<
                    StatisticView,
                    ObjectFault,
                >(#[trigger] done[k])
        }),
    decreases n,
{
    if n > 0 {
        lemma_one_record_per_object(objects, n - 1);
        let before = decoded_objects(objects, n - 1)->Ok_0;
        let done = decoded_objects(objects, n)->Ok_0;
        assert forall|k: int| 0 <= k < n implies decoded_attributes(
            object_attributes(objects[k]),
        ) == Ok::<StatisticView, ObjectFault>(#[trigger] done[k]) by {
            if k < n - 1 {
                assert(done[k] == before[k]);
            }
        }
    }
}

/// Once an object has failed, the objects after it change nothing.
pub proof fn lemma_objects_failure_stays(objects: Seq<Seq<ItemView>>, n: int, m: int)
    requires
        n <= m,
        decoded_objects(objects, n) is Err,
    ensures
        decoded_objects(objects, m) == decoded_objects(objects, n),
    decreases m - n,
{
    if n < m {
        lemma_objects_failure_stays(objects, n, m - 1);
    }
}

impl JsonOutputItem {
    /// Reads an entry from the object that carries it.
    pub fn from_json(j: &Json) -> (r: Option<JsonOutputItem>)
        ensures
            match r {
                Some(item) => item_view(j@) == Some(item@),
                None => item_view(j@) is None,
            },
    {
        match (j.text_at("objType"), j.count_at("proxyId"), j.count_at("id"), Entry::from_json(j)) {
            (Some(obj_type), Some(proxy_id), Some(id), Some(entry)) => Some(
                JsonOutputItem {
                    obj_type,
                    proxy_id,
                    id,
                    field: entry.field,
                    process_num: entry.process_num,
                    tags: entry.tags,
                    value: entry.value,
                },
            ),
            _ => None,
        }
    }

    /// Reads the field list of one object.
    pub fn list_from_json(j: &Json) -> (r: Option<Vec<JsonOutputItem>>)
        ensures
            match r {
                Some(items) => object_envelope(j@) == Some(item_views(items@)),
                None => object_envelope(j@) is None,
            },
    {
        let items = match j.items() {
            Some(items) => items,
            None => {
                return None;
            },
        };
        let ghost views = j@.as_list()->0;
        let mut out: Vec<JsonOutputItem> = Vec::new();
        let mut i: usize = 0;
        while i < items.len()
            invariant
                i <= items@.len(),
                j@.as_list() == Some(views),
                views.len() == items@.len(),
                forall|k: int| 0 <= k < items@.len() ==> (#[trigger] views[k]) == items@[k]@,
                out@.len() == i,
                forall|k: int| 0 <= k < i ==> item_view(#[trigger] views[k]) == Some(out@[k]@),
            decreases items.len() - i,
        {
            match JsonOutputItem::from_json(&items[i]) {
                Some(item) => {
                    out.push(item);
                },
                None => {
                    proof {
                        assert(item_view(views[i as int]) is None);
                    }
                    return None;
                },
            }
            i += 1;
        }
        proof {
            assert(item_views(out@) =~= Seq::new(views.len(), |i: int| item_view(views[i])->0));
        }
        Some(out)
    }

    /// The attributes that the field list of an object gives, pivoted.
    pub fn attributes(items: Vec<JsonOutputItem>) -> (r: Vec<Attribute>)
        ensures
            attribute_views(r@) == object_attributes(item_views(items@)),
    {
        let ghost given = items@;
        let ghost views = item_views(items@);
        let mut pairs: Vec<Attribute> = Vec::new();
        for item in it: items.into_iter()
            invariant
                it.seq() == given,
                views == item_views(given),
                pairs@.len() == it.index(),
                forall|k: int|
                    0 <= k < it.index() ==> (#[trigger] pairs@[k])@ == item_attribute(views[k]),
        {
            proof {
                assert(views[it.index() as int] == item@);
            }
            let value = if str_eq(item.field.name.as_str(), "type") {
                Value::Str(item.value.value_to_string())
            } else {
                item.value
            };
            pairs.push(Attribute { name: item.field.name, value });
        }
        proof {
            assert(attribute_views(pairs@) =~= Seq::new(
                views.len(),
                |i: int| item_attribute(views[i]),
            ));
        }
        pivot(pairs)
    }
}

impl JsonOutput {
    /// Reads the field lists of all objects from a document.
    pub fn from_tree(tree: &Json) -> (r: Option<JsonOutput>)
        ensures
            match r {
                Some(output) => stat_envelope(tree@) == Some(output@),
                None => stat_envelope(tree@) is None,
            },
    {
        let objects = match tree.items() {
            Some(objects) => objects,
            None => {
                return None;
            },
        };
        let ghost views = tree@.as_list()->0;
        let mut out: Vec<Vec<JsonOutputItem>> = Vec::new();
        let mut i: usize = 0;
        while i < objects.len()
            invariant
                i <= objects@.len(),
                tree@.as_list() == Some(views),
                views.len() == objects@.len(),
                forall|k: int| 0 <= k < objects@.len() ==> (#[trigger] views[k]) == objects@[k]@,
                out@.len() == i,
                forall|k: int|
                    0 <= k < i ==> object_envelope(#[trigger] views[k]) == Some(
                        item_views(out@[k]@),
                    ),
            decreases objects.len() - i,
        {
            match JsonOutputItem::list_from_json(&objects[i]) {
                Some(items) => {
                    out.push(items);
                },
                None => {
                    proof {
                        assert(object_envelope(views[i as int]) is None);
                    }
                    return None;
                },
            }
            i += 1;
        }
        let output = JsonOutput(out);
        proof {
            assert(output@ =~= Seq::new(views.len(), |i: int| object_envelope(views[i])->0));
        }
        Some(output)
    }
}

impl Statistic {
    /// The record that the attributes of an object give: the role is read
    /// from the attribute `type`, then the attributes are bound to the schema
    /// of that role.
    pub fn from_attributes(schemas: &Schemas, attrs: &Vec<Attribute>) -> (r: Result<
        Statistic,
        ObjectErrorKind,
    >)
        ensures
            match r {
                Ok(record) => decoded_attributes(attribute_views(attrs@)) == Ok::<
                    StatisticView,
                    ObjectFault,
                >(record@) && record.wf(),
                Err(e) => decoded_attributes(attribute_views(attrs@)) == Err::<
                    StatisticView,
                    ObjectFault,
                >(e@),
            },
    {
        let tag = match find_single(attrs, "type") {
            Some(Value::Str(tag)) => tag,
            _ => {
                return Err(ObjectErrorKind::TypeMissing);
            },
        };
        let role = match Role::from_tag(tag.as_str()) {
            Some(role) => role,
            None => {
                return Err(ObjectErrorKind::UnknownType(tag.clone()));
            },
        };
        match Statistic::bind(role, schemas, attrs) {
            Ok(record) => Ok(record),
            Err(e) => Err(ObjectErrorKind::Field(e)),
        }
    }
}

impl Statistics {
    /// Decodes a document of the JSON form: reads the field lists, pivots
    /// each into attributes and binds them. The result is one record per
    /// object, in order, or the first object that gives none.
    pub fn from_json_tree(tree: &Json) -> (r: Result<Statistics, StatisticsFromJsonBytesError>)
        ensures
            match r {
                Ok(s) => decoded_tree(tree@) == Ok::<Seq<StatisticView>, Option<ObjectFailure>>(
                    s@,
                ) && s.wf(),
                Err(StatisticsFromJsonBytesError::DeOutputFailed(e)) => decoded_tree(tree@)
                    == Err::<Seq<StatisticView>, Option<ObjectFailure>>(None) && e is Shape,
                Err(StatisticsFromJsonBytesError::DeFailed(e)) => decoded_tree(tree@) == Err::<
                    Seq<StatisticView>,
                    Option<ObjectFailure>,
                >(Some(e@)),
            },
    {
        let output = match JsonOutput::from_tree(tree) {
            Some(output) => output,
            None => {
                return Err(StatisticsFromJsonBytesError::DeOutputFailed(EnvelopeError::Shape));
            },
        };
        let ghost objects = output@;
        let ghost given = output.0@;
        let total: usize = output.0.len();
        let schemas = Schemas::new();
        let mut inner: Vec<Statistic> = Vec::new();
        let mut object: usize = 0;
        proof {
            assert(statistic_views(inner@) =~= Seq::<StatisticView>::empty());
        }
        for items in it: output.0.into_iter()
            invariant
                it.seq() == given,
                given.len() == total,
                stat_envelope(tree@) == Some(objects),
                objects.len() == given.len(),
                forall|k: int|
                    0 <= k < given.len() ==> (#[trigger] objects[k]) == item_views(given[k]@),
                object == it.index(),
                decoded_objects(objects, object as int) == Ok::<
                    Seq<StatisticView>,
                    ObjectFailure,
                >(statistic_views(inner@)),
                forall|i: int| 0 <= i < inner@.len() ==> (#[trigger] inner@[i]).wf(),
        {
            let ghost before = statistic_views(inner@);
            proof {
                assert(objects[object as int] == item_views(items@));
            }
            let attrs = JsonOutputItem::attributes(items);
            match Statistic::from_attributes(&schemas, &attrs) {
                Ok(record) => {
                    inner.push(record);
                    proof {
                        assert(statistic_views(inner@) =~= before.push(record@));
                    }
                },
                Err(kind) => {
                    proof {
                        lemma_objects_failure_stays(objects, object + 1, objects.len() as int);
                    }
                    return Err(
                        StatisticsFromJsonBytesError::DeFailed(ObjectError { object, kind }),
                    );
                },
            }
            object += 1;
        }
        Ok(Statistics(inner))
    }

    /// Decodes the JSON form of the dump. The bytes must be a JSON document;
    /// what the document gives is what [`Statistics::from_json_tree`] says.
    pub fn from_json_bytes(bytes: &[u8]) -> (r: Result<Statistics, StatisticsFromJsonBytesError>)
        ensures
            match r {
                Ok(s) => json_document(bytes@) is Some && decoded_tree(json_document(bytes@)->0)
                    == Ok::<Seq<StatisticView>, Option<ObjectFailure>>(s@) && s.wf(),
                Err(StatisticsFromJsonBytesError::DeOutputFailed(EnvelopeError::Syntax(_))) =>
                    json_document(bytes@) is None,
                Err(StatisticsFromJsonBytesError::DeOutputFailed(EnvelopeError::Shape)) =>
                    json_document(bytes@) is Some && decoded_tree(json_document(bytes@)->0)
                        == Err::<Seq<StatisticView>, Option<ObjectFailure>>(None),
                Err(StatisticsFromJsonBytesError::DeFailed(e)) => json_document(bytes@) is Some
                    && decoded_tree(json_document(bytes@)->0) == Err::<
                    Seq<StatisticView>,
                    Option<ObjectFailure>,
                >(Some(e@)),
            },
    {
        let document = match read_document(bytes) {
            Ok(document) => document,
            Err(e) => {
                return Err(StatisticsFromJsonBytesError::DeOutputFailed(EnvelopeError::Syntax(e)));
            },
        };
        let tree = into_tree(document);
        Statistics::from_json_tree(&tree)
    }
}

} // verus!
