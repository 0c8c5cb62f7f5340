//! The description of the server process, as `show info` prints it.
//!
//! In the key/value form every line is `Name: value`. In the JSON form every
//! attribute is an entry of a flat field list. Either way the attributes are
//! bound to the schema of [`Info`]; three of its fields are then read by
//! other crates: the version, the release date and the uptime.

use crate::bind::{
    attribute_views, bind, bound, conforms, schema_view, slot_views, Attribute, BindError,
    BindFailure, FieldDef, FieldKind, Slot, SlotView,
};
use crate::bind::{pivot, pivoted};
use crate::formats::json::{entry_view, Entry, EntryView, Field, Scalar, Tags, Value};
use crate::formats::tree::{EnvelopeError, Json, JsonView};
use crate::lines::{decoded_lines, line_views, read_lines};
use crate::outside::{
    chrono_date, duration_span, into_tree, json_document, parse_date, parse_duration,
    parse_version, read_document, semver_version,
};
use crate::text::{after_first, before_first, replace_first, replaced_first, split_first, str_eq};
use vstd::prelude::*;

verus! {

/// A semantic version.
#[derive(Debug, Clone, PartialEq, Eq)]
pub struct Version {
    pub major: u64,
    pub minor: u64,
    pub patch: u64,
    /// The pre-release identifiers, without the leading `-`; empty if none.
    pub pre: String,
    /// The build metadata, without the leading `+`; empty if none.
    pub build: String,
}

impl View for Version {
    type V = (u64, u64, u64, Seq<char>, Seq<char>);

    open spec fn view(&self) -> (u64, u64, u64, Seq<char>, Seq<char>) {
        (self.major, self.minor, self.patch, self.pre@, self.build@)
    }
}

/// A calendar date.
#[derive(Debug, Clone, Copy, PartialEq, Eq, Structural)]
pub struct Date {
    pub year: i32,
    pub month: u32,
    pub day: u32,
}

/// A length of time.
#[derive(Debug, Clone, Copy, PartialEq, Eq, Structural)]
pub struct Span {
    /// Whole seconds.
    pub secs: u64,
    /// Nanoseconds beyond the whole seconds.
    pub nanos: u32,
}

/// The description of the server process.
#[derive(Debug, Clone, PartialEq, Eq)]
pub struct Info {
    pub name: String,
    pub version: Version,
    pub release_date: Date,
    pub nbproc: usize,
    pub process_num: usize,
    pub pid: usize,
    pub uptime: Span,
    pub uptime_sec: usize,
}

/// The description of the server process as mathematics sees it.
pub struct InfoView {
    pub name: Seq<char>,
    pub version: (u64, u64, u64, Seq<char>, Seq<char>),
    pub release_date: (i32, u32, u32),
    pub nbproc: usize,
    pub process_num: usize,
    pub pid: usize,
    pub uptime: (u64, u32),
    pub uptime_sec: usize,
}

impl View for Info {
    type V = InfoView;

    open spec fn view(&self) -> InfoView {
        InfoView {
            name: self.name@,
            version: self.version@,
            release_date: (self.release_date.year, self.release_date.month, self.release_date.day),
            nbproc: self.nbproc,
            process_num: self.process_num,
            pid: self.pid,
            uptime: (self.uptime.secs, self.uptime.nanos),
            uptime_sec: self.uptime_sec,
        }
    }
}

/// Why the attributes of a response do not describe the process.
#[derive(Debug, Clone, PartialEq, Eq)]
pub enum InfoValueError {
    /// A field could not be bound.
    Field(BindError),
    /// The version, given here, is no semantic version.
    Version(String),
    /// The release date, given here after its slashes became dashes, is no
    /// date.
    ReleaseDate(String),
    /// The uptime, given here, is no duration.
    Uptime(String),
}

/// Why the attributes of a response do not describe the process, as
/// mathematics sees it.
pub enum InfoFailure {
    Field(BindFailure),
    Version(Seq<char>),
    ReleaseDate(Seq<char>),
    Uptime(Seq<char>),
}

impl View for InfoValueError {
    type V = InfoFailure;

    open spec fn view(&self) -> InfoFailure {
        match self {
            InfoValueError::Field(e) => InfoFailure::Field(e@),
            InfoValueError::Version(s) => InfoFailure::Version(s@),
            InfoValueError::ReleaseDate(s) => InfoFailure::ReleaseDate(s@),
            InfoValueError::Uptime(s) => InfoFailure::Uptime(s@),
        }
    }
}

/// The record that the slots, bound by the schema of [`Info`], and the three
/// values read from them give; the first of the three that is absent decides
/// the error.
pub open spec fn assembled(
    slots: Seq<SlotView>,
    version: Option<(u64, u64, u64, Seq<char>, Seq<char>)>,
    release_date: Option<(i32, u32, u32)>,
    uptime: Option<(u64, u32)>,
) -> Result<InfoView, InfoFailure> {
    if version is None {
        Err(InfoFailure::Version(slots[1]->Text_0))
    } else if release_date is None {
        Err(InfoFailure::ReleaseDate(slots[2]->Text_0))
    } else if uptime is None {
        Err(InfoFailure::Uptime(slots[6]->Text_0))
    } else {
        Ok(
            InfoView {
                name: slots[0]->Text_0,
                version: version->0,
                release_date: release_date->0,
                nbproc: slots[3]->Count_0,
                process_num: slots[4]->Count_0,
                pid: slots[5]->Count_0,
                uptime: uptime->0,
                uptime_sec: slots[7]->Count_0,
            },
        )
    }
}

/// The record that attributes give: they are bound to the schema, then the
/// version, the release date and the uptime are read from their texts.
pub open spec fn described(attrs: Seq<(Seq<char>, Scalar)>) -> Result<InfoView, InfoFailure> {
    match bound(Info::fields(), attrs) {
        Err(failure) => Err(InfoFailure::Field(failure)),
        Ok(slots) => assembled(
            slots,
            semver_version(slots[1]->Text_0),
            chrono_date(slots[2]->Text_0),
            duration_span(slots[6]->Text_0),
        ),
    }
}

/// The name that is given with slashes where a date has dashes.
pub open spec fn release_date_name() -> Seq<char> {
    "Release_date"@
}

/// A release date with its first three slashes turned into dashes.
pub open spec fn with_dashes(date: Seq<char>) -> Seq<char> {
    replaced_first(date, '/', '-', 3)
}

impl Info {
    /// The schema of the record: the attributes it is bound from.
    pub open spec fn fields() -> Seq<(Seq<char>, FieldKind)> {
        seq![
            ("Name"@, FieldKind::Text),
            ("Version"@, FieldKind::Text),
            ("Release_date"@, FieldKind::Text),
            ("Nbproc"@, FieldKind::Count),
            ("Process_num"@, FieldKind::Count),
            ("Pid"@, FieldKind::Count),
            ("Uptime"@, FieldKind::Text),
            ("Uptime_sec"@, FieldKind::Count),
        ]
    }

    /// The schema of the record, for the binder.
    pub fn schema() -> (r: Vec<FieldDef>)
        ensures
            schema_view(r@) == Self::fields(),
    {
        let mut defs: Vec<FieldDef> = Vec::new();
        defs.push(FieldDef::new("Name", FieldKind::Text));
        defs.push(FieldDef::new("Version", FieldKind::Text));
        defs.push(FieldDef::new("Release_date", FieldKind::Text));
        defs.push(FieldDef::new("Nbproc", FieldKind::Count));
        defs.push(FieldDef::new("Process_num", FieldKind::Count));
        defs.push(FieldDef::new("Pid", FieldKind::Count));
        defs.push(FieldDef::new("Uptime", FieldKind::Text));
        defs.push(FieldDef::new("Uptime_sec", FieldKind::Count));
        proof {
            assert(schema_view(defs@) =~= Self::fields());
        }
        defs
    }

    /// Puts the record together from its bound fields and from what the
    /// version, the release date and the uptime were read as. The first of
    /// the three that could not be read decides the error, which holds the
    /// text that was refused.
    pub fn assemble(
        raw: RawInfo,
        version: Option<Version>,
        release_date: Option<Date>,
        uptime: Option<Span>,
    ) -> (r: Result<Info, InfoValueError>)
        ensures
            match r {
                Ok(info) => assembled(
                    raw@,
                    version_view(version),
                    date_view(release_date),
                    span_view(uptime),
                ) == Ok::<InfoView, InfoFailure>(info@),
                Err(e) => assembled(
                    raw@,
                    version_view(version),
                    date_view(release_date),
                    span_view(uptime),
                ) == Err::<InfoView, InfoFailure>(e@),
            },
    {
        let version = match version {
            Some(v) => v,
            None => {
                return Err(InfoValueError::Version(raw.version));
            },
        };
        let release_date = match release_date {
            Some(d) => d,
            None => {
                return Err(InfoValueError::ReleaseDate(raw.release_date));
            },
        };
        let uptime = match uptime {
            Some(u) => u,
            None => {
                return Err(InfoValueError::Uptime(raw.uptime));
            },
        };
        Ok(
            Info {
                name: raw.name,
                version,
                release_date,
                nbproc: raw.nbproc,
                process_num: raw.process_num,
                pid: raw.pid,
                uptime,
                uptime_sec: raw.uptime_sec,
            },
        )
    }

    /// The record that `attrs` describe: the attributes are bound to the
    /// schema, then the version, the release date and the uptime are read.
    pub fn from_attributes(attrs: &Vec<Attribute>) -> (r: Result<Info, InfoValueError>)
        ensures
            match r {
                Ok(info) => described(attribute_views(attrs@)) == Ok::<InfoView, InfoFailure>(
                    info@,
                ),
                Err(e) => described(attribute_views(attrs@)) == Err::<InfoView, InfoFailure>(e@),
            },
    {
        let raw = match RawInfo::bind(attrs) {
            Ok(raw) => raw,
            Err(e) => {
                return Err(InfoValueError::Field(e));
            },
        };
        let version = parse_version(raw.version.as_str()).ok();
        let release_date = parse_date(raw.release_date.as_str()).ok();
        let uptime = parse_duration(raw.uptime.as_str()).ok();
        Info::assemble(raw, version, release_date, uptime)
    }
}

/// The description of the process as it was bound: its counters are read,
/// its version, release date and uptime are still the texts that were sent.
#[derive(Debug, Clone, PartialEq, Eq)]
pub struct RawInfo {
    pub name: String,
    pub version: String,
    pub release_date: String,
    pub nbproc: usize,
    pub process_num: usize,
    pub pid: usize,
    pub uptime: String,
    pub uptime_sec: usize,
}

impl View for RawInfo {
    type V = Seq<SlotView>;

    open spec fn view(&self) -> Seq<SlotView> {
        seq![
            SlotView::Text(self.name@),
            SlotView::Text(self.version@),
            SlotView::Text(self.release_date@),
            SlotView::Count(self.nbproc),
            SlotView::Count(self.process_num),
            SlotView::Count(self.pid),
            SlotView::Text(self.uptime@),
            SlotView::Count(self.uptime_sec),
        ]
    }
}

impl RawInfo {
    /// The fields that are `slots`, in schema order.
    fn from_slots(slots: &Vec<Slot>) -> (r: Self)
        requires
            conforms(Info::fields(), slot_views(slots@)),
        ensures
            r@ == slot_views(slots@),
    {
        proof {
            let given = slot_views(slots@);
            let fields = Info::fields();
            assert(given[0] == slots@[0]@ && fields[0].1 == FieldKind::Text);
            assert(given[1] == slots@[1]@ && fields[1].1 == FieldKind::Text);
            assert(given[2] == slots@[2]@ && fields[2].1 == FieldKind::Text);
            assert(given[3] == slots@[3]@ && fields[3].1 == FieldKind::Count);
            assert(given[4] == slots@[4]@ && fields[4].1 == FieldKind::Count);
            assert(given[5] == slots@[5]@ && fields[5].1 == FieldKind::Count);
            assert(given[6] == slots@[6]@ && fields[6].1 == FieldKind::Text);
            assert(given[7] == slots@[7]@ && fields[7].1 == FieldKind::Count);
        }
        let r = RawInfo {
            name: slots[0].text(),
            version: slots[1].text(),
            release_date: slots[2].text(),
            nbproc: slots[3].count(),
            process_num: slots[4].count(),
            pid: slots[5].count(),
            uptime: slots[6].text(),
            uptime_sec: slots[7].count(),
        };
        proof {
            assert(r@ =~= slot_views(slots@));
        }
        r
    }

    /// Binds `attrs` to the schema of [`Info`]: the fields, or the first of
    /// them that cannot be bound.
    pub fn bind(attrs: &Vec<Attribute>) -> (r: Result<RawInfo, BindError>)
        ensures
            match r {
                Ok(raw) => bound(Info::fields(), attribute_views(attrs@)) == Ok::<
                    Seq<SlotView>,
                    BindFailure,
                >(raw@),
                Err(e) => bound(Info::fields(), attribute_views(attrs@)) == Err::<
                    Seq<SlotView>,
                    BindFailure,
                >(e@),
            },
    {
        let schema = Info::schema();
        match bind(schema.as_slice(), attrs.as_slice()) {
            Ok(slots) => Ok(RawInfo::from_slots(&slots)),
            Err(e) => Err(e),
        }
    }
}

/// A version as its five parts, if there is one.
pub open spec fn version_view(version: Option<Version>) -> Option<
    (u64, u64, u64, Seq<char>, Seq<char>),
> {
    match version {
        Some(v) => Some(v@),
        None => None,
    }
}

/// A date as year, month and day, if there is one.
pub open spec fn date_view(date: Option<Date>) -> Option<(i32, u32, u32)> {
    match date {
        Some(d) => Some((d.year, d.month, d.day)),
        None => None,
    }
}

/// A length of time as seconds and nanoseconds, if there is one.
pub open spec fn span_view(span: Option<Span>) -> Option<(u64, u32)> {
    match span {
        Some(s) => Some((s.secs, s.nanos)),
        None => None,
    }
}

/// The attribute that a line of the key/value form gives: the name is what
/// stands before the first `": "`, the value what stands after it; the
/// release date gets dashes for its slashes.
pub open spec fn line_attribute(line: Seq<char>) -> (Seq<char>, Scalar) {
    let name = before_first(line, ": "@);
    let value = after_first(line, ": "@);
    (
        name,
        Scalar::Text(
            if name == release_date_name() {
                with_dashes(value)
            } else {
                value
            },
        ),
    )
}

/// The attributes that the lines of the key/value form give.
pub open spec fn line_attributes(lines: Seq<Seq<char>>) -> Seq<(Seq<char>, Scalar)> {
    Seq::new(lines.len(), |i: int| line_attribute(lines[i]))
}

/// Why the key/value form of `show info` could not be decoded.
#[derive(Debug, Clone, PartialEq, Eq)]
pub enum InfoFromKvBytesError {
    /// The line with this number, counted from 0, is not UTF-8.
    LinesReadFailed(usize),
    /// The attributes do not describe the process.
    ValueDeFailed(InfoValueError),
}

/// What the bytes of the key/value form give.
pub open spec fn decoded_kv(bytes: Seq<u8>) -> Result<InfoView, Option<InfoFailure>> {
    match decoded_lines(bytes) {
        Err(_) => Err(None),
        Ok(lines) => match described(line_attributes(lines)) {
            Ok(info) => Ok(info),
            Err(failure) => Err(Some(failure)),
        },
    }
}

impl Info {
    /// The attributes that the lines of the key/value form give.
    pub fn attributes_of_lines(lines: &Vec<String>) -> (r: Vec<Attribute>)
        ensures
            attribute_views(r@) == line_attributes(line_views(lines@)),
    {
        let mut out: Vec<Attribute> = Vec::new();
        let mut i: usize = 0;
        while i < lines.len()
            invariant
                i <= lines@.len(),
                out@.len() == i,
                forall|j: int| 0 <= j < i ==> (#[trigger] out@[j])@ == line_attribute(lines@[j]@),
            decreases lines.len() - i,
        {
            let (name, value) = split_first(lines[i].as_str(), ": ");
            let value = if str_eq(name.as_str(), "Release_date") {
                replace_first(value.as_str(), '/', '-', 3)
            } else {
                value
            };
            out.push(Attribute { name, value: Value::Str(value) });
            i += 1;
        }
        proof {
            assert(attribute_views(out@) =~= line_attributes(line_views(lines@)));
        }
        out
    }

    /// Decodes the key/value form of `show info`: splits the bytes into
    /// lines, each line into name and value, and binds the attributes.
    pub fn from_kv_bytes(bytes: &[u8]) -> (r: Result<Info, InfoFromKvBytesError>)
        ensures
            match r {
                Ok(info) => decoded_kv(bytes@) == Ok::<InfoView, Option<InfoFailure>>(info@),
                Err(InfoFromKvBytesError::LinesReadFailed(i)) => decoded_lines(bytes@) == Err::<
                    Seq<Seq<char>>,
                    int,
                >(i as int),
                Err(InfoFromKvBytesError::ValueDeFailed(e)) => decoded_kv(bytes@) == Err::<
                    InfoView,
                    Option<InfoFailure>,
                >(Some(e@)),
            },
    {
        let lines = match read_lines(bytes) {
            Ok(lines) => lines,
            Err(i) => {
                return Err(InfoFromKvBytesError::LinesReadFailed(i));
            },
        };
        let attrs = Info::attributes_of_lines(&lines);
        match Info::from_attributes(&attrs) {
            Ok(info) => Ok(info),
            Err(e) => Err(InfoFromKvBytesError::ValueDeFailed(e)),
        }
    }
}

/// One entry of the field list that the JSON form is.
#[derive(Debug, Clone, PartialEq, Eq)]
pub struct JsonOutputItem {
    pub field: Field,
    pub process_num: usize,
    pub tags: Tags,
    pub value: Value,
}

impl View for JsonOutputItem {
    type V = EntryView;

    open spec fn view(&self) -> EntryView {
        EntryView {
            field: self.field@,
            process_num: self.process_num,
            tags: self.tags@,
            kind: self.value.kind(),
            value: self.value@,
        }
    }
}

/// The field list that the JSON form is.
#[derive(Debug, Clone, PartialEq, Eq)]
pub struct JsonOutput(pub Vec<JsonOutputItem>);

impl View for JsonOutput {
    type V = Seq<EntryView>;

    open spec fn view(&self) -> Seq<EntryView> {
        Seq::new(self.0@.len(), |i: int| self.0@[i]@)
    }
}

/// The field list that a document holds: a list whose items are all
/// entries.
pub open spec fn info_envelope(tree: JsonView) -> Option<Seq<EntryView>> {
    match tree.as_list() {
        Some(items) => if forall|i: int|
            0 <= i < items.len() ==> entry_view(#[trigger] items[i]) is Some {
            Some(Seq::new(items.len(), |i: int| entry_view(items[i])->0))
        } else {
            None
        },
        None => None,
    }
}

/// The attribute that an entry gives: its value under the name of its
/// field. The release date becomes a text with dashes for its slashes, the
/// empty text if it was sent as a number.
pub open spec fn entry_attribute(entry: EntryView) -> (Seq<char>, Scalar) {
    (
        entry.field.1,
        if entry.field.1 == release_date_name() {
            Scalar::Text(
                with_dashes(
                    match entry.value {
                        Scalar::Text(s) => s,
                        Scalar::Int(_) => Seq::empty(),
                    },
                ),
            )
        } else {
            entry.value
        },
    )
}

/// The attributes that a field list gives, pivoted.
pub open spec fn entry_attributes(entries: Seq<EntryView>) -> Seq<(Seq<char>, Scalar)> {
    pivoted(Seq::new(entries.len(), |i: int| entry_attribute(entries[i])))
}

/// What a document of the JSON form gives; `Err(None)` where it is no field
/// list.
pub open spec fn decoded_tree(tree: JsonView) -> Result<InfoView, Option<InfoFailure>> {
    match info_envelope(tree) {
        None => Err(None),
        Some(entries) => match described(entry_attributes(entries)) {
            Ok(info) => Ok(info),
            Err(failure) => Err(Some(failure)),
        },
    }
}

/// Why the JSON form of `show info` could not be decoded.
#[derive(Debug)]
pub enum InfoFromJsonBytesError {
    /// The bytes are no field list.
    DeOutputFailed(EnvelopeError),
    /// The attributes do not describe the process.
    DeFailed(InfoValueError),
}

impl JsonOutput {
    /// Reads the field list from a document.
    pub fn from_tree(tree: &Json) -> (r: Option<JsonOutput>)
        ensures
            match r {
                Some(output) => info_envelope(tree@) == Some(output@),
                None => info_envelope(tree@) is None,
            },
    {
        let items = match tree.items() {
            Some(items) => items,
            None => {
                return None;
            },
        };
        let ghost views = tree@.as_list()->0;
        let mut out: Vec<JsonOutputItem> = Vec::new();
        let mut i: usize = 0;
        while i < items.len()
            invariant
                i <= items@.len(),
                tree@.as_list() == Some(views),
                views.len() == items@.len(),
                forall|k: int| 0 <= k < items@.len() ==> (#[trigger] views[k]) == items@[k]@,
                out@.len() == i,
                forall|k: int|
                    0 <= k < i ==> entry_view(#[trigger] views[k]) == Some(out@[k]@),
            decreases items.len() - i,
        {
            match Entry::from_json(&items[i]) {
                Some(entry) => {
                    out.push(
                        JsonOutputItem {
                            field: entry.field,
                            process_num: entry.process_num,
                            tags: entry.tags,
                            value: entry.value,
                        },
                    );
                },
                None => {
                    proof {
                        assert(entry_view(views[i as int]) is None);
                    }
                    return None;
                },
            }
            i += 1;
        }
        let output = JsonOutput(out);
        proof {
            assert(output@ =~= Seq::new(views.len(), |i: int| entry_view(views[i])->0));
        }
        Some(output)
    }

    /// The attributes that the field list gives, pivoted.
    pub fn attributes(self) -> (r: Vec<Attribute>)
        ensures
            attribute_views(r@) == entry_attributes(self@),
    {
        let ghost entries = self@;
        let ghost given = self.0@;
        let mut pairs: Vec<Attribute> = Vec::new();
        for item in it: self.0.into_iter()
            invariant
                it.seq() == given,
                entries.len() == given.len(),
                forall|k: int| 0 <= k < given.len() ==> (#[trigger] entries[k]) == given[k]@,
                pairs@.len() == it.index(),
                forall|k: int|
                    0 <= k < it.index() ==> (#[trigger] pairs@[k])@ == entry_attribute(entries[k]),
        {
            let value = if str_eq(item.field.name.as_str(), "Release_date") {
                let date = match &item.value {
                    Value::Str(s) => replace_first(s.as_str(), '/', '-', 3),
                    _ => {
                        proof {
                            assert(replaced_first(Seq::<char>::empty(), '/', '-', 3)
                                =~= Seq::<char>::empty());
                        }
                        String::new()
                    },
                };
                Value::Str(date)
            } else {
                item.value
            };
            pairs.push(Attribute { name: item.field.name, value });
        }
        proof {
            assert(attribute_views(pairs@) =~= Seq::new(
                entries.len(),
                |i: int| entry_attribute(entries[i]),
            ));
        }
        pivot(pairs)
    }
}

impl Info {
    /// Decodes a document of the JSON form: reads the field list, pivots it
    /// into attributes and binds them.
    pub fn from_json_tree(tree: &Json) -> (r: Result<Info, InfoFromJsonBytesError>)
        ensures
            match r {
                Ok(info) => decoded_tree(tree@) == Ok::<InfoView, Option<InfoFailure>>(info@),
                Err(InfoFromJsonBytesError::DeOutputFailed(e)) => decoded_tree(tree@) == Err::<
                    InfoView,
                    Option<InfoFailure>,
                >(None) && e is Shape,
                Err(InfoFromJsonBytesError::DeFailed(e)) => decoded_tree(tree@) == Err::<
                    InfoView,
                    Option<InfoFailure>,
                >(Some(e@)),
            },
    {
        let output = match JsonOutput::from_tree(tree) {
            Some(output) => output,
            None => {
                return Err(InfoFromJsonBytesError::DeOutputFailed(EnvelopeError::Shape));
            },
        };
        let attrs = output.attributes();
        match Info::from_attributes(&attrs) {
            Ok(info) => Ok(info),
            Err(e) => Err(InfoFromJsonBytesError::DeFailed(e)),
        }
    }

    /// Decodes the JSON form of `show info`. The bytes must be a JSON
    /// document; what the document gives is what [`Info::from_json_tree`]
    /// says.
    pub fn from_json_bytes(bytes: &[u8]) -> (r: Result<Info, InfoFromJsonBytesError>)
        ensures
            match r {
                Ok(info) => json_document(bytes@) is Some && decoded_tree(json_document(bytes@)->0)
                    == Ok::<InfoView, Option<InfoFailure>>(info@),
                Err(InfoFromJsonBytesError::DeOutputFailed(EnvelopeError::Syntax(_))) =>
                    json_document(bytes@) is None,
                Err(InfoFromJsonBytesError::DeOutputFailed(EnvelopeError::Shape)) => json_document(
                    bytes@,
                ) is Some && decoded_tree(json_document(bytes@)->0) == Err::<
                    InfoView,
                    Option<InfoFailure>,
                >(None),
                Err(InfoFromJsonBytesError::DeFailed(e)) => json_document(bytes@) is Some
                    && decoded_tree(json_document(bytes@)->0) == Err::<
                    InfoView,
                    Option<InfoFailure>,
                >(Some(e@)),
            },
    {
        let document = match read_document(bytes) {
            Ok(document) => document,
            Err(e) => {
                return Err(InfoFromJsonBytesError::DeOutputFailed(EnvelopeError::Syntax(e)));
            },
        };
        let tree = into_tree(document);
        Info::from_json_tree(&tree)
    }
}

} // verus!
