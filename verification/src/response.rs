//! The result of a query, and how it is shown.
//!
//! A response holds the rows, the schema, the bookkeeping values of the
//! service, and every other top-level field that came with them. It is shown
//! as a table where column headers can be derived, and as JSON text where
//! they cannot or where JSON was asked for.

use vstd::prelude::*;
use vstd::string::*;
use crate::json::{
    compact, find, keys_of, lemma_lookup_at, lookup, member_keys, member_models, models, pretty,
    JsonModel, JsonNumber, JsonValue, NumberModel,
};
use crate::table::{build_table, row_texts, table};
use crate::text::{str_eq, texts, view_of};

verus! {

/// How far the service had got when it answered.
#[derive(Debug, PartialEq, Eq)]
pub struct FreshnessState {
    pub last_considered_xact_id: String,
    pub last_processed_xact_id: String,
}

/// The model of a [`FreshnessState`].
pub struct FreshnessModel {
    pub last_considered_xact_id: Seq<char>,
    pub last_processed_xact_id: Seq<char>,
}

impl View for FreshnessState {
    type V = FreshnessModel;

    open spec fn view(&self) -> FreshnessModel {
        FreshnessModel {
            last_considered_xact_id: self.last_considered_xact_id@,
            last_processed_xact_id: self.last_processed_xact_id@,
        }
    }
}

/// What the service read in real time to answer.
#[derive(Debug, PartialEq, Eq)]
pub struct RealtimeState {
    pub actual_xact_id: String,
    pub minimum_xact_id: String,
    pub read_bytes: u64,
    pub state_type: String,
}

/// The model of a [`RealtimeState`].
pub struct RealtimeModel {
    pub actual_xact_id: Seq<char>,
    pub minimum_xact_id: Seq<char>,
    pub read_bytes: u64,
    pub state_type: Seq<char>,
}

impl View for RealtimeState {
    type V = RealtimeModel;

    open spec fn view(&self) -> RealtimeModel {
        RealtimeModel {
            actual_xact_id: self.actual_xact_id@,
            minimum_xact_id: self.minimum_xact_id@,
            read_bytes: self.read_bytes,
            state_type: self.state_type@,
        }
    }
}

/// The result of one query.
#[derive(Debug, PartialEq, Eq)]
pub struct SqlResponse {
    /// The rows, each a list of named values.
    pub data: Vec<Vec<(String, JsonValue)>>,
    /// The description of the columns.
    pub schema: JsonValue,
    /// The token for the next page, if there is one.
    pub cursor: Option<String>,
    pub freshness_state: Option<FreshnessState>,
    pub realtime_state: Option<RealtimeState>,
    /// Every other top-level field of the answer, in order.
    pub extra: Vec<(String, JsonValue)>,
}

/// The model of a [`SqlResponse`].
pub struct ResponseModel {
    pub data: Seq<Seq<(Seq<char>, JsonModel)>>,
    pub schema: JsonModel,
    pub cursor: Option<Seq<char>>,
    pub freshness_state: Option<FreshnessModel>,
    pub realtime_state: Option<RealtimeModel>,
    pub extra: Seq<(Seq<char>, JsonModel)>,
}

/// The models of a list of rows.
pub open spec fn row_models(data: Seq<Vec<(String, JsonValue)>>) -> Seq<Seq<(Seq<char>, JsonModel)>> {
    Seq::new(data.len(), |i: int| member_models(data[i]@))
}

impl View for SqlResponse {
    type V = ResponseModel;

    open spec fn view(&self) -> ResponseModel {
        ResponseModel {
            data: row_models(self.data@),
            schema: self.schema@,
            cursor: view_of(self.cursor),
            freshness_state: view_of(self.freshness_state),
            realtime_state: view_of(self.realtime_state),
            extra: member_models(self.extra@),
        }
    }
}

/// The text shown for a response without rows and without columns.
pub open spec fn no_rows() -> Seq<char> {
    "(no rows)"@
}

/// The column names that a schema gives: the keys of the object under
/// `items`, `properties`. A schema of any other shape gives none.
pub open spec fn schema_headers(schema: JsonModel) -> Seq<Seq<char>> {
    match schema.get("items"@) {
        Some(items) => match items.get("properties"@) {
            Some(properties) => properties.keys(),
            None => Seq::empty(),
        },
        None => Seq::empty(),
    }
}

/// The text of a cell: nothing for a missing value, a string as it is, any
/// other value as compact JSON.
pub open spec fn cell_text(value: Option<JsonModel>) -> Seq<char> {
    match value {
        None => Seq::empty(),
        Some(JsonModel::String(s)) => s,
        Some(other) => compact(other),
    }
}

/// The cells of a row under the given headers.
pub open spec fn cells_of(row: Seq<(Seq<char>, JsonModel)>, headers: Seq<Seq<char>>) -> Seq<
    Seq<char>,
> {
    Seq::new(headers.len(), |j: int| cell_text(lookup(row, headers[j])))
}

impl ResponseModel {
    /// The column headers: those of the schema, or the keys of the first row
    /// where the schema gives none.
    pub open spec fn headers(self) -> Seq<Seq<char>> {
        let from_schema = schema_headers(self.schema);
        if from_schema.len() == 0 && self.data.len() > 0 {
            member_keys(self.data[0])
        } else {
            from_schema
        }
    }

    /// The cells of every row under the headers.
    pub open spec fn cells(self) -> Seq<Seq<Seq<char>>> {
        Seq::new(self.data.len(), |i: int| cells_of(self.data[i], self.headers()))
    }

    /// The response as a table. Without headers there is no table; without
    /// rows as well, a placeholder stands in for it.
    pub open spec fn rendered(self) -> Option<Seq<char>> {
        if self.headers().len() == 0 {
            if self.data.len() == 0 {
                Some(no_rows())
            } else {
                None
            }
        } else {
            Some(table(self.headers(), self.cells()))
        }
    }
}

/// A response without rows and without headers in its schema is shown as
/// the placeholder.
pub proof fn lemma_renders_placeholder(response: ResponseModel)
    requires
        response.data.len() == 0,
        schema_headers(response.schema).len() == 0,
    ensures
        response.rendered() == Some(no_rows()),
{
}

/// There is no table exactly for a response with rows whose schema gives
/// no headers and whose first row has no keys.
pub proof fn lemma_renders_no_table(response: ResponseModel)
    ensures
        response.rendered() is None <==> response.data.len() > 0 && schema_headers(
            response.schema,
        ).len() == 0 && response.data[0].len() == 0,
{
}

/// The column names that a schema gives.
pub fn extract_headers(schema: &JsonValue) -> (headers: Vec<String>)
    ensures
        texts(headers@) == schema_headers(schema@),
{
    match schema.get("items") {
        Some(items) => match items.get("properties") {
            Some(properties) => properties.keys(),
            None => no_headers(),
        },
        None => no_headers(),
    }
}

/// An empty list of column names.
fn no_headers() -> (headers: Vec<String>)
    ensures
        texts(headers@) == Seq::<Seq<char>>::empty(),
{
    let headers: Vec<String> = Vec::new();
    headers
}

/// The text of a cell.
pub fn format_cell(value: Option<&JsonValue>) -> (text: String)
    ensures
        text@ == cell_text(view_of(value)),
{
    match value {
        None => String::new(),
        Some(v) => match v {
            JsonValue::String(s) => s.clone(),
            other => other.to_compact(),
        },
    }
}

/// The cells of one row under the given headers.
fn row_cells(row: &Vec<(String, JsonValue)>, headers: &Vec<String>) -> (cells: Vec<String>)
    ensures
        texts(cells@) == cells_of(member_models(row@), texts(headers@)),
{
    let mut cells: Vec<String> = Vec::new();
    let mut j: usize = 0;
    while j < headers.len()
        invariant
            j <= headers.len(),
            cells@.len() == j,
            forall|k: int|
                0 <= k < j ==> (#[trigger] cells@[k])@ == cell_text(
                    lookup(member_models(row@), headers@[k]@),
                ),
        decreases headers.len() - j,
    {
        cells.push(format_cell(find(row, headers[j].as_str())));
        j += 1;
    }
    cells
}

/// The response as a table, or nothing where no column headers can be
/// derived from the schema or the first row although there are rows.
pub fn render_table(response: &SqlResponse) -> (r: Option<String>)
    ensures
        response@.rendered() == view_of(r),
{
    let mut headers = extract_headers(&response.schema);
    if headers.len() == 0 && response.data.len() > 0 {
        headers = keys_of(&response.data[0]);
    }
    if headers.len() == 0 {
        if response.data.len() == 0 {
            return Some("(no rows)".to_owned());
        }
        return None;
    }
    let mut rows: Vec<Vec<String>> = Vec::new();
    let mut i: usize = 0;
    while i < response.data.len()
        invariant
            i <= response.data.len(),
            rows@.len() == i,
            texts(headers@) == response@.headers(),
            forall|k: int|
                0 <= k < i ==> texts((#[trigger] rows@[k])@) == cells_of(
                    member_models(response.data@[k]@),
                    texts(headers@),
                ),
        decreases response.data.len() - i,
    {
        rows.push(row_cells(&response.data[i], &headers));
        i += 1;
    }
    assert(row_texts(rows@) =~= response@.cells());
    Some(build_table(headers.as_slice(), rows.as_slice()))
}

/// A string, or null where there is none.
pub open spec fn text_or_null(text: Option<Seq<char>>) -> JsonModel {
    match text {
        Some(t) => JsonModel::String(t),
        None => JsonModel::Null,
    }
}

/// The objects that stand for the rows.
pub open spec fn row_objects(data: Seq<Seq<(Seq<char>, JsonModel)>>) -> Seq<JsonModel> {
    Seq::new(data.len(), |i: int| JsonModel::Object(data[i]))
}

impl FreshnessModel {
    /// The members of the state, in the order in which they are written.
    pub open spec fn members(self) -> Seq<(Seq<char>, JsonModel)> {
        seq![
            ("last_considered_xact_id"@, JsonModel::String(self.last_considered_xact_id)),
            ("last_processed_xact_id"@, JsonModel::String(self.last_processed_xact_id)),
        ]
    }

    /// The state as a JSON object.
    pub open spec fn to_json(self) -> JsonModel {
        JsonModel::Object(self.members())
    }
}

impl RealtimeModel {
    /// The members of the state, in the order in which they are written.
    pub open spec fn members(self) -> Seq<(Seq<char>, JsonModel)> {
        seq![
            ("actual_xact_id"@, JsonModel::String(self.actual_xact_id)),
            ("minimum_xact_id"@, JsonModel::String(self.minimum_xact_id)),
            ("read_bytes"@, JsonModel::Number(NumberModel::PosInt(self.read_bytes))),
            ("type"@, JsonModel::String(self.state_type)),
        ]
    }

    /// The state as a JSON object.
    pub open spec fn to_json(self) -> JsonModel {
        JsonModel::Object(self.members())
    }
}

impl ResponseModel {
    /// The members that every response has, in the order in which they are
    /// written.
    pub open spec fn known_members(self) -> Seq<(Seq<char>, JsonModel)> {
        seq![
            ("data"@, JsonModel::Array(row_objects(self.data))),
            ("schema"@, self.schema),
            ("cursor"@, text_or_null(self.cursor)),
            (
                "freshness_state"@,
                match self.freshness_state {
                    Some(f) => f.to_json(),
                    None => JsonModel::Null,
                },
            ),
            (
                "realtime_state"@,
                match self.realtime_state {
                    Some(r) => r.to_json(),
                    None => JsonModel::Null,
                },
            ),
        ]
    }

    /// The response as a JSON object: its known members, then every other
    /// field that came with it.
    pub open spec fn to_json(self) -> JsonModel {
        JsonModel::Object(self.known_members() + self.extra)
    }

    /// What is shown for the response: its compact JSON text where JSON is
    /// asked for, else its table, else its indented JSON text.
    pub open spec fn formatted(self, json_output: bool) -> Seq<char> {
        if json_output {
            compact(self.to_json())
        } else {
            match self.rendered() {
                Some(text) => text,
                None => pretty(self.to_json(), Seq::empty()),
            }
        }
    }
}

/// A copy of the members of an object.
fn clone_members(entries: &Vec<(String, JsonValue)>) -> (copy: Vec<(String, JsonValue)>)
    ensures
        member_models(copy@) == member_models(entries@),
{
    let mut copy: Vec<(String, JsonValue)> = Vec::new();
    let mut i: usize = 0;
    while i < entries.len()
        invariant
            i <= entries.len(),
            copy@.len() == i,
            forall|k: int|
                0 <= k < i ==> (#[trigger] copy@[k]).0@ == entries@[k].0@ && copy@[k].1@
                    == entries@[k].1@,
        decreases entries.len() - i,
    {
        copy.push((entries[i].0.clone(), entries[i].1.deep_clone()));
        i += 1;
    }
    copy
}

impl FreshnessState {
    /// The state as a JSON object.
    pub fn to_json(&self) -> (v: JsonValue)
        ensures
            v@ == self@.to_json(),
    {
        let mut entries: Vec<(String, JsonValue)> = Vec::new();
        entries.push(
            (
                "last_considered_xact_id".to_owned(),
                JsonValue::String(self.last_considered_xact_id.clone()),
            ),
        );
        entries.push(
            (
                "last_processed_xact_id".to_owned(),
                JsonValue::String(self.last_processed_xact_id.clone()),
            ),
        );
        assert(member_models(entries@) =~= self@.members());
        JsonValue::Object(entries)
    }
}

impl RealtimeState {
    /// The state as a JSON object.
    pub fn to_json(&self) -> (v: JsonValue)
        ensures
            v@ == self@.to_json(),
    {
        let mut entries: Vec<(String, JsonValue)> = Vec::new();
        entries.push(("actual_xact_id".to_owned(), JsonValue::String(self.actual_xact_id.clone())));
        entries.push(
            ("minimum_xact_id".to_owned(), JsonValue::String(self.minimum_xact_id.clone())),
        );
        entries.push(
            ("read_bytes".to_owned(), JsonValue::Number(JsonNumber::PosInt(self.read_bytes))),
        );
        entries.push(("type".to_owned(), JsonValue::String(self.state_type.clone())));
        assert(member_models(entries@) =~= self@.members());
        JsonValue::Object(entries)
    }
}

impl SqlResponse {
    /// The response as a JSON object.
    pub fn to_json(&self) -> (v: JsonValue)
        ensures
            v@ == self@.to_json(),
    {
        let mut rows: Vec<JsonValue> = Vec::new();
        let mut i: usize = 0;
        while i < self.data.len()
            invariant
                i <= self.data.len(),
                rows@.len() == i,
                forall|k: int|
                    0 <= k < i ==> (#[trigger] rows@[k])@ == JsonModel::Object(
                        member_models(self.data@[k]@),
                    ),
            decreases self.data.len() - i,
        {
            rows.push(JsonValue::Object(clone_members(&self.data[i])));
            i += 1;
        }
        assert(models(rows@) =~= row_objects(self@.data));
        let mut entries: Vec<(String, JsonValue)> = Vec::new();
        entries.push(("data".to_owned(), JsonValue::Array(rows)));
        entries.push(("schema".to_owned(), self.schema.deep_clone()));
        entries.push(
            (
                "cursor".to_owned(),
                match &self.cursor {
                    Some(c) => JsonValue::String(c.clone()),
                    None => JsonValue::Null,
                },
            ),
        );
        entries.push(
            (
                "freshness_state".to_owned(),
                match &self.freshness_state {
                    Some(f) => f.to_json(),
                    None => JsonValue::Null,
                },
            ),
        );
        entries.push(
            (
                "realtime_state".to_owned(),
                match &self.realtime_state {
                    Some(r) => r.to_json(),
                    None => JsonValue::Null,
                },
            ),
        );
        let mut k: usize = 0;
        while k < self.extra.len()
            invariant
                k <= self.extra.len(),
                member_models(entries@) == self@.known_members() + member_models(
                    self.extra@,
                ).take(k as int),
            decreases self.extra.len() - k,
        {
            let ghost before = member_models(entries@);
            entries.push((self.extra[k].0.clone(), self.extra[k].1.deep_clone()));
            assert(member_models(entries@) =~= before.push(member_models(self.extra@)[k as int]));
            k += 1;
        }
        assert(member_models(self.extra@).take(k as int) =~= member_models(self.extra@));
        JsonValue::Object(entries)
    }
}

/// What is shown for a response: its compact JSON text where JSON is asked
/// for, else its table, else its indented JSON text.
pub fn format_response(response: &SqlResponse, json_output: bool) -> (text: String)
    ensures
        text@ == response@.formatted(json_output),
{
    if json_output {
        response.to_json().to_compact()
    } else {
        match render_table(response) {
            Some(table) => table,
            None => response.to_json().to_pretty(),
        }
    }
}

/// Why a JSON value is not a response.
#[derive(Clone, Copy, Debug, PartialEq, Eq)]
pub enum DecodeError {
    /// The value is not an object.
    NotAnObject,
    /// The object has no member `data`.
    MissingData,
    /// The member `data` is not an array of objects.
    InvalidData,
    /// The object has no member `schema`.
    MissingSchema,
    /// The member `cursor` is neither a string nor null.
    InvalidCursor,
    /// The member `freshness_state` is neither null nor an object with its
    /// two strings.
    InvalidFreshnessState,
    /// The member `realtime_state` is neither null nor an object with its
    /// three strings and its count of bytes.
    InvalidRealtimeState,
}

impl DecodeError {
    /// What went wrong, in words.
    pub open spec fn spec_message(self) -> Seq<char> {
        match self {
            DecodeError::NotAnObject => "expected an object"@,
            DecodeError::MissingData => "missing field `data`"@,
            DecodeError::InvalidData => "field `data` is not an array of objects"@,
            DecodeError::MissingSchema => "missing field `schema`"@,
            DecodeError::InvalidCursor => "field `cursor` is not a string"@,
            DecodeError::InvalidFreshnessState => "field `freshness_state` is not a freshness state"@,
            DecodeError::InvalidRealtimeState => "field `realtime_state` is not a realtime state"@,
        }
    }

    /// What went wrong, in words.
    pub fn message(self) -> (message: &'static str)
        ensures
            message@ == self.spec_message(),
    {
        match self {
            DecodeError::NotAnObject => "expected an object",
            DecodeError::MissingData => "missing field `data`",
            DecodeError::InvalidData => "field `data` is not an array of objects",
            DecodeError::MissingSchema => "missing field `schema`",
            DecodeError::InvalidCursor => "field `cursor` is not a string",
            DecodeError::InvalidFreshnessState => "field `freshness_state` is not a freshness state",
            DecodeError::InvalidRealtimeState => "field `realtime_state` is not a realtime state",
        }
    }
}

/// Whether a top-level key names one of the members that every response has.
pub open spec fn is_known_field(key: Seq<char>) -> bool {
    ||| key == "data"@
    ||| key == "schema"@
    ||| key == "cursor"@
    ||| key == "freshness_state"@
    ||| key == "realtime_state"@
}

/// The rows that an array stands for, if all its items are objects.
pub open spec fn decode_rows(items: Seq<JsonModel>) -> Option<Seq<Seq<(Seq<char>, JsonModel)>>> {
    if forall|i: int| 0 <= i < items.len() ==> #[trigger] items[i] is Object {
        Some(Seq::new(items.len(), |i: int| items[i]->Object_0))
    } else {
        None
    }
}

/// The optional string that a member stands for: none where the member is
/// missing or null. Fails on any other value that is no string.
pub open spec fn decode_text(value: Option<JsonModel>) -> Option<Option<Seq<char>>> {
    match value {
        None => Some(None),
        Some(JsonModel::Null) => Some(None),
        Some(JsonModel::String(s)) => Some(Some(s)),
        Some(_) => None,
    }
}

/// The string under `key`, if there is one.
pub open spec fn text_member(members: Seq<(Seq<char>, JsonModel)>, key: Seq<char>) -> Option<
    Seq<char>,
> {
    match lookup(members, key) {
        Some(JsonModel::String(s)) => Some(s),
        _ => None,
    }
}

/// The non-negative integer under `key`, if there is one.
pub open spec fn count_member(members: Seq<(Seq<char>, JsonModel)>, key: Seq<char>) -> Option<u64> {
    match lookup(members, key) {
        Some(JsonModel::Number(NumberModel::PosInt(n))) => Some(n),
        _ => None,
    }
}

/// The optional freshness state that a member stands for: none where the
/// member is missing or null. Fails on any other value that is no object
/// with the two strings.
pub open spec fn decode_freshness(value: Option<JsonModel>) -> Option<Option<FreshnessModel>> {
    match value {
        None => Some(None),
        Some(JsonModel::Null) => Some(None),
        Some(JsonModel::Object(members)) => match (
            text_member(members, "last_considered_xact_id"@),
            text_member(members, "last_processed_xact_id"@),
        ) {
            (Some(considered), Some(processed)) => Some(
                Some(
                    FreshnessModel {
                        last_considered_xact_id: considered,
                        last_processed_xact_id: processed,
                    },
                ),
            ),
            _ => None,
        },
        Some(_) => None,
    }
}

/// The optional realtime state that a member stands for: none where the
/// member is missing or null. Fails on any other value that is no object
/// with the three strings and the count.
pub open spec fn decode_realtime(value: Option<JsonModel>) -> Option<Option<RealtimeModel>> {
    match value {
        None => Some(None),
        Some(JsonModel::Null) => Some(None),
        Some(JsonModel::Object(members)) => match (
            text_member(members, "actual_xact_id"@),
            text_member(members, "minimum_xact_id"@),
            count_member(members, "read_bytes"@),
            text_member(members, "type"@),
        ) {
            (Some(actual), Some(minimum), Some(read_bytes), Some(state_type)) => Some(
                Some(
                    RealtimeModel {
                        actual_xact_id: actual,
                        minimum_xact_id: minimum,
                        read_bytes,
                        state_type,
                    },
                ),
            ),
            _ => None,
        },
        Some(_) => None,
    }
}

/// Those of the first `n` members whose key is not a known one, in order.
pub open spec fn extras(members: Seq<(Seq<char>, JsonModel)>, n: nat) -> Seq<(Seq<char>, JsonModel)>
    decreases n,
{
    if n == 0 || n > members.len() {
        Seq::empty()
    } else if is_known_field(members[n - 1].0) {
        extras(members, (n - 1) as nat)
    } else {
        extras(members, (n - 1) as nat).push(members[n - 1])
    }
}

/// The response that a JSON value stands for.
///
/// The value has to be an object with an array of objects under `data` and
/// any value under `schema`. The members `cursor`, `freshness_state` and
/// `realtime_state` may be missing or null. Every member under another key
/// is kept as it is.
pub open spec fn decode(v: JsonModel) -> Result<ResponseModel, DecodeError> {
    if let JsonModel::Object(members) = v {
        match lookup(members, "data"@) {
            None => Err(DecodeError::MissingData),
            Some(JsonModel::Array(items)) => match decode_rows(items) {
                None => Err(DecodeError::InvalidData),
                Some(data) => match lookup(members, "schema"@) {
                    None => Err(DecodeError::MissingSchema),
                    Some(schema) => match decode_text(lookup(members, "cursor"@)) {
                        None => Err(DecodeError::InvalidCursor),
                        Some(cursor) => match decode_freshness(
                            lookup(members, "freshness_state"@),
                        ) {
                            None => Err(DecodeError::InvalidFreshnessState),
                            Some(freshness_state) => match decode_realtime(
                                lookup(members, "realtime_state"@),
                            ) {
                                None => Err(DecodeError::InvalidRealtimeState),
                                Some(realtime_state) => Ok(
                                    ResponseModel {
                                        data,
                                        schema,
                                        cursor,
                                        freshness_state,
                                        realtime_state,
                                        extra: extras(members, members.len()),
                                    },
                                ),
                            },
                        },
                    },
                },
            },
            Some(_) => Err(DecodeError::InvalidData),
        }
    } else {
        Err(DecodeError::NotAnObject)
    }
}

/// Whether a top-level key names one of the members that every response has.
fn known_field(key: &str) -> (r: bool)
    ensures
        r == is_known_field(key@),
{
    str_eq(key, "data") || str_eq(key, "schema") || str_eq(key, "cursor") || str_eq(
        key,
        "freshness_state",
    ) || str_eq(key, "realtime_state")
}

/// The rows that an array stands for, if all its items are objects.
fn rows_from(items: &Vec<JsonValue>) -> (r: Option<Vec<Vec<(String, JsonValue)>>>)
    ensures
        match r {
            Some(data) => decode_rows(models(items@)) == Some(row_models(data@)),
            None => decode_rows(models(items@)) is None,
        },
{
    let mut data: Vec<Vec<(String, JsonValue)>> = Vec::new();
    let mut i: usize = 0;
    while i < items.len()
        invariant
            i <= items.len(),
            data@.len() == i,
            forall|k: int|
                0 <= k < i ==> (#[trigger] models(items@)[k]) == JsonModel::Object(
                    member_models(data@[k]@),
                ),
        decreases items.len() - i,
    {
        match &items[i] {
            JsonValue::Object(entries) => {
                data.push(clone_members(entries));
            },
            _ => {
                assert(!(models(items@)[i as int] is Object));
                return None;
            },
        }
        i += 1;
    }
    Some(data)
}

/// The optional string that a member stands for.
fn text_from(value: Option<&JsonValue>) -> (r: Option<Option<String>>)
    ensures
        decode_text(view_of(value)) == match r {
            Some(Some(s)) => Some(Some(s@)),
            Some(None) => Some(None),
            None => None,
        },
{
    match value {
        None => Some(None),
        Some(JsonValue::Null) => Some(None),
        Some(JsonValue::String(s)) => Some(Some(s.clone())),
        Some(_) => None,
    }
}

/// The string under `key`, if there is one.
fn string_member(entries: &Vec<(String, JsonValue)>, key: &str) -> (r: Option<String>)
    ensures
        text_member(member_models(entries@), key@) == view_of(r),
{
    match find(entries, key) {
        Some(JsonValue::String(s)) => Some(s.clone()),
        _ => None,
    }
}

/// The non-negative integer under `key`, if there is one.
fn integer_member(entries: &Vec<(String, JsonValue)>, key: &str) -> (r: Option<u64>)
    ensures
        r == count_member(member_models(entries@), key@),
{
    match find(entries, key) {
        Some(JsonValue::Number(JsonNumber::PosInt(n))) => Some(*n),
        _ => None,
    }
}

/// The optional freshness state that a member stands for.
fn freshness_from(value: Option<&JsonValue>) -> (r: Option<Option<FreshnessState>>)
    ensures
        decode_freshness(view_of(value)) == match r {
            Some(Some(f)) => Some(Some(f@)),
            Some(None) => Some(None),
            None => None,
        },
{
    match value {
        None => Some(None),
        Some(JsonValue::Null) => Some(None),
        Some(JsonValue::Object(entries)) => {
            let considered = string_member(entries, "last_considered_xact_id");
            let processed = string_member(entries, "last_processed_xact_id");
            match (considered, processed) {
                (Some(last_considered_xact_id), Some(last_processed_xact_id)) => Some(
                    Some(FreshnessState { last_considered_xact_id, last_processed_xact_id }),
                ),
                _ => None,
            }
        },
        Some(_) => None,
    }
}

/// The optional realtime state that a member stands for.
fn realtime_from(value: Option<&JsonValue>) -> (r: Option<Option<RealtimeState>>)
    ensures
        decode_realtime(view_of(value)) == match r {
            Some(Some(s)) => Some(Some(s@)),
            Some(None) => Some(None),
            None => None,
        },
{
    match value {
        None => Some(None),
        Some(JsonValue::Null) => Some(None),
        Some(JsonValue::Object(entries)) => {
            let actual = string_member(entries, "actual_xact_id");
            let minimum = string_member(entries, "minimum_xact_id");
            let count = integer_member(entries, "read_bytes");
            let kind = string_member(entries, "type");
            match (actual, minimum, count, kind) {
                (Some(actual_xact_id), Some(minimum_xact_id), Some(read_bytes), Some(state_type)) => {
                    Some(
                        Some(
                            RealtimeState {
                                actual_xact_id,
                                minimum_xact_id,
                                read_bytes,
                                state_type,
                            },
                        ),
                    )
                },
                _ => None,
            }
        },
        Some(_) => None,
    }
}

/// The members whose key is not a known one, in order.
fn extras_of(entries: &Vec<(String, JsonValue)>) -> (extra: Vec<(String, JsonValue)>)
    ensures
        member_models(extra@) == extras(member_models(entries@), entries@.len()),
{
    let mut extra: Vec<(String, JsonValue)> = Vec::new();
    let mut i: usize = 0;
    while i < entries.len()
        invariant
            i <= entries.len(),
            member_models(extra@) == extras(member_models(entries@), i as nat),
        decreases entries.len() - i,
    {
        if !known_field(entries[i].0.as_str()) {
            extra.push((entries[i].0.clone(), entries[i].1.deep_clone()));
        }
        i += 1;
    }
    extra
}

impl SqlResponse {
    /// The response that a JSON value stands for, or why it stands for none.
    pub fn from_json(v: &JsonValue) -> (r: Result<SqlResponse, DecodeError>)
        ensures
            match r {
                Ok(response) => decode(v@) == Ok::<ResponseModel, DecodeError>(response@),
                Err(e) => decode(v@) == Err::<ResponseModel, DecodeError>(e),
            },
    {
        let entries = match v {
            JsonValue::Object(entries) => entries,
            _ => {
                return Err(DecodeError::NotAnObject);
            },
        };
        let data = match find(entries, "data") {
            None => {
                return Err(DecodeError::MissingData);
            },
            Some(JsonValue::Array(items)) => match rows_from(items) {
                Some(data) => data,
                None => {
                    return Err(DecodeError::InvalidData);
                },
            },
            Some(_) => {
                return Err(DecodeError::InvalidData);
            },
        };
        let schema = match find(entries, "schema") {
            Some(schema) => schema.deep_clone(),
            None => {
                return Err(DecodeError::MissingSchema);
            },
        };
        let cursor = match text_from(find(entries, "cursor")) {
            Some(cursor) => cursor,
            None => {
                return Err(DecodeError::InvalidCursor);
            },
        };
        let freshness_state = match freshness_from(find(entries, "freshness_state")) {
            Some(state) => state,
            None => {
                return Err(DecodeError::InvalidFreshnessState);
            },
        };
        let realtime_state = match realtime_from(find(entries, "realtime_state")) {
            Some(state) => state,
            None => {
                return Err(DecodeError::InvalidRealtimeState);
            },
        };
        let extra = extras_of(entries);
        Ok(SqlResponse { data, schema, cursor, freshness_state, realtime_state, extra })
    }
}

/// The five known keys are what their literals spell, and so differ.
proof fn lemma_known_fields()
    ensures
        "data"@ == seq!['d', 'a', 't', 'a'],
        "schema"@ == seq!['s', 'c', 'h', 'e', 'm', 'a'],
        "cursor"@ == seq!['c', 'u', 'r', 's', 'o', 'r'],
        "freshness_state"@.len() == 15,
        "realtime_state"@.len() == 14,
{
    reveal_strlit("data");
    reveal_strlit("schema");
    reveal_strlit("cursor");
    reveal_strlit("freshness_state");
    reveal_strlit("realtime_state");
}

/// The keys of the two states are what their literals spell, and so differ.
proof fn lemma_state_fields()
    ensures
        "last_considered_xact_id"@.len() == 23,
        "last_processed_xact_id"@.len() == 22,
        "actual_xact_id"@.len() == 14,
        "minimum_xact_id"@.len() == 15,
        "read_bytes"@.len() == 10,
        "type"@.len() == 4,
{
    reveal_strlit("last_considered_xact_id");
    reveal_strlit("last_processed_xact_id");
    reveal_strlit("actual_xact_id");
    reveal_strlit("minimum_xact_id");
    reveal_strlit("read_bytes");
    reveal_strlit("type");
}

/// Behind the known members, the extras of a list are the extras of what
/// follows them.
proof fn lemma_extras_after_known(
    known: Seq<(Seq<char>, JsonModel)>,
    extra: Seq<(Seq<char>, JsonModel)>,
    n: nat,
)
    requires
        forall|i: int| 0 <= i < known.len() ==> is_known_field(#[trigger] known[i].0),
        forall|i: int| 0 <= i < extra.len() ==> !is_known_field(#[trigger] extra[i].0),
        n <= extra.len(),
    ensures
        extras(known + extra, known.len() + n) == extra.take(n as int),
    decreases known.len() + n,
{
    let members = known + extra;
    if n > 0 {
        lemma_extras_after_known(known, extra, (n - 1) as nat);
    } else if known.len() > 0 {
        lemma_extras_after_known(known.drop_last(), Seq::empty(), 0);
        lemma_extras_prefix(known.drop_last(), members, (known.len() - 1) as nat);
    } else {
    }
}

/// The extras among the first `n` members depend on those members alone.
proof fn lemma_extras_prefix(
    a: Seq<(Seq<char>, JsonModel)>,
    b: Seq<(Seq<char>, JsonModel)>,
    n: nat,
)
    requires
        n <= a.len(),
        n <= b.len(),
        forall|i: int| 0 <= i < n ==> a[i] == b[i],
    ensures
        extras(a, n) == extras(b, n),
    decreases n,
{
    if n > 0 {
        lemma_extras_prefix(a, b, (n - 1) as nat);
    }
}

/// Every member with an unknown key is among the extras, and every extra is
/// such a member.
pub proof fn lemma_extras_members(members: Seq<(Seq<char>, JsonModel)>, n: nat)
    requires
        n <= members.len(),
    ensures
        forall|i: int|
            0 <= i < n && !is_known_field((#[trigger] members[i]).0) ==> extras(
                members,
                n,
            ).contains(members[i]),
        forall|k: int|
            0 <= k < extras(members, n).len() ==> !is_known_field(
                (#[trigger] extras(members, n)[k]).0,
            ) && members.contains(extras(members, n)[k]),
    decreases n,
{
    if n > 0 {
        lemma_extras_members(members, (n - 1) as nat);
        let before = extras(members, (n - 1) as nat);
        let now = extras(members, n);
        if !is_known_field(members[n - 1].0) {
            assert(now[now.len() - 1] == members[n - 1]);
            assert forall|i: int|
                0 <= i < n && !is_known_field((#[trigger] members[i]).0) implies now.contains(
                members[i],
            ) by {
                if i < n - 1 {
                    let k = choose|k: int| 0 <= k < before.len() && before[k] == members[i];
                    assert(now[k] == members[i]);
                }
            }
            assert forall|k: int| 0 <= k < now.len() implies !is_known_field(
                (#[trigger] now[k]).0,
            ) && members.contains(now[k]) by {
                if k < before.len() {
                    assert(now[k] == before[k]);
                }
            }
        }
    }
}

impl ResponseModel {
    /// No further field goes by the key of a known member.
    pub open spec fn wf(self) -> bool {
        forall|i: int| 0 <= i < self.extra.len() ==> !is_known_field(#[trigger] self.extra[i].0)
    }

    /// A response is read back from its JSON object as it was, further
    /// fields included.
    pub proof fn lemma_decode_encode(self)
        requires
            self.wf(),
        ensures
            decode(self.to_json()) == Ok::<ResponseModel, DecodeError>(self),
    {
        lemma_known_fields();
        lemma_state_fields();
        let known = self.known_members();
        let members = known + self.extra;
        assert forall|i: int| 0 <= i < members.len() && i >= 5 implies !is_known_field(
            (#[trigger] members[i]).0,
        ) by {
            assert(members[i] == self.extra[i - 5]);
        }
        lemma_lookup_at(members, "data"@, 0);
        lemma_lookup_at(members, "schema"@, 1);
        lemma_lookup_at(members, "cursor"@, 2);
        lemma_lookup_at(members, "freshness_state"@, 3);
        lemma_lookup_at(members, "realtime_state"@, 4);
        assert(decode_rows(row_objects(self.data)) == Some(self.data)) by {
            assert(decode_rows(row_objects(self.data))->0 =~= self.data);
        }
        if let Some(f) = self.freshness_state {
            lemma_lookup_at(f.members(), "last_considered_xact_id"@, 0);
            lemma_lookup_at(f.members(), "last_processed_xact_id"@, 1);
        }
        if let Some(r) = self.realtime_state {
            lemma_lookup_at(r.members(), "actual_xact_id"@, 0);
            lemma_lookup_at(r.members(), "minimum_xact_id"@, 1);
            lemma_lookup_at(r.members(), "read_bytes"@, 2);
            lemma_lookup_at(r.members(), "type"@, 3);
        }
        lemma_extras_after_known(known, self.extra, self.extra.len());
        assert(self.extra.take(self.extra.len() as int) =~= self.extra);
    }
}

/// Reading a JSON object keeps every member with an unknown key as it is:
/// it is among the further fields of the response, and a member of the
/// JSON object that is written for the response.
pub proof fn lemma_decode_keeps_extras(
    members: Seq<(Seq<char>, JsonModel)>,
    response: ResponseModel,
    i: int,
)
    requires
        decode(JsonModel::Object(members)) == Ok::<ResponseModel, DecodeError>(response),
        0 <= i < members.len(),
        !is_known_field(members[i].0),
    ensures
        response.wf(),
        response.extra.contains(members[i]),
        response.to_json() matches JsonModel::Object(written) && written.contains(members[i]),
{
    lemma_extras_members(members, members.len());
    let k = choose|k: int| 0 <= k < response.extra.len() && response.extra[k] == members[i];
    let written = response.known_members() + response.extra;
    assert(written[5 + k] == members[i]);
}

} // verus!
