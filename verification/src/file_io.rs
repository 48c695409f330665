//! Reading the list of parts that a parts file names: the file's bytes are parsed as
//! JSON (by `serde_json`), and its `parts_list` field is read. Opening the file, and
//! placing each part's file beside it, belong to the caller.
use vstd::prelude::*;

verus! {

/// One element of the `parts_list` array, as far as reading it needs.
#[derive(Debug)]
pub enum PartEntry {
    /// An element that is not an object.
    NotObject,
    /// An object: the name of each field, with its value when that is a string.
    Object(Vec<(String, Option<String>)>),
}

/// The `parts_list` field of a parts file.
#[derive(Debug)]
pub enum PartsList {
    /// The file has no such field.
    Missing,
    /// The field is not an array.
    NotArray,
    /// The field is an array with these elements.
    Array(Vec<PartEntry>),
}

/// The value of a `PartsList`.
pub ghost enum PartsListView {
    Missing,
    NotArray,
    Array(Seq<PartEntryView>),
}

impl View for PartsList {
    type V = PartsListView;

    open spec fn view(&self) -> PartsListView {
        match self {
            PartsList::Missing => PartsListView::Missing,
            PartsList::NotArray => PartsListView::NotArray,
            PartsList::Array(entries) => PartsListView::Array(entries_view(entries@)),
        }
    }
}

/// The value of a `PartEntry`: strings taken by their characters.
pub ghost enum PartEntryView {
    NotObject,
    Object(Seq<(Seq<char>, Option<Seq<char>>)>),
}

/// The value of one field of an object element.
pub open spec fn field_view(f: (String, Option<String>)) -> (Seq<char>, Option<Seq<char>>) {
    (
        f.0@,
        match f.1 {
            Some(s) => Some(s@),
            None => None,
        },
    )
}

impl View for PartEntry {
    type V = PartEntryView;

    open spec fn view(&self) -> PartEntryView {
        match self {
            PartEntry::NotObject => PartEntryView::NotObject,
            PartEntry::Object(fields) => PartEntryView::Object(fields@.map_values(|f: (String, Option<String>)| field_view(f))),
        }
    }
}

/// The values of the elements of an array.
pub open spec fn entries_view(s: Seq<PartEntry>) -> Seq<PartEntryView> {
    s.map_values(|e: PartEntry| e@)
}

/// The values of a list of named parts.
pub open spec fn parts_view(s: Seq<(String, String)>) -> Seq<(Seq<char>, Seq<char>)> {
    s.map_values(|p: (String, String)| (p.0@, p.1@))
}

/// What one element gives: its single field's name and file name, or the error that
/// rejects it.
pub open spec fn entry_result(e: PartEntryView) -> Result<(Seq<char>, Seq<char>), Seq<char>> {
    match e {
        PartEntryView::NotObject => Err("Error in JSON array: expected an object"@),
        PartEntryView::Object(fields) => if fields.len() != 1 {
            Err("Error in JSON array: each entry should only have 1 field"@)
        } else {
            match fields[0].1 {
                Some(file_name) => Ok((fields[0].0, file_name)),
                None => Err("Error in JSON: all values should be strings"@),
            }
        },
    }
}

/// What the first `n` elements give, read in order: their parts, or the error of the
/// first element that is rejected.
pub open spec fn entries_result(s: Seq<PartEntryView>, n: nat) -> Result<Seq<(Seq<char>, Seq<char>)>, Seq<char>>
    decreases n,
{
    if n == 0 {
        Ok(Seq::empty())
    } else {
        match entries_result(s, (n - 1) as nat) {
            Err(e) => Err(e),
            Ok(parts) => match entry_result(s[n - 1]) {
                Ok(p) => Ok(parts.push(p)),
                Err(e) => Err(e),
            },
        }
    }
}

/// What a `parts_list` field gives.
pub open spec fn part_list_result(l: PartsListView) -> Result<Seq<(Seq<char>, Seq<char>)>, Seq<char>> {
    match l {
        PartsListView::Missing => Err("The JSON file does not contain the `parts_list` array"@),
        PartsListView::NotArray => Err("The `parts_list` field in the JSON file is not an array"@),
        PartsListView::Array(entries) => entries_result(entries, entries.len()),
    }
}

/// The value of a result of `read_part_list`.
pub open spec fn part_list_view(r: Result<Vec<(String, String)>, String>) -> Result<Seq<(Seq<char>, Seq<char>)>, Seq<char>> {
    match r {
        Ok(v) => Ok(parts_view(v@)),
        Err(e) => Err(e@),
    }
}

fn read_entry(entry: &PartEntry) -> (r: Result<(String, String), String>)
    ensures
        match r {
            Ok(p) => entry_result(entry@) == Ok::<(Seq<char>, Seq<char>), Seq<char>>((p.0@, p.1@)),
            Err(e) => entry_result(entry@) == Err::<(Seq<char>, Seq<char>), Seq<char>>(e@),
        },
{
    match entry {
        PartEntry::NotObject => Err(String::from_str("Error in JSON array: expected an object")),
        PartEntry::Object(fields) => {
            if fields.len() != 1 {
                return Err(String::from_str("Error in JSON array: each entry should only have 1 field"));
            }
            proof {
                assert(field_view(fields@[0]) == entry@->Object_0[0]);
            }
            match &fields[0].1 {
                Some(file_name) => Ok((fields[0].0.clone(), file_name.clone())),
                None => Err(String::from_str("Error in JSON: all values should be strings")),
            }
        },
    }
}

/// The parts that a `parts_list` field names: the single field of each element,
/// giving the part's name and its file name, in the order of the array. The first
/// element that is not an object with one string field rejects the whole list.
pub fn read_part_list(parts_list: &PartsList) -> (r: Result<Vec<(String, String)>, String>)
    ensures
        part_list_view(r) == part_list_result(parts_list@),
{
    match parts_list {
        PartsList::Missing => Err(String::from_str("The JSON file does not contain the `parts_list` array")),
        PartsList::NotArray => Err(String::from_str("The `parts_list` field in the JSON file is not an array")),
        PartsList::Array(entries) => {
            let ghost s = entries_view(entries@);
            let mut to_return: Vec<(String, String)> = Vec::new();
            let mut i: usize = 0;
            assert(parts_view(to_return@) =~= Seq::<(Seq<char>, Seq<char>)>::empty());
            while i < entries.len()
                invariant
                    i <= entries@.len(),
                    s == entries_view(entries@),
                    part_list_result(parts_list@) == entries_result(s, entries@.len()),
                    entries_result(s, i as nat) == Ok::<Seq<(Seq<char>, Seq<char>)>, Seq<char>>(parts_view(to_return@)),
                decreases entries@.len() - i,
            {
                match read_entry(&entries[i]) {
                    Ok(p) => {
                        let ghost before = to_return@;
                        proof {
                            assert(s[i as int] == entries@[i as int]@);
                            assert(entries_result(s, (i + 1) as nat) == Ok::<Seq<(Seq<char>, Seq<char>)>, Seq<char>>(
                                parts_view(before).push((p.0@, p.1@)),
                            ));
                        }
                        to_return.push(p);
                        proof {
                            assert(parts_view(to_return@) =~= parts_view(before).push((p.0@, p.1@)));
                        }
                        i = i + 1;
                    },
                    Err(e) => {
                        proof {
                            assert(s[i as int] == entries@[i as int]@);
                            assert(entries_result(s, (i + 1) as nat) == Err::<Seq<(Seq<char>, Seq<char>)>, Seq<char>>(e@));
                            lemma_first_error_stays(s, (i + 1) as nat, entries@.len());
                        }
                        return Err(e);
                    },
                }
            }
            Ok(to_return)
        },
    }
}

/// Once an element is rejected, so are all the longer prefixes, with its error.
proof fn lemma_first_error_stays(s: Seq<PartEntryView>, n: nat, m: nat)
    requires
        n <= m,
        entries_result(s, n) is Err,
    ensures
        entries_result(s, m) == entries_result(s, n),
    decreases m - n,
{
    if n < m {
        lemma_first_error_stays(s, n, (m - 1) as nat);
    }
}

/// A JSON document, as far as the library reads it: numbers are kept only as such.
#[derive(Debug)]
pub enum JsonValue {
    Null,
    Bool(bool),
    Number,
    Str(String),
    Array(Vec<JsonValue>),
    /// The fields of an object, by name.
    Object(Vec<(String, JsonValue)>),
}

/// The value of a JSON document: strings taken by their characters.
pub ghost enum JsonValueView {
    Null,
    Bool(bool),
    Number,
    Str(Seq<char>),
    Array(Seq<JsonValueView>),
    Object(Seq<(Seq<char>, JsonValueView)>),
}

/// The value of a JSON document.
pub open spec fn json_view(v: JsonValue) -> JsonValueView
    decreases v, 0nat,
{
    match v {
        JsonValue::Null => JsonValueView::Null,
        JsonValue::Bool(b) => JsonValueView::Bool(b),
        JsonValue::Number => JsonValueView::Number,
        JsonValue::Str(s) => JsonValueView::Str(s@),
        JsonValue::Array(items) => JsonValueView::Array(items_view(items, items.len() as nat)),
        JsonValue::Object(fields) => JsonValueView::Object(fields_view(fields, fields.len() as nat)),
    }
}

/// The values of the first `n` elements of an array.
pub open spec fn items_view(v: Vec<JsonValue>, n: nat) -> Seq<JsonValueView>
    decreases v, n,
{
    if n == 0 || n > v.len() {
        seq![]
    } else {
        proof {
            broadcast use vstd::std_specs::vec::axiom_vec_index_decreases;
        }
        items_view(v, (n - 1) as nat).push(json_view(v[n - 1]))
    }
}

/// The values of the first `n` fields of an object.
pub open spec fn fields_view(v: Vec<(String, JsonValue)>, n: nat) -> Seq<(Seq<char>, JsonValueView)>
    decreases v, n,
{
    if n == 0 || n > v.len() {
        seq![]
    } else {
        proof {
            broadcast use vstd::std_specs::vec::axiom_vec_index_decreases;
        }
        fields_view(v, (n - 1) as nat).push((v[n - 1].0@, json_view(v[n - 1].1)))
    }
}

impl View for JsonValue {
    type V = JsonValueView;

    open spec fn view(&self) -> JsonValueView {
        json_view(*self)
    }
}

/// Element `i` of the value of an array is the value of its element `i`.
proof fn lemma_items_view(v: Vec<JsonValue>, n: nat)
    requires
        n <= v.len(),
    ensures
        items_view(v, n).len() == n,
        forall|i: int| 0 <= i < n ==> #[trigger] items_view(v, n)[i] == json_view(v@[i]),
    decreases n,
{
    if n > 0 {
        lemma_items_view(v, (n - 1) as nat);
    }
}

/// Field `i` of the value of an object is the name and value of its field `i`.
proof fn lemma_fields_view(v: Vec<(String, JsonValue)>, n: nat)
    requires
        n <= v.len(),
    ensures
        fields_view(v, n).len() == n,
        forall|i: int| 0 <= i < n ==> #[trigger] fields_view(v, n)[i] == (v@[i].0@, json_view(v@[i].1)),
    decreases n,
{
    if n > 0 {
        lemma_fields_view(v, (n - 1) as nat);
    }
}

/// What `serde_json` parses `bytes` into, as a `JsonValueView`; `None` when they are
/// not one JSON document.
pub uninterp spec fn json_parse(bytes: Seq<u8>) -> Option<JsonValueView>;

/// Declares `serde_json::Value`, the document `serde_json` parses into.
#[verifier::external_type_specification]
#[verifier::external_body]
pub struct ExJsonDocument(serde_json::Value);

/// Calls `serde_json::from_slice` to parse `bytes` into a `serde_json::Value`, and
/// turns the document into a `JsonValue` variant for variant (by `json_value_from`).
/// The contract claims only that the result is the named parse of the bytes, `None`
/// when `serde_json` refuses them; what the parse gives is left to `serde_json`.
#[verifier::external_body]
fn parse_json(bytes: &[u8]) -> (r: Option<JsonValue>)
    ensures
        match r {
            Some(v) => json_parse(bytes@) == Some(v@),
            None => json_parse(bytes@) is None,
        },
{
    match serde_json::from_slice::<serde_json::Value>(bytes) {
        Ok(value) => Some(json_value_from(value)),
        Err(_) => None,
    }
}

/// Turns a `serde_json::Value` into a `JsonValue`, variant for variant (a number
/// keeps only its kind); used by `parse_json` alone, whose contract covers it.
#[verifier::external_body]
fn json_value_from(value: serde_json::Value) -> JsonValue {
    match value {
        serde_json::Value::Null => JsonValue::Null,
        serde_json::Value::Bool(b) => JsonValue::Bool(b),
        serde_json::Value::Number(_) => JsonValue::Number,
        serde_json::Value::String(s) => JsonValue::Str(s),
        serde_json::Value::Array(items) => JsonValue::Array(items.into_iter().map(json_value_from).collect()),
        serde_json::Value::Object(map) => JsonValue::Object(
            map.into_iter().map(|(k, v)| (k, json_value_from(v))).collect(),
        ),
    }
}

/// The value of the first field named `key`, if any.
pub open spec fn field_named(fields: Seq<(Seq<char>, JsonValueView)>, key: Seq<char>) -> Option<JsonValueView>
    decreases fields.len(),
{
    if fields.len() == 0 {
        None
    } else if fields[0].0 == key {
        Some(fields[0].1)
    } else {
        field_named(fields.drop_first(), key)
    }
}

/// What an element of the `parts_list` array holds for reading it.
pub open spec fn entry_spec(j: JsonValueView) -> PartEntryView {
    match j {
        JsonValueView::Object(fields) => PartEntryView::Object(
            fields.map_values(
                |f: (Seq<char>, JsonValueView)|
                    (
                        f.0,
                        match f.1 {
                            JsonValueView::Str(s) => Some(s),
                            _ => None,
                        },
                    ),
            ),
        ),
        _ => PartEntryView::NotObject,
    }
}

/// The `parts_list` field of a document: missing (also when the document is not an
/// object), not an array, or the array's elements.
pub open spec fn parts_list_spec(j: JsonValueView) -> PartsListView {
    let field = match j {
        JsonValueView::Object(fields) => field_named(fields, "parts_list"@),
        _ => None,
    };
    match field {
        None => PartsListView::Missing,
        Some(JsonValueView::Array(items)) => PartsListView::Array(items.map_values(|x: JsonValueView| entry_spec(x))),
        Some(_) => PartsListView::NotArray,
    }
}

fn entry_of(j: &JsonValue) -> (e: PartEntry)
    ensures
        e@ == entry_spec(j@),
{
    match j {
        JsonValue::Object(fields) => {
            let mut out: Vec<(String, Option<String>)> = Vec::new();
            let mut i: usize = 0;
            proof {
                lemma_fields_view(*fields, fields@.len());
            }
            while i < fields.len()
                invariant
                    i <= fields@.len(),
                    fields_view(*fields, fields@.len() as nat).len() == fields@.len(),
                    forall|k: int|
                        0 <= k < fields@.len() ==> #[trigger] fields_view(*fields, fields@.len() as nat)[k] == (
                            fields@[k].0@,
                            json_view(fields@[k].1),
                        ),
                    out@.len() == i,
                    forall|k: int|
                        0 <= k < i ==> #[trigger] field_view(out@[k]) == (
                            fields@[k].0@,
                            match json_view(fields@[k].1) {
                                JsonValueView::Str(s) => Some(s),
                                _ => None,
                            },
                        ),
                decreases fields@.len() - i,
            {
                let value = match &fields[i].1 {
                    JsonValue::Str(s) => Some(s.clone()),
                    _ => None,
                };
                out.push((fields[i].0.clone(), value));
                i = i + 1;
            }
            let e = PartEntry::Object(out);
            proof {
                let fv = fields_view(*fields, fields@.len() as nat);
                assert(j@ == JsonValueView::Object(fv));
                assert(out@.map_values(|f: (String, Option<String>)| field_view(f)) =~= fv.map_values(
                    |f: (Seq<char>, JsonValueView)|
                        (
                            f.0,
                            match f.1 {
                                JsonValueView::Str(s) => Some(s),
                                _ => None,
                            },
                        ),
                ));
            }
            e
        },
        _ => PartEntry::NotObject,
    }
}

/// The `parts_list` field of document `v` (see `parts_list_spec`).
pub fn parts_list_of(v: &JsonValue) -> (l: PartsList)
    ensures
        l@ == parts_list_spec(v@),
{
    match v {
        JsonValue::Object(fields) => {
            proof {
                lemma_fields_view(*fields, fields@.len());
            }
            let ghost fv = fields_view(*fields, fields@.len() as nat);
            let mut i: usize = 0;
            assert(fv.subrange(0, fv.len() as int) =~= fv);
            while i < fields.len()
                invariant
                    i <= fields@.len(),
                    v@ == JsonValueView::Object(fv),
                    fv.len() == fields@.len(),
                    forall|k: int| 0 <= k < fields@.len() ==> #[trigger] fv[k] == (fields@[k].0@, json_view(fields@[k].1)),
                    field_named(fv, "parts_list"@) == field_named(fv.subrange(i as int, fv.len() as int), "parts_list"@),
                decreases fields@.len() - i,
            {
                assert(fv.subrange(i as int, fv.len() as int).drop_first() =~= fv.subrange(i + 1, fv.len() as int));
                if fields[i].0.eq(&String::from_str("parts_list")) {
                    proof {
                        reveal_strlit("parts_list");
                    }
                    assert(field_named(fv, "parts_list"@) == Some(fv[i as int].1));
                    assert(fv[i as int].1 == json_view(fields@[i as int].1));
                    return match &fields[i].1 {
                        JsonValue::Array(items) => {
                            let mut entries: Vec<PartEntry> = Vec::new();
                            let mut k: usize = 0;
                            proof {
                                lemma_items_view(*items, items@.len());
                            }
                            while k < items.len()
                                invariant
                                    k <= items@.len(),
                                    items_view(*items, items@.len() as nat).len() == items@.len(),
                                    forall|m: int|
                                        0 <= m < items@.len() ==> #[trigger] items_view(*items, items@.len() as nat)[m]
                                            == json_view(items@[m]),
                                    entries@.len() == k,
                                    forall|m: int| 0 <= m < k ==> #[trigger] entries@[m]@ == entry_spec(json_view(items@[m])),
                                decreases items@.len() - k,
                            {
                                entries.push(entry_of(&items[k]));
                                k = k + 1;
                            }
                            proof {
                                assert(entries_view(entries@) =~= items_view(*items, items@.len() as nat).map_values(
                                    |x: JsonValueView| entry_spec(x),
                                ));
                            }
                            PartsList::Array(entries)
                        },
                        _ => PartsList::NotArray,
                    };
                }
                i = i + 1;
            }
            proof {
                assert(fv.subrange(fv.len() as int, fv.len() as int).len() == 0);
            }
            PartsList::Missing
        },
        _ => PartsList::Missing,
    }
}

/// The value of a result of `load_part_list`.
pub open spec fn loaded_view(r: Result<Option<Vec<(String, String)>>, String>) -> Result<
    Option<Seq<(Seq<char>, Seq<char>)>>,
    Seq<char>,
> {
    match r {
        Ok(Some(v)) => Ok(Some(parts_view(v@))),
        Ok(None) => Ok(None),
        Err(e) => Err(e@),
    }
}

/// What the bytes of a parts file give: `None` when they are not JSON, otherwise the
/// parts of its `parts_list` field, or the error that rejects it.
pub open spec fn load_part_list_spec(bytes: Seq<u8>) -> Result<Option<Seq<(Seq<char>, Seq<char>)>>, Seq<char>> {
    match json_parse(bytes) {
        None => Ok(None),
        Some(j) => match part_list_result(parts_list_spec(j)) {
            Ok(parts) => Ok(Some(parts)),
            Err(e) => Err(e),
        },
    }
}

/// The parts that the bytes of a parts file list: each part's name and file name, in
/// order; `None` when the bytes are not JSON (see `load_part_list_spec`).
pub fn load_part_list(bytes: &[u8]) -> (r: Result<Option<Vec<(String, String)>>, String>)
    ensures
        loaded_view(r) == load_part_list_spec(bytes@),
{
    match parse_json(bytes) {
        None => Ok(None),
        Some(json_value) => match read_part_list(&parts_list_of(&json_value)) {
            Ok(parts) => Ok(Some(parts)),
            Err(e) => Err(e),
        },
    }
}

} // verus!
