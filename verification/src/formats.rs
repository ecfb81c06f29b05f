//! Reading a document from input text, and writing a document as output
//! bytes in JSON, TOML or CSV.

use vstd::prelude::*;
use vstd::string::*;
use crate::cli::Format;
use crate::error::TransforError;
use vstd::utf8::*;
use crate::codec::{
    json_compact_text, json_parsed, json_pretty_text, parse_json, parse_toml, render_json_compact,
    render_json_pretty, render_toml, toml_parsed, toml_text,
};
use crate::json::{JsonData, JsonMap, JsonValue, keys_of, lookup, pairs_data, strictly_sorted};

verus! {

/// The characters of each text, in order.
pub open spec fn texts(v: Seq<String>) -> Seq<Seq<char>> {
    v.map_values(|s: String| s@)
}

/// The characters of each field of each row, in order.
pub open spec fn rows_texts(v: Seq<Vec<String>>) -> Seq<Seq<Seq<char>>> {
    v.map_values(|r: Vec<String>| texts(r@))
}

/// The header row and the data rows that a `csv::Reader` with its default
/// settings reads from `text`, or `None` where it reports an error.
pub uninterp spec fn csv_decoded(text: Seq<char>) -> Option<(Seq<Seq<char>>, Seq<Seq<Seq<char>>>)>;

/// Reads CSV text with `csv::Reader::from_reader`: its header row
/// (`Reader::headers`) and then every data row (`Reader::records`), each
/// field as a text.
///
/// The contract claims that the outcome depends on the text alone: the rows
/// that the reader gives when it reports no error, or an error. By default
/// the reader is not flexible: it reports an error for a data row whose
/// number of fields differs from the header row's, as its documentation
/// shows. Which error it reports is left unsaid.
#[verifier::external_body]
fn decode_csv(text: &str) -> (r: Result<(Vec<String>, Vec<Vec<String>>), csv::Error>)
    ensures
        r is Ok <==> csv_decoded(text@) is Some,
        r matches Ok(t) ==> csv_decoded(text@) == Some((texts(t.0@), rows_texts(t.1@))),
        r matches Ok(t) ==> rows_match_header(texts(t.0@), rows_texts(t.1@)),
{
    let mut rdr = csv::Reader::from_reader(text.as_bytes());
    let headers: Vec<String> = rdr.headers()?.iter().map(String::from).collect();
    let rows = rdr.records().map(|r| r.map(|rec| rec.iter().map(String::from).collect()))
        .collect::<Result<Vec<Vec<String>>, csv::Error>>()?;
    Ok((headers, rows))
}

/// Every row has as many fields as the header row.
pub open spec fn rows_match_header(h: Seq<Seq<char>>, rows: Seq<Seq<Seq<char>>>) -> bool {
    forall|i: int| 0 <= i < rows.len() ==> (#[trigger] rows[i]).len() == h.len()
}

/// The text that a record with field names `h` and fields `f` holds under
/// the name `k`, looking at the first `n` fields: the last of them so named.
pub open spec fn record_lookup(h: Seq<Seq<char>>, f: Seq<Seq<char>>, n: int, k: Seq<char>) -> Option<Seq<char>>
    decreases n,
{
    if n <= 0 {
        None
    } else if h[n - 1] == k {
        Some(f[n - 1])
    } else {
        record_lookup(h, f, n - 1, k)
    }
}

/// The number of fields of a row that are paired with a name.
pub open spec fn paired_len(h: Seq<Seq<char>>, f: Seq<Seq<char>>) -> int {
    if h.len() <= f.len() { h.len() as int } else { f.len() as int }
}

/// The object `m` holds, under each name of `h`, the text of the paired
/// field of `f` (the last one where a name repeats), and nothing else.
pub open spec fn holds_record(m: Seq<(Seq<char>, JsonValue)>, h: Seq<Seq<char>>, f: Seq<Seq<char>>) -> bool {
    forall|k: Seq<char>| {
        &&& (#[trigger] lookup(m, k) is Some <==> record_lookup(h, f, paired_len(h, f), k) is Some)
        &&& (lookup(m, k) matches Some(v) ==> (v matches JsonValue::String(s) && Some(s@) == record_lookup(h, f, paired_len(h, f), k)))
    }
}

/// `v` is the document that CSV rows become: an array with one object per
/// row, each holding the fields of its row as strings under the names of the
/// header row.
pub open spec fn is_csv_document(v: JsonValue, h: Seq<Seq<char>>, rows: Seq<Seq<Seq<char>>>) -> bool {
    &&& v matches JsonValue::Array(items)
    &&& items@.len() == rows.len()
    &&& forall|i: int| 0 <= i < rows.len() ==>
        (#[trigger] items@[i] matches JsonValue::Object(m) && holds_record(m@, h, rows[i]))
}

/// Pairs the fields of each row with the names of the header row: one object
/// per row, every field a string.
pub fn csv_objects(headers: &Vec<String>, rows: &Vec<Vec<String>>) -> (v: JsonValue)
    ensures
        is_csv_document(v, texts(headers@), rows_texts(rows@)),
{
    let ghost h = texts(headers@);
    let mut items: Vec<JsonValue> = Vec::new();
    let mut i: usize = 0;
    while i < rows.len()
        invariant
            i <= rows@.len(),
            h == texts(headers@),
            items@.len() == i,
            forall|t: int| 0 <= t < i ==>
                (#[trigger] items@[t] matches JsonValue::Object(m) && holds_record(m@, h, rows_texts(rows@)[t])),
        decreases rows@.len() - i,
    {
        let row = &rows[i];
        let ghost f = texts(row@);
        let n = if headers.len() <= row.len() { headers.len() } else { row.len() };
        let mut map = JsonMap::new();
        let mut j: usize = 0;
        while j < n
            invariant
                j <= n,
                n == paired_len(h, f),
                h == texts(headers@),
                f == texts(row@),
                forall|k: Seq<char>| {
                    &&& (#[trigger] lookup(map@, k) is Some <==> record_lookup(h, f, j as int, k) is Some)
                    &&& (lookup(map@, k) matches Some(v) ==> (v matches JsonValue::String(s) && Some(s@) == record_lookup(h, f, j as int, k)))
                },
            decreases n - j,
        {
            let name = headers[j].clone();
            let field = row[j].clone();
            assert(h[j as int] == name@ && f[j as int] == field@);
            map.insert(name, JsonValue::String(field));
            j = j + 1;
        }
        assert(rows_texts(rows@)[i as int] == f);
        items.push(JsonValue::Object(map));
        i = i + 1;
    }
    JsonValue::Array(items)
}

/// `r` is the outcome of decoding the whole input `content` from `format`:
/// empty input is refused; JSON and TOML text is parsed by its crate; CSV
/// becomes an array of objects whose keys are the names of the header row
/// and whose values are the fields of a data row, every field a string.
pub open spec fn is_read_of(r: Result<JsonValue, TransforError>, content: Seq<char>, format: Format) -> bool {
    if content.len() == 0 {
        r matches Err(TransforError::EmptyInput)
    } else {
        match format {
            Format::Json => match json_parsed(content) {
                Some(d) => r matches Ok(v) && v.data() == d,
                None => r matches Err(TransforError::Json(_)),
            },
            Format::Toml => match toml_parsed(content) {
                Some(d) => r matches Ok(v) && v.data() == d,
                None => r matches Err(TransforError::Toml(_)),
            },
            Format::Csv => match csv_decoded(content) {
                Some((h, rows)) => rows_match_header(h, rows) && (r matches Ok(v) && is_csv_document(v, h, rows)),
                None => r matches Err(TransforError::Csv(_)),
            },
        }
    }
}

/// Decodes the whole input `content` from `format` into a document.
///
/// Empty input is refused with `EmptyInput`. JSON and TOML text is parsed by
/// `serde_json` and `toml`. CSV is read into an array of objects, one per
/// data row, whose keys are the names of the header row and whose values
/// are the row's fields, every field a string.
pub fn read_data(content: String, format: Format) -> (r: Result<JsonValue, TransforError>)
    ensures
        is_read_of(r, content@, format),
{
    if content.as_str().unicode_len() == 0 {
        return Err(TransforError::EmptyInput);
    }
    match format {
        Format::Json => match parse_json(content.as_str()) {
            Ok(v) => Ok(v),
            Err(e) => Err(TransforError::Json(e)),
        },
        Format::Toml => match parse_toml(content.as_str()) {
            Ok(v) => Ok(v),
            Err(e) => Err(TransforError::Toml(e)),
        },
        Format::Csv => match decode_csv(content.as_str()) {
            Ok((headers, rows)) => Ok(csv_objects(&headers, &rows)),
            Err(e) => Err(TransforError::Csv(e)),
        },
    }
}

/// `f` holds a character that makes a CSV field need quotes: the delimiter
/// `,`, the quote `"`, or a record terminator `\r` or `\n`.
pub open spec fn needs_quotes(f: Seq<char>) -> bool {
    f.contains(',') || f.contains('"') || f.contains('\r') || f.contains('\n')
}

/// `f` with each `"` doubled.
pub open spec fn double_quotes(f: Seq<char>) -> Seq<char>
    decreases f.len(),
{
    if f.len() == 0 {
        f
    } else if f.last() == '"' {
        double_quotes(f.drop_last()) + seq!['"', '"']
    } else {
        double_quotes(f.drop_last()).push(f.last())
    }
}

/// A field as CSV text: in quotes, with its quotes doubled, where it needs
/// them; as it is otherwise.
pub open spec fn field_text(f: Seq<char>) -> Seq<char> {
    if needs_quotes(f) {
        seq!['"'] + double_quotes(f) + seq!['"']
    } else {
        f
    }
}

/// The fields of a record as CSV text, separated by `,`.
pub open spec fn joined_fields(fields: Seq<Seq<char>>) -> Seq<char>
    decreases fields.len(),
{
    if fields.len() == 0 {
        Seq::empty()
    } else if fields.len() == 1 {
        field_text(fields[0])
    } else {
        joined_fields(fields.drop_last()) + seq![','] + field_text(fields.last())
    }
}

/// A record as CSV text: its fields separated by `,`, or `""` where that
/// text is empty (no fields, or one empty field), then `\n`.
pub open spec fn record_text(fields: Seq<Seq<char>>) -> Seq<char> {
    let j = joined_fields(fields);
    (if j.len() == 0 { seq!['"', '"'] } else { j }).push('\n')
}

/// The bytes of a record as CSV: its text in UTF-8.
pub open spec fn csv_record_bytes(fields: Seq<Seq<char>>) -> Seq<u8> {
    encode_utf8(record_text(fields))
}

/// Writes one record with `csv::Writer::write_record` into a fresh writer
/// with the default settings, and takes the bytes out with `into_inner`.
///
/// The contract claims the encoding that the `csv` crate documents for its
/// default settings (`QuoteStyle::Necessary`, delimiter `,`, quote `"`
/// doubled, terminator `\n`): a field is quoted where it holds `,`, `"`,
/// `\r` or `\n`, and a record whose text is empty is written as `""`.
/// Each record is written the same way whatever came before it, so a table
/// whose records all have the same number of fields is written as its
/// records written one by one. A fresh writer compares no field count, and
/// writing into a `Vec` does not fail.
#[verifier::external_body]
fn encode_record(fields: &Vec<String>) -> (line: Vec<u8>)
    ensures
        line@ == csv_record_bytes(texts(fields@)),
{
    let mut wtr = csv::Writer::from_writer(Vec::new());
    match wtr.write_record(fields) {
        Ok(()) => wtr.into_inner().unwrap_or_default(),
        Err(_) => Vec::new(),
    }
}

/// The bytes of CSV records written one after the other.
pub open spec fn csv_lines(records: Seq<Seq<Seq<char>>>) -> Seq<u8>
    decreases records.len(),
{
    if records.len() == 0 {
        Seq::empty()
    } else {
        csv_lines(records.drop_last()) + csv_record_bytes(records.last())
    }
}

/// The key under which an array is placed to make a TOML document of it.
pub open spec fn data_key() -> Seq<char> {
    seq!['d', 'a', 't', 'a']
}

/// `doc` is the TOML document of `data`: an array placed under the key
/// `data`, any other value as it is.
pub open spec fn is_toml_document_of(doc: JsonValue, data: JsonValue) -> bool {
    &&& if data is Array {
        doc matches JsonValue::Object(m) && m@ == seq![(data_key(), data)]
    } else {
        doc == data
    }
    &&& doc.data() == toml_data(data.data())
}

/// The content of the TOML document of a value with the content `d`: an
/// array placed under the key `data`, any other value as it is.
pub open spec fn toml_data(d: JsonData) -> JsonData {
    if d is Array {
        JsonData::Object(seq![(data_key(), d)])
    } else {
        d
    }
}

/// The document to write as TOML: an array cannot stand at the top of a TOML
/// document, so it is placed under the key `data`; any other value is
/// written as it is.
pub fn toml_document(data: JsonValue) -> (doc: JsonValue)
    ensures
        is_toml_document_of(doc, data),
{
    if let JsonValue::Array(_) = &data {
        let ghost d = data;
        let mut m = JsonMap::new();
        let key = String::from_str("data");
        proof {
            reveal_strlit("data");
            assert(key@ == data_key());
        }
        m.insert(key, data);
        proof {
            let es = m@;
            if es.len() > 1 {
                assert(keys_of(es)[1] == es[1].0);
            }
            assert(lookup(es, data_key()) == Some(d));
            assert(es.len() == 1) by {
                if es.len() == 0 {
                    assert(lookup(es, data_key()) is None);
                } else if es.len() > 1 {
                    let k0 = es[0].0;
                    let k1 = es[1].0;
                    assert(keys_of(es)[0] == k0);
                    crate::json::lemma_lookup_at(es, 0);
                    crate::json::lemma_lookup_at(es, 1);
                    assert(crate::text::text_lt(k0, k1));
                    crate::text::lemma_text_lt_irreflexive(k0);
                }
            }
            crate::json::lemma_lookup_at(es, 0);
            assert(es =~= seq![(data_key(), d)]);
            crate::json::lemma_object_data(m);
            assert(pairs_data(es) =~= seq![(data_key(), d.data())]);
        }
        JsonValue::Object(m)
    } else {
        data
    }
}


/// A document laid out as a CSV table: a header row and rows of field texts,
/// every row with one field per column.
#[derive(Debug)]
pub struct CsvPlan {
    header: Option<Vec<String>>,
    rows: Vec<Vec<String>>,
}

/// What a `CsvPlan` holds.
pub struct PlanView {
    /// The header row; absent for an empty array, of which nothing is written.
    pub header: Option<Seq<Seq<char>>>,
    /// One row of field texts per record, one field per column.
    pub rows: Seq<Seq<Seq<char>>>,
}

impl View for CsvPlan {
    type V = PlanView;

    closed spec fn view(&self) -> PlanView {
        PlanView {
            header: match self.header {
                Some(h) => Some(texts(h@)),
                None => None,
            },
            rows: rows_texts(self.rows@),
        }
    }
}

/// Every row has one field per column, and there are no rows without a header.
pub open spec fn rows_fit_header(p: PlanView) -> bool {
    match p.header {
        None => p.rows.len() == 0,
        Some(h) => rows_match_header(h, p.rows),
    }
}

impl CsvPlan {
    #[verifier::type_invariant]
    spec fn rows_fit(self) -> bool {
        rows_fit_header(self@)
    }

    /// The header row, if any.
    pub fn header(&self) -> (h: &Option<Vec<String>>)
        ensures
            self@.header == match *h {
                Some(v) => Some(texts(v@)),
                None => None,
            },
    {
        &self.header
    }

    /// The rows of field texts.
    pub fn rows(&self) -> (r: &Vec<Vec<String>>)
        ensures
            rows_texts(r@) == self@.rows,
            rows_fit_header(self@),
    {
        proof {
            use_type_invariant(self);
        }
        &self.rows
    }
}

/// A document that could not be written; `flushed` holds the bytes that had
/// already gone to the output before the failure was found.
#[derive(Debug)]
pub struct WriteError {
    pub error: TransforError,
    pub flushed: Vec<u8>,
}

/// The text of a boolean.
pub open spec fn bool_text(b: bool) -> Seq<char> {
    if b {
        seq!['t', 'r', 'u', 'e']
    } else {
        seq!['f', 'a', 'l', 's', 'e']
    }
}

/// The entries of an object (none for any other value).
pub open spec fn entries_of(v: JsonValue) -> Seq<(Seq<char>, JsonValue)> {
    match v {
        JsonValue::Object(m) => m@,
        _ => Seq::empty(),
    }
}

/// The text of the CSV field for the value found under a column's name
/// (`None` where the record has no such key): a string as it is, a number
/// and a boolean as their text, null or a missing value as empty text, and
/// an array or an object as its compact JSON text.
pub open spec fn cell_text(v: Option<JsonValue>) -> Seq<char> {
    match v {
        Some(JsonValue::String(s)) => s@,
        Some(JsonValue::Number(n)) => n@,
        Some(JsonValue::Bool(b)) => bool_text(b),
        Some(JsonValue::Array(a)) => json_compact_text(JsonValue::Array(a).data()),
        Some(JsonValue::Object(m)) => json_compact_text(JsonValue::Object(m).data()),
        _ => Seq::empty(),
    }
}

/// Every item is an object.
pub open spec fn all_objects(items: Seq<JsonValue>) -> bool {
    forall|i: int| 0 <= i < items.len() ==> #[trigger] items[i] is Object
}

/// `data` can be written as CSV: it is an array of objects.
pub open spec fn is_tabular(data: JsonValue) -> bool {
    data matches JsonValue::Array(items) && all_objects(items@)
}

/// The row of a record: for each name of the header `h`, the text of the
/// value the record holds under it.
pub open spec fn row_of(record: JsonValue, h: Seq<Seq<char>>) -> Seq<Seq<char>> {
    h.map_values(|k: Seq<char>| cell_text(lookup(entries_of(record), k)))
}

/// The table of the records `items`: no header and no rows for no records;
/// otherwise the keys of the first record, in their order, as header, and
/// one row per record.
pub open spec fn table_of(items: Seq<JsonValue>) -> PlanView {
    if items.len() == 0 {
        PlanView { header: None, rows: Seq::empty() }
    } else {
        PlanView {
            header: Some(keys_of(entries_of(items[0]))),
            rows: items.map_values(|x: JsonValue| row_of(x, keys_of(entries_of(items[0])))),
        }
    }
}

/// `plan` is the table of `data`, an array of objects; the columns come in
/// ascending order of their names.
pub open spec fn is_table_layout_of(plan: PlanView, data: JsonValue) -> bool {
    &&& is_tabular(data)
    &&& data matches JsonValue::Array(items) && plan == table_of(items@)
    &&& plan.header matches Some(h) ==> strictly_sorted(h)
}

/// `e` is the failure to lay out `data`, which is not an array of objects, as
/// a table.
pub open spec fn is_failed_layout_of(e: WriteError, data: JsonValue) -> bool {
    !is_tabular(data) && e.error is NonTabularForCsv && e.flushed@ == flushed_before_failure(data)
}

/// The bytes that go to the output before a document is found not to be
/// tabular: the header row, where the array starts with an object.
pub open spec fn flushed_before_failure(data: JsonValue) -> Seq<u8> {
    match data {
        JsonValue::Array(items) => if items@.len() > 0 && items@[0] is Object {
            csv_record_bytes(keys_of(entries_of(items@[0])))
        } else {
            Seq::empty()
        },
        _ => Seq::empty(),
    }
}

/// The text of the field for the value found under a column's name.
fn cell_of(v: Option<JsonValue>) -> (t: String)
    ensures
        t@ == cell_text(v),
{
    match v {
        Some(JsonValue::String(s)) => s,
        Some(JsonValue::Number(n)) => n.to_text(),
        Some(JsonValue::Bool(b)) => {
            if b {
                let t = String::from_str("true");
                proof {
                    reveal_strlit("true");
                    assert(t@ =~= bool_text(true));
                }
                t
            } else {
                let t = String::from_str("false");
                proof {
                    reveal_strlit("false");
                    assert(t@ =~= bool_text(false));
                }
                t
            }
        },
        Some(JsonValue::Array(a)) => {
            let d = JsonValue::Array(a);
            render_json_compact(&d)
        },
        Some(JsonValue::Object(m)) => {
            let d = JsonValue::Object(m);
            render_json_compact(&d)
        },
        _ => String::new(),
    }
}

/// The row of a record: for each name of the header, the text of the value
/// the record holds under it.
fn record_row(headers: &Vec<String>, record: JsonMap) -> (row: Vec<String>)
    requires
        strictly_sorted(texts(headers@)),
    ensures
        texts(row@) == texts(headers@).map_values(|k: Seq<char>| cell_text(lookup(record@, k))),
{
    let ghost h = texts(headers@);
    let ghost m0 = record@;
    let mut record = record;
    let mut row: Vec<String> = Vec::new();
    let mut c: usize = 0;
    while c < headers.len()
        invariant
            c <= headers@.len(),
            h == texts(headers@),
            strictly_sorted(h),
            row@.len() == c,
            forall|k: Seq<char>| (forall|a: int| 0 <= a < c ==> h[a] != k) ==> #[trigger] lookup(record@, k) == lookup(m0, k),
            forall|t: int| 0 <= t < c ==> #[trigger] row@[t]@ == cell_text(lookup(m0, h[t])),
        decreases headers@.len() - c,
    {
        assert(h[c as int] == headers@[c as int]@);
        assert forall|a: int| 0 <= a < c implies h[a] != h[c as int] by {
            assert(crate::text::text_lt(h[a], h[c as int]));
            crate::text::lemma_text_lt_irreflexive(h[a]);
        }
        let v = record.remove(headers[c].as_str());
        let cell = cell_of(v);
        proof {
            assert forall|k: Seq<char>| (forall|a: int| 0 <= a < c + 1 ==> h[a] != k) implies #[trigger] lookup(record@, k) == lookup(m0, k) by {
                assert(h[c as int] != k);
            }
        }
        row.push(cell);
        c = c + 1;
    }
    assert(texts(row@) =~= h.map_values(|k: Seq<char>| cell_text(lookup(m0, k))));
    row
}

/// Lays out a document as a CSV table: it must be an array of objects; the
/// keys of the first object, in ascending order, name the columns.
pub fn tabulate(data: JsonValue) -> (r: Result<CsvPlan, WriteError>)
    ensures
        match r {
            Ok(plan) => is_table_layout_of(plan@, data),
            Err(e) => is_failed_layout_of(e, data),
        },
{
    let ghost d = data;
    let mut records = match data {
        JsonValue::Array(records) => records,
        _ => {
            return Err(WriteError { error: TransforError::NonTabularForCsv, flushed: Vec::new() });
        },
    };
    let ghost items = records@;
    let n = records.len();
    if n == 0 {
        let plan = CsvPlan { header: None, rows: Vec::new() };
        assert(plan@.rows =~= Seq::<Seq<Seq<char>>>::empty());
        return Ok(plan);
    }
    let headers = match &records[0] {
        JsonValue::Object(m) => m.keys(),
        _ => {
            return Err(WriteError { error: TransforError::NonTabularForCsv, flushed: Vec::new() });
        },
    };
    let ghost h = texts(headers@);
    assert(h == keys_of(entries_of(items[0])));
    // Take the records out in reverse, to hand them on in their order.
    let mut pending: Vec<JsonValue> = Vec::new();
    while records.len() > 0
        invariant
            n == items.len(),
            n > 0,
            h == texts(headers@),
            h == keys_of(entries_of(items[0])),
            items[0] is Object,
            d matches JsonValue::Array(a) && a@ == items,
            d == data,
            strictly_sorted(h),
            records@ == items.subrange(0, records@.len() as int),
            pending@.len() + records@.len() == n,
            forall|t: int| 0 <= t < pending@.len() ==> #[trigger] pending@[t] == items[n - 1 - t],
        decreases records@.len(),
    {
        let x = records.pop().unwrap();
        proof {
            assert(x == items[records@.len() as int]);
        }
        pending.push(x);
        assert(records@ =~= items.subrange(0, records@.len() as int));
    }
    let mut rows: Vec<Vec<String>> = Vec::new();
    let mut i: usize = 0;
    while i < n
        invariant
            n == items.len(),
            n > 0,
            i <= n,
            h == texts(headers@),
            h == keys_of(entries_of(items[0])),
            items[0] is Object,
            d matches JsonValue::Array(a) && a@ == items,
            d == data,
            strictly_sorted(h),
            pending@.len() == n - i,
            forall|t: int| 0 <= t < pending@.len() ==> #[trigger] pending@[t] == items[n - 1 - t],
            rows@.len() == i,
            forall|t: int| 0 <= t < i ==> #[trigger] items[t] is Object,
            forall|t: int| 0 <= t < i ==> #[trigger] texts(rows@[t]@) == row_of(items[t], h),
        decreases n - i,
    {
        let rec = pending.pop().unwrap();
        assert(rec == items[i as int]);
        match rec {
            JsonValue::Object(m) => {
                let row = record_row(&headers, m);
                rows.push(row);
                assert(texts(rows@[i as int]@) == row_of(items[i as int], h));
            },
            _ => {
                assert(!(items[i as int] is Object));
                assert(!all_objects(items));
                let flushed = encode_record(&headers);
                return Err(WriteError { error: TransforError::NonTabularForCsv, flushed });
            },
        }
        i = i + 1;
    }
    assert(all_objects(items));
    let ghost table = table_of(items);
    assert(rows_texts(rows@) =~= table.rows) by {
        assert forall|t: int| 0 <= t < n implies #[trigger] rows_texts(rows@)[t] == table.rows[t] by {
            assert(texts(rows@[t]@) == row_of(items[t], h));
        }
    }
    assert(rows_match_header(h, rows_texts(rows@))) by {
        assert forall|t: int| 0 <= t < rows_texts(rows@).len() implies (#[trigger] rows_texts(rows@)[t]).len() == h.len() by {
            assert(rows_texts(rows@)[t] == row_of(items[t], h));
        }
    }
    let plan = CsvPlan { header: Some(headers), rows };
    Ok(plan)
}

/// The records a plan writes: the header row, if any, then every row.
pub open spec fn plan_records(plan: PlanView) -> Seq<Seq<Seq<char>>> {
    match plan.header {
        Some(h) => seq![h] + plan.rows,
        None => plan.rows,
    }
}

proof fn lemma_csv_lines_push(records: Seq<Seq<Seq<char>>>, i: int)
    requires
        0 <= i < records.len(),
    ensures
        csv_lines(records.subrange(0, i + 1)) == csv_lines(records.subrange(0, i)) + csv_record_bytes(records[i]),
{
    assert(records.subrange(0, i + 1).drop_last() =~= records.subrange(0, i));
}

impl CsvPlan {
    /// Writes the plan as CSV: the header row, if any, then every row.
    pub fn encode(&self) -> (out: Vec<u8>)
        ensures
            out@ == csv_lines(plan_records(self@)),
    {
        let ghost recs = plan_records(self@);
        let mut out: Vec<u8> = Vec::new();
        let mut done: usize = 0;
        match &self.header {
            Some(h) => {
                let mut line = encode_record(h);
                proof {
                    assert(recs[0] == texts(h@));
                    lemma_csv_lines_push(recs, 0);
                    assert(recs.subrange(0, 0).len() == 0);
                }
                out.append(&mut line);
                done = 1;
            },
            None => {
                assert(recs.subrange(0, 0).len() == 0);
            },
        }
        let ghost offset = done as int;
        assert(offset == 1 <==> self@.header is Some);
        assert(out@ == csv_lines(recs.subrange(0, offset)));
        let mut i: usize = 0;
        while i < self.rows.len()
            invariant
                i <= self@.rows.len(),
                self.rows@.len() == self@.rows.len(),
                self@.rows == rows_texts(self.rows@),
                offset == (if self@.header is Some { 1int } else { 0int }),
                recs == plan_records(self@),
                recs.len() == offset + self@.rows.len(),
                forall|t: int| 0 <= t < self@.rows.len() ==> #[trigger] recs[offset + t] == self@.rows[t],
                out@ == csv_lines(recs.subrange(0, offset + i)),
            decreases self@.rows.len() - i,
        {
            let mut line = encode_record(&self.rows[i]);
            proof {
                assert(texts(self.rows@[i as int]@) == self@.rows[i as int]);
                lemma_csv_lines_push(recs, offset + i);
            }
            out.append(&mut line);
            i = i + 1;
        }
        assert(recs.subrange(0, recs.len() as int) =~= recs);
        out
    }
}

/// `r` is the outcome of writing the document `data` in `format`: its
/// pretty-printed JSON text; its TOML text (of the array placed under the
/// key `data`, where `data` is an array), or the failure `TomlSer` with
/// nothing written; or its CSV table, header row and then one row per
/// record, where it is an array of objects, and otherwise the failure
/// `NonTabularForCsv` after the bytes that went out first.
pub open spec fn is_write_of(r: Result<Vec<u8>, WriteError>, data: JsonValue, format: Format) -> bool {
    match format {
        Format::Json => r matches Ok(b) && b@ == encode_utf8(json_pretty_text(data.data())),
        Format::Toml => match toml_text(toml_data(data.data())) {
            Some(t) => r matches Ok(b) && b@ == encode_utf8(t),
            None => r matches Err(e) && e.error is TomlSer && e.flushed@.len() == 0,
        },
        Format::Csv => match r {
            Ok(b) => is_tabular(data) && (data matches JsonValue::Array(items)
                && b@ == csv_lines(plan_records(table_of(items@)))),
            Err(e) => is_failed_layout_of(e, data),
        },
    }
}

/// Writes a document in `format`, as the bytes that go to the output.
///
/// JSON is pretty-printed. TOML needs a table at the top: an array is placed
/// under the key `data`. CSV needs an array of objects: the keys of the
/// first object, in ascending order, name the columns; an empty array writes
/// nothing; any other document fails with `NonTabularForCsv`, after the
/// header row where the array starts with an object.
pub fn write_data(data: JsonValue, format: Format) -> (r: Result<Vec<u8>, WriteError>)
    ensures
        is_write_of(r, data, format),
{
    match format {
        Format::Json => {
            let t = render_json_pretty(&data);
            Ok(t.as_str().as_bytes_vec())
        },
        Format::Toml => {
            let doc = toml_document(data);
            match render_toml(&doc) {
                Ok(t) => Ok(t.as_str().as_bytes_vec()),
                Err(e) => Err(WriteError { error: TransforError::TomlSer(e), flushed: Vec::new() }),
            }
        },
        Format::Csv => match tabulate(data) {
            Ok(plan) => Ok(plan.encode()),
            Err(e) => Err(e),
        },
    }
}

/// A name is paired with a field of the first `n` exactly when it is among
/// the first `n` names.
pub proof fn lemma_record_lookup_some(h: Seq<Seq<char>>, f: Seq<Seq<char>>, n: int, k: Seq<char>)
    requires
        0 <= n <= h.len(),
        n <= f.len(),
    ensures
        record_lookup(h, f, n, k) is Some <==> h.subrange(0, n).contains(k),
    decreases n,
{
    if n > 0 {
        lemma_record_lookup_some(h, f, n - 1, k);
        if h.subrange(0, n - 1).contains(k) {
            let j = choose|j: int| 0 <= j < n - 1 && #[trigger] h.subrange(0, n - 1)[j] == k;
            assert(h.subrange(0, n)[j] == k);
        }
        if h.subrange(0, n).contains(k) && h[n - 1] != k {
            let j = choose|j: int| 0 <= j < n && #[trigger] h.subrange(0, n)[j] == k;
            assert(h.subrange(0, n - 1)[j] == k);
        }
        if h[n - 1] == k {
            assert(h.subrange(0, n)[n - 1] == k);
        }
    }
}

/// Reading CSV and writing it back as CSV gives the same table with its
/// columns in ascending order of their names: the header holds each name of
/// the header row once, in ascending order, and each row holds, under each
/// name, the row's field of that name (the last one where a name repeats).
/// CSV rows with no data rows give no output at all.
pub proof fn law_csv_round_trip(v: JsonValue, h: Seq<Seq<char>>, rows: Seq<Seq<Seq<char>>>, plan: PlanView)
    requires
        is_csv_document(v, h, rows),
        rows_match_header(h, rows),
        is_table_layout_of(plan, v),
    ensures
        rows.len() == 0 ==> plan.header is None && plan.rows.len() == 0,
        rows.len() > 0 ==> {
            &&& plan.header matches Some(names)
            &&& strictly_sorted(names)
            &&& names.to_set() == h.to_set()
            &&& plan.rows.len() == rows.len()
            &&& forall|i: int, c: int| 0 <= i < rows.len() && 0 <= c < names.len() ==>
                Some(#[trigger] plan.rows[i][c]) == record_lookup(h, rows[i], h.len() as int, names[c])
        },
{
    let items = v->Array_0@;
    if rows.len() > 0 {
        let names = plan.header->0;
        let m0 = entries_of(items[0]);
        assert(items[0] matches JsonValue::Object(m) && holds_record(m@, h, rows[0]));
        assert(h.subrange(0, h.len() as int) =~= h);
        assert forall|k: Seq<char>| names.to_set().contains(k) <==> h.to_set().contains(k) by {
            lemma_record_lookup_some(h, rows[0], h.len() as int, k);
            if names.to_set().contains(k) {
                let j = choose|j: int| 0 <= j < names.len() && #[trigger] names[j] == k;
                assert(keys_of(m0)[j] == m0[j].0);
                assert(lookup(m0, k) is Some);
            }
            if h.to_set().contains(k) {
                assert(lookup(m0, k) is Some);
                let j = choose|j: int| 0 <= j < m0.len() && #[trigger] m0[j].0 == k;
                assert(keys_of(m0)[j] == m0[j].0);
                assert(names[j] == k);
            }
        }
        assert(names.to_set() =~= h.to_set());
        assert forall|i: int, c: int| 0 <= i < rows.len() && 0 <= c < names.len() implies
            Some(#[trigger] plan.rows[i][c]) == record_lookup(h, rows[i], h.len() as int, names[c]) by {
            let k = names[c];
            assert(names.to_set().contains(k));
            assert(h.to_set().contains(k));
            lemma_record_lookup_some(h, rows[i], h.len() as int, k);
            assert(items[i] matches JsonValue::Object(m) && holds_record(m@, h, rows[i]));
            let mi = entries_of(items[i]);
            assert(lookup(mi, k) is Some);
            assert(plan.rows[i] == row_of(items[i], names));
        }
    }
}

/// A document read from CSV can always be written as CSV: it is an array of
/// objects.
pub proof fn law_csv_documents_are_tabular(v: JsonValue, h: Seq<Seq<char>>, rows: Seq<Seq<Seq<char>>>)
    requires
        is_csv_document(v, h, rows),
    ensures
        is_tabular(v),
{
    let items = v->Array_0@;
    assert forall|i: int| 0 <= i < items.len() implies #[trigger] items[i] is Object by {
        assert(items[i] matches JsonValue::Object(m) && holds_record(m@, h, rows[i]));
    }
}

/// In the CSV table of records, the field of a record under a column holds
/// the record's value under that column's name as text: a number or a
/// string as its own text, a boolean as `true` or `false`, null or a
/// missing value as empty text, and an array or an object as its compact
/// JSON text.
pub proof fn law_table_fields(items: Seq<JsonValue>, i: int, c: int)
    requires
        0 <= i < items.len(),
        0 <= c < keys_of(entries_of(items[0])).len(),
    ensures
        table_of(items).header == Some(keys_of(entries_of(items[0]))),
        table_of(items).rows.len() == items.len(),
        ({
            let k = keys_of(entries_of(items[0]))[c];
            let field = table_of(items).rows[i][c];
            &&& lookup(entries_of(items[i]), k) matches Some(JsonValue::Number(n)) ==> field == n@
            &&& lookup(entries_of(items[i]), k) matches Some(JsonValue::String(t)) ==> field == t@
            &&& lookup(entries_of(items[i]), k) == Some(JsonValue::Bool(true)) ==> field == seq!['t', 'r', 'u', 'e']
            &&& lookup(entries_of(items[i]), k) == Some(JsonValue::Bool(false)) ==> field == seq!['f', 'a', 'l', 's', 'e']
            &&& (lookup(entries_of(items[i]), k) is None || lookup(entries_of(items[i]), k) == Some(JsonValue::Null))
                ==> field.len() == 0
            &&& lookup(entries_of(items[i]), k) matches Some(v) ==> ((v is Array || v is Object)
                ==> field == json_compact_text(v.data()))
        }),
{
    let h = keys_of(entries_of(items[0]));
    assert(table_of(items).rows[i] == row_of(items[i], h));
}

proof fn lemma_record_lookup_last(h: Seq<Seq<char>>, f: Seq<Seq<char>>, n: int, j: int)
    requires
        0 <= j < n <= h.len(),
        n <= f.len(),
        forall|t: int| j < t < n ==> h[t] != h[j],
    ensures
        record_lookup(h, f, n, h[j]) == Some(f[j]),
    decreases n,
{
    if n - 1 > j {
        lemma_record_lookup_last(h, f, n - 1, j);
    }
}

/// In the document read from CSV, the object of each data row holds, under
/// each name of the header row, that row's field of the name as a string;
/// where a name repeats, the field of its last column.
pub proof fn law_csv_fields_under_names(v: JsonValue, h: Seq<Seq<char>>, rows: Seq<Seq<Seq<char>>>, i: int, j: int)
    requires
        is_csv_document(v, h, rows),
        rows_match_header(h, rows),
        0 <= i < rows.len(),
        0 <= j < h.len(),
        forall|t: int| j < t < h.len() ==> h[t] != h[j],
    ensures
        v matches JsonValue::Array(items) && (items@[i] matches JsonValue::Object(m)
            && (lookup(m@, h[j]) matches Some(JsonValue::String(s)) && s@ == rows[i][j])),
{
    let items = v->Array_0@;
    assert(items[i] matches JsonValue::Object(m) && holds_record(m@, h, rows[i]));
    assert(rows[i].len() == h.len());
    lemma_record_lookup_last(h, rows[i], h.len() as int, j);
    let m = items[i]->Object_0;
    assert(lookup(m@, h[j]) is Some);
}

/// A document that fails to be written as CSV because some record is not an
/// object, while the array starts with an object, has sent the header row of
/// the first object's keys to the output first; any other failure sent
/// nothing.
pub proof fn law_failed_csv_sends_the_header_first(e: WriteError, data: JsonValue)
    requires
        is_failed_layout_of(e, data),
    ensures
        e.error is NonTabularForCsv,
        (data matches JsonValue::Array(items) && items@.len() > 0 && items@[0] is Object)
            ==> e.flushed@ == encode_utf8(record_text(keys_of(entries_of(data->Array_0@[0])))),
        !(data matches JsonValue::Array(items) && items@.len() > 0 && items@[0] is Object) ==> e.flushed@.len() == 0,
{
}

/// JSON output never fails: it is the UTF-8 bytes of the pretty-printed JSON
/// text of the document's content.
pub proof fn law_json_output(r: Result<Vec<u8>, WriteError>, data: JsonValue)
    requires
        is_write_of(r, data, Format::Json),
    ensures
        r matches Ok(b) && b@ == encode_utf8(json_pretty_text(data.data())),
{
}

/// A document that is not an array is written as TOML as it is: its own TOML
/// text, or the failure `TomlSer` with nothing written.
pub proof fn law_toml_keeps_non_arrays(r: Result<Vec<u8>, WriteError>, data: JsonValue)
    requires
        is_write_of(r, data, Format::Toml),
        !(data is Array),
    ensures
        toml_text(data.data()) matches Some(t) ==> (r matches Ok(b) && b@ == encode_utf8(t)),
        toml_text(data.data()) is None ==> (r matches Err(e) && e.error is TomlSer && e.flushed@.len() == 0),
{
}

proof fn lemma_csv_lines_prepend(first: Seq<Seq<char>>, rest: Seq<Seq<Seq<char>>>)
    ensures
        csv_lines(seq![first] + rest) == csv_record_bytes(first) + csv_lines(rest),
    decreases rest.len(),
{
    if rest.len() == 0 {
        assert((seq![first] + rest).drop_last() =~= Seq::<Seq<Seq<char>>>::empty());
        assert(csv_lines(seq![first] + rest) == csv_lines(Seq::<Seq<Seq<char>>>::empty()) + csv_record_bytes(first));
        assert(csv_lines(seq![first] + rest) =~= csv_record_bytes(first) + csv_lines(rest));
    } else {
        lemma_csv_lines_prepend(first, rest.drop_last());
        assert((seq![first] + rest).drop_last() =~= seq![first] + rest.drop_last());
        assert((seq![first] + rest).last() == rest.last());
        assert(csv_lines(seq![first] + rest) =~= csv_record_bytes(first) + csv_lines(rest));
    }
}

/// An array of objects is always written as CSV: nothing for no records;
/// otherwise the header row of the first record's keys, then one row per
/// record, in the records' order.
pub proof fn law_csv_output(r: Result<Vec<u8>, WriteError>, data: JsonValue)
    requires
        is_write_of(r, data, Format::Csv),
        is_tabular(data),
    ensures
        r matches Ok(b) && (data matches JsonValue::Array(items) && {
            let h = keys_of(entries_of(items@[0]));
            &&& items@.len() == 0 ==> b@.len() == 0
            &&& items@.len() > 0 ==> b@ == csv_record_bytes(h)
                + csv_lines(Seq::new(items@.len(), |i: int| row_of(items@[i], h)))
        }),
{
    let items = data->Array_0@;
    if items.len() > 0 {
        let h = keys_of(entries_of(items[0]));
        let rows = Seq::new(items.len(), |i: int| row_of(items[i], h));
        assert(table_of(items).rows =~= rows);
        lemma_csv_lines_prepend(h, rows);
    }
}

/// A one-field record is written as its field and then `\n`: as it is where
/// it is not empty and holds none of `,`, `"`, `\r`, `\n`; otherwise in
/// quotes, with each of its quotes doubled.
pub proof fn law_one_field_record(f: Seq<char>)
    ensures
        (f.len() > 0 && !f.contains(',') && !f.contains('"') && !f.contains('\r') && !f.contains('\n'))
            ==> record_text(seq![f]) == f.push('\n'),
        !(f.len() > 0 && !f.contains(',') && !f.contains('"') && !f.contains('\r') && !f.contains('\n'))
            ==> record_text(seq![f]) == (seq!['"'] + double_quotes(f) + seq!['"']).push('\n'),
        record_text(seq![f]).last() == '\n',
{
    if f.len() == 0 {
        assert(double_quotes(f).len() == 0);
        assert(seq!['"'] + double_quotes(f) + seq!['"'] =~= seq!['"', '"']);
    }
}

/// Empty input, and only empty input, is refused as empty, whatever the
/// format.
pub proof fn law_only_empty_input_is_empty(r: Result<JsonValue, TransforError>, content: Seq<char>, format: Format)
    requires
        is_read_of(r, content, format),
    ensures
        r matches Err(TransforError::EmptyInput) <==> content.len() == 0,
{
}

/// Non-empty CSV text that the reader decodes into a header row and data
/// rows is read into their document: an array with one object per data row
/// (none where there is only a header row).
pub proof fn law_csv_text_reads(
    r: Result<JsonValue, TransforError>,
    content: Seq<char>,
    h: Seq<Seq<char>>,
    rows: Seq<Seq<Seq<char>>>,
)
    requires
        is_read_of(r, content, Format::Csv),
        content.len() > 0,
        csv_decoded(content) == Some((h, rows)),
    ensures
        r matches Ok(v) && is_csv_document(v, h, rows),
        r matches Ok(JsonValue::Array(items)) && items@.len() == rows.len(),
{
}

/// Non-empty JSON text is read into a document with exactly the content that
/// `serde_json` parses from it; text it does not parse is refused as JSON.
pub proof fn law_json_text_reads(r: Result<JsonValue, TransforError>, content: Seq<char>)
    requires
        is_read_of(r, content, Format::Json),
        content.len() > 0,
    ensures
        json_parsed(content) matches Some(d) ==> (r matches Ok(v) && v.data() == d),
        json_parsed(content) is None ==> r matches Err(TransforError::Json(_)),
{
}

/// Non-empty TOML text is read into a document with exactly the content
/// that `toml` parses from it; text it does not parse is refused as TOML.
pub proof fn law_toml_text_reads(r: Result<JsonValue, TransforError>, content: Seq<char>)
    requires
        is_read_of(r, content, Format::Toml),
        content.len() > 0,
    ensures
        toml_parsed(content) matches Some(d) ==> (r matches Ok(v) && v.data() == d),
        toml_parsed(content) is None ==> r matches Err(TransforError::Toml(_)),
{
}

/// Writing an array as TOML gives the same outcome as writing an object
/// that holds the array under the key `data` and nothing else: the same
/// bytes, or on both sides the failure `TomlSer` with nothing written.
pub proof fn law_toml_wraps_arrays(
    data: JsonValue,
    obj: JsonValue,
    r1: Result<Vec<u8>, WriteError>,
    r2: Result<Vec<u8>, WriteError>,
)
    requires
        data is Array,
        obj.data() == JsonData::Object(seq![(data_key(), data.data())]),
        is_write_of(r1, data, Format::Toml),
        is_write_of(r2, obj, Format::Toml),
    ensures
        r1 matches Ok(b1) ==> (r2 matches Ok(b2) && b1@ == b2@),
        r2 is Ok ==> r1 is Ok,
        r1 matches Err(e1) ==> (r2 matches Err(e2) && e1.error is TomlSer && e2.error is TomlSer
            && e1.flushed@.len() == 0 && e2.flushed@.len() == 0),
{
    assert(toml_data(obj.data()) == toml_data(data.data()));
}

/// Writing as CSV a document read from CSV text never fails: the output is
/// the table of its records.
pub proof fn law_csv_input_writes_as_csv(content: Seq<char>, v: JsonValue, w: Result<Vec<u8>, WriteError>)
    requires
        is_read_of(Ok(v), content, Format::Csv),
        is_write_of(w, v, Format::Csv),
    ensures
        w is Ok,
{
    let (h, rows) = csv_decoded(content)->0;
    law_csv_documents_are_tabular(v, h, rows);
}

} // verus!
