use transfor::driver::format_from_extension;
use transfor::formats::{csv_objects, tabulate, toml_document};
use transfor::text::{compare_text, text_equal, TextOrder};
use transfor::{
    guess_input_format, read_data, run, write_data, Action, Cli, Event, Format, JsonMap, JsonValue, Run,
    Stage, TransforError, WriteError,
};

fn obj(pairs: Vec<(&str, JsonValue)>) -> JsonValue {
    let mut m = JsonMap::new();
    for (k, v) in pairs {
        m.insert(k.to_string(), v);
    }
    JsonValue::Object(m)
}

fn s(t: &str) -> JsonValue {
    JsonValue::String(t.to_string())
}

fn strings(v: &[&str]) -> Vec<String> {
    v.iter().map(|x| x.to_string()).collect()
}

fn csv_text(data: JsonValue) -> Result<String, WriteError> {
    write_data(data, Format::Csv).map(|b| String::from_utf8(b).unwrap())
}

fn output_text(data: JsonValue, format: Format) -> String {
    String::from_utf8(write_data(data, format).unwrap()).unwrap()
}

fn n(t: &str) -> JsonValue {
    read_data(t.to_string(), Format::Json).unwrap()
}

fn cli(input_format: Option<Format>, output_format: Format, input_file: Option<&str>) -> Cli {
    Cli { input_format, output_format, input_file: input_file.map(String::from), output_file: None }
}

#[test]
fn text_order_is_by_characters() {
    assert_eq!(compare_text("ab", "b"), TextOrder::Less);
    assert_eq!(compare_text("b", "ab"), TextOrder::Greater);
    assert_eq!(compare_text("a", "ab"), TextOrder::Less);
    assert_eq!(compare_text("é", "z"), TextOrder::Greater);
    assert_eq!(compare_text("x", "x"), TextOrder::Equal);
    assert!(text_equal("", ""));
    assert!(!text_equal("a", "A"));
}

#[test]
fn object_keys_stay_in_ascending_order() {
    let mut m = JsonMap::new();
    m.insert("name".to_string(), s("bob"));
    m.insert("extra".to_string(), s("x"));
    m.insert("id".to_string(), s("2"));
    assert_eq!(m.keys(), strings(&["extra", "id", "name"]));
    assert_eq!(m.len(), 3);
}

#[test]
fn object_insert_replaces_and_remove_takes_out() {
    let mut m = JsonMap::new();
    m.insert("k".to_string(), s("first"));
    m.insert("k".to_string(), s("second"));
    assert_eq!(m.len(), 1);
    assert!(matches!(m.get("k"), Some(JsonValue::String(t)) if t == "second"));
    assert!(m.get("other").is_none());
    assert!(matches!(m.remove("k"), Some(JsonValue::String(t)) if t == "second"));
    assert!(m.get("k").is_none());
    assert!(m.remove("k").is_none());
    assert_eq!(m.len(), 0);
}

#[test]
fn given_format_wins_over_the_extension() {
    assert!(matches!(guess_input_format(Some("data.csv"), Some(Format::Toml)), Ok(Format::Toml)));
    assert!(matches!(guess_input_format(None, Some(Format::Json)), Ok(Format::Json)));
}

#[test]
fn stdin_needs_a_format() {
    match guess_input_format(None, None) {
        Err(TransforError::UnknownInputFormat(m)) => assert_eq!(m, "stdin"),
        other => panic!("unexpected {:?}", other),
    }
}

#[test]
fn format_is_guessed_from_the_extension() {
    assert!(matches!(guess_input_format(Some("dir/data.json"), None), Ok(Format::Json)));
    assert!(matches!(guess_input_format(Some("data.toml"), None), Ok(Format::Toml)));
    assert!(matches!(guess_input_format(Some("a.b/data.csv"), None), Ok(Format::Csv)));
    assert!(matches!(guess_input_format(Some("data.csv"), None), Ok(Format::Csv)));
    assert!(matches!(guess_input_format(Some("data.json"), None), Ok(Format::Json)));
    assert!(matches!(guess_input_format(Some("missing/x.csv"), None), Ok(Format::Csv)));
    assert!(matches!(guess_input_format(Some("a.json.csv"), None), Ok(Format::Csv)));
    assert!(matches!(guess_input_format(Some("./data.toml"), None), Ok(Format::Toml)));
    assert!(matches!(guess_input_format(Some("..json"), None), Ok(Format::Json)));
    assert!(matches!(guess_input_format(Some("/data/x.csv"), None), Ok(Format::Csv)));
    assert!(matches!(guess_input_format(Some("/tmp/a.b/data.toml"), None), Ok(Format::Toml)));
}

#[test]
fn unknown_extension_is_refused_with_the_path() {
    for p in ["data.yaml", "data", ".json", "data.JSON", "DATA.JSON", "data.json.bak", "data.json.gz", "data.csv/..", "data.", "", "/data/x.csv.bak", "/"] {
        match guess_input_format(Some(p), None) {
            Err(TransforError::UnknownInputFormat(m)) => assert_eq!(m, p),
            other => panic!("unexpected {:?} for {}", other, p),
        }
    }
}

#[test]
fn extensions_name_formats() {
    assert_eq!(format_from_extension(Some("json")), Some(Format::Json));
    assert_eq!(format_from_extension(Some("toml")), Some(Format::Toml));
    assert_eq!(format_from_extension(Some("csv")), Some(Format::Csv));
    assert_eq!(format_from_extension(Some("txt")), None);
    assert_eq!(format_from_extension(None), None);
}

#[test]
fn empty_input_is_refused() {
    for f in [Format::Json, Format::Toml, Format::Csv] {
        assert!(matches!(read_data(String::new(), f), Err(TransforError::EmptyInput)));
    }
}

#[test]
fn json_and_toml_text_is_parsed() {
    assert!(matches!(read_data("{}".to_string(), Format::Json), Ok(JsonValue::Object(m)) if m.len() == 0));
    match read_data("[true, null, \"s\", 2.5]".to_string(), Format::Json) {
        Ok(JsonValue::Array(a)) => {
            assert_eq!(a.len(), 4);
            assert!(matches!(a[0], JsonValue::Bool(true)));
            assert!(matches!(a[1], JsonValue::Null));
            assert!(matches!(&a[2], JsonValue::String(t) if t == "s"));
            assert!(matches!(&a[3], JsonValue::Number(t) if t.as_str() == "2.5"));
        }
        other => panic!("unexpected {:?}", other),
    }
    match read_data("b = 1\na = \"x\"".to_string(), Format::Toml) {
        Ok(JsonValue::Object(m)) => {
            assert_eq!(m.keys(), strings(&["a", "b"]));
            assert!(matches!(m.get("b"), Some(JsonValue::Number(t)) if t.as_str() == "1"));
        }
        other => panic!("unexpected {:?}", other),
    }
}

#[test]
fn malformed_json_and_toml_are_refused() {
    assert!(matches!(read_data("{".to_string(), Format::Json), Err(TransforError::Json(_))));
    assert!(matches!(read_data("a = ".to_string(), Format::Toml), Err(TransforError::Toml(_))));
}

#[test]
fn csv_rows_of_unequal_length_are_refused() {
    assert!(matches!(read_data("a,b\n1\n".to_string(), Format::Csv), Err(TransforError::Csv(_))));
}

#[test]
fn csv_fields_become_strings_under_header_names() {
    let data = match read_data("n,x\n\"1,5\",true\n".to_string(), Format::Csv) {
        Ok(v) => v,
        other => panic!("unexpected {:?}", other),
    };
    let items = match &data {
        JsonValue::Array(items) => items,
        other => panic!("unexpected {:?}", other),
    };
    assert_eq!(items.len(), 1);
    match &items[0] {
        JsonValue::Object(m) => {
            assert_eq!(m.keys(), strings(&["n", "x"]));
            assert!(matches!(m.get("n"), Some(JsonValue::String(t)) if t == "1,5"));
            assert!(matches!(m.get("x"), Some(JsonValue::String(t)) if t == "true"));
        }
        other => panic!("unexpected {:?}", other),
    }
}

#[test]
fn repeated_header_name_keeps_the_last_field() {
    let v = csv_objects(&strings(&["a", "a", "b"]), &vec![strings(&["1", "2", "3"]), strings(&["4"])]);
    match v {
        JsonValue::Array(items) => {
            assert_eq!(items.len(), 2);
            match &items[0] {
                JsonValue::Object(m) => {
                    assert_eq!(m.len(), 2);
                    assert!(matches!(m.get("a"), Some(JsonValue::String(t)) if t == "2"));
                }
                other => panic!("unexpected {:?}", other),
            }
            match &items[1] {
                JsonValue::Object(m) => {
                    assert_eq!(m.keys(), strings(&["a"]));
                    assert!(matches!(m.get("a"), Some(JsonValue::String(t)) if t == "4"));
                }
                other => panic!("unexpected {:?}", other),
            }
        }
        other => panic!("unexpected {:?}", other),
    }
}

#[test]
fn toml_document_wraps_an_array() {
    match toml_document(JsonValue::Array(vec![s("x")])) {
        JsonValue::Object(m) => {
            assert_eq!(m.keys(), strings(&["data"]));
            assert!(matches!(m.get("data"), Some(JsonValue::Array(a)) if a.len() == 1));
        }
        other => panic!("unexpected {:?}", other),
    }
    assert!(matches!(toml_document(s("x")), JsonValue::String(t) if t == "x"));
    assert_eq!(output_text(obj(vec![]), Format::Toml), "");
    assert_eq!(output_text(JsonValue::Array(vec![n("1")]), Format::Toml), "data = [1]\n");
}

#[test]
fn toml_output_failures_are_reported() {
    assert!(matches!(
        write_data(JsonValue::Null, Format::Toml),
        Err(WriteError { error: TransforError::TomlSer(_), ref flushed }) if flushed.is_empty()
    ));
    assert!(matches!(
        write_data(obj(vec![("a", JsonValue::Null)]), Format::Toml),
        Err(WriteError { error: TransforError::TomlSer(_), ref flushed }) if flushed.is_empty()
    ));
}

#[test]
fn toml_array_is_written_as_the_object_holding_it() {
    let array = || JsonValue::Array(vec![n("1"), s("x")]);
    let wrapped = output_text(obj(vec![("data", array())]), Format::Toml);
    assert_eq!(output_text(array(), Format::Toml), wrapped);
    assert_eq!(wrapped, "data = [1, \"x\"]\n");
}

#[test]
fn json_output_is_pretty_printed() {
    assert_eq!(output_text(JsonValue::Null, Format::Json), "null");
    assert_eq!(output_text(obj(vec![("b", n("1")), ("a", s("x"))]), Format::Json), "{\n  \"a\": \"x\",\n  \"b\": 1\n}");
    assert_eq!(output_text(n("2.5"), Format::Json), "2.5");
}

#[test]
fn cells_show_scalars_as_text() {
    let data = JsonValue::Array(vec![
        obj(vec![
            ("a", JsonValue::Bool(true)),
            ("b", JsonValue::Null),
            ("c", n("1.5")),
        ]),
        obj(vec![("a", JsonValue::Bool(false)), ("d", s("ignored"))]),
    ]);
    assert_eq!(csv_text(data).unwrap(), "a,b,c\ntrue,,1.5\nfalse,,\n");
}

#[test]
fn nested_values_are_cells_of_their_json_text() {
    let data = JsonValue::Array(vec![obj(vec![
        ("a", JsonValue::Array(vec![n("1"), n("2")])),
        ("b", s("x")),
    ])]);
    let plan = match tabulate(data) {
        Ok(plan) => plan,
        Err(e) => panic!("unexpected {:?}", e),
    };
    assert_eq!(plan.header(), &Some(strings(&["a", "b"])));
    assert_eq!(plan.rows(), &vec![strings(&["[1,2]", "x"])]);
    let out = plan.encode();
    assert_eq!(String::from_utf8(out).unwrap(), "a,b\n\"[1,2]\",x\n");
    let data = JsonValue::Array(vec![obj(vec![("o", obj(vec![("k", JsonValue::Null)]))])]);
    assert_eq!(csv_text(data).unwrap(), "o\n\"{\"\"k\"\":null}\"\n");
}

#[test]
fn empty_array_writes_nothing() {
    assert_eq!(csv_text(JsonValue::Array(Vec::new())).unwrap(), "");
}

#[test]
fn mixed_array_flushes_the_header_first() {
    let data = JsonValue::Array(vec![obj(vec![("id", s("1")), ("k", s("2"))]), s("string")]);
    match csv_text(data) {
        Err(WriteError { error: TransforError::NonTabularForCsv, flushed }) => {
            assert_eq!(String::from_utf8(flushed).unwrap(), "id,k\n");
        }
        other => panic!("unexpected {:?}", other),
    }
    let data = JsonValue::Array(vec![s("string"), obj(vec![("id", s("1"))])]);
    match csv_text(data) {
        Err(WriteError { error: TransforError::NonTabularForCsv, flushed }) => assert!(flushed.is_empty()),
        other => panic!("unexpected {:?}", other),
    }
}

#[test]
fn csv_read_back_sorts_columns() {
    let data = match read_data("b,a\n1,2\n3,\"x,y\"\n".to_string(), Format::Csv) {
        Ok(v) => v,
        other => panic!("unexpected {:?}", other),
    };
    assert_eq!(csv_text(data).unwrap(), "a,b\n2,1\n\"x,y\",3\n");
}

fn step(state: Run, event: Event) -> (Run, Action) {
    run(state, event)
}

#[test]
fn run_converts_csv_to_csv() {
    let (st, a) = step(Run::new(), Event::Begin(cli(None, Format::Csv, Some("in.csv"))));
    assert!(matches!(a, Action::OpenInput));
    let (st, a) = step(st, Event::Opened);
    assert!(matches!(a, Action::OpenOutput));
    let (st, a) = step(st, Event::Opened);
    assert!(matches!(a, Action::ReadInput));
    assert_eq!(st.stage(), Stage::Reading);
    let (st, a) = step(st, Event::Read("y,x\n1,2\n".to_string()));
    match a {
        Action::Write { bytes, flush } => {
            assert_eq!(String::from_utf8(bytes).unwrap(), "x,y\n2,1\n");
            assert!(flush);
        }
        other => panic!("unexpected {:?}", other),
    }
    assert_eq!(st.stage(), Stage::Writing);
    let (st, a) = step(st, Event::Written);
    assert!(matches!(a, Action::Exit(Ok(()))));
    assert_eq!(st.stage(), Stage::Done);
    let (st, a) = step(st, Event::Written);
    assert!(matches!(a, Action::Idle));
    assert_eq!(st.stage(), Stage::Done);
}

#[test]
fn run_converts_json_to_toml() {
    let (st, _) = step(Run::new(), Event::Begin(cli(Some(Format::Json), Format::Toml, None)));
    let (st, _) = step(st, Event::Opened);
    let (st, _) = step(st, Event::Opened);
    let (st, a) = step(st, Event::Read("[1]".to_string()));
    assert!(matches!(a, Action::Write { ref bytes, flush: false } if bytes == b"data = [1]\n"));
    let (_, a) = step(st, Event::Failed(TransforError::EmptyInput));
    assert!(matches!(a, Action::Exit(Err(TransforError::EmptyInput))));
}

#[test]
fn run_ends_on_malformed_input() {
    let (st, _) = step(Run::new(), Event::Begin(cli(None, Format::Csv, Some("data.toml"))));
    let (st, _) = step(st, Event::Opened);
    let (st, _) = step(st, Event::Opened);
    let (st, a) = step(st, Event::Read("a = ".to_string()));
    assert!(matches!(a, Action::Exit(Err(TransforError::Toml(_)))));
    assert_eq!(st.stage(), Stage::Done);
}

#[test]
fn run_ends_on_empty_input() {
    let (st, _) = step(Run::new(), Event::Begin(cli(Some(Format::Csv), Format::Json, None)));
    let (st, _) = step(st, Event::Opened);
    let (st, _) = step(st, Event::Opened);
    let (st, a) = step(st, Event::Read(String::new()));
    assert!(matches!(a, Action::Exit(Err(TransforError::EmptyInput))));
    assert_eq!(st.stage(), Stage::Done);
}

#[test]
fn run_refuses_an_unknown_input_format_first() {
    let (st, a) = step(Run::new(), Event::Begin(cli(None, Format::Json, Some("notes.txt"))));
    assert!(matches!(a, Action::Exit(Err(TransforError::UnknownInputFormat(ref m))) if m == "notes.txt"));
    assert_eq!(st.stage(), Stage::Done);
    let (st, a) = step(Run::new(), Event::Begin(cli(None, Format::Json, Some("data.json.gz"))));
    assert!(matches!(a, Action::Exit(Err(TransforError::UnknownInputFormat(ref m))) if m == "data.json.gz"));
    assert_eq!(st.stage(), Stage::Done);
}

#[test]
fn run_ignores_events_out_of_order() {
    let (st, a) = step(Run::new(), Event::Opened);
    assert!(matches!(a, Action::Idle));
    assert_eq!(st.stage(), Stage::Start);
    let (st, _) = step(st, Event::Begin(cli(Some(Format::Csv), Format::Json, None)));
    let (st, a) = step(st, Event::Read("a\n1\n".to_string()));
    assert!(matches!(a, Action::Idle));
    assert_eq!(st.stage(), Stage::OpeningInput);
    let (_, a) = step(st, Event::Failed(TransforError::NonTabularForCsv));
    assert!(matches!(a, Action::Exit(Err(TransforError::NonTabularForCsv))));
}

#[test]
fn run_writes_the_flushed_header_before_failing() {
    let (st, _) = step(Run::new(), Event::Begin(cli(Some(Format::Json), Format::Csv, None)));
    let (st, _) = step(st, Event::Opened);
    let (st, _) = step(st, Event::Opened);
    let (st, a) = step(st, Event::Read("[{\"id\": 1}, 2]".to_string()));
    assert!(matches!(a, Action::Write { ref bytes, flush: true } if bytes == b"id\n"));
    assert_eq!(st.stage(), Stage::Failing);
    let (st, a) = step(st, Event::Written);
    assert!(matches!(a, Action::Exit(Err(TransforError::NonTabularForCsv))));
    assert_eq!(st.stage(), Stage::Done);
}

#[test]
fn guess_depends_on_the_path_text_alone() {
    for p in ["missing/x.csv", "data.json.gz", "a/b/./c.toml/"] {
        let first = format!("{:?}", guess_input_format(Some(p), None));
        let second = format!("{:?}", guess_input_format(Some(p), None));
        assert_eq!(first, second);
    }
    assert!(matches!(guess_input_format(Some("a/b/./c.toml/"), None), Ok(Format::Toml)));
}

#[test]
fn csv_fields_are_quoted_where_needed() {
    let data = JsonValue::Array(vec![obj(vec![("a", s("x,y")), ("b", s("say \"hi\"")), ("c", s("l1\nl2")), ("d", s("é"))])]);
    assert_eq!(csv_text(data).unwrap(), "a,b,c,d\n\"x,y\",\"say \"\"hi\"\"\",\"l1\nl2\",é\n");
    let data = JsonValue::Array(vec![obj(vec![("", s(""))])]);
    assert_eq!(csv_text(data).unwrap(), "\"\"\n\"\"\n");
}

#[test]
fn empty_csv_output_is_not_flushed() {
    let (st, _) = step(Run::new(), Event::Begin(cli(Some(Format::Json), Format::Csv, None)));
    let (st, _) = step(st, Event::Opened);
    let (st, _) = step(st, Event::Opened);
    let (_, a) = step(st, Event::Read("[]".to_string()));
    assert!(matches!(a, Action::Write { ref bytes, flush: false } if bytes.is_empty()));
}
