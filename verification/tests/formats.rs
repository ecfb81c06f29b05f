use serde_json::Value;
use transfor::{read_data, write_data, Format, JsonMap, JsonValue, TransforError, WriteError};

// --- Conversions between the library's document model and serde_json ---

fn to_serde(v: &JsonValue) -> Value {
    match v {
        JsonValue::Null => Value::Null,
        JsonValue::Bool(b) => Value::Bool(*b),
        JsonValue::Number(t) => serde_json::from_str(t.as_str()).unwrap(),
        JsonValue::String(s) => Value::String(s.clone()),
        JsonValue::Array(a) => Value::Array(a.iter().map(to_serde).collect()),
        JsonValue::Object(m) => Value::Object(
            m.entries().iter().map(|(k, x)| (k.clone(), to_serde(x))).collect(),
        ),
    }
}

fn json(text: &str) -> Value {
    serde_json::from_str(text).unwrap()
}

/// Reads input as a run does.
fn read(input: &str, format: Format) -> Result<JsonValue, TransforError> {
    read_data(input.to_string(), format)
}

/// Writes a document as a run does.
fn write(data: JsonValue, format: Format) -> Result<Vec<u8>, WriteError> {
    write_data(data, format)
}

fn object(pairs: Vec<(&str, JsonValue)>) -> JsonValue {
    let mut m = JsonMap::new();
    for (k, v) in pairs {
        m.insert(k.to_string(), v);
    }
    JsonValue::Object(m)
}

fn text(s: &str) -> JsonValue {
    JsonValue::String(s.to_string())
}

fn number(s: &str) -> JsonValue {
    read_data(s.to_string(), Format::Json).unwrap()
}

// --- CSV to Other ---

#[test]
fn test_csv_to_json() {
    let input = "id,name\n1,alice\n2,bob";
    let expected = json(r#"[{"id": "1", "name": "alice"}, {"id": "2", "name": "bob"}]"#);

    let data = read(input, Format::Csv).unwrap();
    assert_eq!(to_serde(&data), expected);

    let output = write(data, Format::Json).unwrap();
    let output_data: Value = serde_json::from_slice(&output).unwrap();
    assert_eq!(output_data, expected);
}

#[test]
fn test_csv_toml() {
    let input = "id,name\n1,alice";
    let data = read(input, Format::Csv).unwrap();

    // TOML can't represent a top-level array without a key: it is wrapped.
    let output = write(data, Format::Toml).unwrap();
    let output_str = String::from_utf8(output).unwrap();

    assert!(output_str.contains("id = \"1\""));
    assert!(output_str.contains("name = \"alice\""));
}

// --- JSON to Other ---

#[test]
fn test_json_to_csv() {
    let input = JsonValue::Array(vec![
        object(vec![("id", text("1")), ("name", text("alice")), ("extra", text("foo"))]),
        object(vec![("id", text("2")), ("name", text("bob")), ("extra", text("bar"))]),
    ]);
    let input_bytes = serde_json::to_string(&to_serde(&input)).unwrap();
    let expected = "extra,id,name\nfoo,1,alice\nbar,2,bob\n";

    let data = read(&input_bytes, Format::Json).unwrap();

    let output = write(data, Format::Csv).unwrap();
    let output_str = String::from_utf8(output).unwrap();

    assert_eq!(output_str, expected);
}

#[test]
fn test_json_to_toml() {
    let input = object(vec![("user", object(vec![("id", number("1")), ("name", text("alice"))]))]);
    let expected = "[user]\nid = 1\nname = \"alice\"\n";
    let input_bytes = serde_json::to_string(&to_serde(&input)).unwrap();

    let data = read(&input_bytes, Format::Json).unwrap();

    let output = write(data, Format::Toml).unwrap();
    let output_str = String::from_utf8(output).unwrap();
    assert_eq!(output_str, expected);
}

// --- TOML to Other ---

#[test]
fn test_toml_to_json() {
    let input = "[user]\nid = 1\nname = \"alice\"\n";
    let expected = json(r#"{"user": {"id": 1, "name": "alice"}}"#);

    let data = read(input, Format::Toml).unwrap();
    assert_eq!(to_serde(&data), expected);
}

#[test]
fn test_toml_to_csv() {
    let input = "[[users]]\nid = 1\nname = \"alice\"\n\n[[users]]\nid = 2\nname = \"bob\"\n";
    let expected = "id,name\n1,alice\n2,bob\n";

    let data = read(input, Format::Toml).unwrap();

    // The document is {"users": [...]}: not tabular.
    let write_result = write(data, Format::Csv);
    assert!(matches!(write_result, Err(WriteError { error: TransforError::NonTabularForCsv, .. })));

    let tabular_data = JsonValue::Array(vec![
        object(vec![("id", number("1")), ("name", text("alice"))]),
        object(vec![("id", number("2")), ("name", text("bob"))]),
    ]);
    let output = write(tabular_data, Format::Csv).unwrap();
    let output_str = String::from_utf8(output).unwrap();
    assert_eq!(output_str, expected);
}

// --- Error Cases ---

#[test]
fn test_non_tabular_to_csv_fails() {
    let input = object(vec![("id", number("1")), ("name", text("alice"))]); // An object, not an array
    let input_bytes = serde_json::to_string(&to_serde(&input)).unwrap();

    let data = read(&input_bytes, Format::Json).unwrap();
    let result = write(data, Format::Csv);

    assert!(matches!(result, Err(WriteError { error: TransforError::NonTabularForCsv, .. })));
}

#[test]
fn test_mixed_array_to_csv_fails() {
    let input = JsonValue::Array(vec![object(vec![("id", number("1"))]), text("string"), object(vec![("id", number("2"))])]);
    let input_bytes = serde_json::to_string(&to_serde(&input)).unwrap();

    let data = read(&input_bytes, Format::Json).unwrap();
    let result = write(data, Format::Csv);

    assert!(matches!(result, Err(WriteError { error: TransforError::NonTabularForCsv, .. })));
}
