use hanzo_sdk::client::{urlencode, ContentType};
use hanzo_sdk::deep_object::{parse_deep_object, JsonValue};

#[test]
fn urlencode_examples() {
    assert_eq!(urlencode("a b&c=d/é*-._~"), "a+b%26c%3Dd%2F%C3%A9*-._%7E");
    assert_eq!(urlencode(""), "");
    let text = "key = value; 100% €";
    let reference: String = url::form_urlencoded::byte_serialize(text.as_bytes()).collect();
    assert_eq!(urlencode(text), reference);
}

#[test]
fn urlencode_output_is_query_safe() {
    let all: String = (0u32..0x800).filter_map(char::from_u32).collect();
    let out = urlencode(&all);
    assert!(out.chars().all(|c| c.is_ascii_alphanumeric() || "*-._+%".contains(c)));
}

#[test]
fn content_types() {
    assert_eq!(ContentType::from("application/json"), ContentType::Json);
    assert_eq!(ContentType::from("application/problem+json; charset=utf-8"), ContentType::Json);
    assert_eq!(ContentType::from("text/plain; charset=utf-8"), ContentType::Text);
    assert_eq!(
        ContentType::from("application/xml"),
        ContentType::Unsupported("application/xml".to_string())
    );
    assert_eq!(
        ContentType::from("text/json"),
        ContentType::Unsupported("text/json".to_string())
    );
}

fn obj(entries: Vec<(&str, JsonValue)>) -> JsonValue {
    JsonValue::Object(entries.into_iter().map(|(k, v)| (k.to_string(), v)).collect())
}

#[test]
fn deep_object_parameters() {
    let value = obj(vec![
        ("name", JsonValue::String("x y".to_string())),
        ("n", JsonValue::Number("12.5".to_string())),
        ("ok", JsonValue::Bool(true)),
        ("none", JsonValue::Null),
        ("inner", obj(vec![("a", JsonValue::String("1".to_string()))])),
        (
            "list",
            JsonValue::Array(vec![
                obj(vec![("b", JsonValue::Bool(false))]),
                obj(vec![("c", JsonValue::Number("3".to_string()))]),
            ]),
        ),
    ]);
    let got = parse_deep_object("filter", &value);
    let want: Vec<(String, String)> = vec![
        ("filter[name]", "x y"),
        ("filter[n]", "12.5"),
        ("filter[ok]", "true"),
        ("filter[none]", "null"),
        ("filter[inner][a]", "1"),
        ("filter[list][0][b]", "false"),
        ("filter[list][1][c]", "3"),
    ]
    .into_iter()
    .map(|(a, b)| (a.to_string(), b.to_string()))
    .collect();
    assert_eq!(got, want);
    for (name, _) in &got {
        assert!(name.starts_with("filter["));
    }
}

#[test]
fn deep_object_many_items_and_empty() {
    let items: Vec<JsonValue> =
        (0..12).map(|i| obj(vec![("v", JsonValue::Number(i.to_string()))])).collect();
    let value = obj(vec![("xs", JsonValue::Array(items)), ("e", obj(vec![]))]);
    let got = parse_deep_object("p", &value);
    assert_eq!(got.len(), 12);
    assert_eq!(got[11], ("p[xs][11][v]".to_string(), "11".to_string()));
    assert!(parse_deep_object("p", &obj(vec![])).is_empty());
}
