use genjp::error::ScaffoldError;
use genjp::manifest::{transform_manifest, Manifest};
use serde_json::Value;

fn parsed(text: &str) -> Value {
    serde_json::from_str(text).unwrap()
}

#[test]
fn transform_sets_the_name() {
    let out = transform_manifest("{\"name\":\"template-default\"}", "myapp").unwrap();
    assert_eq!(out, "{\n  \"name\": \"myapp\"\n}");
    let value = parsed(&out);
    assert_eq!(value["name"], Value::from("myapp"));
    assert_eq!(value.as_object().unwrap().len(), 1);
}

#[test]
fn transform_inserts_a_missing_name_last() {
    let out = transform_manifest("{\"version\":\"1.0.0\",\"private\":true}", "web").unwrap();
    assert_eq!(
        out,
        "{\n  \"version\": \"1.0.0\",\n  \"private\": true,\n  \"name\": \"web\"\n}"
    );
}

#[test]
fn transform_keeps_the_order_of_members() {
    let out = transform_manifest("{\"zeta\":1,\"name\":\"old\",\"alpha\":[1,2]}", "api").unwrap();
    assert_eq!(
        out,
        "{\n  \"zeta\": 1,\n  \"name\": \"api\",\n  \"alpha\": [\n    1,\n    2\n  ]\n}"
    );
}

#[test]
fn transform_keeps_other_members() {
    let text_in = "{\"name\":\"t\",\"version\":\"0.1.0\",\"scripts\":{\"dev\":\"vite\"},\"n\":null,\"k\":[1,\"a\",false]}";
    let out = transform_manifest(text_in, "myapp").unwrap();
    let before = parsed(text_in);
    let after = parsed(&out);
    let before = before.as_object().unwrap();
    let after = after.as_object().unwrap();
    assert_eq!(before.len(), after.len());
    for (key, value) in before.iter() {
        if key != "name" {
            assert_eq!(after.get(key), Some(value));
        }
    }
    assert_eq!(after.get("name"), Some(&Value::from("myapp")));
}

#[test]
fn transform_twice_is_transform_once() {
    let text_in = "{\"version\":\"0.1.0\",\"name\":\"t\",\"scripts\":{\"dev\":\"vite\"}}";
    let once = transform_manifest(text_in, "myapp").unwrap();
    let twice = transform_manifest(&once, "myapp").unwrap();
    assert_eq!(once, twice);
}

#[test]
fn transform_of_an_empty_object() {
    assert_eq!(transform_manifest("{}", "a").unwrap(), "{\n  \"name\": \"a\"\n}");
    assert_eq!(transform_manifest("  {}\n", "a").unwrap(), "{\n  \"name\": \"a\"\n}");
}

#[test]
fn transform_replaces_a_name_of_any_type() {
    assert_eq!(
        transform_manifest("{\"name\":{\"x\":1}}", "a").unwrap(),
        "{\n  \"name\": \"a\"\n}"
    );
}

#[test]
fn transform_escapes_the_name() {
    let out = transform_manifest("{}", "a\"b\\c\n").unwrap();
    assert_eq!(out, "{\n  \"name\": \"a\\\"b\\\\c\\n\"\n}");
    assert_eq!(parsed(&out)["name"], Value::from("a\"b\\c\n"));
}

#[test]
fn transform_does_not_hand_back_its_input() {
    let text_in = "{\n  \"name\": \"old\"\n}";
    let out = transform_manifest(text_in, "new").unwrap();
    assert_ne!(out, text_in);
    assert_ne!(out, "new");
}

#[test]
fn malformed_manifest_is_a_parse_error() {
    assert_eq!(transform_manifest("not json", "a"), Err(ScaffoldError::Parse));
    assert_eq!(transform_manifest("", "a"), Err(ScaffoldError::Parse));
    assert_eq!(transform_manifest("{\"name\":", "a"), Err(ScaffoldError::Parse));
    assert_eq!(transform_manifest("{\"name\":\"a\"} x", "a"), Err(ScaffoldError::Parse));
    assert_eq!(transform_manifest("{'name':'a'}", "a"), Err(ScaffoldError::Parse));
}

#[test]
fn manifest_that_is_no_object_is_a_parse_error() {
    assert_eq!(transform_manifest("null", "a"), Err(ScaffoldError::Parse));
    assert_eq!(transform_manifest("[1,2]", "a"), Err(ScaffoldError::Parse));
    assert_eq!(transform_manifest("\"name\"", "a"), Err(ScaffoldError::Parse));
    assert_eq!(transform_manifest("3", "a"), Err(ScaffoldError::Parse));
    assert_eq!(transform_manifest("true", "a"), Err(ScaffoldError::Parse));
}

#[test]
fn manifest_by_steps() {
    let mut manifest = Manifest::empty();
    assert_eq!(manifest.render().unwrap(), "{}");
    manifest.set_name("acme");
    assert_eq!(manifest.render().unwrap(), "{\n  \"name\": \"acme\"\n}");
    manifest.set_name("other");
    assert_eq!(manifest.render().unwrap(), "{\n  \"name\": \"other\"\n}");
}

#[test]
fn manifest_parse_then_render() {
    let manifest = Manifest::parse("{\"b\":1,\"a\":2}").unwrap();
    assert_eq!(manifest.render().unwrap(), "{\n  \"b\": 1,\n  \"a\": 2\n}");
    assert!(Manifest::parse("[]").is_err());
    assert_eq!(Manifest::parse("{").err(), Some(ScaffoldError::Parse));
}

#[test]
fn error_messages() {
    assert_eq!(ScaffoldError::Parse.message(), "Cannot parse package.json");
    assert_eq!(ScaffoldError::Serialize.message(), "Failed to serialize package.json");
    assert_eq!(ScaffoldError::InvalidRequest.message(), "The request cannot be scaffolded");
}

#[test]
fn a_number_that_does_not_read_back_changes_again() {
    let text_in = "{\"v\":97.931938251638205}";
    let once = transform_manifest(text_in, "a").unwrap();
    let twice = transform_manifest(&once, "a").unwrap();
    assert_eq!(once, "{\n  \"v\": 97.93193825163821,\n  \"name\": \"a\"\n}");
    assert_eq!(twice, "{\n  \"v\": 97.9319382516382,\n  \"name\": \"a\"\n}");
}
