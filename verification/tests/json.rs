use mdbook::renderer::RenderContext;
use mdbook_typst::json::{strip_nulls, translate_render_context, Json};
use serde_json::Value;

fn to_json(v: &Value) -> Json {
    match v {
        Value::Null => Json::Null,
        Value::Bool(b) => Json::Bool(*b),
        Value::Number(n) => Json::Number(n.to_string()),
        Value::String(s) => Json::String(s.clone()),
        Value::Array(a) => Json::Array(a.iter().map(to_json).collect()),
        Value::Object(m) => Json::Object(m.iter().map(|(k, v)| (k.clone(), to_json(v))).collect()),
    }
}

fn to_value(j: &Json) -> Value {
    match j {
        Json::Null => Value::Null,
        Json::Bool(b) => Value::Bool(*b),
        Json::Number(n) => serde_json::from_str(n).unwrap(),
        Json::String(s) => Value::String(s.clone()),
        Json::Array(a) => Value::Array(a.iter().map(to_value).collect()),
        Json::Object(m) => {
            let mut map = serde_json::Map::new();
            for (k, v) in m {
                map.insert(k.clone(), to_value(v));
            }
            Value::Object(map)
        }
    }
}

fn parse(text: &str) -> Json {
    to_json(&serde_json::from_str::<Value>(text).unwrap())
}

fn translate_text(text: &str) -> String {
    let translated = translate_render_context(parse(text));
    serde_json::to_string(&to_value(&translated)).unwrap()
}

const CTX_05: &str = r##"{
    "version": "0.5.2",
    "root": "/tmp/book",
    "book": {
        "items": [{
            "Chapter": {
                "name": "Chapter 1",
                "content": "# Chapter 1\n",
                "number": [1],
                "sub_items": [],
                "path": "chapter_1.md",
                "source_path": "chapter_1.md",
                "parent_names": []
            }
        }]
    },
    "config": {
        "book": {
            "title": "Test",
            "authors": ["Christian Legnitto"],
            "description": null,
            "language": "en",
            "text-direction": null
        },
        "output": { "typst": { "command": "mdbook-typst" } }
    },
    "destination": "/tmp/book/book"
}"##;

const CTX_04: &str = r##"{
    "version": "0.4.52",
    "root": "/tmp/book",
    "book": {
        "sections": [{
            "Chapter": {
                "name": "Chapter 1",
                "content": "# Chapter 1\n",
                "number": [1],
                "sub_items": [],
                "path": "chapter_1.md",
                "source_path": "chapter_1.md",
                "parent_names": []
            }
        }],
        "__non_exhaustive": null
    },
    "config": {
        "book": {
            "title": "Test",
            "authors": ["Christian Legnitto"],
            "src": "src",
            "language": "en"
        },
        "output": { "typst": { "command": "mdbook-typst" } }
    },
    "destination": "/tmp/book/book"
}"##;

#[test]
fn translates_mdbook_05_payload() {
    let translated = translate_text(CTX_05);
    let value: Value = serde_json::from_str(&translated).unwrap();

    let book = value["book"].as_object().unwrap();
    assert!(
        book.contains_key("sections"),
        "items should be renamed to sections"
    );
    assert!(!book.contains_key("items"));
    assert!(book.contains_key("__non_exhaustive"));

    let book_cfg = value["config"]["book"].as_object().unwrap();
    assert!(
        !book_cfg.contains_key("description"),
        "null fields should be stripped"
    );
    assert!(!book_cfg.contains_key("text-direction"));
    assert_eq!(book_cfg["title"], "Test");

    // The translated payload must be deserializable by mdbook 0.4.
    RenderContext::from_json(translated.as_bytes())
        .expect("0.5 payload deserializes after translation");
}

#[test]
fn passes_through_mdbook_04_payload() {
    let translated = translate_text(CTX_04);

    // Existing 0.4 fields are preserved (not double-renamed or stripped).
    let value: Value = serde_json::from_str(&translated).unwrap();
    assert!(value["book"]["sections"].is_array());
    assert!(value["book"].get("items").is_none());
    assert_eq!(value["config"]["book"]["title"], "Test");

    RenderContext::from_json(translated.as_bytes()).expect("0.4 payload deserializes");
}

#[test]
fn strip_nulls_is_recursive() {
    let mut value = parse(
        r#"{
            "a": null,
            "b": { "c": null, "d": 1, "e": { "f": null } },
            "g": [{ "h": null, "i": 2 }]
        }"#,
    );
    strip_nulls(&mut value);
    let expected: Value = serde_json::from_str(
        r#"{
            "b": { "d": 1, "e": {} },
            "g": [{ "i": 2 }]
        }"#,
    )
    .unwrap();
    assert_eq!(to_value(&value), expected);
}

#[test]
fn strip_nulls_keeps_nulls_in_arrays() {
    let mut value = parse(r#"[null, {"a": null, "b": [null]}]"#);
    strip_nulls(&mut value);
    let expected: Value = serde_json::from_str(r#"[null, {"b": [null]}]"#).unwrap();
    assert_eq!(to_value(&value), expected);
}

#[test]
fn existing_sections_are_kept_over_items() {
    let translated = translate_text(r#"{"book": {"items": [1], "sections": [2]}}"#);
    let value: Value = serde_json::from_str(&translated).unwrap();
    assert_eq!(value["book"]["sections"], serde_json::from_str::<Value>("[2]").unwrap());
    assert!(value["book"].get("items").is_none());
    assert!(value["book"]["__non_exhaustive"].is_null());
}

#[test]
fn translation_leaves_non_objects_and_other_members_alone() {
    let translated = translate_text(r#"[1, null]"#);
    assert_eq!(translated, "[1,null]");
    let translated = translate_text(r#"{"book": 3, "other": {"x": null}}"#);
    let value: Value = serde_json::from_str(&translated).unwrap();
    assert_eq!(value["book"], 3);
    assert!(value["other"]["x"].is_null());
}

#[test]
fn translating_twice_is_translating_once() {
    let once = translate_text(CTX_05);
    let twice = translate_text(&once);
    assert_eq!(once, twice);
}
