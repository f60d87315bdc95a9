use sparrow::rawvalue::RawValue;
use sparrow::parse::parse_blob;

fn entry_key(e: &(String, RawValue)) -> &str {
    e.0.as_str()
}

#[test]
fn parses_simple_map() {
    let es = parse_blob("{ \"a\": 1, \"b\": \"two\" }").expect("well-formed");
    assert_eq!(es.len(), 2);
    assert_eq!(entry_key(&es[0]), "a");
    assert!(matches!(&es[0].1, RawValue::Num { lexeme } if lexeme == "1"));
    assert_eq!(entry_key(&es[1]), "b");
    assert!(matches!(&es[1].1, RawValue::Text { value } if value == "two"));
}

#[test]
fn parses_nested_values() {
    let es = parse_blob("{\"outer\": {\"x\": -1.5, \"flag\": true}, \"list\": [1, 2, 3]}")
        .expect("well-formed");
    assert_eq!(es.len(), 2);
    match &es[0].1 {
        RawValue::MapEntries { entries } => {
            assert_eq!(entries.len(), 2);
            assert!(matches!(&entries[0].1, RawValue::Num { lexeme } if lexeme == "-1.5"));
            assert!(matches!(&entries[1].1, RawValue::Flag { value: true }));
        },
        _ => panic!("expected nested map"),
    }
    match &es[1].1 {
        RawValue::ListItems { items } => {
            assert_eq!(items.len(), 3);
            assert!(matches!(&items[2], RawValue::Num { lexeme } if lexeme == "3"));
        },
        _ => panic!("expected nested list"),
    }
}

#[test]
fn parses_empty_map_and_list() {
    let es = parse_blob("{\"m\": {}, \"l\": []}").expect("well-formed");
    assert!(matches!(&es[0].1, RawValue::MapEntries { entries } if entries.is_empty()));
    assert!(matches!(&es[1].1, RawValue::ListItems { items } if items.is_empty()));
}

#[test]
fn parses_trailing_commas_and_whitespace() {
    let es = parse_blob("  {\n  \"a\" : [ 1 , 2 , ] ,\n }\n").expect("well-formed");
    assert_eq!(es.len(), 1);
    assert!(matches!(&es[0].1, RawValue::ListItems { items } if items.len() == 2));
}

#[test]
fn parses_false_keyword() {
    let es = parse_blob("{\"f\": false}").expect("well-formed");
    assert!(matches!(&es[0].1, RawValue::Flag { value: false }));
}

#[test]
fn keeps_duplicate_keys() {
    let es = parse_blob("{\"a\": 1, \"a\": 2}").expect("well-formed");
    assert_eq!(es.len(), 2);
    assert_eq!(entry_key(&es[0]), "a");
    assert_eq!(entry_key(&es[1]), "a");
}

#[test]
fn rejects_unbalanced_braces() {
    assert!(parse_blob("{\"a\": {\"b\": 1}").is_none());
    assert!(parse_blob("{\"a\": 1}}").is_none());
    assert!(parse_blob("{\"a\": [1, 2}").is_none());
}

#[test]
fn rejects_non_map_and_garbage() {
    assert!(parse_blob("").is_none());
    assert!(parse_blob("[1, 2]").is_none());
    assert!(parse_blob("{a: 1}").is_none());
    assert!(parse_blob("{\"a\" 1}").is_none());
    assert!(parse_blob("{\"a\": tru}").is_none());
    assert!(parse_blob("{\"a\": 1.}").is_none());
    assert!(parse_blob("{\"a\": -}").is_none());
    assert!(parse_blob("{\"a\": \"unterminated}").is_none());
}
