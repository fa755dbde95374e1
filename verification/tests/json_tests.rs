use specscan::json::JsonValue;
use specscan::json::parse_json_tokens;
use specscan::lexer::tokenize;
use specscan::parser::ParserError;

fn parse(text: &str) -> Result<JsonValue, ParserError> {
    let toks = tokenize(text)?;
    parse_json_tokens(&toks)
}

#[test]
fn simple_object_parses() {
    let v = parse("{\"a\": \"b\"}").unwrap();
    match v {
        JsonValue::Obj(ms) => {
            assert_eq!(ms.len(), 1);
            assert_eq!(ms[0].0, "a");
            assert!(matches!(&ms[0].1, JsonValue::Str(s) if s == "b"));
        }
        _ => panic!("expected an object"),
    }
}

#[test]
fn empty_object_and_array_parse() {
    assert!(matches!(parse("{}").unwrap(), JsonValue::Obj(ms) if ms.is_empty()));
    assert!(matches!(parse("[]").unwrap(), JsonValue::Arr(vs) if vs.is_empty()));
}

#[test]
fn nested_values_parse_in_declaration_order() {
    let v = parse("{\"a\": [\"x\", 1], \"b\": {\"c\": 2}}").unwrap();
    match v {
        JsonValue::Obj(ms) => {
            assert_eq!(ms.len(), 2);
            assert_eq!(ms[0].0, "a");
            assert_eq!(ms[1].0, "b");
            match &ms[0].1 {
                JsonValue::Arr(vs) => {
                    assert_eq!(vs.len(), 2);
                    assert!(matches!(&vs[0], JsonValue::Str(s) if s == "x"));
                    assert!(matches!(&vs[1], JsonValue::Num(n) if n == "1"));
                }
                _ => panic!("expected an array"),
            }
        }
        _ => panic!("expected an object"),
    }
}

#[test]
fn missing_value_is_a_parse_error() {
    assert!(matches!(parse("{\"a\": }"), Err(ParserError::JSONParseError(_))));
}

#[test]
fn missing_colon_is_a_parse_error() {
    assert!(matches!(parse("{\"a\" \"b\"}"), Err(ParserError::JSONParseError(_))));
}

#[test]
fn trailing_tokens_are_a_parse_error() {
    assert!(matches!(parse("{} {}"), Err(ParserError::JSONParseError(_))));
}

#[test]
fn unclosed_brace_is_a_parse_error() {
    assert!(matches!(parse("{\"a\": \"b\""), Err(ParserError::JSONParseError(_))));
}

#[test]
fn keyword_values_are_rejected_by_this_syntax() {
    // The tokenizer has no keyword tokens: bare letters become Bad tokens,
    // which the structural parser refuses.
    assert!(matches!(parse("{\"a\": true}"), Err(ParserError::JSONParseError(_))));
}
