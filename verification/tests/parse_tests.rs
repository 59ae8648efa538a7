use jparse::{DefaultTypeParser, DefaultJType, JNumber, JType, ParseFailure, Parser};

fn parse(input: &str) -> (usize, DefaultJType) {
    let parser = DefaultTypeParser::create();
    parser.parse(input).expect("expected a successful parse")
}

fn parse_err(input: &str) -> ParseFailure {
    let parser = DefaultTypeParser::create();
    parser.parse(input).expect_err("expected a failed parse")
}

fn jstring(s: &str) -> DefaultJType {
    DefaultJType { t: JType::String(s.to_string()) }
}

fn jnumber(mantissa: i128, scale: u32) -> DefaultJType {
    DefaultJType { t: JType::Number(JNumber::new(mantissa, scale)) }
}

fn jbool(b: bool) -> DefaultJType {
    DefaultJType { t: JType::Boolean(b) }
}

fn jnull() -> DefaultJType {
    DefaultJType { t: JType::Null(()) }
}

fn jarray(elems: Vec<DefaultJType>) -> DefaultJType {
    DefaultJType { t: JType::Array(elems) }
}

fn jobject(pairs: Vec<(&str, DefaultJType)>) -> DefaultJType {
    DefaultJType {
        t: JType::Object(pairs.into_iter().map(|(k, v)| (k.to_string(), v)).collect()),
    }
}

#[test]
fn test_null() {
    let (end, v) = parse("null");
    assert_eq!(end, 4);
    assert!(v.eq_value(&jnull()));
}

#[test]
fn test_boolean_true() {
    let (end, v) = parse("true");
    assert_eq!(end, 4);
    assert!(v.eq_value(&jbool(true)));
}

#[test]
fn test_boolean_false() {
    let (end, v) = parse("false");
    assert_eq!(end, 5);
    assert!(v.eq_value(&jbool(false)));
}

#[test]
fn test_number_zero() {
    let (_, v) = parse("0.0");
    assert!(v.eq_value(&jnumber(0, 1)));
    assert!(v.eq_value(&jnumber(0, 0)));
}

#[test]
fn test_number_positive() {
    let (_, v) = parse("12.34");
    assert!(v.eq_value(&jnumber(1234, 2)));
}

#[test]
fn test_number_negative() {
    let (_, v) = parse("-55.66");
    assert!(v.eq_value(&jnumber(-5566, 2)));
}

#[test]
fn test_number_scientific() {
    // 9.7e-7 is exactly 97 * 10^-8: the scientific-notation fallback
    // must produce the exact decimal, with no floating-point drift.
    let (_, v) = parse("9.7e-7");
    assert!(v.eq_value(&jnumber(97, 8)));
    assert!(!v.eq_value(&jnumber(97, 7)));
}

#[test]
fn test_number_integer() {
    let (end, v) = parse("32");
    assert_eq!(end, 2);
    assert!(v.eq_value(&jnumber(32, 0)));
}

#[test]
fn test_number_leading_zero_stops() {
    // the numeric grammar takes `0` alone when the next digit is not
    // part of a fraction or exponent: the rest stays unconsumed
    let (end, v) = parse("01");
    assert_eq!(end, 1);
    assert!(v.eq_value(&jnumber(0, 0)));
}

#[test]
fn test_string_empty() {
    let (end, v) = parse("\"\"");
    assert_eq!(end, 2);
    assert!(v.eq_value(&jstring("")));
}

#[test]
fn test_number_negative_zero() {
    let (_, v) = parse("-0");
    assert!(v.eq_value(&jnumber(0, 0)));
}

#[test]
fn test_string_simple() {
    let (_, v) = parse(r#""ala ma kota..." "#);
    assert!(v.eq_value(&jstring("ala ma kota...")));
}

#[test]
fn test_string_unicode() {
    let input = "\"kot ma na imi\u{119} 'Filomen'\"";
    let (end, v) = parse(input);
    assert_eq!(end, input.chars().count());
    assert!(v.eq_value(&jstring("kot ma na imi\u{119} 'Filomen'")));
}

#[test]
fn test_string_backslash_quote_terminates() {
    // current behavior, not full JSON escaping: a backslash does not
    // protect a quote, so the first bare quote ends the string
    let input = r#""a\"b""#;
    let (end, v) = parse(input);
    assert!(v.eq_value(&jstring("a\\")));
    assert_eq!(end, 4);
}

#[test]
fn test_empty_array() {
    let (end, v) = parse("[]");
    assert_eq!(end, 2);
    assert!(v.eq_value(&jarray(vec![])));
}

#[test]
fn test_empty_array_with_space() {
    let (_, v) = parse("[ ]");
    assert!(v.eq_value(&jarray(vec![])));
}

#[test]
fn test_empty_object() {
    let (end, v) = parse("{}");
    assert_eq!(end, 2);
    assert!(v.eq_value(&jobject(vec![])));
}

#[test]
fn test_empty_object_with_space() {
    let (_, v) = parse("{ \n }");
    assert!(v.eq_value(&jobject(vec![])));
}

#[test]
fn test_nested_array() {
    let input = r#"
        [
            "ala",
            32,
            true,
            null,
            {}
        ]
        "#;
    let (end, v) = parse(input);
    assert_eq!(end, input.chars().count());
    let expected = jarray(vec![
        jstring("ala"),
        jnumber(32, 0),
        jbool(true),
        jnull(),
        jobject(vec![]),
    ]);
    assert!(v.eq_value(&expected));
}

#[test]
fn test_object() {
    let input = r#"
        {
            "name": "ala",
            "age": 32,
            "verified": true,
            "friends": null,
            "animals": [
                "cat",
                "dog"
            ]
        }
        "#;
    let (_, v) = parse(input);
    let expected = jobject(vec![
        ("animals", jarray(vec![jstring("cat"), jstring("dog")])),
        ("age", jnumber(32, 0)),
        ("name", jstring("ala")),
        ("friends", jnull()),
        ("verified", jbool(true)),
    ]);
    assert!(v.eq_value(&expected));
}

#[test]
fn test_object_key_order_irrelevant() {
    let (_, a) = parse(r#"{"a":1,"b":2}"#);
    let (_, b) = parse(r#"{"b":2,"a":1}"#);
    assert!(a.eq_value(&b));
    assert!(b.eq_value(&a));
    let (_, c) = parse(r#"{"a":1,"b":3}"#);
    assert!(!a.eq_value(&c));
}

#[test]
fn test_object_duplicate_key_last_wins() {
    let (_, v) = parse(r#"{"a":1,"a":2}"#);
    assert!(v.eq_value(&jobject(vec![("a", jnumber(2, 0))])));
}

#[test]
fn test_whitespace_insensitivity() {
    let plain = parse(r#"{"k":[1,true,"x"]}"#).1;
    let spaced = parse(" \n\t{ \"k\" :\r [ 1 ,\n true , \"x\" ] \t} \n").1;
    assert!(plain.eq_value(&spaced));
    let (end, v) = parse("   null  \n");
    assert_eq!(end, 10);
    assert!(v.eq_value(&jnull()));
}

#[test]
fn test_malformed_number_aborts() {
    // lexically a number, but no exact-decimal representation exists:
    // the parse must abort, not fall through to another value kind
    assert!(matches!(parse_err("1e99999"), ParseFailure::Construction { .. }));
    assert!(matches!(
        parse_err("79228162514264337593543950336"),
        ParseFailure::Construction { .. }
    ));
    assert!(matches!(parse_err("[1, 1e99999]"), ParseFailure::Construction { .. }));
    assert!(matches!(parse_err(r#"{"a": 1e99999}"#), ParseFailure::Construction { .. }));
}

#[test]
fn test_syntax_failures() {
    assert!(matches!(parse_err(""), ParseFailure::Syntax { .. }));
    assert!(matches!(parse_err("[1,2,]"), ParseFailure::Syntax { .. }));
    assert!(matches!(parse_err("[1,2"), ParseFailure::Syntax { .. }));
    assert!(matches!(parse_err(r#"{"a":}"#), ParseFailure::Syntax { .. }));
    assert!(matches!(parse_err(r#""unterminated"#), ParseFailure::Syntax { .. }));
    assert!(matches!(parse_err("nul"), ParseFailure::Syntax { .. }));
}

#[test]
fn test_trailing_input_is_reported() {
    let (end, v) = parse("true false");
    assert!(v.eq_value(&jbool(true)));
    assert_eq!(end, 5);
}
