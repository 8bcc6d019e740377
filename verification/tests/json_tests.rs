use canonical_codec::json::{
    default_try_from_json, json_to_option_u32, json_to_option_string, json_to_result,
    json_to_result_strings, option_to_json_string, result_strings_to_json_string,
    result_to_json_string,
};
use canonical_codec::text::{make_tagged, parse_tagged};
use canonical_codec::{JsonError, JsonString, JsonStringOption, RawString};

#[derive(Debug, PartialEq, Clone)]
struct DeriveTest {
    foo: String,
}

fn derive_test_to_json(v: &DeriveTest) -> JsonString {
    JsonString::from_json(&make_tagged("foo", &v.foo)).unwrap()
}

fn derive_test_try_from(j: JsonString) -> Result<DeriveTest, JsonError> {
    match parse_tagged(j.as_str()) {
        Some((tag, content)) if tag == "foo" => Ok(DeriveTest { foo: content }),
        _ => Err(JsonError::new("could not restore a DeriveTest")),
    }
}

#[test]
fn default_json_round_trip_test() {
    let test = DeriveTest { foo: "bar".into() };
    let expected = JsonString::from_json("{\"foo\":\"bar\"}").unwrap();
    assert_eq!(expected, derive_test_to_json(&test),);

    assert_eq!(&derive_test_try_from(expected).unwrap(), &test,);

    assert_eq!(
        test.clone(),
        derive_test_try_from(derive_test_to_json(&test)).unwrap(),
    );
}

#[test]
fn invalid_json_test() {
    let result = JsonString::from_json("foo");
    assert_eq!(Err(JsonError::SerializationError("Attempted to create JsonString from invalid JSON. String: foo. Error: expected ident at line 1 column 2.".into())), result,);
}

#[test]
fn json_none_test() {
    assert_eq!(String::from("null"), String::from(JsonString::null()),);
}

#[test]
fn json_bytes_test() {
    let bytes_vec: Vec<u8> = vec![34, 102, 111, 111, 34];

    // note that the byte array has the quote character '/"' at the beginnging and end so it is actually valid json
    assert_eq!(
        JsonString::from(RawString::from("foo")).to_bytes(),
        bytes_vec,
    );

    assert_eq!(
        JsonString::from_bytes(bytes_vec).unwrap(),
        JsonString::from(RawString::from("foo")),
    );
}

#[test]
fn json_result_round_trip_test() {
    let result: Result<String, JsonError> = Err(JsonError::ErrorGeneric("foo".into()));
    let expected = JsonString::from_json("{\"Err\":\"{\\\"ErrorGeneric\\\":\\\"foo\\\"}\"}").unwrap();

    let encoded = result_to_json_string(match result.clone() {
        Ok(s) => Ok(JsonString::from(RawString::from(s))),
        Err(e) => Err(JsonString::from(e)),
    });
    assert_eq!(encoded, expected,);

    let result_restored: Result<String, JsonError> = match json_to_result(&expected).unwrap() {
        Ok(j) => Ok(String::from(RawString::try_from(j).unwrap())),
        Err(j) => Err(default_try_from_json::<JsonError>(&j).unwrap()),
    };
    assert_eq!(result, result_restored);

    let result: Result<String, String> = Err(String::from("foo"));
    let expected = JsonString::from_json("{\"Err\":\"\\\"foo\\\"\"}").unwrap();

    assert_eq!(result_strings_to_json_string(result.clone()), expected,);

    let result_restored: Result<String, String> = json_to_result_strings(&expected).unwrap();
    assert_eq!(result, result_restored);

    let result: Result<JsonString, String> = Ok(JsonString::from(RawString::from("foo")));
    let expected = JsonString::from_json("{\"Ok\":\"\\\"foo\\\"\"}").unwrap();

    let encoded = result_to_json_string(match result.clone() {
        Ok(j) => Ok(j),
        Err(s) => Err(JsonString::from(RawString::from(s))),
    });
    assert_eq!(encoded, expected,);

    let result_restored: Result<JsonString, String> = match json_to_result(&expected).unwrap() {
        Ok(j) => Ok(j),
        Err(j) => Err(String::from(RawString::try_from(j).unwrap())),
    };
    assert_eq!(result, result_restored,);
}

#[test]
/// show conversions from strings into JsonString
fn json_from_string_test() {
    assert_eq!(
        String::from("\"foo\""),
        String::from(JsonString::from(RawString::from("foo"))),
    );

    assert_eq!(
        String::from("\"foo\""),
        String::from(JsonString::from_json(&String::from("\"foo\"")).unwrap()),
    );

    assert_eq!(
        String::from("\"foo\""),
        String::from(&JsonString::from(RawString::from("foo"))),
    );
}

#[test]
/// show From<Vec<JsonString>> for JsonString
fn json_from_vec() {
    assert_eq!(
        String::from("[\"foo\",\"bar\"]"),
        String::from(JsonString::from(vec![
            JsonString::from(RawString::from("foo")),
            JsonString::from(RawString::from("bar")),
        ])),
    );
}

#[test]
/// show From<&str> and From<String> for RawString
fn raw_from_string_test() {
    assert_eq!(RawString::from(String::from("foo")), RawString::from("foo"),);
}

#[test]
/// show From<RawString> for String
fn string_from_raw_test() {
    assert_eq!(String::from("foo"), String::from(RawString::from("foo")),);
}

#[test]
/// show From<RawString> for JsonString
fn json_from_raw_test() {
    assert_eq!(
        String::from("\"foo\""),
        String::from(JsonString::from(RawString::from("foo"))),
    );
}

#[test]
/// show RawString::try_from for JsonString
fn raw_from_json_test() {
    assert_eq!(
        String::from(RawString::try_from(JsonString::try_from("\"foo\"").unwrap()).unwrap()),
        String::from("foo"),
    );
}

#[test]
fn options_are_converted_to_null_or_value_respectively() {
    let o: Option<u32> = None;
    let j: JsonString = option_to_json_string(o.map(JsonString::from));
    assert_eq!(j, JsonString::from_json("null").unwrap());

    let o: Option<u32> = Some(10);
    let j: JsonString = option_to_json_string(o.map(JsonString::from));
    assert_eq!(j, JsonString::from_json("10").unwrap());

    let o: Option<String> = Some("test".to_string());
    let j: JsonString = option_to_json_string(o.map(|s| JsonString::from(RawString::from(s))));
    assert_eq!(j, JsonString::from_json("\"test\"").unwrap());
}

#[test]
fn json_string_to_option() {
    let j = JsonString::try_from("10").unwrap();
    let o: JsonStringOption<u32> = json_to_option_u32(&j).expect("failed conversion from JsonString");
    assert_eq!(o.to_option(), Some(10));

    let j = JsonString::try_from("null").unwrap();
    let o: JsonStringOption<u32> = json_to_option_u32(&j).expect("failed conversion from JsonString");
    assert_eq!(o.to_option(), None);

    // tricky!
    let j = JsonString::try_from("\"null\"").unwrap();
    let o: JsonStringOption<String> =
        json_to_option_string(&j).expect("failed conversion from JsonString");
    assert_eq!(o.to_option(), Some("null".to_string()));
}

#[test]
/// validating already-valid canonical text again returns an equal value
fn validation_idempotent_test() {
    for text in vec!["null", "{}", "[1,2,3]", "\"foo\"", "{\"a\":[true,false,null]}"] {
        let j = JsonString::from_json(text).unwrap();
        let again = JsonString::from_json(&String::from(&j)).unwrap();
        assert_eq!(j, again);
        let through_bytes = JsonString::from_bytes(j.to_bytes()).unwrap();
        assert_eq!(j, through_bytes);
    }
}

#[test]
/// cleaning strips whitespace, then NUL characters, from both ends
fn json_cleaning_test() {
    let j = JsonString::from_json("  {}\t\n").unwrap();
    assert_eq!(String::from(j), "{}");
    let j = JsonString::from_json(" \u{0}\u{0}{}\u{0} ").unwrap();
    assert_eq!(String::from(j), "{}");
}

#[test]
/// cleaning strips the full Unicode whitespace set, as the standard trim does
fn json_unicode_cleaning_test() {
    let j = JsonString::from_json("\u{a0}\u{2003}{}\u{3000}\u{2028}").unwrap();
    assert_eq!(String::from(j), "{}");
}

#[test]
/// bytes that decode as UTF-8 but not as JSON get from_json's exact wording
fn json_from_bytes_invalid_json_test() {
    let r = JsonString::from_bytes(vec![102, 111, 111]);
    assert_eq!(
        r,
        Err(JsonError::SerializationError(
            "Attempted to create JsonString from invalid JSON. String: foo. Error: expected ident at line 1 column 2.".to_string()
        ))
    );
}

#[test]
/// UTF-8 that is not valid is rejected with a descriptive error
fn json_from_invalid_utf8_test() {
    let r = JsonString::from_bytes(vec![255, 254]);
    assert_eq!(
        r,
        Err(JsonError::SerializationError(
            "Invalid UTF8 bytes found in JsonString [255, 254]".to_string()
        ))
    );
}

#[test]
/// control characters and quotes survive the quoted round trip
fn raw_string_escape_round_trip_test() {
    let original = "line\nbreak\ttab \"quoted\" back\\slash \u{1} end";
    let j = JsonString::from(RawString::from(original));
    let back = RawString::try_from(j).unwrap();
    assert_eq!(String::from(back), original.to_string());
}

#[test]
/// unicode escapes decode, surrogate pairs included
fn unicode_escape_test() {
    let j = JsonString::from_json("\"\\u0041\\u00e9\\ud83d\\ude00\"").unwrap();
    let back = RawString::try_from(j).unwrap();
    assert_eq!(String::from(back), "A\u{e9}\u{1f600}".to_string());
}

#[test]
/// the null checks: is_null and empty_object
fn null_and_empty_object_test() {
    assert!(JsonString::null().is_null());
    assert!(!JsonString::empty_object().is_null());
    assert_eq!(String::from(JsonString::empty_object()), "{}");
}

#[test]
/// the unit value maps to the null text and back
fn json_unit_test() {
    assert!(JsonString::from_unit().is_null());
    assert_eq!(JsonString::from_unit().to_unit(), Ok(()));
    assert!(JsonString::empty_object().to_unit().is_err());
}

#[test]
/// numbers and booleans get their default JSON text
fn number_and_bool_json_test() {
    assert_eq!(String::from(JsonString::from(10u32)), "10");
    assert_eq!(String::from(JsonString::from(0u64)), "0");
    assert_eq!(String::from(JsonString::from(18446744073709551615u64)), "18446744073709551615");
    assert_eq!(
        String::from(JsonString::from(340282366920938463463374607431768211455u128)),
        "340282366920938463463374607431768211455"
    );
    assert_eq!(String::from(JsonString::from(-42i32)), "-42");
    assert_eq!(String::from(JsonString::from(true)), "true");
    assert_eq!(String::from(JsonString::from(false)), "false");
}

#[test]
/// decoding a number that does not fit is an error, not a wrap-around
fn option_u32_out_of_range_test() {
    let j = JsonString::try_from("4294967295").unwrap();
    let o = json_to_option_u32(&j).unwrap();
    assert_eq!(o.to_option(), Some(4294967295));

    let j = JsonString::try_from("4294967296").unwrap();
    assert!(json_to_option_u32(&j).is_err());

    let j = JsonString::try_from("010").unwrap_err();
    match j {
        JsonError::SerializationError(_) => {},
        _ => panic!("a leading zero is not valid JSON"),
    }
}

#[test]
/// typed decoding of numbers and booleans from canonical text
fn typed_decode_test() {
    assert_eq!(JsonString::try_from("10").unwrap().to_u32(), Ok(10));
    assert_eq!(
        JsonString::try_from(" 18446744073709551615 ").unwrap().to_u64(),
        Ok(18446744073709551615)
    );
    assert!(JsonString::try_from("4294967296").unwrap().to_u32().is_err());
    assert_eq!(JsonString::try_from("true").unwrap().to_bool(), Ok(true));
    assert_eq!(JsonString::try_from("false").unwrap().to_bool(), Ok(false));
    assert!(JsonString::try_from("null").unwrap().to_bool().is_err());
    assert!(JsonString::try_from("\"10\"").unwrap().to_u32().is_err());
}

#[test]
/// an outcome document with a foreign tag is rejected
fn result_unknown_tag_test() {
    let j = JsonString::from_json("{\"Maybe\":\"foo\"}").unwrap();
    assert!(json_to_result(&j).is_err());
    let j = JsonString::from_json("[1,2]").unwrap();
    assert!(json_to_result(&j).is_err());
}

#[test]
/// whitespace between the tokens of an outcome document is accepted
fn result_with_whitespace_test() {
    let j = JsonString::from_json(" { \"Ok\" : \"\\\"x\\\"\" } ").unwrap();
    let r: Result<String, String> = json_to_result_strings(&j).unwrap();
    assert_eq!(r, Ok("x".to_string()));
}
