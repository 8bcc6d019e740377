use canonical_codec::error::{reason_for_io_error, IoFailureKind, JsonError, JsonResult};
use canonical_codec::json::{
    default_option_to_json, default_option_try_from_json, default_to_json, default_try_from_json,
    DefaultJson,
};
use canonical_codec::JsonStringOption;
use canonical_codec::JsonString;

// a test function that returns our error result
fn raises_json_error(yes: bool) -> JsonResult<()> {
    if yes {
        Err(JsonError::new("borked"))
    } else {
        Ok(())
    }
}

#[test]
/// test that we can convert an error to a string
fn to_string() {
    let err = JsonError::new("foo");
    assert_eq!("foo", err.to_string());
}

#[test]
/// test that we can convert an error to valid JSON
fn test_to_json() {
    let err = JsonError::new("foo");
    assert_eq!(
        JsonString::from_json("{\"ErrorGeneric\":\"foo\"}").unwrap(),
        JsonString::from(err),
    );
}

#[test]
/// smoke test new errors
fn can_instantiate() {
    let err = JsonError::new("borked");

    assert_eq!(JsonError::ErrorGeneric("borked".to_string()), err);
}

#[test]
/// test errors as a result and destructuring
fn can_raise_json_error() {
    let err = raises_json_error(true).expect_err("should return an error when yes=true");

    match err {
        JsonError::ErrorGeneric(msg) => assert_eq!(msg, "borked"),
        _ => panic!("raises_json_error should return an ErrorGeneric"),
    };
}

#[test]
/// test errors as a returned result
fn can_return_result() {
    let result = raises_json_error(false);

    assert!(result.is_ok());
}

#[test]
/// show the textual rendering of every JsonError variant
fn error_test() {
    for (input, output) in vec![
        (JsonError::ErrorGeneric(String::from("foo")), "foo"),
        (JsonError::SerializationError(String::from("foo")), "foo"),
        (JsonError::IoError(String::from("foo")), "foo"),
    ] {
        assert_eq!(output, &input.to_string());
    }
}

#[test]
/// every error class round-trips through its JSON form
fn error_json_round_trip_test() {
    for err in vec![
        JsonError::ErrorGeneric("a generic cause".to_string()),
        JsonError::IoError("an io cause".to_string()),
        JsonError::SerializationError("a serialization cause".to_string()),
    ] {
        let j = default_to_json(&err);
        let back: JsonError = default_try_from_json(&j).unwrap();
        assert_eq!(err, back);
    }
}

#[test]
/// an error restored from JSON keeps escaped content intact
fn error_json_escaped_content_test() {
    let err = JsonError::new("say \"hi\"\n");
    let j = err.to_json();
    assert_eq!(
        String::from(&j),
        "{\"ErrorGeneric\":\"say \\\"hi\\\"\\n\"}".to_string()
    );
    let back = JsonError::try_from_json(&j).unwrap();
    assert_eq!(err, back);
}

#[test]
/// text that is no error class at all is rejected on decode
fn error_json_unknown_tag_test() {
    let j = JsonString::from_json("{\"SomethingElse\":\"foo\"}").unwrap();
    let r: Result<JsonError, JsonError> = default_try_from_json(&j);
    assert!(r.is_err());
}

#[test]
/// absence encodes to the designated null text, whatever the inner type
fn default_option_null_test() {
    assert!(default_option_to_json(&None::<JsonError>).is_null());
    let j = default_option_to_json(&Some(JsonError::new("foo")));
    assert_eq!(String::from(&j), "{\"ErrorGeneric\":\"foo\"}".to_string());
}

#[test]
/// the generic optional decode: null is absence, anything else must restore
/// a registered value
fn default_option_decode_test() {
    let j = JsonString::from_json(" null ").unwrap();
    let o: JsonStringOption<JsonError> = default_option_try_from_json(&j).unwrap();
    assert_eq!(o.to_option(), None);

    let j = JsonString::from_json("{\"IoError\":\"disk\"}").unwrap();
    let o: JsonStringOption<JsonError> = default_option_try_from_json(&j).unwrap();
    assert_eq!(o.to_option(), Some(JsonError::IoError("disk".to_string())));

    let j = JsonString::from_json("[1]").unwrap();
    let r: Result<JsonStringOption<JsonError>, JsonError> = default_option_try_from_json(&j);
    assert!(r.is_err());
}

#[test]
/// the wording of classified I/O failures
fn io_reason_test() {
    assert_eq!(
        "contains invalid data: broken disk",
        reason_for_io_error(IoFailureKind::InvalidData, "broken disk")
    );
    assert_eq!(
        "missing permissions to read: secret file",
        reason_for_io_error(IoFailureKind::PermissionDenied, "secret file")
    );
    assert_eq!(
        "unexpected error: gremlins",
        reason_for_io_error(IoFailureKind::Other, "gremlins")
    );
}

#[test]
/// errors convert to plain strings and back from strings
fn error_string_conversions_test() {
    let e = JsonError::from("what a mess".to_string());
    assert_eq!(JsonError::ErrorGeneric("what a mess".to_string()), e);
    let s: String = e.into();
    assert_eq!("what a mess", s);
    let e = JsonError::from("borrowed words");
    assert_eq!(JsonError::ErrorGeneric("borrowed words".to_string()), e);
}
