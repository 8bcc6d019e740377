use canonical_codec::bytes::{
    decode, encode, option_to_value, reencode_bytes, result_to_value, round_trip_value,
    value_to_option, value_to_result,
};
use canonical_codec::{CodecValue, SerializedBytes, SerializedBytesError, UnsafeBytes};

/// struct with a utf8 string in it
#[derive(PartialEq, Debug, Clone)]
struct Foo {
    inner: String,
}

fn foo_value(f: &Foo) -> CodecValue {
    CodecValue::Record(vec![("inner".to_string(), CodecValue::Text(f.inner.clone()))])
}

fn foo_from_value(v: CodecValue) -> Option<Foo> {
    match v {
        CodecValue::Record(mut fields) => {
            if fields.len() != 1 {
                return None;
            }
            match fields.pop() {
                Some((name, CodecValue::Text(inner))) if name == "inner" => Some(Foo { inner }),
                _ => None,
            }
        },
        _ => None,
    }
}

fn fixture_foo() -> Foo {
    Foo {
        inner: "foo".into(),
    }
}

#[test]
pub fn foo_test() {
    let foo = fixture_foo();

    let sb: SerializedBytes = SerializedBytes::try_from_value(&foo_value(&foo)).unwrap();
    let other_foo = foo_from_value(sb.try_to_value().unwrap()).unwrap();

    assert_eq!(foo, other_foo);
}

fn do_round_trip_test(i: CodecValue, o: Vec<u8>) {
    let sb: SerializedBytes = SerializedBytes::try_from_value(&i).unwrap();
    // this isn't for testing it just shows how the debug output looks
    println!("{:?}", &sb);

    assert_eq!(&o, sb.bytes(),);

    let returned: CodecValue = sb.try_to_value().unwrap();

    assert_eq!(returned, i);

    // encoding the same value again gives the same bytes
    let sb2 = SerializedBytes::try_from_value(&i).unwrap();

    assert_eq!(&o, sb2.bytes());
}

#[test]
fn round_trip() {
    do_round_trip_test(
        CodecValue::Record(vec![(
            "inner".to_string(),
            CodecValue::Text("foo".to_string()),
        )]),
        vec![
            129_u8, 165_u8, 105_u8, 110_u8, 110_u8, 101_u8, 114_u8, 163_u8, 102_u8, 111_u8,
            111_u8,
        ],
    );

    do_round_trip_test(
        CodecValue::Record(vec![(
            "whatever".to_string(),
            CodecValue::List(vec![
                CodecValue::UInt(1),
                CodecValue::UInt(2),
                CodecValue::UInt(3),
            ]),
        )]),
        vec![
            129_u8, 168_u8, 119_u8, 104_u8, 97_u8, 116_u8, 101_u8, 118_u8, 101_u8, 114_u8,
            147_u8, 1_u8, 2_u8, 3_u8,
        ],
    );

    do_round_trip_test(
        CodecValue::Record(vec![(
            "wow".to_string(),
            CodecValue::Record(vec![(
                "Ok".to_string(),
                CodecValue::List(vec![
                    CodecValue::UInt(2),
                    CodecValue::UInt(5),
                    CodecValue::UInt(6),
                ]),
            )]),
        )]),
        vec![129, 163, 119, 111, 119, 129, 162, 79, 107, 147, 2, 5, 6],
    );

    do_round_trip_test(CodecValue::UInt(5), vec![5]);

    do_round_trip_test(
        CodecValue::List(vec![
            CodecValue::UInt(1),
            CodecValue::UInt(90),
            CodecValue::UInt(155),
        ]),
        vec![147, 1, 90, 204, 155],
    );

    do_round_trip_test(CodecValue::Nil, vec![192]);

    let inner_foo = SerializedBytes::try_from_value(&foo_value(&fixture_foo())).unwrap();
    do_round_trip_test(
        CodecValue::Record(vec![(
            "inner".to_string(),
            CodecValue::Data(inner_foo.bytes().clone()),
        )]),
        vec![
            129, 165, 105, 110, 110, 101, 114, 196, 11, 129, 165, 105, 110, 110, 101, 114, 163,
            102, 111, 111,
        ],
    );
}

fn round_any_string(inner: String) {
    let foo = Foo { inner };
    let encoded = encode(&foo_value(&foo)).unwrap();
    let restored = foo_from_value(decode(&encoded).unwrap()).unwrap();
    assert_eq!(foo, restored);
}

#[test]
fn round_a_string() {
    round_any_string("foo".into());
}

fn provide_own_bytes(bytes: Vec<u8>) {
    let own_bytes = UnsafeBytes::from(bytes.clone());
    let sb: SerializedBytes = own_bytes.into();

    assert_eq!(sb.bytes(), &bytes);

    let own_bytes_restored: UnsafeBytes = sb.into();

    let own_bytes_restored_vec: Vec<u8> = own_bytes_restored.into();
    assert_eq!(bytes, own_bytes_restored_vec);
}

#[test]
fn own_bytes_pass_through_unchanged() {
    provide_own_bytes(vec![1_u8, 90_u8, 155_u8]);
    provide_own_bytes(vec![]);
}

pub struct UnlikelyToDeserialize {
    pub foo: u32,
    pub bar: String,
    pub baz: Vec<u8>,
}

fn unlikely_from_value(v: CodecValue) -> Result<UnlikelyToDeserialize, SerializedBytesError> {
    let mismatch = || SerializedBytesError::Deserialize("not an UnlikelyToDeserialize".to_string());
    match v {
        CodecValue::Record(fields) => {
            let mut foo: Option<u32> = None;
            let mut bar: Option<String> = None;
            let mut baz: Option<Vec<u8>> = None;
            for (name, value) in fields {
                match (name.as_str(), value) {
                    ("foo", CodecValue::UInt(u)) => foo = u32::try_from(u).ok(),
                    ("bar", CodecValue::Text(s)) => bar = Some(s),
                    ("baz", CodecValue::Data(d)) => baz = Some(d),
                    _ => return Err(mismatch()),
                }
            }
            match (foo, bar, baz) {
                (Some(foo), Some(bar), Some(baz)) => Ok(UnlikelyToDeserialize { foo, bar, baz }),
                _ => Err(mismatch()),
            }
        },
        _ => Err(mismatch()),
    }
}

fn things_that_probably_wont_deserialize(bytes: Vec<u8>) {
    match decode(&bytes).and_then(unlikely_from_value) {
        Ok(_) => { /* unlikely! */ },
        Err(SerializedBytesError::Deserialize(_)) => { /* likely! */ },
        _ => unreachable!(),
    }
}

#[test]
fn thing_that_wont_deserialize() {
    things_that_probably_wont_deserialize(vec![1, 2, 3]);
}

#[test]
/// fuzz-shaped inputs: decoding arbitrary bytes never panics, it reports
/// a deserialize error or an honest value
fn fuzzed_bytes_never_panic_test() {
    let cases: Vec<Vec<u8>> = vec![
        vec![],
        vec![0xc1],
        vec![0xd9],
        vec![0xd9, 200, 1, 2],
        vec![0x81, 0xa3, 0xff, 0xfe, 0xfd, 0xc0],
        vec![0x91],
        vec![0xca, 0, 0, 0x80, 0x3f],
        vec![255, 255, 255, 255, 255],
        vec![0xdd, 0xff, 0xff, 0xff, 0xff],
    ];
    for bytes in cases {
        things_that_probably_wont_deserialize(bytes);
    }
}

#[test]
fn default_test() {
    assert_eq!(&vec![192_u8], SerializedBytes::default().bytes());
}

#[test]
/// the unit value's canonical bytes are fixed, whatever the call order
fn unit_round_trip_test() {
    let a = SerializedBytes::from_unit();
    let b = SerializedBytes::default();
    assert_eq!(a, b);
    assert_eq!(a.bytes(), &vec![192_u8]);
    assert!(a.to_unit().is_ok());
    let not_unit = SerializedBytes::try_from_value(&CodecValue::UInt(7)).unwrap();
    assert!(not_unit.to_unit().is_err());
}

#[test]
/// negative and boolean values round-trip like the rest
fn scalar_round_trip_test() {
    for v in vec![
        CodecValue::SInt(-1),
        CodecValue::SInt(-9223372036854775808),
        CodecValue::UInt(18446744073709551615),
        CodecValue::Bool(true),
        CodecValue::Bool(false),
        CodecValue::Text(String::new()),
        CodecValue::Data(vec![]),
        CodecValue::List(vec![]),
        CodecValue::Record(vec![]),
    ] {
        let r = round_trip_value(&v).unwrap();
        assert_eq!(r, v);
    }
}

#[test]
/// optional values at the byte layer: absence is the nil bytes, presence is
/// the inner encoding unmodified
fn option_value_test() {
    let sb = SerializedBytes::try_from_value(&option_to_value(None)).unwrap();
    assert_eq!(sb.bytes(), &vec![192_u8]);
    assert_eq!(value_to_option(sb.try_to_value().unwrap()), None);

    let sb = SerializedBytes::try_from_value(&option_to_value(Some(CodecValue::UInt(7)))).unwrap();
    assert_eq!(sb.bytes(), &vec![7_u8]);
    assert_eq!(
        value_to_option(sb.try_to_value().unwrap()),
        Some(CodecValue::UInt(7))
    );
}

#[test]
/// outcome values at the byte layer: the tagged one-field record, both arms
/// distinguishable through a byte round trip
fn result_value_test() {
    let sb = SerializedBytes::try_from_value(&result_to_value(Ok(CodecValue::UInt(5)))).unwrap();
    assert_eq!(sb.bytes(), &vec![129, 162, 79, 107, 5]);
    assert_eq!(
        value_to_result(sb.try_to_value().unwrap()).unwrap(),
        Ok(CodecValue::UInt(5))
    );

    let sb = SerializedBytes::try_from_value(&result_to_value(Err(CodecValue::Text(
        "foo".to_string(),
    ))))
    .unwrap();
    assert_eq!(
        value_to_result(sb.try_to_value().unwrap()).unwrap(),
        Err(CodecValue::Text("foo".to_string()))
    );

    assert!(value_to_result(CodecValue::UInt(1)).is_err());
    assert!(value_to_result(CodecValue::Record(vec![(
        "Maybe".to_string(),
        CodecValue::Nil
    )]))
    .is_err());
}

#[test]
/// the by-reference copy carries the same canonical bytes
fn duplicate_test() {
    let sb = SerializedBytes::try_from_value(&CodecValue::UInt(9)).unwrap();
    let copy = sb.duplicate();
    assert_eq!(sb, copy);
    assert_eq!(copy.bytes(), &vec![9_u8]);
}

#[test]
/// re-encoding a decoded canonical encoding reproduces the same bytes
fn reencode_bytes_test() {
    let sb = SerializedBytes::try_from_value(&foo_value(&fixture_foo())).unwrap();
    let again = reencode_bytes(sb.bytes()).unwrap();
    assert_eq!(&again, sb.bytes());
}

#[test]
/// the diagnostic rendering shows JSON-like text, or a placeholder
fn render_diagnostic_test() {
    let sb = SerializedBytes::try_from_value(&foo_value(&fixture_foo())).unwrap();
    assert_eq!(sb.render(), "{\"inner\":\"foo\"}".to_string());

    let broken: SerializedBytes = UnsafeBytes::from(vec![0xc1]).into();
    assert_eq!(broken.render(), "<invalid msgpack>".to_string());
}

#[test]
/// a serialized-bytes error carries its message through
fn serialized_bytes_error_message_test() {
    match decode(&vec![0xd9, 200, 1, 2]) {
        Err(e) => {
            assert!(matches!(e, SerializedBytesError::Deserialize(_)));
            assert!(!e.message().is_empty());
            let text: String = e.into();
            assert!(!text.is_empty());
        },
        Ok(_) => panic!("a truncated string is never valid messagepack"),
    }
}
