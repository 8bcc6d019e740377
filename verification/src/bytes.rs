//! The canonical byte container and its codec adapter.
//!
//! `SerializedBytes` holds the compact binary (messagepack) encoding of a
//! `CodecValue`.  The two operations `encode` and `decode` are the only
//! places where the wire format's byte grammar is touched, and both delegate
//! it to the messagepack library underneath.

use vstd::prelude::*;
use rmpv::Value as MpValue;
use crate::value::{
    lemma_model_entries_index, model_entries, nesting, nesting_limit, CodecValue, SpecValue,
};

verus! {

/// Why a byte-level conversion failed: either the codec refused the value on
/// the way in, or the bytes did not restore to the requested shape.
#[derive(Clone, Debug, PartialEq, Eq, Hash, PartialOrd, Ord)]
pub enum SerializedBytesError {
    /// failed to move a value to bytes
    Serialize(String),
    /// failed to restore a value from bytes
    Deserialize(String),
}

impl SerializedBytesError {
    /// The diagnostic text the error carries.
    pub fn message(&self) -> (r: &String)
        ensures
            self matches SerializedBytesError::Serialize(m) ==> r@ == m@,
            self matches SerializedBytesError::Deserialize(m) ==> r@ == m@,
    {
        match self {
            SerializedBytesError::Serialize(m) => m,
            SerializedBytesError::Deserialize(m) => m,
        }
    }
}

/// The diagnostic text of a byte-level error, whichever side it came from.
pub open spec fn spec_sb_error_text(e: SerializedBytesError) -> Seq<char> {
    match e {
        SerializedBytesError::Serialize(m) => m@,
        SerializedBytesError::Deserialize(m) => m@,
    }
}

impl From<SerializedBytesError> for String {
    fn from(e: SerializedBytesError) -> (r: String)
        ensures
            r@ == spec_sb_error_text(e),
    {
        match e {
            SerializedBytesError::Serialize(m) => m,
            SerializedBytesError::Deserialize(m) => m,
        }
    }
}

impl vstd::std_specs::convert::FromSpecImpl<SerializedBytesError> for String {
    open spec fn obeys_from_spec() -> bool {
        false
    }

    closed spec fn from_spec(e: SerializedBytesError) -> String {
        choose|s: String| s@ == spec_sb_error_text(e)
    }
}

/// The messagepack value type of the codec library, carried opaquely through
/// the conversion helpers below.
#[verifier::external_type_specification]
#[verifier::external_body]
pub struct ExRmpvValue(MpValue);

/// A decode failure with the given wording.
fn de_err(m: &str) -> (r: SerializedBytesError)
    ensures
        r is Deserialize,
{
    SerializedBytesError::Deserialize(m.to_owned())
}

/// The messagepack encoding of a well-formed value: what the codec writes
/// for it.  Stated only through the contracts of `encode` and `decode`.
pub uninterp spec fn msgpack_of(v: SpecValue) -> Seq<u8>;

/// The encoding half's tree conversion: builds the messagepack value that
/// mirrors `v`, one arm per variant, moving fields only.  Only `encode`
/// calls it, and `encode`'s contract is what is relied on.
#[verifier::external_body]
fn to_mp(v: &CodecValue) -> MpValue {
    match v {
        CodecValue::Nil => MpValue::Nil,
        CodecValue::Bool(b) => MpValue::Boolean(*b),
        CodecValue::UInt(u) => MpValue::from(*u),
        CodecValue::SInt(i) => MpValue::from(*i),
        CodecValue::Text(s) => MpValue::from(s.as_str()),
        CodecValue::Data(d) => MpValue::Binary(d.clone()),
        CodecValue::List(xs) => MpValue::Array(xs.iter().map(to_mp).collect()),
        CodecValue::Record(es) => MpValue::Map(es.iter().map(to_mp_entry).collect()),
    }
}

/// One record field of the encoding half: the name becomes a string key.
#[verifier::external_body]
fn to_mp_entry(e: &(String, CodecValue)) -> (MpValue, MpValue) {
    (MpValue::from(e.0.as_str()), to_mp(&e.1))
}

/// The decoding half's tree conversion: rebuilds the library's value, one arm
/// per variant of the codec's value type.  Floating-point and extension
/// values have no canonical counterpart here and are reported as a decode
/// failure.  Only `decode` calls it, and `decode`'s contract is what is
/// relied on.
#[verifier::external_body]
fn from_mp(v: MpValue) -> Result<CodecValue, SerializedBytesError> {
    match v {
        MpValue::Nil => Ok(CodecValue::Nil),
        MpValue::Boolean(b) => Ok(CodecValue::Bool(b)),
        MpValue::Integer(n) if n.is_u64() => Ok(CodecValue::UInt(n.as_u64().unwrap())),
        MpValue::Integer(n) => Ok(CodecValue::SInt(n.as_i64().unwrap())),
        MpValue::Binary(d) => Ok(CodecValue::Data(d)),
        MpValue::Array(xs) => from_mp_list(xs),
        MpValue::Map(es) => from_mp_record(es),
        other => from_mp_text(other),
    }
}

/// The text case of the decoding half: the bytes must be UTF-8.
#[verifier::external_body]
fn from_mp_text(v: MpValue) -> Result<CodecValue, SerializedBytesError> {
    match v {
        MpValue::String(s) => match s.into_str() {
            Some(t) => Ok(CodecValue::Text(t)),
            None => Err(de_err("string is not utf-8 text")),
        },
        _ => Err(de_err("value outside the canonical model")),
    }
}

/// The list case of the decoding half: every element converts.
#[verifier::external_body]
fn from_mp_list(xs: Vec<MpValue>) -> Result<CodecValue, SerializedBytesError> {
    Ok(CodecValue::List(xs.into_iter().map(from_mp).collect::<Result<Vec<_>, _>>()?))
}

/// The record case of the decoding half: every field converts.
#[verifier::external_body]
fn from_mp_record(es: Vec<(MpValue, MpValue)>) -> Result<CodecValue, SerializedBytesError> {
    Ok(CodecValue::Record(es.into_iter().map(from_mp_entry).collect::<Result<Vec<_>, _>>()?))
}

/// One record field of the decoding half: the key must be a string.
#[verifier::external_body]
fn from_mp_entry(e: (MpValue, MpValue)) -> Result<(String, CodecValue), SerializedBytesError> {
    match e.0 {
        MpValue::String(k) => match k.into_str() {
            Some(kt) => Ok((kt, from_mp(e.1)?)),
            None => Err(de_err("field name is not utf-8 text")),
        },
        _ => Err(de_err("field name is not text")),
    }
}

/// Encode a value as canonical messagepack bytes.
///
/// Relies on `rmpv::encode::write_value` over the messagepack value tree
/// built by `to_mp`: it writes the most compact encoding of the value
/// (records as field-name-keyed maps, `nil` for the unit value, one byte
/// `0xc0`), it succeeds for every well-formed value since writing into a
/// byte vector cannot fail, and the bytes depend on the value alone.  The
/// nesting bound keeps the call within the codec's recursion limits; one
/// level of headroom past the guaranteed-decode limit lets everything the
/// reader hands back be re-encoded.
#[verifier::external_body]
pub fn encode(v: &CodecValue) -> (r: Result<Vec<u8>, SerializedBytesError>)
    requires
        nesting(v@) <= nesting_limit() + 1,
    ensures
        r matches Ok(b) ==> b@ == msgpack_of(v@),
        v@.wf() ==> r is Ok,
        v@ is Nil ==> r is Ok,
        r matches Ok(b) ==> (v@ is Nil ==> b@ == seq![192u8]),
        r matches Err(e) ==> e is Serialize,
{
    let mut buf: Vec<u8> = Vec::new();
    match rmpv::encode::write_value(&mut buf, &to_mp(v)) {
        Ok(()) => Ok(buf),
        Err(e) => Err(SerializedBytesError::Serialize(e.to_string())),
    }
}

/// Decode canonical messagepack bytes back into a value.
///
/// Relies on `rmpv::decode::read_value_with_max_depth` reading one
/// messagepack value, converted back by `from_mp`.  The reader spends two
/// units of its budget per container level and up to three on the deepest
/// leaf, so a budget of `2 * 1024 + 3` guarantees that every well-formed
/// value nesting at most `nesting_limit()` levels reads back; conversely an
/// accepted value spent two units per level, so what is read nests at most
/// one level beyond the limit.  Integers come back normalized and every
/// length fits the wire format's size fields, so what is read is well
/// formed; any failure is returned as a `Deserialize` error, never a panic.
#[verifier::external_body]
pub fn decode(bytes: &[u8]) -> (r: Result<CodecValue, SerializedBytesError>)
    ensures
        (exists|sv: SpecValue|
            sv.wf() && nesting(sv) <= nesting_limit() && msgpack_of(sv) == bytes@) ==> r is Ok,
        r matches Ok(w) ==> (forall|sv: SpecValue|
            sv.wf() && msgpack_of(sv) == bytes@ ==> w@ == sv),
        bytes@ == seq![192u8] ==> r is Ok,
        r matches Ok(w) ==> (bytes@ == seq![192u8] ==> w@ is Nil),
        r matches Ok(w) ==> w@.wf() && nesting(w@) <= nesting_limit() + 1,
        r matches Err(e) ==> e is Deserialize,
{
    let mut rd = bytes;
    match rmpv::decode::read_value_with_max_depth(&mut rd, 2 * 1024 + 3) {
        Ok(v) => from_mp(v),
        Err(e) => Err(SerializedBytesError::Deserialize(e.to_string())),
    }
}

/// Rendering of messagepack bytes as diagnostic JSON-like text.
pub uninterp spec fn diagnostic_of(bytes: Seq<u8>) -> Seq<char>;

/// Whether the bytes transcode from messagepack to JSON text.
pub uninterp spec fn transcodable(bytes: Seq<u8>) -> bool;

/// Relies on `serde_transcode::transcode` from an `rmp_serde` deserializer
/// into a `serde_json` serializer: renders messagepack bytes as JSON text
/// for diagnostics, yields exactly the fixed placeholder when the bytes do
/// not transcode, and both the verdict and the text depend on the bytes
/// alone.
#[verifier::external_body]
fn render_json_diagnostic(bytes: &Vec<u8>) -> (r: String)
    ensures
        r@ == diagnostic_of(bytes@),
        !transcodable(bytes@) ==> r@ == "<invalid msgpack>"@,
{
    let mut de = rmp_serde::Deserializer::new(bytes.as_slice());
    let mut ser = serde_json::Serializer::new(Vec::new());
    if serde_transcode::transcode(&mut de, &mut ser).is_err() {
        return "<invalid msgpack>".to_string();
    }
    match String::from_utf8(ser.into_inner()) {
        Ok(s) => s,
        Err(_) => "<invalid msgpack>".to_string(),
    }
}

/// Bytes that are *not* known to be a canonical encoding.  This is the
/// escape hatch through which conversion implementations may wrap bytes of
/// their own making; code outside them should never route arbitrary bytes
/// into `SerializedBytes` this way.
#[derive(Clone, Debug)]
pub struct UnsafeBytes(Vec<u8>);

impl View for UnsafeBytes {
    type V = Seq<u8>;

    closed spec fn view(&self) -> Seq<u8> {
        self.0@
    }
}

/// A canonical byte representation of a value.
///
/// An instance either came out of `encode` (through `try_from_value`) or
/// wrapped bytes already known to be canonical (through `UnsafeBytes`).
/// Equality, ordering and hashing are byte-wise.
#[derive(Clone, Debug, PartialEq, Eq, Hash, PartialOrd, Ord)]
pub struct SerializedBytes(Vec<u8>);

impl View for SerializedBytes {
    type V = Seq<u8>;

    closed spec fn view(&self) -> Seq<u8> {
        self.0@
    }
}

impl From<Vec<u8>> for UnsafeBytes {
    fn from(v: Vec<u8>) -> (r: UnsafeBytes)
        ensures
            r@ == v@,
    {
        UnsafeBytes(v)
    }
}

impl vstd::std_specs::convert::FromSpecImpl<Vec<u8>> for UnsafeBytes {
    closed spec fn obeys_from_spec() -> bool {
        true
    }

    closed spec fn from_spec(v: Vec<u8>) -> UnsafeBytes {
        UnsafeBytes(v)
    }
}

impl From<UnsafeBytes> for Vec<u8> {
    fn from(u: UnsafeBytes) -> (r: Vec<u8>)
        ensures
            r@ == u@,
    {
        u.0
    }
}

impl vstd::std_specs::convert::FromSpecImpl<UnsafeBytes> for Vec<u8> {
    closed spec fn obeys_from_spec() -> bool {
        true
    }

    closed spec fn from_spec(u: UnsafeBytes) -> Vec<u8> {
        u.0
    }
}

impl From<UnsafeBytes> for SerializedBytes {
    fn from(u: UnsafeBytes) -> (r: SerializedBytes)
        ensures
            r@ == u@,
    {
        SerializedBytes(u.0)
    }
}

impl vstd::std_specs::convert::FromSpecImpl<UnsafeBytes> for SerializedBytes {
    closed spec fn obeys_from_spec() -> bool {
        true
    }

    closed spec fn from_spec(u: UnsafeBytes) -> SerializedBytes {
        SerializedBytes(u.0)
    }
}

impl From<SerializedBytes> for UnsafeBytes {
    fn from(sb: SerializedBytes) -> (r: UnsafeBytes)
        ensures
            r@ == sb@,
    {
        UnsafeBytes(sb.0)
    }
}

impl vstd::std_specs::convert::FromSpecImpl<SerializedBytes> for UnsafeBytes {
    closed spec fn obeys_from_spec() -> bool {
        true
    }

    closed spec fn from_spec(sb: SerializedBytes) -> UnsafeBytes {
        UnsafeBytes(sb.0)
    }
}

impl SerializedBytes {
    /// A read-only view of the canonical bytes.
    pub fn bytes(&self) -> (r: &Vec<u8>)
        ensures
            r@ == self@,
    {
        &self.0
    }

    /// Encode a value into its canonical byte representation.
    pub fn try_from_value(v: &CodecValue) -> (r: Result<SerializedBytes, SerializedBytesError>)
        requires
            nesting(v@) <= nesting_limit() + 1,
        ensures
            r matches Ok(sb) ==> sb@ == msgpack_of(v@),
            v@.wf() ==> r is Ok,
            r matches Err(e) ==> e is Serialize,
    {
        match encode(v) {
            Ok(b) => Ok(SerializedBytes(b)),
            Err(e) => Err(e),
        }
    }

    /// Restore the value that these canonical bytes encode.
    pub fn try_to_value(&self) -> (r: Result<CodecValue, SerializedBytesError>)
        ensures
            (exists|sv: SpecValue|
                sv.wf() && nesting(sv) <= nesting_limit() && msgpack_of(sv) == self@)
                ==> r is Ok,
            r matches Ok(w) ==> (forall|sv: SpecValue|
                sv.wf() && msgpack_of(sv) == self@ ==> w@ == sv),
            r matches Ok(w) ==> w@.wf() && nesting(w@) <= nesting_limit() + 1,
            r matches Err(e) ==> e is Deserialize,
    {
        decode(self.0.as_slice())
    }

    /// The canonical bytes of the unit value: the single `nil` byte.
    pub fn from_unit() -> (r: SerializedBytes)
        ensures
            r@ == seq![192u8],
    {
        match encode(&CodecValue::Nil) {
            Ok(b) => SerializedBytes(b),
            Err(_) => SerializedBytes(vec![192u8]),
        }
    }

    /// Restore the unit value; the canonical `nil` byte always succeeds,
    /// and the encoding of any other well-formed value is rejected.
    pub fn to_unit(&self) -> (r: Result<(), SerializedBytesError>)
        ensures
            self@ == seq![192u8] ==> r is Ok,
            r is Ok ==> (forall|sv: SpecValue|
                sv.wf() && msgpack_of(sv) == self@ ==> sv is Nil),
            (exists|sv: SpecValue|
                sv.wf() && nesting(sv) <= nesting_limit() && msgpack_of(sv) == self@
                    && !(sv is Nil)) ==> r is Err,
            r matches Err(e) ==> e is Deserialize,
    {
        match decode(self.0.as_slice()) {
            Ok(CodecValue::Nil) => Ok(()),
            Ok(_) => Err(SerializedBytesError::Deserialize(
                "expected the nil encoding".to_string(),
            )),
            Err(e) => Err(e),
        }
    }

    /// A by-reference copy with the same canonical bytes; the original
    /// conversion protocol offered this as its identity conversion.
    pub fn duplicate(&self) -> (r: SerializedBytes)
        ensures
            r@ == self@,
    {
        SerializedBytes(vstd::slice::slice_to_vec(self.0.as_slice()))
    }

    /// Best-effort rendering of the canonical bytes as JSON-like text, for
    /// diagnostics only; bytes that do not transcode give exactly the fixed
    /// placeholder instead of a failure.
    pub fn render(&self) -> (r: String)
        ensures
            r@ == diagnostic_of(self@),
            !transcodable(self@) ==> r@ == "<invalid msgpack>"@,
    {
        render_json_diagnostic(&self.0)
    }
}

impl Default for SerializedBytes {
    /// The canonical encoding of the unit value, one `nil` byte.
    fn default() -> (r: SerializedBytes)
        ensures
            r@ == seq![192u8],
    {
        SerializedBytes::from_unit()
    }
}

/// How an optional value crosses the byte layer: absence is the nil value,
/// presence is the inner value unmodified (no extra wrapping), so an inner
/// nil is indistinguishable from absence by design.
pub open spec fn spec_option_value(o: Option<SpecValue>) -> SpecValue {
    match o {
        None => SpecValue::Nil,
        Some(v) => v,
    }
}

/// Move an optional value into the data model: absence becomes nil.
pub fn option_to_value(o: Option<CodecValue>) -> (r: CodecValue)
    ensures
        r@ == spec_option_value(match o {
            None => None,
            Some(v) => Some(v@),
        }),
{
    match o {
        None => CodecValue::Nil,
        Some(v) => v,
    }
}

/// Read an optional value back out of the data model: nil means absence.
pub fn value_to_option(v: CodecValue) -> (r: Option<CodecValue>)
    ensures
        v@ is Nil <==> r is None,
        r matches Some(w) ==> w@ == v@,
{
    match v {
        CodecValue::Nil => None,
        other => Some(other),
    }
}

/// Null law at the byte layer: absence always encodes to the nil bytes,
/// whatever the inner value would have been; presence round-trips unless the
/// inner value is itself nil, which collapses into absence by design.
pub fn option_value_round_trip(o: Option<CodecValue>) -> (r: Option<CodecValue>)
    ensures
        o is None ==> r is None,
        o matches Some(v) ==> (if v@ is Nil {
            r is None
        } else {
            r matches Some(w) && w@ == v@
        }),
{
    value_to_option(option_to_value(o))
}

/// How an outcome value crosses the byte layer: a record with exactly one
/// field, named after the populated arm, holding that arm's value.
pub open spec fn spec_result_value(res: Result<SpecValue, SpecValue>) -> SpecValue {
    match res {
        Ok(v) => SpecValue::Record(seq![("Ok"@, v)]),
        Err(v) => SpecValue::Record(seq![("Err"@, v)]),
    }
}

/// Which outcome a data-model value restores to: the one-field records
/// tagged `Ok` or `Err`, and nothing else.
pub open spec fn spec_value_result(v: SpecValue) -> Option<Result<SpecValue, SpecValue>> {
    match v {
        SpecValue::Record(es) => if es.len() == 1 && es[0].0 == "Ok"@ {
            Some(Ok(es[0].1))
        } else if es.len() == 1 && es[0].0 == "Err"@ {
            Some(Err(es[0].1))
        } else {
            None
        },
        _ => None,
    }
}

/// Move an outcome value into the data model as the tagged one-field record.
pub fn result_to_value(res: Result<CodecValue, CodecValue>) -> (r: CodecValue)
    ensures
        r@ == spec_result_value(match res {
            Ok(v) => Ok(v@),
            Err(v) => Err(v@),
        }),
{
    match res {
        Ok(v) => tagged_record("Ok", v),
        Err(v) => tagged_record("Err", v),
    }
}

/// The record with a single field of the given name holding the value.
fn tagged_record(name: &str, v: CodecValue) -> (r: CodecValue)
    ensures
        r@ == SpecValue::Record(seq![(name@, v@)]),
{
    let ghost vm = v@;
    let key = name.to_owned();
    let ghost kv = key@;
    let mut fields: Vec<(String, CodecValue)> = Vec::new();
    fields.push((key, v));
    let ghost fs = fields@;
    let r = CodecValue::Record(fields);
    proof {
        assert(fs.len() == 1);
        assert(fs[0].0@ == kv && fs[0].1@ == vm);
        lemma_model_entries_index(fs, 0);
        assert(model_entries(fs) =~= seq![(kv, vm)]);
        assert(r@ == SpecValue::Record(model_entries(fs)));
    }
    r
}

/// Read an outcome value back out of the data model, reporting which arm was
/// populated; anything that is not the tagged one-field record is rejected.
pub fn value_to_result(v: CodecValue) -> (r: Result<
    Result<CodecValue, CodecValue>,
    SerializedBytesError,
>)
    ensures
        r is Ok <==> spec_value_result(v@) is Some,
        r matches Ok(res) ==> (match res {
            Ok(w) => spec_value_result(v@) == Some(Ok::<SpecValue, SpecValue>(w@)),
            Err(w) => spec_value_result(v@) == Some(Err::<SpecValue, SpecValue>(w@)),
        }),
        r matches Err(e) ==> e is Deserialize,
{
    let ghost m = v@;
    match v {
        CodecValue::Record(mut fields) => {
            let ghost fs = fields@;
            proof {
                crate::value::lemma_model_entries_len(fs);
                assert(m == SpecValue::Record(model_entries(fs)));
            }
            if fields.len() != 1 {
                return Err(de_err("expected a record with one Ok or Err field"));
            }
            proof {
                lemma_model_entries_index(fs, 0);
            }
            let entry = match fields.pop() {
                Some(entry) => entry,
                None => {
                    return Err(de_err("expected a record with one Ok or Err field"));
                },
            };
            let (name, inner) = entry;
            let ghost nm = name@;
            let ghost im = inner@;
            proof {
                assert(fs[0].0@ == nm && fs[0].1@ == im);
                assert(m matches SpecValue::Record(es) && es.len() == 1 && es[0] == (nm, im));
            }
            if crate::text::str_eq(name.as_str(), "Ok") {
                Ok(Ok(inner))
            } else if crate::text::str_eq(name.as_str(), "Err") {
                Ok(Err(inner))
            } else {
                Err(de_err("expected a record with one Ok or Err field"))
            }
        },
        _ => Err(de_err("expected a record with one Ok or Err field")),
    }
}

/// Outcome law at the byte layer: the two tagged record forms are
/// distinguishable, and reading one back recovers exactly the populated arm
/// and the inner value.
pub proof fn lemma_result_value_round_trip(res: Result<SpecValue, SpecValue>)
    ensures
        spec_value_result(spec_result_value(res)) == Some(res),
{
    reveal_strlit("Ok");
    reveal_strlit("Err");
    assert("Ok"@.len() == 2);
    assert("Err"@.len() == 3);
    match res {
        Ok(v) => {
        },
        Err(v) => {
            assert("Err"@ != "Ok"@);
        },
    }
}

/// Round-trip law: decoding what `encode` produced for a well-formed value
/// returns that value.
pub fn round_trip_value(v: &CodecValue) -> (r: Result<CodecValue, SerializedBytesError>)
    requires
        nesting(v@) <= nesting_limit(),
    ensures
        v@.wf() ==> (r matches Ok(w) && w@ == v@),
{
    match encode(v) {
        Ok(b) => decode(b.as_slice()),
        Err(e) => Err(e),
    }
}

/// Round-trip law, the other way: re-encoding what was decoded from a
/// canonical encoding reproduces the same bytes.
pub fn reencode_bytes(bytes: &Vec<u8>) -> (r: Result<Vec<u8>, SerializedBytesError>)
    ensures
        (exists|sv: SpecValue|
            sv.wf() && nesting(sv) <= nesting_limit() && msgpack_of(sv) == bytes@)
            ==> (r matches Ok(b2) && b2@ == bytes@),
{
    match decode(bytes.as_slice()) {
        Ok(w) => encode(&w),
        Err(e) => Err(e),
    }
}

} // verus!
