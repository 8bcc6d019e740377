//! The textual canonical string and its conversion protocol.
//!
//! A `JsonString` wraps JSON text.  Checked construction (`from_json`,
//! `from_bytes`) cleans the incoming text and verifies that it parses as
//! JSON; the unchecked constructor exists for text the library itself wrote.
//! Optional and outcome values move through the designated `null` text and
//! the one-field-object framing.

use vstd::prelude::*;
use vstd::utf8::{encode_utf8, decode_utf8, valid_utf8};
use crate::error::JsonError;
use crate::text::{
    cleaned, clean_text, trim_spec, trim_ws, ws_pred, quoted, json_quote, parse_quoted_doc,
    json_unquote, tagged_doc, make_tagged, parse_tagged_doc, parse_tagged, dec_digits,
    valid_unsigned_doc, dec_val, parse_dec_u32, parse_dec_u64, str_eq, u64_to_dec,
    u128_to_dec, push_char,
};

verus! {

broadcast use
    vstd::utf8::encode_utf8_decode_utf8,
    vstd::utf8::encode_utf8_valid_utf8,
;

/// Whether the text is syntactically valid JSON, as the JSON parser
/// underneath judges it.
pub uninterp spec fn json_valid(s: Seq<char>) -> bool;

/// The parser's complaint about a piece of text that is not valid JSON.
pub uninterp spec fn json_err_of(s: Seq<char>) -> Seq<char>;

/// Relies on `serde_json::from_str` over `serde::de::IgnoredAny`: it checks
/// whether the text is syntactically valid JSON without building a tree, and
/// the verdict and the complaint depend on the text alone.
#[verifier::external_body]
fn json_syntax_check(s: &str) -> (r: Option<String>)
    ensures
        r is None <==> json_valid(s@),
        r matches Some(m) ==> m@ == json_err_of(s@),
{
    match serde_json::from_str::<serde::de::IgnoredAny>(s) {
        Ok(_) => None,
        Err(e) => Some(e.to_string()),
    }
}

/// Relies on `String::from_utf8`: it succeeds exactly on valid UTF-8 and
/// decodes it.
#[verifier::external_body]
fn string_from_utf8(bytes: Vec<u8>) -> (r: Option<String>)
    ensures
        r is Some <==> valid_utf8(bytes@),
        r matches Some(s) ==> s@ == decode_utf8(bytes@),
{
    String::from_utf8(bytes).ok()
}

// ---------------------------------------------------------------------------
// rendering a byte vector for diagnostics
// ---------------------------------------------------------------------------

/// The elements of a byte vector written out in decimal, comma-separated.
pub open spec fn debug_items(b: Seq<u8>) -> Seq<char>
    decreases b.len(),
{
    if b.len() == 0 {
        Seq::empty()
    } else if b.len() == 1 {
        dec_digits(b[0] as nat)
    } else {
        dec_digits(b[0] as nat) + ", "@ + debug_items(b.drop_first())
    }
}

/// A byte vector written the way diagnostics show it: `[1, 2, 3]`.
pub open spec fn bytes_debug(b: Seq<u8>) -> Seq<char> {
    seq!['['] + debug_items(b) + seq![']']
}

fn push_debug_items(b: &Vec<u8>, i: usize, out: &mut String)
    requires
        i <= b@.len(),
    ensures
        final(out)@ == old(out)@ + debug_items(b@.skip(i as int)),
    decreases b@.len() - i,
{
    if i == b.len() {
        proof {
            assert(b@.skip(i as int) =~= Seq::<u8>::empty());
            assert(old(out)@ + debug_items(b@.skip(i as int)) =~= old(out)@);
        }
        return;
    }
    let d = u64_to_dec(b[i] as u64);
    out.append(d.as_str());
    if i + 1 < b.len() {
        out.append(", ");
    }
    push_debug_items(b, i + 1, out);
    proof {
        assert(b@.skip(i as int)[0] == b@[i as int]);
        assert(b@.skip(i as int).drop_first() =~= b@.skip(i as int + 1));
        assert(final(out)@ =~= old(out)@ + debug_items(b@.skip(i as int)));
    }
}

fn render_bytes_debug(b: &Vec<u8>) -> (r: String)
    ensures
        r@ == bytes_debug(b@),
{
    let mut out = String::new();
    push_char(&mut out, '[');
    push_debug_items(b, 0, &mut out);
    push_char(&mut out, ']');
    proof {
        assert(b@.skip(0) =~= b@);
        assert(out@ =~= bytes_debug(b@));
    }
    out
}

// ---------------------------------------------------------------------------
// JsonString
// ---------------------------------------------------------------------------

/// Canonical JSON text.
///
/// Wraps a string of JSON-serialized data so the type system can track what
/// is already serialized and what is not; this guards against double
/// serialization and against forgetting to serialize.  Move values in and
/// out through the conversion functions of this module, never by serializing
/// a `JsonString` itself.
#[derive(Debug, Clone, PartialEq, Eq, Hash, Default)]
pub struct JsonString(String);

impl View for JsonString {
    type V = Seq<char>;

    closed spec fn view(&self) -> Seq<char> {
        self.0@
    }
}

/// The message `from_json` reports for text that is not valid JSON.
pub open spec fn invalid_json_msg(t: Seq<char>) -> Seq<char> {
    "Attempted to create JsonString from invalid JSON. String: "@ + t + ". Error: "@
        + json_err_of(t) + "."@
}

/// The message `from_bytes` reports for bytes that are not UTF-8.
pub open spec fn invalid_utf8_msg(b: Seq<u8>) -> Seq<char> {
    "Invalid UTF8 bytes found in JsonString "@ + bytes_debug(b)
}

impl JsonString {
    /// The null JSON value; the designated representation of absence.
    pub fn null() -> (r: JsonString)
        ensures
            r@ == "null"@,
    {
        JsonString(String::from_str("null"))
    }

    /// The empty JSON object.
    pub fn empty_object() -> (r: JsonString)
        ensures
            r@ == "{}"@,
    {
        JsonString(String::from_str("{}"))
    }

    /// Whether this is the null JSON value.
    pub fn is_null(&self) -> (r: bool)
        ensures
            r == (self@ == "null"@),
    {
        let n = String::from_str("null");
        self.0 == n
    }

    /// Wrap text as JSON without checking it.  Use `from_json` wherever
    /// possible: checking validity up front saves debugging time tracking
    /// down serialization mistakes.  This path is for text the library's own
    /// conversion code produced.
    pub fn from_json_unchecked(s: &str) -> (r: JsonString)
        ensures
            r@ == s@,
    {
        JsonString(s.to_owned())
    }

    /// Accept stringified JSON.  The text is first cleaned (whitespace
    /// trimmed from both ends, then NUL characters trimmed from both ends)
    /// and must then parse as JSON; otherwise a serialization error names
    /// the cleaned text and the parser's complaint.
    pub fn from_json(s: &str) -> (r: Result<JsonString, JsonError>)
        ensures
            r matches Ok(js) ==> json_valid(cleaned(s@)) && js@ == cleaned(s@),
            json_valid(cleaned(s@)) ==> r is Ok,
            r matches Err(e) ==> !json_valid(cleaned(s@))
                && (e matches JsonError::SerializationError(m)
                    && m@ == invalid_json_msg(cleaned(s@))),
    {
        let c = clean_text(s);
        match json_syntax_check(c) {
            None => Ok(JsonString::from_json_unchecked(c)),
            Some(complaint) => {
                let mut m = String::from_str(
                    "Attempted to create JsonString from invalid JSON. String: ",
                );
                m.append(c);
                m.append(". Error: ");
                m.append(complaint.as_str());
                m.append(".");
                proof {
                    assert(m@ =~= invalid_json_msg(cleaned(s@)));
                }
                Err(JsonError::SerializationError(m))
            },
        }
    }

    /// The UTF-8 bytes of the JSON text.
    pub fn to_bytes(&self) -> (r: Vec<u8>)
        ensures
            r@ == encode_utf8(self@),
    {
        self.0.as_str().as_bytes_vec()
    }

    /// Accept stringified JSON handed over as bytes: the bytes must decode
    /// as UTF-8 and the text must then be accepted by `from_json`.
    pub fn from_bytes(bytes: Vec<u8>) -> (r: Result<JsonString, JsonError>)
        ensures
            r matches Ok(js) ==> valid_utf8(bytes@)
                && json_valid(cleaned(decode_utf8(bytes@)))
                && js@ == cleaned(decode_utf8(bytes@)),
            valid_utf8(bytes@) && json_valid(cleaned(decode_utf8(bytes@))) ==> r is Ok,
            r matches Err(e) ==> e is SerializationError,
            !valid_utf8(bytes@) ==> (r matches Err(e)
                && (e matches JsonError::SerializationError(m)
                    && m@ == invalid_utf8_msg(bytes@))),
            valid_utf8(bytes@) && !json_valid(cleaned(decode_utf8(bytes@))) ==> (r matches Err(e)
                && (e matches JsonError::SerializationError(m)
                    && m@ == invalid_json_msg(cleaned(decode_utf8(bytes@))))),
    {
        let ghost bs = bytes@;
        let rendered = render_bytes_debug(&bytes);
        match string_from_utf8(bytes) {
            Some(text) => JsonString::from_json(text.as_str()),
            None => {
                let mut m = String::from_str("Invalid UTF8 bytes found in JsonString ");
                m.append(rendered.as_str());
                proof {
                    assert(m@ =~= invalid_utf8_msg(bs));
                }
                Err(JsonError::SerializationError(m))
            },
        }
    }

    /// The unit value's canonical text: the null literal, like an absent
    /// optional value.
    pub fn from_unit() -> (r: JsonString)
        ensures
            r@ == "null"@,
    {
        JsonString::null()
    }

    /// Restore the unit value; succeeds exactly on the null text, up to
    /// surrounding whitespace.
    pub fn to_unit(&self) -> (r: Result<(), JsonError>)
        ensures
            r is Ok <==> trim_spec(self@, ws_pred()) == "null"@,
            r matches Err(e) ==> e is SerializationError,
    {
        if str_eq(trim_ws(self.0.as_str()), "null") {
            Ok(())
        } else {
            Err(JsonError::SerializationError(String::from_str(
                "expected the null text",
            )))
        }
    }

    /// Checked construction from a string slice; the same as `from_json`.
    pub fn try_from(s: &str) -> (r: Result<JsonString, JsonError>)
        ensures
            r matches Ok(js) ==> json_valid(cleaned(s@)) && js@ == cleaned(s@),
            json_valid(cleaned(s@)) ==> r is Ok,
            r matches Err(e) ==> e is SerializationError,
    {
        JsonString::from_json(s)
    }

    /// The JSON text, as a string slice.
    pub fn as_str(&self) -> (r: &str)
        ensures
            r@ == self@,
    {
        self.0.as_str()
    }
}

/// Which unsigned number a piece of canonical text restores to: it must be
/// a JSON unsigned-integer document, up to surrounding whitespace.
pub open spec fn u64_model(s: Seq<char>) -> Option<u64> {
    let t = trim_spec(s, ws_pred());
    if valid_unsigned_doc(t) && dec_val(t) <= u64::MAX {
        Some(dec_val(t) as u64)
    } else {
        None
    }
}

/// Which boolean a piece of canonical text restores to.
pub open spec fn bool_model(s: Seq<char>) -> Option<bool> {
    let t = trim_spec(s, ws_pred());
    if t == "true"@ {
        Some(true)
    } else if t == "false"@ {
        Some(false)
    } else {
        None
    }
}

impl JsonString {
    /// Restore an unsigned 64-bit number from its canonical text.
    pub fn to_u64(&self) -> (r: Result<u64, JsonError>)
        ensures
            r is Ok <==> u64_model(self@) is Some,
            r matches Ok(u) ==> u64_model(self@) == Some(u),
            r matches Err(e) ==> e is SerializationError,
    {
        match parse_dec_u64(trim_ws(self.0.as_str())) {
            Some(u) => Ok(u),
            None => Err(JsonError::SerializationError(String::from_str(
                "expected a JSON unsigned integer",
            ))),
        }
    }

    /// Restore an unsigned 32-bit number from its canonical text.
    pub fn to_u32(&self) -> (r: Result<u32, JsonError>)
        ensures
            r is Ok <==> (u64_model(self@) matches Some(u) && u <= u32::MAX),
            r matches Ok(u) ==> u64_model(self@) == Some(u as u64),
            r matches Err(e) ==> e is SerializationError,
    {
        match parse_dec_u32(trim_ws(self.0.as_str())) {
            Some(u) => Ok(u),
            None => Err(JsonError::SerializationError(String::from_str(
                "expected a JSON unsigned integer within 32 bits",
            ))),
        }
    }

    /// Restore a boolean from its canonical text.
    pub fn to_bool(&self) -> (r: Result<bool, JsonError>)
        ensures
            r is Ok <==> bool_model(self@) is Some,
            r matches Ok(b) ==> bool_model(self@) == Some(b),
            r matches Err(e) ==> e is SerializationError,
    {
        let t = trim_ws(self.0.as_str());
        if str_eq(t, "true") {
            Ok(true)
        } else if str_eq(t, "false") {
            Ok(false)
        } else {
            Err(JsonError::SerializationError(String::from_str(
                "expected a JSON boolean",
            )))
        }
    }
}

/// Validation is idempotent: text that is already in cleaned form and valid
/// is accepted by `from_json` unchanged.
pub fn revalidate(js: &JsonString) -> (r: Result<JsonString, JsonError>)
    ensures
        cleaned(js@) == js@ && json_valid(js@) ==> (r matches Ok(j2) && j2@ == js@),
{
    JsonString::from_json(js.as_str())
}

/// Validation through bytes is idempotent too: the canonical bytes of
/// already-cleaned valid text restore an equal value.
pub fn revalidate_bytes(js: &JsonString) -> (r: Result<JsonString, JsonError>)
    ensures
        cleaned(js@) == js@ && json_valid(js@) ==> (r matches Ok(j2) && j2@ == js@),
{
    JsonString::from_bytes(js.to_bytes())
}

impl From<JsonString> for String {
    fn from(js: JsonString) -> (r: String)
        ensures
            r@ == js@,
    {
        js.0
    }
}

impl vstd::std_specs::convert::FromSpecImpl<JsonString> for String {
    open spec fn obeys_from_spec() -> bool {
        false
    }

    closed spec fn from_spec(js: JsonString) -> String {
        choose|s: String| s@ == js@
    }
}

impl<'a> From<&'a JsonString> for String {
    fn from(js: &'a JsonString) -> (r: String)
        ensures
            r@ == js@,
    {
        js.0.clone()
    }
}

impl<'a> vstd::std_specs::convert::FromSpecImpl<&'a JsonString> for String {
    open spec fn obeys_from_spec() -> bool {
        false
    }

    closed spec fn from_spec(js: &'a JsonString) -> String {
        choose|s: String| s@ == js@
    }
}

// ---------------------------------------------------------------------------
// RawString: the raw/untyped text value
// ---------------------------------------------------------------------------

/// A value that carries its JSON representation directly: a bare text value
/// becomes a quoted JSON string instead of going through the generic
/// object path, which would double-serialize it.
#[derive(Debug, Clone, PartialEq, Eq, Hash, Default)]
pub struct RawString(String);

impl View for RawString {
    type V = Seq<char>;

    closed spec fn view(&self) -> Seq<char> {
        self.0@
    }
}

impl RawString {
    /// The bare text this value carries.
    pub fn as_str(&self) -> (r: &str)
        ensures
            r@ == self@,
    {
        self.0.as_str()
    }

    /// Read a bare text value back out of canonical JSON text, which must be
    /// exactly one string literal.
    pub fn try_from(j: JsonString) -> (r: Result<RawString, JsonError>)
        ensures
            r is Ok <==> parse_quoted_doc(j@) is Some,
            r matches Ok(rs) ==> parse_quoted_doc(j@) == Some(rs@),
            r matches Err(e) ==> e is SerializationError,
    {
        match json_unquote(j.as_str()) {
            Some(s) => Ok(RawString(s)),
            None => Err(JsonError::SerializationError(String::from_str(
                "expected a JSON string literal",
            ))),
        }
    }
}

impl<'a> From<&'a str> for RawString {
    fn from(s: &'a str) -> (r: RawString)
        ensures
            r@ == s@,
    {
        RawString(s.to_owned())
    }
}

impl<'a> vstd::std_specs::convert::FromSpecImpl<&'a str> for RawString {
    open spec fn obeys_from_spec() -> bool {
        false
    }

    closed spec fn from_spec(s: &'a str) -> RawString {
        choose|rs: RawString| rs@ == s@
    }
}

impl From<String> for RawString {
    fn from(s: String) -> (r: RawString)
        ensures
            r@ == s@,
    {
        RawString(s)
    }
}

impl vstd::std_specs::convert::FromSpecImpl<String> for RawString {
    open spec fn obeys_from_spec() -> bool {
        true
    }

    closed spec fn from_spec(s: String) -> RawString {
        RawString(s)
    }
}

impl From<RawString> for String {
    fn from(rs: RawString) -> (r: String)
        ensures
            r@ == rs@,
    {
        rs.0
    }
}

impl vstd::std_specs::convert::FromSpecImpl<RawString> for String {
    open spec fn obeys_from_spec() -> bool {
        false
    }

    closed spec fn from_spec(rs: RawString) -> String {
        choose|s: String| s@ == rs@
    }
}

impl From<RawString> for JsonString {
    /// A bare text value written as JSON: the quoted, escaped literal.
    fn from(rs: RawString) -> (r: JsonString)
        ensures
            r@ == quoted(rs@),
    {
        JsonString(json_quote(rs.0.as_str()))
    }
}

impl vstd::std_specs::convert::FromSpecImpl<RawString> for JsonString {
    open spec fn obeys_from_spec() -> bool {
        false
    }

    closed spec fn from_spec(rs: RawString) -> JsonString {
        choose|j: JsonString| j@ == quoted(rs@)
    }
}

/// Round-trip law for the raw/untyped text path: a bare text written as its
/// JSON string literal always reads back to the same text.
pub fn raw_round_trip(rs: &RawString) -> (r: Result<RawString, JsonError>)
    ensures
        r matches Ok(rs2) && rs2@ == rs@,
{
    let q = json_quote(rs.as_str());
    let j = JsonString::from_json_unchecked(q.as_str());
    proof {
        crate::text::lemma_quote_round_trip(rs@);
    }
    RawString::try_from(j)
}

// ---------------------------------------------------------------------------
// numbers and booleans as JSON text
// ---------------------------------------------------------------------------

/// The JSON text of a signed number.
pub open spec fn sint_digits(i: int) -> Seq<char> {
    if i < 0 {
        seq!['-'] + dec_digits((-i) as nat)
    } else {
        dec_digits(i as nat)
    }
}

impl From<u128> for JsonString {
    fn from(u: u128) -> (r: JsonString)
        ensures
            r@ == dec_digits(u as nat),
    {
        JsonString(u128_to_dec(u))
    }
}

impl vstd::std_specs::convert::FromSpecImpl<u128> for JsonString {
    open spec fn obeys_from_spec() -> bool {
        false
    }

    closed spec fn from_spec(u: u128) -> JsonString {
        choose|j: JsonString| j@ == dec_digits(u as nat)
    }
}

impl From<u64> for JsonString {
    fn from(u: u64) -> (r: JsonString)
        ensures
            r@ == dec_digits(u as nat),
    {
        JsonString(u64_to_dec(u))
    }
}

impl vstd::std_specs::convert::FromSpecImpl<u64> for JsonString {
    open spec fn obeys_from_spec() -> bool {
        false
    }

    closed spec fn from_spec(u: u64) -> JsonString {
        choose|j: JsonString| j@ == dec_digits(u as nat)
    }
}

impl From<u32> for JsonString {
    fn from(u: u32) -> (r: JsonString)
        ensures
            r@ == dec_digits(u as nat),
    {
        JsonString(u64_to_dec(u as u64))
    }
}

impl vstd::std_specs::convert::FromSpecImpl<u32> for JsonString {
    open spec fn obeys_from_spec() -> bool {
        false
    }

    closed spec fn from_spec(u: u32) -> JsonString {
        choose|j: JsonString| j@ == dec_digits(u as nat)
    }
}

impl From<i32> for JsonString {
    fn from(i: i32) -> (r: JsonString)
        ensures
            r@ == sint_digits(i as int),
    {
        if i < 0 {
            let mut s = String::from_str("-");
            let mag = u64_to_dec((-(i as i64)) as u64);
            s.append(mag.as_str());
            proof {
                reveal_strlit("-");
                assert(s@ =~= sint_digits(i as int));
            }
            JsonString(s)
        } else {
            JsonString(u64_to_dec(i as u64))
        }
    }
}

impl vstd::std_specs::convert::FromSpecImpl<i32> for JsonString {
    open spec fn obeys_from_spec() -> bool {
        false
    }

    closed spec fn from_spec(i: i32) -> JsonString {
        choose|j: JsonString| j@ == sint_digits(i as int)
    }
}

impl From<bool> for JsonString {
    fn from(b: bool) -> (r: JsonString)
        ensures
            b ==> r@ == "true"@,
            !b ==> r@ == "false"@,
    {
        if b {
            JsonString(String::from_str("true"))
        } else {
            JsonString(String::from_str("false"))
        }
    }
}

impl vstd::std_specs::convert::FromSpecImpl<bool> for JsonString {
    open spec fn obeys_from_spec() -> bool {
        false
    }

    closed spec fn from_spec(b: bool) -> JsonString {
        if b {
            choose|j: JsonString| #[trigger] (j@) == "true"@
        } else {
            choose|j: JsonString| #[trigger] (j@) == "false"@
        }
    }
}

// ---------------------------------------------------------------------------
// arrays of canonical text
// ---------------------------------------------------------------------------

/// Texts joined with commas.
pub open spec fn join_commas(items: Seq<Seq<char>>) -> Seq<char>
    decreases items.len(),
{
    if items.len() == 0 {
        Seq::empty()
    } else if items.len() == 1 {
        items[0]
    } else {
        items[0] + seq![','] + join_commas(items.drop_first())
    }
}

/// The JSON array holding the given texts as its elements.
pub open spec fn array_doc(items: Seq<Seq<char>>) -> Seq<char> {
    seq!['['] + join_commas(items) + seq![']']
}

/// The texts of a sequence of canonical strings.
pub open spec fn models_of(items: Seq<JsonString>) -> Seq<Seq<char>> {
    items.map_values(|j: JsonString| j@)
}

fn push_joined(items: &Vec<JsonString>, i: usize, out: &mut String)
    requires
        i <= items@.len(),
    ensures
        final(out)@ == old(out)@ + join_commas(models_of(items@).skip(i as int)),
    decreases items@.len() - i,
{
    if i == items.len() {
        proof {
            assert(models_of(items@).skip(i as int) =~= Seq::<Seq<char>>::empty());
            assert(old(out)@ + join_commas(models_of(items@).skip(i as int)) =~= old(out)@);
        }
        return;
    }
    out.append(items[i].0.as_str());
    if i + 1 < items.len() {
        push_char(out, ',');
    }
    push_joined(items, i + 1, out);
    proof {
        assert(models_of(items@).skip(i as int)[0] == items@[i as int]@);
        assert(models_of(items@).skip(i as int).drop_first() =~= models_of(items@).skip(
            i as int + 1,
        ));
        assert(final(out)@ =~= old(out)@ + join_commas(models_of(items@).skip(i as int)));
    }
}

impl From<Vec<JsonString>> for JsonString {
    /// The JSON array whose elements are the given canonical texts.
    fn from(items: Vec<JsonString>) -> (r: JsonString)
        ensures
            r@ == array_doc(models_of(items@)),
    {
        let mut out = String::new();
        push_char(&mut out, '[');
        push_joined(&items, 0, &mut out);
        push_char(&mut out, ']');
        proof {
            assert(models_of(items@).skip(0) =~= models_of(items@));
            assert(out@ =~= array_doc(models_of(items@)));
        }
        JsonString(out)
    }
}

impl vstd::std_specs::convert::FromSpecImpl<Vec<JsonString>> for JsonString {
    open spec fn obeys_from_spec() -> bool {
        false
    }

    closed spec fn from_spec(items: Vec<JsonString>) -> JsonString {
        choose|j: JsonString| j@ == array_doc(models_of(items@))
    }
}

// ---------------------------------------------------------------------------
// outcome values
// ---------------------------------------------------------------------------

/// The tagged text of an outcome whose arms are canonical text: one field,
/// named after the populated arm, holding the inner text as a string.
pub open spec fn result_json(res: Result<Seq<char>, Seq<char>>) -> Seq<char> {
    match res {
        Ok(c) => tagged_doc("Ok"@, c),
        Err(c) => tagged_doc("Err"@, c),
    }
}

/// Which outcome a tagged text restores to, arms as canonical text.
pub open spec fn result_from_json_model(s: Seq<char>) -> Option<Result<Seq<char>, Seq<char>>> {
    match parse_tagged_doc(s) {
        Some(p) => if p.0 == "Ok"@ {
            Some(Ok(p.1))
        } else if p.0 == "Err"@ {
            Some(Err(p.1))
        } else {
            None
        },
        None => None,
    }
}

/// Encode an outcome value: the canonical text of whichever arm is
/// populated, wrapped in the one-field tagged object that names the arm.
pub fn result_to_json_string(result: Result<JsonString, JsonString>) -> (r: JsonString)
    ensures
        result matches Ok(j) ==> r@ == tagged_doc("Ok"@, j@),
        result matches Err(j) ==> r@ == tagged_doc("Err"@, j@),
{
    match result {
        Ok(j) => JsonString(make_tagged("Ok", j.0.as_str())),
        Err(j) => JsonString(make_tagged("Err", j.0.as_str())),
    }
}

/// Decode an outcome value whose arms are themselves canonical text: which
/// arm was populated, and the inner text.
pub fn json_to_result(j: &JsonString) -> (r: Result<Result<JsonString, JsonString>, JsonError>)
    ensures
        r is Ok <==> result_from_json_model(j@) is Some,
        r matches Ok(res) ==> (match res {
            Ok(jj) => result_from_json_model(j@) == Some(Ok::<Seq<char>, Seq<char>>(jj@)),
            Err(jj) => result_from_json_model(j@) == Some(Err::<Seq<char>, Seq<char>>(jj@)),
        }),
        r matches Err(e) ==> e is SerializationError,
{
    match parse_tagged(j.as_str()) {
        Some(p) => {
            let (tag, content) = p;
            if str_eq(tag.as_str(), "Ok") {
                Ok(Ok(JsonString(content)))
            } else if str_eq(tag.as_str(), "Err") {
                Ok(Err(JsonString(content)))
            } else {
                Err(JsonError::SerializationError(String::from_str(
                    "expected an object with one Ok or Err field",
                )))
            }
        },
        None => Err(JsonError::SerializationError(String::from_str(
            "expected an object with one Ok or Err field",
        ))),
    }
}

/// Outcome law: the two tagged forms are distinguishable, and decoding
/// recovers exactly which arm was populated and the inner text.
pub proof fn lemma_result_round_trip(res: Result<Seq<char>, Seq<char>>)
    ensures
        result_from_json_model(result_json(res)) == Some(res),
{
    reveal_strlit("Ok");
    reveal_strlit("Err");
    match res {
        Ok(c) => {
            crate::text::lemma_tagged_round_trip("Ok"@, c);
        },
        Err(c) => {
            crate::text::lemma_tagged_round_trip("Err"@, c);
            assert("Err"@ != "Ok"@);
        },
    }
}

/// Which outcome a tagged text restores to, arms as bare strings (each inner
/// text must be one string literal).
pub open spec fn result_strings_from_json_model(s: Seq<char>) -> Option<
    Result<Seq<char>, Seq<char>>,
> {
    match result_from_json_model(s) {
        Some(Ok(c)) => match parse_quoted_doc(c) {
            Some(v) => Some(Ok(v)),
            None => None,
        },
        Some(Err(c)) => match parse_quoted_doc(c) {
            Some(v) => Some(Err(v)),
            None => None,
        },
        None => None,
    }
}

/// Encode an outcome whose arms are bare strings: each arm's text is first
/// written as a string literal, as the raw/untyped path writes it.
pub fn result_strings_to_json_string(result: Result<String, String>) -> (r: JsonString)
    ensures
        result matches Ok(s) ==> r@ == tagged_doc("Ok"@, quoted(s@)),
        result matches Err(s) ==> r@ == tagged_doc("Err"@, quoted(s@)),
{
    match result {
        Ok(s) => result_to_json_string(Ok(JsonString::from(RawString::from(s)))),
        Err(s) => result_to_json_string(Err(JsonString::from(RawString::from(s)))),
    }
}

/// Decode an outcome whose arms are bare strings.
pub fn json_to_result_strings(j: &JsonString) -> (r: Result<Result<String, String>, JsonError>)
    ensures
        r is Ok <==> result_strings_from_json_model(j@) is Some,
        r matches Ok(res) ==> (match res {
            Ok(s) => result_strings_from_json_model(j@) == Some(Ok::<Seq<char>, Seq<char>>(s@)),
            Err(s) => result_strings_from_json_model(j@) == Some(Err::<Seq<char>, Seq<char>>(s@)),
        }),
        r matches Err(e) ==> e is SerializationError,
{
    match json_to_result(j) {
        Ok(Ok(jj)) => match json_unquote(jj.as_str()) {
            Some(s) => Ok(Ok(s)),
            None => Err(JsonError::SerializationError(String::from_str(
                "expected a JSON string literal inside the Ok field",
            ))),
        },
        Ok(Err(jj)) => match json_unquote(jj.as_str()) {
            Some(s) => Ok(Err(s)),
            None => Err(JsonError::SerializationError(String::from_str(
                "expected a JSON string literal inside the Err field",
            ))),
        },
        Err(e) => Err(e),
    }
}

// ---------------------------------------------------------------------------
// optional values
// ---------------------------------------------------------------------------

/// Encode an optional value: absence becomes the designated null text, and a
/// present value keeps its own canonical text with no extra wrapping.  The
/// null text never depends on what the inner type would have been.
pub fn option_to_json_string(o: Option<JsonString>) -> (r: JsonString)
    ensures
        o is None ==> r@ == "null"@,
        o matches Some(j) ==> r@ == j@,
{
    match o {
        None => JsonString::null(),
        Some(j) => j,
    }
}

/// An optional value read back from canonical text.  An intermediate type,
/// so that moving into `Option` stays an explicit step.
pub struct JsonStringOption<T>(Option<T>);

impl<T> JsonStringOption<T> {
    /// The optional value this wraps.
    pub closed spec fn spec_option(self) -> Option<T> {
        self.0
    }

    /// Unwrap into the plain optional value.
    pub fn to_option(self) -> (r: Option<T>)
        ensures
            r == self.spec_option(),
    {
        self.0
    }
}

/// Which optional number a piece of canonical text restores to: the null
/// text gives absence, a JSON unsigned integer in range gives a value.
pub open spec fn option_u32_model(s: Seq<char>) -> Option<Option<u32>> {
    let t = trim_spec(s, ws_pred());
    if t == "null"@ {
        Some(None)
    } else if valid_unsigned_doc(t) && dec_val(t) <= u32::MAX {
        Some(Some(dec_val(t) as u32))
    } else {
        None
    }
}

/// Decode an optional 32-bit number: null means absence; anything else must
/// be a JSON unsigned integer in range.
pub fn json_to_option_u32(j: &JsonString) -> (r: Result<JsonStringOption<u32>, JsonError>)
    ensures
        r is Ok <==> option_u32_model(j@) is Some,
        r matches Ok(o) ==> option_u32_model(j@) == Some(o.spec_option()),
        r matches Err(e) ==> e is SerializationError,
{
    let t = trim_ws(j.as_str());
    if str_eq(t, "null") {
        return Ok(JsonStringOption(None));
    }
    match parse_dec_u32(t) {
        Some(u) => Ok(JsonStringOption(Some(u))),
        None => Err(JsonError::SerializationError(String::from_str(
            "expected a JSON number or null",
        ))),
    }
}

/// Which optional string a piece of canonical text restores to: the null
/// text gives absence, a string literal gives its content.
pub open spec fn option_string_model(s: Seq<char>) -> Option<Option<Seq<char>>> {
    if trim_spec(s, ws_pred()) == "null"@ {
        Some(None)
    } else {
        match parse_quoted_doc(s) {
            Some(v) => Some(Some(v)),
            None => None,
        }
    }
}

/// Decode an optional string: null means absence; anything else must be a
/// string literal.  The literal text `"null"` in quotes is a present string,
/// not absence.
pub fn json_to_option_string(j: &JsonString) -> (r: Result<JsonStringOption<String>, JsonError>)
    ensures
        r is Ok <==> option_string_model(j@) is Some,
        r matches Ok(o) ==> (match o.spec_option() {
            Some(s) => option_string_model(j@) == Some(Some(s@)),
            None => option_string_model(j@) == Some(None::<Seq<char>>),
        }),
        r matches Err(e) ==> e is SerializationError,
{
    let t = trim_ws(j.as_str());
    if str_eq(t, "null") {
        return Ok(JsonStringOption(None));
    }
    match json_unquote(j.as_str()) {
        Some(s) => Ok(JsonStringOption(Some(s))),
        None => Err(JsonError::SerializationError(String::from_str(
            "expected a JSON string literal or null",
        ))),
    }
}

// ---------------------------------------------------------------------------
// the conversion protocol
// ---------------------------------------------------------------------------

/// The declarative registration path of the text layer.  A participating
/// type states how its values read as JSON text and what JSON text restores,
/// proves that the two agree, and supplies the two executable conversions.
pub trait DefaultJson: View + Sized {
    /// The JSON text a value writes, by its mathematical model.
    spec fn json_of(v: Self::V) -> Seq<char>;

    /// The model of the value a piece of JSON text restores to.
    spec fn of_json(s: Seq<char>) -> Option<Self::V>;

    /// Registration obliges round-tripping: what a value writes restores
    /// that value.
    proof fn lemma_json_round_trip(v: Self::V)
        ensures
            Self::of_json(Self::json_of(v)) == Some(v),
    ;

    /// Write the value as canonical JSON text.
    fn to_json(&self) -> (r: JsonString)
        ensures
            r@ == Self::json_of(self@),
    ;

    /// Restore a value from canonical JSON text.  A failure is always the
    /// serialization-error class, as the default decode path reports it.
    fn try_from_json(j: &JsonString) -> (r: Result<Self, JsonError>)
        ensures
            r matches Ok(v) ==> Self::of_json(j@) == Some(v@),
            r is Err ==> Self::of_json(j@) is None,
            r matches Err(e) ==> e is SerializationError,
    ;
}

/// The default encode path: what registration supplies.
pub fn default_to_json<T: DefaultJson>(v: &T) -> (r: JsonString)
    ensures
        r@ == T::json_of(v@),
{
    v.to_json()
}

/// The default encode path for optional values: absence writes the
/// designated null text whatever the inner type is, and a present value
/// keeps its own canonical text with no extra wrapping.
pub fn default_option_to_json<T: DefaultJson>(o: &Option<T>) -> (r: JsonString)
    ensures
        o is None ==> r@ == "null"@,
        o matches Some(v) ==> r@ == T::json_of(v@),
{
    match o {
        None => JsonString::null(),
        Some(v) => v.to_json(),
    }
}

/// The default decode path for optional values: the null text (up to JSON
/// whitespace) restores absence; anything else must restore a value of the
/// registered type.
pub fn default_option_try_from_json<T: DefaultJson>(j: &JsonString) -> (r: Result<
    JsonStringOption<T>,
    JsonError,
>)
    ensures
        r matches Ok(o) ==> (match o.spec_option() {
            None => trim_spec(j@, ws_pred()) == "null"@,
            Some(v) => T::of_json(j@) == Some(v@),
        }),
        r is Ok <==> (trim_spec(j@, ws_pred()) == "null"@ || T::of_json(j@) is Some),
        r matches Err(e) ==> e is SerializationError,
{
    if str_eq(trim_ws(j.as_str()), "null") {
        return Ok(JsonStringOption(None));
    }
    match T::try_from_json(j) {
        Ok(v) => Ok(JsonStringOption(Some(v))),
        Err(e) => Err(e),
    }
}

/// The default decode path: what registration supplies.
pub fn default_try_from_json<T: DefaultJson>(j: &JsonString) -> (r: Result<T, JsonError>)
    ensures
        r matches Ok(v) ==> T::of_json(j@) == Some(v@),
        r is Err ==> T::of_json(j@) is None,
        r matches Err(e) ==> e is SerializationError,
{
    T::try_from_json(j)
}

// ---------------------------------------------------------------------------
// JsonError participates in the protocol
// ---------------------------------------------------------------------------

/// The model of a text-layer error: its class and its message.
pub enum SpecJsonError {
    ErrorGeneric(Seq<char>),
    IoError(Seq<char>),
    SerializationError(Seq<char>),
}

impl View for JsonError {
    type V = SpecJsonError;

    open spec fn view(&self) -> SpecJsonError {
        match self {
            JsonError::ErrorGeneric(m) => SpecJsonError::ErrorGeneric(m@),
            JsonError::IoError(m) => SpecJsonError::IoError(m@),
            JsonError::SerializationError(m) => SpecJsonError::SerializationError(m@),
        }
    }
}

/// The field name that tags each error class in its JSON form.
pub open spec fn error_tag(v: SpecJsonError) -> Seq<char> {
    match v {
        SpecJsonError::ErrorGeneric(_) => "ErrorGeneric"@,
        SpecJsonError::IoError(_) => "IoError"@,
        SpecJsonError::SerializationError(_) => "SerializationError"@,
    }
}

/// The message inside an error model.
pub open spec fn error_message(v: SpecJsonError) -> Seq<char> {
    match v {
        SpecJsonError::ErrorGeneric(m) => m,
        SpecJsonError::IoError(m) => m,
        SpecJsonError::SerializationError(m) => m,
    }
}

impl DefaultJson for JsonError {
    open spec fn json_of(v: SpecJsonError) -> Seq<char> {
        tagged_doc(error_tag(v), error_message(v))
    }

    open spec fn of_json(s: Seq<char>) -> Option<SpecJsonError> {
        match parse_tagged_doc(s) {
            Some(p) => if p.0 == "ErrorGeneric"@ {
                Some(SpecJsonError::ErrorGeneric(p.1))
            } else if p.0 == "IoError"@ {
                Some(SpecJsonError::IoError(p.1))
            } else if p.0 == "SerializationError"@ {
                Some(SpecJsonError::SerializationError(p.1))
            } else {
                None
            },
            None => None,
        }
    }

    proof fn lemma_json_round_trip(v: SpecJsonError) {
        reveal_strlit("ErrorGeneric");
        reveal_strlit("IoError");
        reveal_strlit("SerializationError");
        match v {
            SpecJsonError::ErrorGeneric(m) => {
                crate::text::lemma_tagged_round_trip("ErrorGeneric"@, m);
            },
            SpecJsonError::IoError(m) => {
                crate::text::lemma_tagged_round_trip("IoError"@, m);
                assert("IoError"@ != "ErrorGeneric"@);
            },
            SpecJsonError::SerializationError(m) => {
                crate::text::lemma_tagged_round_trip("SerializationError"@, m);
                assert("SerializationError"@ != "ErrorGeneric"@);
                assert("SerializationError"@ != "IoError"@);
            },
        }
    }

    fn to_json(&self) -> (r: JsonString) {
        match self {
            JsonError::ErrorGeneric(m) => JsonString(make_tagged("ErrorGeneric", m.as_str())),
            JsonError::IoError(m) => JsonString(make_tagged("IoError", m.as_str())),
            JsonError::SerializationError(m) => JsonString(
                make_tagged("SerializationError", m.as_str()),
            ),
        }
    }

    fn try_from_json(j: &JsonString) -> (r: Result<JsonError, JsonError>) {
        match parse_tagged(j.as_str()) {
            Some(p) => {
                let (tag, content) = p;
                if str_eq(tag.as_str(), "ErrorGeneric") {
                    Ok(JsonError::ErrorGeneric(content))
                } else if str_eq(tag.as_str(), "IoError") {
                    Ok(JsonError::IoError(content))
                } else if str_eq(tag.as_str(), "SerializationError") {
                    Ok(JsonError::SerializationError(content))
                } else {
                    Err(JsonError::SerializationError(String::from_str(
                        "not a known error class",
                    )))
                }
            },
            None => Err(JsonError::SerializationError(String::from_str(
                "expected an object with one error field",
            ))),
        }
    }
}

impl From<JsonError> for JsonString {
    /// An error written as canonical JSON text.
    fn from(e: JsonError) -> (r: JsonString)
        ensures
            r@ == <JsonError as DefaultJson>::json_of(e@),
    {
        e.to_json()
    }
}

impl vstd::std_specs::convert::FromSpecImpl<JsonError> for JsonString {
    open spec fn obeys_from_spec() -> bool {
        false
    }

    closed spec fn from_spec(e: JsonError) -> JsonString {
        choose|j: JsonString| j@ == <JsonError as DefaultJson>::json_of(e@)
    }
}

} // verus!
