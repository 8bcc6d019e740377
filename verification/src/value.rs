//! The data model that canonical byte encodings are produced from.
//!
//! A `CodecValue` is the library's own picture of what the compact binary
//! wire format can carry: nil, booleans, integers, text, raw bytes, lists,
//! and records with named fields.  Conversion code builds one of these and
//! hands it to the codec adapter; nothing else ever touches the wire format.

use vstd::prelude::*;
use vstd::utf8::encode_utf8;

verus! {

broadcast use
    vstd::seq::axiom_seq_index_decreases,
    vstd::std_specs::vec::axiom_vec_decreases_to_view,
;

/// The mathematical model of a `CodecValue`: the same tree, with sequences
/// in place of vectors and strings.
pub enum SpecValue {
    Nil,
    Bool(bool),
    UInt(u64),
    SInt(i64),
    Text(Seq<char>),
    Data(Seq<u8>),
    List(Seq<SpecValue>),
    Record(Seq<(Seq<char>, SpecValue)>),
}

impl SpecValue {
    /// A value is well formed when every negative-integer node really is
    /// negative (non-negative integers must use `UInt`, so that each integer
    /// has exactly one canonical spelling) and every length fits the wire
    /// format's 32-bit size fields.
    pub open spec fn wf(self) -> bool
        decreases self,
    {
        match self {
            SpecValue::Nil => true,
            SpecValue::Bool(_) => true,
            SpecValue::UInt(_) => true,
            SpecValue::SInt(i) => i < 0,
            SpecValue::Text(s) => encode_utf8(s).len() <= u32::MAX,
            SpecValue::Data(d) => d.len() <= u32::MAX,
            SpecValue::List(xs) => xs.len() <= u32::MAX && (forall|i: int|
                0 <= i < xs.len() ==> #[trigger] xs[i].wf()),
            SpecValue::Record(es) => es.len() <= u32::MAX && (forall|i: int|
                0 <= i < es.len() ==> encode_utf8(#[trigger] es[i].0).len() <= u32::MAX
                    && es[i].1.wf()),
        }
    }
}

/// How deeply lists and records nest in a value; scalars sit at depth zero.
/// The codec underneath bounds recursion, so contracts promise decoding only
/// up to its limit.
pub open spec fn nesting(v: SpecValue) -> nat
    decreases v,
{
    match v {
        SpecValue::List(xs) => 1 + nesting_seq(xs),
        SpecValue::Record(es) => 1 + nesting_entries(es),
        _ => 0,
    }
}

/// The deepest nesting among the elements of a list.
pub open spec fn nesting_seq(xs: Seq<SpecValue>) -> nat
    decreases xs,
{
    if xs.len() == 0 {
        0
    } else if nesting(xs[0]) > nesting_seq(xs.drop_first()) {
        nesting(xs[0])
    } else {
        nesting_seq(xs.drop_first())
    }
}

/// The deepest nesting among the field values of a record.
pub open spec fn nesting_entries(es: Seq<(Seq<char>, SpecValue)>) -> nat
    decreases es,
{
    if es.len() == 0 {
        0
    } else if nesting(es[0].1) > nesting_entries(es.drop_first()) {
        nesting(es[0].1)
    } else {
        nesting_entries(es.drop_first())
    }
}

/// The recursion bound of the codec underneath: values nested this deep or
/// less are guaranteed to decode.
pub open spec fn nesting_limit() -> nat {
    1024
}

/// A value of the binary data model.  `Record` keeps its fields in order,
/// as a vector of (name, value) pairs.
#[derive(Debug, PartialEq, Eq)]
pub enum CodecValue {
    Nil,
    Bool(bool),
    UInt(u64),
    SInt(i64),
    Text(String),
    Data(Vec<u8>),
    List(Vec<CodecValue>),
    Record(Vec<(String, CodecValue)>),
}

/// The model of a single value.
pub open spec fn model(v: CodecValue) -> SpecValue
    decreases v,
{
    match v {
        CodecValue::Nil => SpecValue::Nil,
        CodecValue::Bool(b) => SpecValue::Bool(b),
        CodecValue::UInt(u) => SpecValue::UInt(u),
        CodecValue::SInt(i) => SpecValue::SInt(i),
        CodecValue::Text(s) => SpecValue::Text(s@),
        CodecValue::Data(d) => SpecValue::Data(d@),
        CodecValue::List(xs) => SpecValue::List(model_seq(xs@)),
        CodecValue::Record(es) => SpecValue::Record(model_entries(es@)),
    }
}

/// The models of the elements of a list, in order.
pub open spec fn model_seq(xs: Seq<CodecValue>) -> Seq<SpecValue>
    decreases xs,
{
    if xs.len() == 0 {
        Seq::empty()
    } else {
        seq![model(xs[0])] + model_seq(xs.drop_first())
    }
}

/// The models of the fields of a record, in order.
pub open spec fn model_entries(es: Seq<(String, CodecValue)>) -> Seq<(Seq<char>, SpecValue)>
    decreases es,
{
    if es.len() == 0 {
        Seq::empty()
    } else {
        seq![(es[0].0@, model(es[0].1))] + model_entries(es.drop_first())
    }
}

impl View for CodecValue {
    type V = SpecValue;

    open spec fn view(&self) -> SpecValue {
        model(*self)
    }
}

/// A record's model has one entry per field.
pub proof fn lemma_model_entries_len(es: Seq<(String, CodecValue)>)
    ensures
        model_entries(es).len() == es.len(),
    decreases es.len(),
{
    if es.len() != 0 {
        lemma_model_entries_len(es.drop_first());
    }
}

/// Each entry of a record's model is the field's name and the field value's
/// model, in order.
pub proof fn lemma_model_entries_index(es: Seq<(String, CodecValue)>, i: int)
    requires
        0 <= i < es.len(),
    ensures
        model_entries(es).len() == es.len(),
        model_entries(es)[i] == (es[i].0@, model(es[i].1)),
    decreases i,
{
    lemma_model_entries_len(es);
    if i > 0 {
        lemma_model_entries_index(es.drop_first(), i - 1);
    }
}

} // verus!
