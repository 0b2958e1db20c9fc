use vstd::prelude::*;
use vstd::string::StringExecFns;

use crate::bridge::str_eq;
use crate::error::WalleError;
use crate::value::{
    height_of_pairs, height_of_seq, lemma_height_pairs_elem, lemma_height_seq_elem,
    lemma_nums_wf_from_index, lemma_nums_wf_pairs_from_index, lemma_nums_wf_pairs_index,
    lemma_nums_wf_seq_index, lemma_pairs_val_of_len, lemma_seq_val_of_len,
    lemma_vsize_pairs_elem, lemma_vsize_seq_elem, lemma_wf_pairs_index, lemma_wf_seq_index,
    num_int, num_val, nums_wf, nums_wf_pairs, nums_wf_seq, pairs_val_of, seq_val_of, val_height,
    val_of, val_wf, vsize, wf_pairs, wf_seq, Pairs, Val, DynValue, ValueMap,
};

verus! {

// ------------------------------------------------------------------
// Content negotiation
// ------------------------------------------------------------------

/// The two recognized wire forms: a JSON-compatible text document and a
/// MessagePack-compatible binary document.
#[derive(Debug, Clone, Copy, PartialEq, Eq)]
pub enum ContentType {
    Json,
    MsgPack,
}

impl ContentType {
    /// Media-type negotiation: exactly the two recognized media-type strings
    /// select a content kind; anything else is no match.
    pub fn new(s: &str) -> (r: Option<ContentType>)
        ensures
            s@ == "application/json"@ ==> r == Some(ContentType::Json),
            s@ == "application/msgpack"@ ==> r == Some(ContentType::MsgPack),
            s@ != "application/json"@ && s@ != "application/msgpack"@ ==> r is None,
    {
        proof {
            reveal_strlit("application/json");
            reveal_strlit("application/msgpack");
            assert("application/json"@.len() == 16);
            assert("application/msgpack"@.len() == 19);
            assert("application/json"@ != "application/msgpack"@);
        }
        if str_eq(s, "application/json") {
            Some(ContentType::Json)
        } else if str_eq(s, "application/msgpack") {
            Some(ContentType::MsgPack)
        } else {
            None
        }
    }

    /// The media-type string of this content kind; the inverse of `new`.
    pub fn media_type(&self) -> (r: String)
        ensures
            *self == ContentType::Json ==> r@ == "application/json"@,
            *self == ContentType::MsgPack ==> r@ == "application/msgpack"@,
    {
        match self {
            ContentType::Json => "application/json".to_owned(),
            ContentType::MsgPack => "application/msgpack".to_owned(),
        }
    }
}

// ------------------------------------------------------------------
// The trusted boundary to serde_json and rmp-serde
// ------------------------------------------------------------------

/// The model of a document tree node.
pub uninterp spec fn jmodel(v: serde_json::Value) -> Val;

/// The JSON text that serde_json prints for a document; it depends on the
/// document alone.
pub uninterp spec fn json_text_of(v: serde_json::Value) -> Seq<char>;

/// The MessagePack bytes that rmp-serde writes for a document; they depend on
/// the document alone.
pub uninterp spec fn msgpack_of(v: serde_json::Value) -> Seq<u8>;

/// The model of the document that serde_json parses out of a text, where it
/// parses one; it depends on the text alone.
pub uninterp spec fn json_doc(s: Seq<char>) -> Option<Val>;

/// The model of the document that rmp-serde decodes out of a byte string,
/// where it decodes one; it depends on the bytes alone.
pub uninterp spec fn msgpack_doc(b: Seq<u8>) -> Option<Val>;

/// Relies on serde_json::Number's From<i64>: the number reads back as that
/// integer.
pub assume_specification[ <serde_json::Number as From<i64>>::from ](i: i64) -> (r:
    serde_json::Number)
    ensures
        num_int(r) == Some(i as int),
;

/// One level of a document, handed across the trusted boundary with its
/// children still opaque.
pub enum JsonNode {
    Null,
    Bool(bool),
    Num(serde_json::Number),
    Str(String),
    Arr(Vec<serde_json::Value>),
    Obj(Vec<(String, serde_json::Value)>),
}

pub open spec fn jseq_model(s: Seq<serde_json::Value>) -> Seq<Val> {
    Seq::new(s.len(), |i: int| jmodel(s[i]))
}

pub open spec fn jpairs_model(s: Seq<(String, serde_json::Value)>) -> Pairs {
    Seq::new(s.len(), |i: int| (s[i].0@, jmodel(s[i].1)))
}

pub open spec fn node_model(n: JsonNode) -> Val {
    match n {
        JsonNode::Null => Val::Null,
        JsonNode::Bool(b) => Val::Bool(b),
        JsonNode::Num(x) => num_val(x),
        JsonNode::Str(s) => Val::Str(s@),
        JsonNode::Arr(items) => Val::Arr(jseq_model(items@)),
        JsonNode::Obj(pairs) => Val::Obj(jpairs_model(pairs@)),
    }
}

/// Relies on serde_json::Value being the tagged union of exactly these six
/// document shapes: matching tells them apart, moving the payload out.
#[verifier::external_body]
fn jv_classify(v: serde_json::Value) -> (n: JsonNode)
    ensures
        node_model(n) == jmodel(v),
{
    match v {
        serde_json::Value::Null => JsonNode::Null,
        serde_json::Value::Bool(b) => JsonNode::Bool(b),
        serde_json::Value::Number(x) => JsonNode::Num(x),
        serde_json::Value::String(s) => JsonNode::Str(s),
        serde_json::Value::Array(items) => JsonNode::Arr(items),
        serde_json::Value::Object(m) => JsonNode::Obj(m.into_iter().collect()),
    }
}

/// Relies on the same six constructors of serde_json::Value; an object is
/// built from key-distinct entries, in order (serde_json keeps insertion
/// order here).
#[verifier::external_body]
fn jv_build(n: JsonNode) -> (v: serde_json::Value)
    requires
        n matches JsonNode::Obj(pairs) ==> forall|i: int, j: int|
            0 <= i < j < pairs@.len() ==> (#[trigger] pairs@[i]).0@ != (#[trigger] pairs@[j]).0@,
    ensures
        jmodel(v) == node_model(n),
{
    match n {
        JsonNode::Null => serde_json::Value::Null,
        JsonNode::Bool(b) => serde_json::Value::Bool(b),
        JsonNode::Num(x) => serde_json::Value::Number(x),
        JsonNode::Str(s) => serde_json::Value::String(s),
        JsonNode::Arr(items) => serde_json::Value::Array(items),
        JsonNode::Obj(pairs) => serde_json::Value::Object(pairs.into_iter().collect()),
    }
}

/// Relies on serde_json::to_string: deterministic text for a document; it
/// cannot fail for a document tree (all map keys are strings), and the depth
/// bound — above anything either decoder can produce — keeps the recursive
/// serializer within its stack.
#[verifier::external_body]
fn jv_print(v: &serde_json::Value) -> (r: String)
    requires
        val_height(jmodel(*v)) <= 1025,
    ensures
        r@ == json_text_of(*v),
{
    serde_json::to_string(v).unwrap()
}

/// Relies on serde_json::from_str: within the codec's depth bound of 128
/// levels, parsing is the inverse of printing — a document's text parses
/// back to a document with the same model — and every parsed document has
/// unique keys in each object and bounded depth.
#[verifier::external_body]
fn jv_parse(s: &str) -> (r: Result<serde_json::Value, String>)
    ensures
        r matches Ok(v) ==> val_height(jmodel(v)) <= 128 && val_wf(jmodel(v)),
        r matches Ok(v) ==> json_doc(s@) == Some(jmodel(v)),
        r is Err ==> json_doc(s@) is None,
        r is Err ==> (forall|w: serde_json::Value|
            #[trigger] json_text_of(w) == s@ ==> val_height(jmodel(w)) > 120),
        r matches Ok(v2) ==> (forall|w: serde_json::Value|
            #[trigger] json_text_of(w) == s@ && val_height(jmodel(w)) <= 120 ==> jmodel(v2)
                == jmodel(w)),
{
    match serde_json::from_str(s) {
        Ok(v) => Ok(v),
        Err(e) => Err(e.to_string()),
    }
}

/// Relies on rmp_serde::to_vec: deterministic bytes for a document; it
/// cannot fail for a document tree, and the depth bound keeps the recursive
/// serializer within its stack.
#[verifier::external_body]
fn jv_to_msgpack(v: &serde_json::Value) -> (r: Vec<u8>)
    requires
        val_height(jmodel(*v)) <= 1025,
    ensures
        r@ == msgpack_of(*v),
{
    rmp_serde::to_vec(v).unwrap()
}

/// Relies on rmp_serde::from_slice: within its depth limit of 1024 levels,
/// decoding is the inverse of encoding — a document's bytes decode back to a
/// document with the same model — and every decoded document has unique keys
/// in each object and bounded depth.
#[verifier::external_body]
fn jv_from_msgpack(b: &[u8]) -> (r: Result<serde_json::Value, String>)
    ensures
        r matches Ok(v) ==> val_height(jmodel(v)) <= 1024 && val_wf(jmodel(v)),
        r matches Ok(v) ==> msgpack_doc(b@) == Some(jmodel(v)),
        r is Err ==> msgpack_doc(b@) is None,
        r is Err ==> (forall|w: serde_json::Value|
            #[trigger] msgpack_of(w) == b@ ==> val_height(jmodel(w)) > 1000),
        r matches Ok(v2) ==> (forall|w: serde_json::Value|
            #[trigger] msgpack_of(w) == b@ && val_height(jmodel(w)) <= 1000 ==> jmodel(v2)
                == jmodel(w)),
{
    match rmp_serde::from_slice(b) {
        Ok(v) => Ok(v),
        Err(e) => Err(e.to_string()),
    }
}

// ------------------------------------------------------------------
// The wire image of a value, and the verified converters
// ------------------------------------------------------------------

/// What a value looks like on the wire: byte strings have no JSON shape of
/// their own and travel as arrays of integers; everything else keeps its
/// shape.
pub open spec fn wire_model(m: Val) -> Val
    decreases m,
{
    match m {
        Val::Bytes(bs) => Val::Arr(Seq::new(bs.len(), |i: int| Val::Int(bs[i] as int))),
        Val::Arr(items) => Val::Arr(wire_seq(items)),
        Val::Obj(pairs) => Val::Obj(wire_pairs(pairs)),
        other => other,
    }
}

pub open spec fn wire_seq(items: Seq<Val>) -> Seq<Val>
    decreases items,
{
    if items.len() == 0 {
        Seq::empty()
    } else {
        seq![wire_model(items[0])] + wire_seq(items.drop_first())
    }
}

pub open spec fn wire_pairs(pairs: Pairs) -> Pairs
    decreases pairs,
{
    if pairs.len() == 0 {
        Seq::empty()
    } else {
        seq![(pairs[0].0, wire_model(pairs[0].1))] + wire_pairs(pairs.drop_first())
    }
}

pub proof fn lemma_wire_seq_index(items: Seq<Val>)
    ensures
        wire_seq(items).len() == items.len(),
        forall|i: int| 0 <= i < items.len() ==> #[trigger] wire_seq(items)[i] == wire_model(
            items[i],
        ),
    decreases items,
{
    if items.len() > 0 {
        lemma_wire_seq_index(items.drop_first());
    }
}

pub proof fn lemma_wire_pairs_index(pairs: Pairs)
    ensures
        wire_pairs(pairs).len() == pairs.len(),
        forall|i: int| 0 <= i < pairs.len() ==> #[trigger] wire_pairs(pairs)[i] == (
            pairs[i].0,
            wire_model(pairs[i].1),
        ),
    decreases pairs,
{
    if pairs.len() > 0 {
        lemma_wire_pairs_index(pairs.drop_first());
    }
}

/// No byte string anywhere in the value.
pub open spec fn bytes_free(m: Val) -> bool
    decreases m,
{
    match m {
        Val::Bytes(_) => false,
        Val::Arr(items) => bytes_free_seq(items),
        Val::Obj(pairs) => bytes_free_pairs(pairs),
        _ => true,
    }
}

pub open spec fn bytes_free_seq(items: Seq<Val>) -> bool
    decreases items,
{
    if items.len() == 0 {
        true
    } else {
        bytes_free(items[0]) && bytes_free_seq(items.drop_first())
    }
}

pub open spec fn bytes_free_pairs(pairs: Pairs) -> bool
    decreases pairs,
{
    if pairs.len() == 0 {
        true
    } else {
        bytes_free(pairs[0].1) && bytes_free_pairs(pairs.drop_first())
    }
}

pub proof fn lemma_bytes_free_pairs_index(pairs: Pairs)
    requires
        bytes_free_pairs(pairs),
    ensures
        forall|i: int| 0 <= i < pairs.len() ==> bytes_free((#[trigger] pairs[i]).1),
    decreases pairs,
{
    if pairs.len() > 0 {
        lemma_bytes_free_pairs_index(pairs.drop_first());
        assert(forall|i: int| 1 <= i < pairs.len() ==> pairs[i] == pairs.drop_first()[i - 1]);
    }
}

pub proof fn lemma_bytes_free_pairs_from_index(pairs: Pairs)
    requires
        forall|i: int| 0 <= i < pairs.len() ==> bytes_free((#[trigger] pairs[i]).1),
    ensures
        bytes_free_pairs(pairs),
    decreases pairs,
{
    if pairs.len() > 0 {
        assert(forall|i: int| 0 <= i < pairs.drop_first().len() ==> pairs.drop_first()[i] == pairs[
            i + 1
        ]);
        lemma_bytes_free_pairs_from_index(pairs.drop_first());
    }
}

/// On byte-free values the wire image is the value itself.
pub proof fn lemma_wire_model_id(m: Val)
    requires
        bytes_free(m),
    ensures
        wire_model(m) == m,
    decreases m,
{
    match m {
        Val::Arr(items) => {
            lemma_wire_model_seq_id(items);
        },
        Val::Obj(pairs) => {
            lemma_wire_model_pairs_id(pairs);
        },
        _ => {},
    }
}

pub proof fn lemma_wire_model_seq_id(items: Seq<Val>)
    requires
        bytes_free_seq(items),
    ensures
        wire_seq(items) == items,
    decreases items,
{
    if items.len() > 0 {
        lemma_wire_model_id(items[0]);
        lemma_wire_model_seq_id(items.drop_first());
        assert(wire_seq(items) =~= items);
    } else {
        assert(wire_seq(items) =~= items);
    }
}

pub proof fn lemma_wire_model_pairs_id(pairs: Pairs)
    requires
        bytes_free_pairs(pairs),
    ensures
        wire_pairs(pairs) == pairs,
    decreases pairs,
{
    if pairs.len() > 0 {
        lemma_wire_model_id(pairs[0].1);
        lemma_wire_model_pairs_id(pairs.drop_first());
        assert(wire_pairs(pairs) =~= pairs);
    } else {
        assert(wire_pairs(pairs) =~= pairs);
    }
}

/// The wire image is at most one level taller than the value.
pub proof fn lemma_wire_model_height(m: Val)
    ensures
        val_height(wire_model(m)) <= val_height(m) + 1,
    decreases m,
{
    match m {
        Val::Bytes(bs) => {
            let ws = Seq::new(bs.len(), |i: int| Val::Int(bs[i] as int));
            lemma_height_of_scalars(ws);
        },
        Val::Arr(items) => {
            lemma_wire_seq_height(items);
        },
        Val::Obj(pairs) => {
            lemma_wire_pairs_height(pairs);
        },
        _ => {},
    }
}

proof fn lemma_height_of_scalars(items: Seq<Val>)
    requires
        forall|i: int| 0 <= i < items.len() ==> val_height(#[trigger] items[i]) == 1,
    ensures
        height_of_seq(items) <= 1,
    decreases items,
{
    if items.len() > 0 {
        assert(forall|i: int|
            0 <= i < items.drop_first().len() ==> items.drop_first()[i] == items[i + 1]);
        lemma_height_of_scalars(items.drop_first());
    }
}

proof fn lemma_wire_seq_height(items: Seq<Val>)
    ensures
        height_of_seq(wire_seq(items)) <= height_of_seq(items) + 1,
    decreases items,
{
    if items.len() > 0 {
        lemma_wire_model_height(items[0]);
        lemma_wire_seq_height(items.drop_first());
        let rest = wire_seq(items.drop_first());
        assert((seq![wire_model(items[0])] + rest)[0] == wire_model(items[0]));
        assert((seq![wire_model(items[0])] + rest).drop_first() =~= rest);
    }
}

proof fn lemma_wire_pairs_height(pairs: Pairs)
    ensures
        height_of_pairs(wire_pairs(pairs)) <= height_of_pairs(pairs) + 1,
    decreases pairs,
{
    if pairs.len() > 0 {
        lemma_wire_model_height(pairs[0].1);
        lemma_wire_pairs_height(pairs.drop_first());
        let rest = wire_pairs(pairs.drop_first());
        assert((seq![(pairs[0].0, wire_model(pairs[0].1))] + rest)[0] == (
            pairs[0].0,
            wire_model(pairs[0].1),
        ));
        assert((seq![(pairs[0].0, wire_model(pairs[0].1))] + rest).drop_first() =~= rest);
    }
}

/// Widening a value into a document tree: structure preserved exactly, byte
/// strings spelled out as integer arrays.
fn value_to_jv(v: &DynValue) -> (r: serde_json::Value)
    requires
        val_wf(v@),
        nums_wf(*v),
    ensures
        jmodel(r) == wire_model(v@),
    decreases vsize(*v),
{
    match v {
        DynValue::Null => jv_build(JsonNode::Null),
        DynValue::Bool(b) => jv_build(JsonNode::Bool(*b)),
        DynValue::Int(i) => jv_build(JsonNode::Num(serde_json::Number::from(*i))),
        DynValue::Float(n) => jv_build(JsonNode::Num(n.clone())),
        DynValue::Str(s) => jv_build(JsonNode::Str(s.clone())),
        DynValue::Bytes(bs) => {
            let mut out: Vec<serde_json::Value> = Vec::new();
            let mut i: usize = 0;
            while i < bs.len()
                invariant
                    i <= bs@.len(),
                    out@.len() == i,
                    forall|j: int| 0 <= j < i ==> jmodel(#[trigger] out@[j]) == Val::Int(
                        bs@[j] as int,
                    ),
                decreases bs@.len() - i,
            {
                out.push(jv_build(JsonNode::Num(serde_json::Number::from(bs[i] as i64))));
                i = i + 1;
            }
            let r = jv_build(JsonNode::Arr(out));
            proof {
                assert(jseq_model(out@) =~= Seq::new(
                    bs@.len(),
                    |i: int| Val::Int(bs@[i] as int),
                ));
            }
            r
        },
        DynValue::Arr(items) => {
            let ghost iv = seq_val_of(items@);
            proof {
                lemma_seq_val_of_len(items@);
                lemma_wf_seq_index(iv);
                lemma_nums_wf_seq_index(items@);
                lemma_wire_seq_index(iv);
            }
            let mut out: Vec<serde_json::Value> = Vec::new();
            let mut i: usize = 0;
            while i < items.len()
                invariant
                    i <= items@.len(),
                    out@.len() == i,
                    val_wf(v@),
                    nums_wf(*v),
                    *v == DynValue::Arr(*items),
                    iv == seq_val_of(items@),
                    iv.len() == items@.len(),
                    wf_seq(iv),
                    nums_wf_seq(items@),
                    forall|j: int| 0 <= j < items@.len() ==> #[trigger] iv[j] == val_of(
                        items@[j],
                    ),
                    forall|j: int| 0 <= j < items@.len() ==> val_wf(#[trigger] iv[j]),
                    forall|j: int| 0 <= j < items@.len() ==> nums_wf(#[trigger] items@[j]),
                    forall|j: int| 0 <= j < i ==> jmodel(#[trigger] out@[j]) == wire_model(iv[j]),
                decreases items@.len() - i,
            {
                proof {
                    lemma_vsize_seq_elem(items@, i as int);
                    assert(iv[i as int] == val_of(items@[i as int]));
                    assert(val_wf(val_of(items@[i as int])));
                    assert(nums_wf(items@[i as int]));
                }
                let c = value_to_jv(&items[i]);
                out.push(c);
                i = i + 1;
            }
            let r = jv_build(JsonNode::Arr(out));
            proof {
                lemma_wire_seq_index(iv);
                assert(jseq_model(out@) =~= wire_seq(iv));
            }
            r
        },
        DynValue::Obj(m) => {
            let ghost pv = pairs_val_of(m.entries@);
            proof {
                lemma_pairs_val_of_len(m.entries@);
                lemma_wf_pairs_index(pv);
                lemma_nums_wf_pairs_index(m.entries@);
                lemma_wire_pairs_index(pv);
            }
            let mut out: Vec<(String, serde_json::Value)> = Vec::new();
            let mut i: usize = 0;
            while i < m.entries.len()
                invariant
                    i <= m.entries@.len(),
                    out@.len() == i,
                    val_wf(v@),
                    nums_wf(*v),
                    *v == DynValue::Obj(*m),
                    pv == pairs_val_of(m.entries@),
                    pv.len() == m.entries@.len(),
                    wf_pairs(pv),
                    nums_wf_pairs(m.entries@),
                    forall|j: int| 0 <= j < m.entries@.len() ==> #[trigger] pv[j] == (
                        m.entries@[j].0@,
                        val_of(m.entries@[j].1),
                    ),
                    forall|j: int| 0 <= j < m.entries@.len() ==> val_wf((#[trigger] pv[j]).1),
                    forall|j: int, k: int|
                        0 <= j < k < m.entries@.len() ==> (#[trigger] pv[j]).0 != (
                        #[trigger] pv[k]).0,
                    forall|j: int| 0 <= j < m.entries@.len() ==> nums_wf(
                        (#[trigger] m.entries@[j]).1,
                    ),
                    forall|j: int| 0 <= j < i ==> (#[trigger] out@[j]).0@ == pv[j].0 && jmodel(
                        out@[j].1,
                    ) == wire_model(pv[j].1),
                decreases m.entries@.len() - i,
            {
                proof {
                    lemma_vsize_pairs_elem(m.entries@, i as int);
                    assert(pv[i as int] == (m.entries@[i as int].0@, val_of(
                        m.entries@[i as int].1,
                    )));
                    assert(val_wf(val_of(m.entries@[i as int].1)));
                    assert(nums_wf(m.entries@[i as int].1));
                }
                let key = m.entries[i].0.clone();
                let c = value_to_jv(&m.entries[i].1);
                out.push((key, c));
                i = i + 1;
            }
            let r = jv_build(JsonNode::Obj(out));
            proof {
                lemma_wire_pairs_index(pv);
                assert(jpairs_model(out@) =~= wire_pairs(pv));
            }
            r
        },
    }
}

/// Narrowing a document tree back into a value: total within the depth
/// budget, which every caller derives from the parser's own bound.
fn jv_to_value(v: serde_json::Value, fuel: u32) -> (r: DynValue)
    requires
        val_height(jmodel(v)) < fuel,
    ensures
        r@ == jmodel(v),
        nums_wf(r),
    decreases fuel,
{
    let node = jv_classify(v);
    match node {
        JsonNode::Null => DynValue::Null,
        JsonNode::Bool(b) => DynValue::Bool(b),
        JsonNode::Num(x) => match x.as_i64() {
            Some(i) => DynValue::Int(i),
            None => DynValue::Float(x),
        },
        JsonNode::Str(s) => DynValue::Str(s),
        JsonNode::Arr(items) => {
            let ghost orig = items@;
            let ghost model = jseq_model(items@);
            let mut rest = items;
            let mut out: Vec<DynValue> = Vec::new();
            while rest.len() > 0
                invariant
                    out@.len() + rest@.len() == orig.len(),
                    rest@ == orig.skip(out@.len() as int),
                    model == jseq_model(orig),
                    height_of_seq(model) + 1 < fuel,
                    forall|j: int| 0 <= j < orig.len() ==> #[trigger] model[j] == jmodel(orig[j]),
                    forall|j: int| 0 <= j < out@.len() ==> val_of(#[trigger] out@[j]) == model[j],
                    forall|j: int| 0 <= j < out@.len() ==> nums_wf(#[trigger] out@[j]),
                decreases rest@.len(),
            {
                let ghost i = out@.len() as int;
                proof {
                    lemma_height_seq_elem(model, i);
                    assert(rest@[0] == orig[i]);
                }
                let item = rest.remove(0);
                let c = jv_to_value(item, fuel - 1);
                out.push(c);
                proof {
                    assert(rest@ =~= orig.skip(out@.len() as int));
                }
            }
            let r = DynValue::Arr(out);
            proof {
                lemma_seq_val_of_len(out@);
                assert(seq_val_of(out@) =~= model);
                lemma_nums_wf_from_index(out@);
            }
            r
        },
        JsonNode::Obj(pairs) => {
            let ghost orig = pairs@;
            let ghost model = jpairs_model(pairs@);
            let mut rest = pairs;
            let mut out: Vec<(String, DynValue)> = Vec::new();
            while rest.len() > 0
                invariant
                    out@.len() + rest@.len() == orig.len(),
                    rest@ == orig.skip(out@.len() as int),
                    model == jpairs_model(orig),
                    height_of_pairs(model) + 1 < fuel,
                    forall|j: int| 0 <= j < orig.len() ==> #[trigger] model[j] == (
                        orig[j].0@,
                        jmodel(orig[j].1),
                    ),
                    forall|j: int| 0 <= j < out@.len() ==> (#[trigger] out@[j]).0@ == model[j].0
                        && val_of(out@[j].1) == model[j].1,
                    forall|j: int| 0 <= j < out@.len() ==> nums_wf((#[trigger] out@[j]).1),
                decreases rest@.len(),
            {
                let ghost i = out@.len() as int;
                proof {
                    lemma_height_pairs_elem(model, i);
                    assert(rest@[0] == orig[i]);
                }
                let pair = rest.remove(0);
                let c = jv_to_value(pair.1, fuel - 1);
                out.push((pair.0, c));
                proof {
                    assert(rest@ =~= orig.skip(out@.len() as int));
                }
            }
            let r = DynValue::Obj(ValueMap { entries: out });
            proof {
                lemma_pairs_val_of_len(out@);
                assert(pairs_val_of(out@) =~= model);
                lemma_nums_wf_pairs_from_index(out@);
            }
            r
        },
    }
}

// ------------------------------------------------------------------
// The dual-format codec on values
// ------------------------------------------------------------------

impl DynValue {
    /// Encoding to the text form; total on well-formed values within the
    /// codec's depth budget, which admits anything either decoder can
    /// produce.
    pub fn json_encode(&self) -> (r: String)
        requires
            val_wf(self@),
            nums_wf(*self),
            val_height(self@) <= 1024,
        ensures
            exists|j: serde_json::Value|
                #[trigger] json_text_of(j) == r@ && jmodel(j) == wire_model(self@),
    {
        let jv = value_to_jv(self);
        proof {
            lemma_wire_model_height(self@);
        }
        let r = jv_print(&jv);
        proof {
            assert(json_text_of(jv) == r@ && jmodel(jv) == wire_model(self@));
        }
        r
    }

    /// Decoding from the text form: the exact inverse of encoding on every
    /// document some value prints to; anything else fails with a decode
    /// diagnostic rather than a panic.
    pub fn json_decode(s: &str) -> (r: Result<DynValue, WalleError>)
        ensures
            r matches Ok(v) ==> json_doc(s@) == Some(v@),
            r is Err <==> json_doc(s@) is None,
            r is Err ==> (forall|w: serde_json::Value|
                #[trigger] json_text_of(w) == s@ ==> val_height(jmodel(w)) > 120),
            r matches Ok(v) ==> (forall|w: serde_json::Value|
                #[trigger] json_text_of(w) == s@ && val_height(jmodel(w)) <= 120 ==> v@ == jmodel(
                    w,
                )),
            r matches Ok(v) ==> val_wf(v@) && nums_wf(v) && val_height(v@) <= 128,
    {
        match jv_parse(s) {
            Ok(jv) => {
                let out = jv_to_value(jv, 200);
                Ok(out)
            },
            Err(msg) => Err(WalleError::Decode(msg)),
        }
    }

    /// Encoding to the binary form; total on well-formed values within the
    /// codec's depth budget, which admits anything either decoder can
    /// produce.
    pub fn rmp_encode(&self) -> (r: Vec<u8>)
        requires
            val_wf(self@),
            nums_wf(*self),
            val_height(self@) <= 1024,
        ensures
            exists|j: serde_json::Value|
                #[trigger] msgpack_of(j) == r@ && jmodel(j) == wire_model(self@),
    {
        let jv = value_to_jv(self);
        proof {
            lemma_wire_model_height(self@);
        }
        let r = jv_to_msgpack(&jv);
        proof {
            assert(msgpack_of(jv) == r@ && jmodel(jv) == wire_model(self@));
        }
        r
    }

    /// Decoding from the binary form: the exact inverse of encoding on every
    /// byte string some value encodes to.
    pub fn rmp_decode(b: &[u8]) -> (r: Result<DynValue, WalleError>)
        ensures
            r matches Ok(v) ==> msgpack_doc(b@) == Some(v@),
            r is Err <==> msgpack_doc(b@) is None,
            r is Err ==> (forall|w: serde_json::Value|
                #[trigger] msgpack_of(w) == b@ ==> val_height(jmodel(w)) > 1000),
            r matches Ok(v) ==> (forall|w: serde_json::Value|
                #[trigger] msgpack_of(w) == b@ && val_height(jmodel(w)) <= 1000 ==> v@ == jmodel(
                    w,
                )),
            r matches Ok(v) ==> val_wf(v@) && nums_wf(v) && val_height(v@) <= 1024,
    {
        match jv_from_msgpack(b) {
            Ok(jv) => {
                let out = jv_to_value(jv, 1030);
                Ok(out)
            },
            Err(msg) => Err(WalleError::Decode(msg)),
        }
    }

}

/// Round trip through the text form: a byte-free, well-formed value within
/// the depth budget decodes from its own encoding to an equal value.
pub fn json_round_trip(v: &DynValue) -> (r: DynValue)
    requires
        val_wf(v@),
        nums_wf(*v),
        bytes_free(v@),
        val_height(v@) <= 119,
    ensures
        r@ == v@,
{
    let s = v.json_encode();
    proof {
        lemma_wire_model_id(v@);
        lemma_wire_model_height(v@);
    }
    match DynValue::json_decode(s.as_str()) {
        Ok(out) => out,
        Err(_) => {
            proof {
                let j = choose|j: serde_json::Value|
                    #[trigger] json_text_of(j) == s@ && jmodel(j) == wire_model(v@);
                assert(false);
            }
            DynValue::Null
        },
    }
}

/// Round trip through the binary form.
pub fn rmp_round_trip(v: &DynValue) -> (r: DynValue)
    requires
        val_wf(v@),
        nums_wf(*v),
        bytes_free(v@),
        val_height(v@) <= 999,
    ensures
        r@ == v@,
{
    let b = v.rmp_encode();
    proof {
        lemma_wire_model_id(v@);
        lemma_wire_model_height(v@);
    }
    match DynValue::rmp_decode(b.as_slice()) {
        Ok(out) => out,
        Err(_) => {
            proof {
                let j = choose|j: serde_json::Value|
                    #[trigger] msgpack_of(j) == b@ && jmodel(j) == wire_model(v@);
                assert(false);
            }
            DynValue::Null
        },
    }
}


// ------------------------------------------------------------------
// Small conveniences for the transport layer
// ------------------------------------------------------------------

/// Relies on std::time::SystemTime::now and duration_since: nanoseconds since
/// the epoch. The clock stands after the epoch on any machine this runtime
/// serves, so the underlying conversion cannot fail; nothing can be promised
/// of the reading itself.
#[verifier::external_body]
pub fn timestamp_nano() -> u128 {
    std::time::SystemTime::now()
        .duration_since(std::time::UNIX_EPOCH)
        .unwrap()
        .as_nanos()
}

/// The hyphenated text of the identifier built from a 128-bit integer; it
/// depends on the integer alone.
pub uninterp spec fn uuid_text(n: u128) -> Seq<char>;

/// A lowercase hexadecimal digit.
pub open spec fn hex_lower(c: char) -> bool {
    ('0' <= c && c <= '9') || ('a' <= c && c <= 'f')
}

/// The canonical hyphenated identifier shape: 36 characters, hyphens at the
/// four group breaks, lowercase hexadecimal everywhere else.
pub open spec fn uuid_shape(s: Seq<char>) -> bool {
    s.len() == 36 && s[8] == '-' && s[13] == '-' && s[18] == '-' && s[23] == '-' && (forall|i: int|
        0 <= i < 36 && i != 8 && i != 13 && i != 18 && i != 23 ==> hex_lower(#[trigger] s[i]))
}

/// Relies on uuid::Uuid::from_u128 and its Display form: deterministic, the
/// canonical hyphenated lowercase form, and a faithful encoding of the
/// 128-bit value, so distinct integers print distinct texts.
#[verifier::external_body]
fn uuid_string(n: u128) -> (r: String)
    ensures
        r@ == uuid_text(n),
        uuid_shape(r@),
        forall|m: u128| r@ == uuid_text(m) ==> m == n,
{
    uuid::Uuid::from_u128(n).to_string()
}

/// A fresh identifier derived from the current clock reading: identifiers
/// drawn at distinct clock readings are distinct.
pub fn new_uuid() -> (r: String)
    ensures
        uuid_shape(r@),
        exists|n: u128| r@ == uuid_text(n) && (forall|m: u128| r@ == uuid_text(m) ==> m == n),
{
    let ts = timestamp_nano();
    uuid_string(ts)
}


/// Anything that knows which bot identity it belongs to.
pub trait SelfId: Sized {
    fn self_id(&self) -> String;
}

/// A source that can enumerate every bot identity it currently serves; the
/// transport layer answers asynchronously and hands the finished list over.
pub trait SelfIds {
    fn self_ids(&self) -> Vec<String>;
}

/// The authorization convenience: a configured bearer token renders as the
/// value of an `Authorization` header; an absent token renders no header.
pub fn auth_header_value(token: &Option<String>) -> (r: Option<String>)
    ensures
        token matches Some(t) ==> (r matches Some(h) && h@ == "Bearer "@ + t@),
        token is None ==> r is None,
{
    match token {
        Some(t) => {
            let mut h = "Bearer ".to_owned();
            h.append(t.as_str());
            Some(h)
        },
        None => None,
    }
}

} // verus!
