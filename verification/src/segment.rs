use vstd::prelude::*;

use crate::bridge::str_eq;
use crate::error::WalleError;
use crate::value::{
    find_key, lemma_seq_val_of_len, remove_key, seq_val_of, upsert, val_of, val_wf, wf_pairs,
    Pairs, Val, DynValue, ValueMap,
};

verus! {

/// One element of a message: a segment kind and its data payload.
#[derive(Debug, PartialEq)]
pub struct MessageSegment {
    pub ty: String,
    pub data: ValueMap,
}

/// A typed segment together with whatever extension fields its data carried
/// beyond the typed ones.
#[derive(Debug, PartialEq)]
pub struct BaseSegment<T> {
    pub segment: T,
    pub extra: ValueMap,
}

/// The wire image of a segment: its kind under the reserved key `type`, its
/// payload under `data`.
pub open spec fn seg_pairs(ty: Seq<char>, data: Pairs) -> Pairs {
    seq![("type"@, Val::Str(ty)), ("data"@, Val::Obj(data))]
}

/// Narrowing a value map into a segment: the `type` entry leaves first, then
/// the `data` entry.
pub open spec fn seg_narrow(pairs: Pairs) -> Option<(Seq<char>, Pairs)> {
    match find_key(pairs, "type"@) {
        Some(Val::Str(t)) => match find_key(remove_key(pairs, "type"@), "data"@) {
            Some(Val::Obj(d)) => Some((t, d)),
            _ => None,
        },
        _ => None,
    }
}

impl MessageSegment {
    /// Widening: always succeeds; the kind stands under the reserved wire key
    /// `type`, the payload under `data`.
    pub fn to_value(self) -> (r: DynValue)
        ensures
            r@ == Val::Obj(seg_pairs(self.ty@, self.data@)),
            wf_pairs(self.data@) ==> val_wf(r@),
    {
        let ghost ty_v = self.ty@;
        let ghost data_v = self.data@;
        let mut m = ValueMap::new();
        m.insert("type".to_owned(), DynValue::Str(self.ty));
        m.insert("data".to_owned(), DynValue::Obj(self.data));
        proof {
            reveal_strlit("type");
            reveal_strlit("data");
            assert(upsert(Seq::<(Seq<char>, Val)>::empty(), "type"@, Val::Str(ty_v)) =~= seq![
                ("type"@, Val::Str(ty_v)),
            ]);
            assert("type"@[0] == 't');
            assert("data"@[0] == 'd');
            assert("type"@ != "data"@);
            assert(seq![("type"@, Val::Str(ty_v))].drop_first() =~= Seq::<(Seq<char>,
                Val,
            )>::empty());
            assert(seq![("type"@, Val::Str(ty_v))][0] == ("type"@, Val::Str(ty_v)));
            assert(remove_key(
                seq![("type"@, Val::Str(ty_v))].drop_first(),
                "data"@,
            ) =~= Seq::<(Seq<char>, Val)>::empty());
            assert(remove_key(seq![("type"@, Val::Str(ty_v))], "data"@) =~= seq![
                ("type"@, Val::Str(ty_v)),
            ]);
            assert(m@ =~= seg_pairs(ty_v, data_v));
        }
        DynValue::Obj(m)
    }

    /// Narrowing: fails with a type-mismatch for anything but a map, with a
    /// missing-key error when `type` or `data` is absent, and with a
    /// type-mismatch when either has the wrong shape.
    pub fn from_value(v: DynValue) -> (r: Result<MessageSegment, WalleError>)
        ensures
            r is Ok <==> (v@ is Obj && seg_narrow(v@->Obj_0) is Some),
            r matches Ok(seg) ==> Some((seg.ty@, seg.data@)) == seg_narrow(v@->Obj_0),
            !(v@ is Obj) ==> (r matches Err(e) && e matches WalleError::ValueTypeNotMatch(_, _)),
            r matches Err(e) ==> (e is MapMissedKey || e is ValueTypeNotMatch),
    {
        let mut m = match v.downcast_map() {
            Ok(m) => m,
            Err(e) => {
                return Err(e);
            },
        };
        let ty = match m.remove_downcast_str("type") {
            Ok(t) => t,
            Err(e) => {
                return Err(e);
            },
        };
        let data = match m.remove_downcast_map("data") {
            Ok(d) => d,
            Err(e) => {
                return Err(e);
            },
        };
        Ok(MessageSegment { ty, data })
    }
}

/// Widening then narrowing a segment restores its kind and payload: the kind
/// round-trips through the reserved wire key `type`.
pub proof fn lemma_seg_round_trip(ty: Seq<char>, data: Pairs)
    ensures
        seg_narrow(seg_pairs(ty, data)) == Some((ty, data)),
{
    reveal_strlit("type");
    reveal_strlit("data");
    let p = seg_pairs(ty, data);
    assert(p.drop_first() =~= seq![("data"@, Val::Obj(data))]);
    assert(find_key(p, "type"@) == Some(Val::Str(ty)));
    assert(remove_key(p, "type"@) =~= seq![("data"@, Val::Obj(data))]);
}


/// Narrowing a sequence of values into segments: every element must be an
/// object that narrows as a segment; the first failure stops the sequence.
pub open spec fn segs_narrow(items: Seq<Val>) -> Option<Seq<(Seq<char>, Pairs)>>
    decreases items,
{
    if items.len() == 0 {
        Some(Seq::empty())
    } else {
        match items[0] {
            Val::Obj(pairs) => match seg_narrow(pairs) {
                Some(p) => match segs_narrow(items.drop_first()) {
                    Some(rest) => Some(seq![p] + rest),
                    None => None,
                },
                None => None,
            },
            _ => None,
        }
    }
}

/// The kinds and payloads of a segment sequence.
pub open spec fn segs_val(s: Seq<MessageSegment>) -> Seq<(Seq<char>, Pairs)> {
    Seq::new(s.len(), |i: int| (s[i].ty@, s[i].data@))
}

pub open spec fn segs_combine(done: Seq<(Seq<char>, Pairs)>, rest: Option<Seq<(Seq<char>, Pairs)>>) -> Option<
    Seq<(Seq<char>, Pairs)>,
> {
    match rest {
        Some(r) => Some(done + r),
        None => None,
    }
}

impl MessageSegment {
    /// Narrowing a whole message: each element in order; on any element's
    /// failure the whole conversion fails with that element's error.
    pub fn from_values(vals: Vec<DynValue>) -> (r: Result<Vec<MessageSegment>, WalleError>)
        ensures
            r is Ok <==> segs_narrow(seq_val_of(vals@)) is Some,
            r matches Ok(out) ==> Some(segs_val(out@)) == segs_narrow(seq_val_of(vals@)),
            r matches Err(e) ==> (e is MapMissedKey || e is ValueTypeNotMatch),
    {
        let ghost orig = vals@;
        let ghost full = seq_val_of(vals@);
        proof {
            lemma_seq_val_of_len(orig);
            assert(full.skip(0) =~= full);
            assert(segs_val(Seq::<MessageSegment>::empty()) =~= Seq::<(Seq<char>, Pairs)>::empty());
        }
        let mut rest = vals;
        let mut out: Vec<MessageSegment> = Vec::new();
        while rest.len() > 0
            invariant
                orig == vals@,
                out@.len() + rest@.len() == orig.len(),
                rest@ == orig.skip(out@.len() as int),
                full == seq_val_of(orig),
                full.len() == orig.len(),
                forall|j: int| 0 <= j < orig.len() ==> #[trigger] full[j] == val_of(orig[j]),
                segs_narrow(full) == segs_combine(
                    segs_val(out@),
                    segs_narrow(full.skip(out@.len() as int)),
                ),
            decreases rest@.len(),
        {
            let ghost i = out@.len() as int;
            let ghost rem = full.skip(i);
            proof {
                assert(rem[0] == full[i]);
                assert(rem.drop_first() =~= full.skip(i + 1));
            }
            let v = rest.remove(0);
            let seg = match MessageSegment::from_value(v) {
                Ok(seg) => seg,
                Err(e) => {
                    proof {
                        assert(segs_narrow(rem) is None);
                        assert(segs_narrow(full) is None);
                    }
                    return Err(e);
                },
            };
            let ghost p = (seg.ty@, seg.data@);
            out.push(seg);
            proof {
                assert(segs_narrow(rem) == match segs_narrow(full.skip(i + 1)) {
                    Some(r2) => Some(seq![p] + r2),
                    None => None,
                });
                assert(segs_val(out@) =~= segs_val(out@.drop_last()).push(p));
                match segs_narrow(full.skip(i + 1)) {
                    Some(r2) => {
                        assert(segs_val(out@.drop_last()) + (seq![p] + r2) =~= segs_val(out@)
                            + r2);
                    },
                    None => {},
                }
                assert(rest@ =~= orig.skip(out@.len() as int));
            }
        }
        proof {
            assert(full.skip(out@.len() as int) =~= Seq::<Val>::empty());
            assert(segs_val(out@) + Seq::<(Seq<char>, Pairs)>::empty() =~= segs_val(out@));
        }
        Ok(out)
    }
}


/// The wire values of a segment sequence.
pub open spec fn segs_widen(s: Seq<(Seq<char>, Pairs)>) -> Seq<Val> {
    Seq::new(s.len(), |i: int| Val::Obj(seg_pairs(s[i].0, s[i].1)))
}

/// Narrowing inverts widening on every segment sequence.
pub proof fn lemma_segs_round_trip(x: Seq<(Seq<char>, Pairs)>)
    ensures
        segs_narrow(segs_widen(x)) == Some(x),
    decreases x,
{
    if x.len() == 0 {
        assert(segs_widen(x) =~= Seq::<Val>::empty());
        assert(x =~= Seq::<(Seq<char>, Pairs)>::empty());
    } else {
        lemma_seg_round_trip(x[0].0, x[0].1);
        assert(segs_widen(x)[0] == Val::Obj(seg_pairs(x[0].0, x[0].1)));
        assert(segs_widen(x).drop_first() =~= segs_widen(x.drop_first()));
        lemma_segs_round_trip(x.drop_first());
        assert(seq![x[0]] + x.drop_first() =~= x);
    }
}

impl MessageSegment {
    /// Widening a whole message into wire values; total.
    pub fn to_values(segs: Vec<MessageSegment>) -> (r: Vec<DynValue>)
        ensures
            seq_val_of(r@) == segs_widen(segs_val(segs@)),
    {
        let ghost orig = segs@;
        let mut rest = segs;
        let mut out: Vec<DynValue> = Vec::new();
        while rest.len() > 0
            invariant
                orig == segs@,
                out@.len() + rest@.len() == orig.len(),
                rest@ == orig.skip(out@.len() as int),
                forall|j: int|
                    0 <= j < out@.len() ==> val_of(#[trigger] out@[j]) == Val::Obj(
                        seg_pairs(orig[j].ty@, orig[j].data@),
                    ),
            decreases rest@.len(),
        {
            let ghost i = out@.len() as int;
            proof {
                assert(rest@[0] == orig[i]);
            }
            let seg = rest.remove(0);
            let v = seg.to_value();
            out.push(v);
            proof {
                assert(rest@ =~= orig.skip(out@.len() as int));
            }
        }
        proof {
            lemma_seq_val_of_len(out@);
            assert(seq_val_of(out@) =~= segs_widen(segs_val(orig)));
        }
        out
    }
}

/// A plain-text segment.
#[derive(Debug, PartialEq)]
pub struct Text {
    pub text: String,
}

impl Text {
    /// Narrowing from a segment: the kind must be `text` (the lower-snake tag
    /// of this type), and the payload must carry a string under `text`.
    pub fn from_segment(seg: MessageSegment) -> (r: Result<Text, WalleError>)
        ensures
            seg.ty@ != "text"@ ==> (r matches Err(e) && e matches WalleError::UnsupportedTag(tag)
                && tag@ == seg.ty@),
            seg.ty@ == "text"@ && find_key(seg.data@, "text"@) is None ==> (r matches Err(e) && e
                matches WalleError::MapMissedKey(_)),
            find_key(seg.data@, "text"@) matches Some(v) && seg.ty@ == "text"@ && v is Str ==> (r
                matches Ok(t) && Some(Val::Str(t.text@)) == find_key(seg.data@, "text"@)),
            find_key(seg.data@, "text"@) matches Some(v) && seg.ty@ == "text"@ && !(v is Str)
                ==> (r matches Err(e) && e matches WalleError::ValueTypeNotMatch(_, _)),
    {
        if !str_eq(seg.ty.as_str(), "text") {
            return Err(WalleError::UnsupportedTag(seg.ty));
        }
        let mut data = seg.data;
        let text = match data.remove_downcast_str("text") {
            Ok(t) => t,
            Err(e) => {
                return Err(e);
            },
        };
        Ok(Text { text })
    }

    /// Widening into a segment; total.
    pub fn to_segment(self) -> (r: MessageSegment)
        ensures
            r.ty@ == "text"@,
            r.data@ == upsert(Seq::<(Seq<char>, Val)>::empty(), "text"@, Val::Str(self.text@)),
    {
        let mut data = ValueMap::new();
        data.insert("text".to_owned(), DynValue::Str(self.text));
        MessageSegment { ty: "text".to_owned(), data }
    }
}

/// An image segment, identified by the file it refers to.
#[derive(Debug, PartialEq)]
pub struct Image {
    pub file_id: String,
}

impl Image {
    pub fn from_segment(seg: MessageSegment) -> (r: Result<Image, WalleError>)
        ensures
            seg.ty@ != "image"@ ==> (r matches Err(e) && e matches WalleError::UnsupportedTag(tag)
                && tag@ == seg.ty@),
            seg.ty@ == "image"@ && find_key(seg.data@, "file_id"@) is None ==> (r matches Err(e)
                && e matches WalleError::MapMissedKey(_)),
            find_key(seg.data@, "file_id"@) matches Some(v) && seg.ty@ == "image"@ && v is Str
                ==> (r matches Ok(t) && Some(Val::Str(t.file_id@)) == find_key(
                seg.data@,
                "file_id"@,
            )),
            find_key(seg.data@, "file_id"@) matches Some(v) && seg.ty@ == "image"@ && !(v is Str)
                ==> (r matches Err(e) && e matches WalleError::ValueTypeNotMatch(_, _)),
    {
        if !str_eq(seg.ty.as_str(), "image") {
            return Err(WalleError::UnsupportedTag(seg.ty));
        }
        let mut data = seg.data;
        let file_id = match data.remove_downcast_str("file_id") {
            Ok(t) => t,
            Err(e) => {
                return Err(e);
            },
        };
        Ok(Image { file_id })
    }

    /// Widening into a segment; total.
    pub fn to_segment(self) -> (r: MessageSegment)
        ensures
            r.ty@ == "image"@,
            r.data@ == upsert(Seq::<(Seq<char>, Val)>::empty(), "file_id"@, Val::Str(
                self.file_id@,
            )),
    {
        let mut data = ValueMap::new();
        data.insert("file_id".to_owned(), DynValue::Str(self.file_id));
        MessageSegment { ty: "image".to_owned(), data }
    }
}

impl BaseSegment<Image> {
    /// Narrowing that keeps what the typed facet did not consume: the
    /// remaining payload entries become the segment's extension fields.
    pub fn from_segment(seg: MessageSegment) -> (r: Result<BaseSegment<Image>, WalleError>)
        ensures
            seg.ty@ != "image"@ ==> (r matches Err(e) && e matches WalleError::UnsupportedTag(tag)
                && tag@ == seg.ty@),
            find_key(seg.data@, "file_id"@) matches Some(v) && seg.ty@ == "image"@ && v is Str
                ==> (r matches Ok(t) && Some(Val::Str(t.segment.file_id@)) == find_key(
                seg.data@,
                "file_id"@,
            ) && t.extra@ == remove_key(seg.data@, "file_id"@)),
            seg.ty@ == "image"@ && find_key(seg.data@, "file_id"@) is None ==> (r matches Err(e)
                && e matches WalleError::MapMissedKey(_)),
            find_key(seg.data@, "file_id"@) matches Some(v) && seg.ty@ == "image"@ && !(v is Str)
                ==> (r matches Err(e) && e matches WalleError::ValueTypeNotMatch(_, _)),
    {
        if !str_eq(seg.ty.as_str(), "image") {
            return Err(WalleError::UnsupportedTag(seg.ty));
        }
        let mut data = seg.data;
        let file_id = match data.remove_downcast_str("file_id") {
            Ok(t) => t,
            Err(e) => {
                return Err(e);
            },
        };
        Ok(BaseSegment { segment: Image { file_id }, extra: data })
    }
}

} // verus!
