use vstd::prelude::*;

use crate::error::WalleError;
use crate::segment::{segs_narrow, segs_val, segs_widen, MessageSegment};
use crate::util::{
    bytes_free, jmodel, json_text_of, lemma_bytes_free_pairs_from_index,
    lemma_bytes_free_pairs_index, lemma_wire_model_id, wire_model,
};
use crate::value::{
    find_key, lemma_find_key_concat, lemma_height_pairs_concat, lemma_height_pairs_from_index,
    lemma_nums_wf_pairs_from_index, lemma_nums_wf_pairs_index, lemma_pairs_val_of_push,
    lemma_remove_key_absent, lemma_remove_key_concat, lemma_wf_pairs_concat, nums_wf, upsert,
    nums_wf_pairs, pairs_val_of, remove_key, val_height, val_wf, wf_pairs, Pairs, Val, DynValue,
    ValueMap,
};

verus! {

/// The fixed core of an event plus its open extension fields. The `time`
/// field is a number value (integer or float), kept with its exact wire
/// precision; the reserved identifiers `type` and `impl` are carried by the
/// fields `ty` and `implt`.
#[derive(Debug, PartialEq)]
pub struct Event {
    pub id: String,
    pub implt: String,
    pub platform: String,
    pub self_id: String,
    pub time: DynValue,
    pub ty: String,
    pub detail_type: String,
    pub sub_type: String,
    pub extra: ValueMap,
}

/// The model of an event.
pub struct EventV {
    pub id: Seq<char>,
    pub implt: Seq<char>,
    pub platform: Seq<char>,
    pub self_id: Seq<char>,
    pub time: Val,
    pub ty: Seq<char>,
    pub detail_type: Seq<char>,
    pub sub_type: Seq<char>,
    pub extra: Pairs,
}

impl View for Event {
    type V = EventV;

    open spec fn view(&self) -> EventV {
        EventV {
            id: self.id@,
            implt: self.implt@,
            platform: self.platform@,
            self_id: self.self_id@,
            time: self.time@,
            ty: self.ty@,
            detail_type: self.detail_type@,
            sub_type: self.sub_type@,
            extra: self.extra@,
        }
    }
}

/// No key of the fixed core occurs among extension fields.
pub open spec fn extra_clean(pairs: Pairs) -> bool {
    find_key(pairs, "id"@) is None && find_key(pairs, "impl"@) is None && find_key(pairs, "platform"@) is None && find_key(pairs, "self_id"@) is None && find_key(pairs, "time"@) is None && find_key(pairs, "type"@) is None && find_key(pairs, "detail_type"@) is None && find_key(pairs, "sub_type"@) is None
}

/// The wire entries of the fixed core, in their canonical order, with the
/// reserved overrides applied: `ty` under the wire key `type`, `implt` under
/// the wire key `impl`.
pub open spec fn event_fixed(e: EventV) -> Pairs {
    seq![
        ("id"@, Val::Str(e.id)),
        ("impl"@, Val::Str(e.implt)),
        ("platform"@, Val::Str(e.platform)),
        ("self_id"@, Val::Str(e.self_id)),
        ("time"@, e.time),
        ("type"@, Val::Str(e.ty)),
        ("detail_type"@, Val::Str(e.detail_type)),
        ("sub_type"@, Val::Str(e.sub_type)),
    ]
}

impl EventV {
    pub open spec fn wf(self) -> bool {
        (self.time is Int || self.time is Float) && wf_pairs(self.extra) && extra_clean(self.extra)
    }
}

/// Narrowing a value map into an event: the eight fixed entries leave, in
/// order; what remains is the extension payload.
pub open spec fn ev_narrow(m0: Pairs) -> Option<EventV> {
    match find_key(m0, "id"@) {
        Some(Val::Str(id)) => {
            let m1 = remove_key(m0, "id"@);
            match find_key(m1, "impl"@) {
                Some(Val::Str(implt)) => {
                    let m2 = remove_key(m1, "impl"@);
                    match find_key(m2, "platform"@) {
                        Some(Val::Str(platform)) => {
                            let m3 = remove_key(m2, "platform"@);
                            match find_key(m3, "self_id"@) {
                                Some(Val::Str(self_id)) => {
                                    let m4 = remove_key(m3, "self_id"@);
                                    match find_key(m4, "time"@) {
                                        Some(t) => if t is Int || t is Float {
                                            let m5 = remove_key(m4, "time"@);
                                            match find_key(m5, "type"@) {
                                                Some(Val::Str(ty)) => {
                                                    let m6 = remove_key(m5, "type"@);
                                                    match find_key(m6, "detail_type"@) {
                                                        Some(Val::Str(detail_type)) => {
                                                            let m7 = remove_key(m6, "detail_type"@);
                                                            match find_key(m7, "sub_type"@) {
                                                                Some(Val::Str(sub_type)) => {
                                                                    let m8 = remove_key(m7, "sub_type"@);
                                                                    Some(EventV {
                                                                        id: id, implt: implt, platform: platform, self_id: self_id, time: t,
                                                                        ty: ty, detail_type: detail_type, sub_type: sub_type, extra: m8,
                                                                    })
                                                                },
                                                                _ => None,
                                                            }
                                                        },
                                                        _ => None,
                                                    }
                                                },
                                                _ => None,
                                            }
                                        } else {
                                            None
                                        },
                                        _ => None,
                                    }
                                },
                                _ => None,
                            }
                        },
                        _ => None,
                    }
                },
                _ => None,
            }
        },
        _ => None,
    }
}

/// The eight fixed wire keys are pairwise distinct.
proof fn lemma_fixed_keys_distinct()
    ensures
        "id"@ != "impl"@,
        "id"@ != "platform"@,
        "id"@ != "self_id"@,
        "id"@ != "time"@,
        "id"@ != "type"@,
        "id"@ != "detail_type"@,
        "id"@ != "sub_type"@,
        "impl"@ != "platform"@,
        "impl"@ != "self_id"@,
        "impl"@ != "time"@,
        "impl"@ != "type"@,
        "impl"@ != "detail_type"@,
        "impl"@ != "sub_type"@,
        "platform"@ != "self_id"@,
        "platform"@ != "time"@,
        "platform"@ != "type"@,
        "platform"@ != "detail_type"@,
        "platform"@ != "sub_type"@,
        "self_id"@ != "time"@,
        "self_id"@ != "type"@,
        "self_id"@ != "detail_type"@,
        "self_id"@ != "sub_type"@,
        "time"@ != "type"@,
        "time"@ != "detail_type"@,
        "time"@ != "sub_type"@,
        "type"@ != "detail_type"@,
        "type"@ != "sub_type"@,
        "detail_type"@ != "sub_type"@,
{
    reveal_strlit("id");
    reveal_strlit("impl");
    reveal_strlit("platform");
    reveal_strlit("self_id");
    reveal_strlit("time");
    reveal_strlit("type");
    reveal_strlit("detail_type");
    reveal_strlit("sub_type");
    assert("id"@.len() == 2);
    assert("id"@[0] == 'i');
    assert("id"@[1] == 'd');
    assert("impl"@.len() == 4);
    assert("impl"@[0] == 'i');
    assert("impl"@[1] == 'm');
    assert("platform"@.len() == 8);
    assert("platform"@[0] == 'p');
    assert("platform"@[1] == 'l');
    assert("self_id"@.len() == 7);
    assert("self_id"@[0] == 's');
    assert("self_id"@[1] == 'e');
    assert("time"@.len() == 4);
    assert("time"@[0] == 't');
    assert("time"@[1] == 'i');
    assert("type"@.len() == 4);
    assert("type"@[0] == 't');
    assert("type"@[1] == 'y');
    assert("detail_type"@.len() == 11);
    assert("detail_type"@[0] == 'd');
    assert("detail_type"@[1] == 'e');
    assert("sub_type"@.len() == 8);
    assert("sub_type"@[0] == 's');
    assert("sub_type"@[1] == 'u');
    assert("id"@ != "impl"@);
    assert("id"@ != "platform"@);
    assert("id"@ != "self_id"@);
    assert("id"@ != "time"@);
    assert("id"@ != "type"@);
    assert("id"@ != "detail_type"@);
    assert("id"@ != "sub_type"@);
    assert("impl"@ != "platform"@);
    assert("impl"@ != "self_id"@);
    assert("impl"@ != "time"@);
    assert("impl"@ != "type"@);
    assert("impl"@ != "detail_type"@);
    assert("impl"@ != "sub_type"@);
    assert("platform"@ != "self_id"@);
    assert("platform"@ != "time"@);
    assert("platform"@ != "type"@);
    assert("platform"@ != "detail_type"@);
    assert("platform"@ != "sub_type"@);
    assert("self_id"@ != "time"@);
    assert("self_id"@ != "type"@);
    assert("self_id"@ != "detail_type"@);
    assert("self_id"@ != "sub_type"@);
    assert("time"@ != "type"@);
    assert("time"@ != "detail_type"@);
    assert("time"@ != "sub_type"@);
    assert("type"@ != "detail_type"@);
    assert("type"@ != "sub_type"@);
    assert("detail_type"@ != "sub_type"@);
}

impl Event {
    /// Widening: the extension fields first, then the fixed core under its
    /// wire keys; total on well-formed events.
    pub fn to_value(self) -> (r: DynValue)
        requires
            self@.wf(),
        ensures
            r@ == Val::Obj(self@.extra + event_fixed(self@)),
            val_wf(r@),
            nums_wf(DynValue::Obj(self.extra)) && nums_wf(self.time) ==> nums_wf(r),
            val_height(r@) <= val_height(Val::Obj(self@.extra)) + 1,
    {
        let ghost ev = self@;
        let ghost time0 = self.time;
        let mut m = self.extra;
        let ghost s0 = m.entries@;
        m.entries.push(("id".to_owned(), DynValue::Str(self.id)));
        let ghost s1 = m.entries@;
        m.entries.push(("impl".to_owned(), DynValue::Str(self.implt)));
        let ghost s2 = m.entries@;
        m.entries.push(("platform".to_owned(), DynValue::Str(self.platform)));
        let ghost s3 = m.entries@;
        m.entries.push(("self_id".to_owned(), DynValue::Str(self.self_id)));
        let ghost s4 = m.entries@;
        m.entries.push(("time".to_owned(), self.time));
        let ghost s5 = m.entries@;
        m.entries.push(("type".to_owned(), DynValue::Str(self.ty)));
        let ghost s6 = m.entries@;
        m.entries.push(("detail_type".to_owned(), DynValue::Str(self.detail_type)));
        let ghost s7 = m.entries@;
        m.entries.push(("sub_type".to_owned(), DynValue::Str(self.sub_type)));
        let ghost s8 = m.entries@;
        proof {
            lemma_fixed_keys_distinct();
            lemma_pairs_val_of_push(s0, s1.last());
            lemma_pairs_val_of_push(s1, s2.last());
            lemma_pairs_val_of_push(s2, s3.last());
            lemma_pairs_val_of_push(s3, s4.last());
            lemma_pairs_val_of_push(s4, s5.last());
            lemma_pairs_val_of_push(s5, s6.last());
            lemma_pairs_val_of_push(s6, s7.last());
            lemma_pairs_val_of_push(s7, s8.last());
            assert(m@ =~= ev.extra + event_fixed(ev));
            assert(wf_pairs(event_fixed(ev))) by {
                reveal_with_fuel(find_key, 10);
                reveal_with_fuel(wf_pairs, 10);
            }
            assert(forall|i: int|
                0 <= i < ev.extra.len() ==> find_key(
                    event_fixed(ev),
                    #[trigger] ev.extra[i].0,
                ) is None) by {
                reveal_with_fuel(find_key, 10);
                assert forall|i: int| 0 <= i < ev.extra.len() implies find_key(
                    event_fixed(ev),
                    #[trigger] ev.extra[i].0,
                ) is None by {
                    lemma_extra_key_not_fixed(ev, ev.extra[i].0, i);
                }
            }
            lemma_wf_pairs_concat(ev.extra, event_fixed(ev));
            if nums_wf_pairs(s0) && nums_wf(time0) {
                assert forall|i: int| 0 <= i < s8.len() implies nums_wf(
                    (#[trigger] s8[i]).1,
                ) by {
                    lemma_nums_wf_pairs_index(s0);
                }
                lemma_nums_wf_pairs_from_index(s8);
            }
            assert(val_height(Val::Obj(ev.extra + event_fixed(ev))) <= val_height(
                Val::Obj(ev.extra),
            ) + 1) by {
                lemma_height_pairs_from_index(event_fixed(ev), 1);
                lemma_height_pairs_concat(ev.extra, event_fixed(ev));
            }
        }
        DynValue::Obj(m)
    }

    /// Narrowing: each fixed field is removed and down-cast in order; an
    /// absent required field is a missing-key error, a wrong shape a
    /// type-mismatch; the surviving entries become `extra`.
    pub fn from_value(v: DynValue) -> (r: Result<Event, WalleError>)
        ensures
            r is Ok <==> (v@ is Obj && ev_narrow(v@->Obj_0) is Some),
            r matches Ok(e) ==> Some(e@) == ev_narrow(v@->Obj_0),
            !(v@ is Obj) ==> (r matches Err(e) && e matches WalleError::ValueTypeNotMatch(_, _)),
            r matches Err(e) ==> (e is MapMissedKey || e is ValueTypeNotMatch),
    {
        let mut m = match v.downcast_map() {
            Ok(m) => m,
            Err(e) => {
                return Err(e);
            },
        };
        let id = match m.remove_downcast_str("id") {
            Ok(x) => x,
            Err(e) => {
                return Err(e);
            },
        };
        let implt = match m.remove_downcast_str("impl") {
            Ok(x) => x,
            Err(e) => {
                return Err(e);
            },
        };
        let platform = match m.remove_downcast_str("platform") {
            Ok(x) => x,
            Err(e) => {
                return Err(e);
            },
        };
        let self_id = match m.remove_downcast_str("self_id") {
            Ok(x) => x,
            Err(e) => {
                return Err(e);
            },
        };
        let time = match m.remove_downcast_num("time") {
            Ok(x) => x,
            Err(e) => {
                return Err(e);
            },
        };
        let ty = match m.remove_downcast_str("type") {
            Ok(x) => x,
            Err(e) => {
                return Err(e);
            },
        };
        let detail_type = match m.remove_downcast_str("detail_type") {
            Ok(x) => x,
            Err(e) => {
                return Err(e);
            },
        };
        let sub_type = match m.remove_downcast_str("sub_type") {
            Ok(x) => x,
            Err(e) => {
                return Err(e);
            },
        };
        Ok(Event { id, implt, platform, self_id, time, ty, detail_type, sub_type, extra: m })
    }
}

/// No extension key can be found among the fixed wire entries.
proof fn lemma_extra_key_not_fixed(e: EventV, k: Seq<char>, i: int)
    requires
        extra_clean(e.extra),
        0 <= i < e.extra.len(),
        e.extra[i].0 == k,
    ensures
        find_key(event_fixed(e), k) is None,
{
    reveal_with_fuel(find_key, 10);
    reveal_strlit("id");
    reveal_strlit("impl");
    reveal_strlit("platform");
    reveal_strlit("self_id");
    reveal_strlit("time");
    reveal_strlit("type");
    reveal_strlit("detail_type");
    reveal_strlit("sub_type");
    lemma_fixed_keys_distinct();
    lemma_extra_key_is_found(e.extra, k, i);
}

/// A key standing in a list is found by lookup.
proof fn lemma_extra_key_is_found(pairs: Pairs, k: Seq<char>, i: int)
    requires
        0 <= i < pairs.len(),
        pairs[i].0 == k,
    ensures
        find_key(pairs, k) is Some,
    decreases i,
{
    if i > 0 {
        lemma_extra_key_is_found(pairs.drop_first(), k, i - 1);
    }
}

/// Widening then narrowing an event restores every field: the reserved
/// identifiers round-trip through the wire keys `type` and `impl`, and the
/// extension payload comes back whole.
pub proof fn lemma_event_round_trip(e: EventV)
    requires
        e.wf(),
    ensures
        ev_narrow(e.extra + event_fixed(e)) == Some(e),
{
    reveal_with_fuel(find_key, 10);
    reveal_with_fuel(remove_key, 10);
    lemma_fixed_keys_distinct();
    let f = event_fixed(e);
    lemma_find_key_concat(e.extra, f.skip(0), "id"@);
    assert(f.skip(0)[0] == f[0]);
    assert(f.skip(0).drop_first() =~= f.skip(1));
    assert(find_key(f.skip(0), "id"@) == Some(f[0].1));
    lemma_remove_key_concat(e.extra, f.skip(0), "id"@);
    assert(remove_key(f.skip(0), "id"@) =~= f.skip(1));
    assert(remove_key(e.extra + f.skip(0), "id"@) =~= e.extra + f.skip(1));
    lemma_find_key_concat(e.extra, f.skip(1), "impl"@);
    assert(f.skip(1)[0] == f[1]);
    assert(f.skip(1).drop_first() =~= f.skip(2));
    assert(find_key(f.skip(1), "impl"@) == Some(f[1].1));
    lemma_remove_key_concat(e.extra, f.skip(1), "impl"@);
    assert(remove_key(f.skip(1), "impl"@) =~= f.skip(2));
    assert(remove_key(e.extra + f.skip(1), "impl"@) =~= e.extra + f.skip(2));
    lemma_find_key_concat(e.extra, f.skip(2), "platform"@);
    assert(f.skip(2)[0] == f[2]);
    assert(f.skip(2).drop_first() =~= f.skip(3));
    assert(find_key(f.skip(2), "platform"@) == Some(f[2].1));
    lemma_remove_key_concat(e.extra, f.skip(2), "platform"@);
    assert(remove_key(f.skip(2), "platform"@) =~= f.skip(3));
    assert(remove_key(e.extra + f.skip(2), "platform"@) =~= e.extra + f.skip(3));
    lemma_find_key_concat(e.extra, f.skip(3), "self_id"@);
    assert(f.skip(3)[0] == f[3]);
    assert(f.skip(3).drop_first() =~= f.skip(4));
    assert(find_key(f.skip(3), "self_id"@) == Some(f[3].1));
    lemma_remove_key_concat(e.extra, f.skip(3), "self_id"@);
    assert(remove_key(f.skip(3), "self_id"@) =~= f.skip(4));
    assert(remove_key(e.extra + f.skip(3), "self_id"@) =~= e.extra + f.skip(4));
    lemma_find_key_concat(e.extra, f.skip(4), "time"@);
    assert(f.skip(4)[0] == f[4]);
    assert(f.skip(4).drop_first() =~= f.skip(5));
    assert(find_key(f.skip(4), "time"@) == Some(f[4].1));
    lemma_remove_key_concat(e.extra, f.skip(4), "time"@);
    assert(remove_key(f.skip(4), "time"@) =~= f.skip(5));
    assert(remove_key(e.extra + f.skip(4), "time"@) =~= e.extra + f.skip(5));
    lemma_find_key_concat(e.extra, f.skip(5), "type"@);
    assert(f.skip(5)[0] == f[5]);
    assert(f.skip(5).drop_first() =~= f.skip(6));
    assert(find_key(f.skip(5), "type"@) == Some(f[5].1));
    lemma_remove_key_concat(e.extra, f.skip(5), "type"@);
    assert(remove_key(f.skip(5), "type"@) =~= f.skip(6));
    assert(remove_key(e.extra + f.skip(5), "type"@) =~= e.extra + f.skip(6));
    lemma_find_key_concat(e.extra, f.skip(6), "detail_type"@);
    assert(f.skip(6)[0] == f[6]);
    assert(f.skip(6).drop_first() =~= f.skip(7));
    assert(find_key(f.skip(6), "detail_type"@) == Some(f[6].1));
    lemma_remove_key_concat(e.extra, f.skip(6), "detail_type"@);
    assert(remove_key(f.skip(6), "detail_type"@) =~= f.skip(7));
    assert(remove_key(e.extra + f.skip(6), "detail_type"@) =~= e.extra + f.skip(7));
    lemma_find_key_concat(e.extra, f.skip(7), "sub_type"@);
    assert(f.skip(7)[0] == f[7]);
    assert(f.skip(7).drop_first() =~= f.skip(8));
    assert(find_key(f.skip(7), "sub_type"@) == Some(f[7].1));
    lemma_remove_key_concat(e.extra, f.skip(7), "sub_type"@);
    assert(remove_key(f.skip(7), "sub_type"@) =~= f.skip(8));
    assert(remove_key(e.extra + f.skip(7), "sub_type"@) =~= e.extra + f.skip(8));
    assert(f.skip(0) =~= f);
    assert(e.extra + f.skip(8) =~= e.extra);
    lemma_remove_key_absent(e.extra, "sub_type"@);
}



impl crate::util::SelfId for Event {
    /// The bot identity an event belongs to.
    fn self_id(&self) -> (r: String)
        ensures
            r@ == self.self_id@,
    {
        self.self_id.clone()
    }
}


/// Round trip through the text wire form at the envelope level: an event
/// whose extension payload is well-formed, byte-free and of bounded depth
/// decodes from its own encoding to an equal event — the reserved
/// identifiers passing through the wire keys `type` and `impl` on the way.
pub fn event_text_round_trip(e: Event) -> (r: Event)
    requires
        e@.wf(),
        nums_wf(DynValue::Obj(e.extra)),
        nums_wf(e.time),
        bytes_free(Val::Obj(e@.extra)),
        val_height(Val::Obj(e@.extra)) <= 118,
    ensures
        r@ == e@,
{
    let ghost ev = e@;
    let v = e.to_value();
    proof {
        let whole = ev.extra + event_fixed(ev);
        lemma_bytes_free_pairs_index(ev.extra);
        assert forall|i: int| 0 <= i < whole.len() implies bytes_free(
            (#[trigger] whole[i]).1,
        ) by {
            if i < ev.extra.len() {
                assert(whole[i] == ev.extra[i]);
            } else {
                assert(whole[i] == event_fixed(ev)[i - ev.extra.len()]);
            }
        }
        lemma_bytes_free_pairs_from_index(whole);
        lemma_wire_model_id(v@);
    }
    let s = v.json_encode();
    let ghost j = choose|j: serde_json::Value|
        #[trigger] json_text_of(j) == s@ && jmodel(j) == wire_model(v@);
    let decoded = match DynValue::json_decode(s.as_str()) {
        Ok(out) => out,
        Err(_) => {
            proof {
                assert(json_text_of(j) == s@ && jmodel(j) == wire_model(v@));
                assert(false);
            }
            DynValue::Null
        },
    };
    proof {
        assert(decoded@ == jmodel(j));
        lemma_event_round_trip(ev);
    }
    match Event::from_value(decoded) {
        Ok(out) => out,
        Err(_) => {
            proof {
                assert(false);
            }
            Event {
                id: String::new(),
                implt: String::new(),
                platform: String::new(),
                self_id: String::new(),
                time: DynValue::Null,
                ty: String::new(),
                detail_type: String::new(),
                sub_type: String::new(),
                extra: ValueMap::new(),
            }
        },
    }
}



/// The wire entries of a status payload.
pub open spec fn status_pairs(good: bool, online: bool) -> Pairs {
    seq![("good"@, Val::Bool(good)), ("online"@, Val::Bool(online))]
}

/// The wire entries of a heartbeat facet.
pub open spec fn heartbeat_pairs(interval: int, good: bool, online: bool) -> Pairs {
    seq![("interval"@, Val::Int(interval)), ("status"@, Val::Obj(status_pairs(good, online)))]
}

impl Status {
    /// Widening into a payload map; total.
    pub fn to_map(self) -> (r: ValueMap)
        ensures
            r@ == status_pairs(self.good, self.online),
            wf_pairs(r@),
    {
        let ghost g = self.good;
        let mut m = ValueMap::new();
        m.insert("good".to_owned(), DynValue::Bool(self.good));
        m.insert("online".to_owned(), DynValue::Bool(self.online));
        proof {
            reveal_strlit("good");
            reveal_strlit("online");
            assert("good"@[0] == 'g');
            assert("online"@[0] == 'o');
            assert("good"@ != "online"@);
            assert(upsert(Seq::<(Seq<char>, Val)>::empty(), "good"@, Val::Bool(g)) =~= seq![
                ("good"@, Val::Bool(g)),
            ]);
            assert(seq![("good"@, Val::Bool(g))][0] == ("good"@, Val::Bool(g)));
            assert(seq![("good"@, Val::Bool(g))].drop_first() =~= Seq::<(Seq<char>, Val)>::empty());
            assert(remove_key(seq![("good"@, Val::Bool(g))].drop_first(), "online"@) =~= Seq::<
                (Seq<char>, Val),
            >::empty());
            assert(remove_key(seq![("good"@, Val::Bool(g))], "online"@) =~= seq![
                ("good"@, Val::Bool(g)),
            ]);
            assert(m@ =~= status_pairs(self.good, self.online));
        }
        m
    }
}

/// Widening then narrowing a status restores both flags.
pub proof fn lemma_status_round_trip(good: bool, online: bool)
    ensures
        status_narrow(status_pairs(good, online)) == Some((good, online)),
{
    reveal_strlit("good");
    reveal_strlit("online");
    assert("good"@[0] == 'g');
    assert("online"@[0] == 'o');
    let p = status_pairs(good, online);
    assert(p.drop_first() =~= seq![("online"@, Val::Bool(online))]);
    assert(find_key(p, "good"@) == Some(Val::Bool(good)));
    assert(remove_key(p, "good"@) =~= seq![("online"@, Val::Bool(online))]);
}

impl Heartbeat {
    /// Widening into an extension payload; total.
    pub fn to_map(self) -> (r: ValueMap)
        ensures
            r@ == heartbeat_pairs(self.interval as int, self.status.good, self.status.online),
            wf_pairs(r@),
    {
        let ghost iv = self.interval as int;
        let ghost g = self.status.good;
        let ghost o = self.status.online;
        let mut m = ValueMap::new();
        m.insert("interval".to_owned(), DynValue::Int(self.interval));
        m.insert("status".to_owned(), DynValue::Obj(self.status.to_map()));
        proof {
            reveal_strlit("interval");
            reveal_strlit("status");
            assert("interval"@[0] == 'i');
            assert("status"@[0] == 's');
            assert("interval"@ != "status"@);
            assert(upsert(Seq::<(Seq<char>, Val)>::empty(), "interval"@, Val::Int(iv)) =~= seq![
                ("interval"@, Val::Int(iv)),
            ]);
            assert(seq![("interval"@, Val::Int(iv))][0] == ("interval"@, Val::Int(iv)));
            assert(seq![("interval"@, Val::Int(iv))].drop_first() =~= Seq::<(Seq<char>,
                Val,
            )>::empty());
            assert(remove_key(seq![("interval"@, Val::Int(iv))].drop_first(), "status"@) =~= Seq::<
                (Seq<char>, Val),
            >::empty());
            assert(remove_key(seq![("interval"@, Val::Int(iv))], "status"@) =~= seq![
                ("interval"@, Val::Int(iv)),
            ]);
            assert(m@ =~= heartbeat_pairs(iv, g, o));
        }
        m
    }
}

/// Widening then narrowing a heartbeat restores its interval and status.
pub proof fn lemma_heartbeat_round_trip(interval: int, good: bool, online: bool)
    ensures
        heartbeat_narrow(heartbeat_pairs(interval, good, online)) == Some(
            (interval, good, online),
        ),
{
    reveal_strlit("interval");
    reveal_strlit("status");
    assert("interval"@[0] == 'i');
    assert("status"@[0] == 's');
    let p = heartbeat_pairs(interval, good, online);
    assert(p.drop_first() =~= seq![("status"@, Val::Obj(status_pairs(good, online)))]);
    assert(find_key(p, "interval"@) == Some(Val::Int(interval)));
    assert(remove_key(p, "interval"@) =~= seq![
        ("status"@, Val::Obj(status_pairs(good, online))),
    ]);
    lemma_status_round_trip(good, online);
}

/// The message facet of a message event: the segments, the message's own
/// identifier, its plain-text rendering, and the sender.
#[derive(Debug, PartialEq)]
pub struct Message {
    pub message: Vec<MessageSegment>,
    pub message_id: String,
    pub alt_message: String,
    pub user_id: String,
}

/// Narrowing of a message facet out of an event's extension payload.
pub open spec fn message_narrow(m0: Pairs) -> Option<
    (Seq<(Seq<char>, Pairs)>, Seq<char>, Seq<char>, Seq<char>),
> {
    match find_key(m0, "message"@) {
        Option::Some(Val::Arr(items)) => match segs_narrow(items) {
            Option::Some(sgs) => {
                let m1 = remove_key(m0, "message"@);
                match find_key(m1, "message_id"@) {
                    Option::Some(Val::Str(mid)) => {
                        let m2 = remove_key(m1, "message_id"@);
                        match find_key(m2, "alt_message"@) {
                            Option::Some(Val::Str(alt)) => {
                                let m3 = remove_key(m2, "alt_message"@);
                                match find_key(m3, "user_id"@) {
                                    Option::Some(Val::Str(uid)) => Some((sgs, mid, alt, uid)),
                                    _ => None,
                                }
                            },
                            _ => None,
                        }
                    },
                    _ => None,
                }
            },
            Option::None => None,
        },
        _ => None,
    }
}

impl Message {
    pub fn from_map(mut m: ValueMap) -> (r: Result<Message, WalleError>)
        ensures
            r is Ok <==> message_narrow(m@) is Some,
            r matches Ok(msg) ==> Some(
                (segs_val(msg.message@), msg.message_id@, msg.alt_message@, msg.user_id@),
            ) == message_narrow(m@),
            r matches Err(e) ==> (e is MapMissedKey || e is ValueTypeNotMatch),
    {
        let message_vals = match m.remove_downcast_arr("message") {
            Ok(x) => x,
            Err(e) => {
                return Err(e);
            },
        };
        let message = match MessageSegment::from_values(message_vals) {
            Ok(x) => x,
            Err(e) => {
                return Err(e);
            },
        };
        let message_id = match m.remove_downcast_str("message_id") {
            Ok(x) => x,
            Err(e) => {
                return Err(e);
            },
        };
        let alt_message = match m.remove_downcast_str("alt_message") {
            Ok(x) => x,
            Err(e) => {
                return Err(e);
            },
        };
        let user_id = match m.remove_downcast_str("user_id") {
            Ok(x) => x,
            Err(e) => {
                return Err(e);
            },
        };
        Ok(Message { message, message_id, alt_message, user_id })
    }
}


/// The wire entries of a message facet.
pub open spec fn message_pairs(
    segs: Seq<(Seq<char>, Pairs)>,
    message_id: Seq<char>,
    alt_message: Seq<char>,
    user_id: Seq<char>,
) -> Pairs {
    seq![
        ("message"@, Val::Arr(segs_widen(segs))),
        ("message_id"@, Val::Str(message_id)),
        ("alt_message"@, Val::Str(alt_message)),
        ("user_id"@, Val::Str(user_id)),
    ]
}

proof fn lemma_message_keys_distinct()
    ensures
        "message"@ != "message_id"@,
        "message"@ != "alt_message"@,
        "message"@ != "user_id"@,
        "message_id"@ != "alt_message"@,
        "message_id"@ != "user_id"@,
        "alt_message"@ != "user_id"@,
{
    reveal_strlit("message");
    reveal_strlit("message_id");
    reveal_strlit("alt_message");
    reveal_strlit("user_id");
    assert("message"@.len() == 7);
    assert("message_id"@.len() == 10);
    assert("alt_message"@.len() == 11);
    assert("user_id"@.len() == 7);
    assert("message"@[0] == 'm');
    assert("user_id"@[0] == 'u');
}

impl Message {
    /// Widening into an extension payload; total.
    pub fn to_map(self) -> (r: ValueMap)
        ensures
            r@ == message_pairs(
                segs_val(self.message@),
                self.message_id@,
                self.alt_message@,
                self.user_id@,
            ),
    {
        let ghost sv = segs_val(self.message@);
        let ghost mid = self.message_id@;
        let ghost alt = self.alt_message@;
        let ghost uid = self.user_id@;
        let vals = MessageSegment::to_values(self.message);
        let mut m = ValueMap::new();
        let ghost s0 = m.entries@;
        m.entries.push(("message".to_owned(), DynValue::Arr(vals)));
        let ghost s1 = m.entries@;
        m.entries.push(("message_id".to_owned(), DynValue::Str(self.message_id)));
        let ghost s2 = m.entries@;
        m.entries.push(("alt_message".to_owned(), DynValue::Str(self.alt_message)));
        let ghost s3 = m.entries@;
        m.entries.push(("user_id".to_owned(), DynValue::Str(self.user_id)));
        let ghost s4 = m.entries@;
        proof {
            lemma_pairs_val_of_push(s0, s1.last());
            lemma_pairs_val_of_push(s1, s2.last());
            lemma_pairs_val_of_push(s2, s3.last());
            lemma_pairs_val_of_push(s3, s4.last());
            assert(m@ =~= message_pairs(sv, mid, alt, uid));
        }
        m
    }
}

/// Widening then narrowing a message facet restores every field.
pub proof fn lemma_message_round_trip(
    segs: Seq<(Seq<char>, Pairs)>,
    message_id: Seq<char>,
    alt_message: Seq<char>,
    user_id: Seq<char>,
)
    ensures
        message_narrow(message_pairs(segs, message_id, alt_message, user_id)) == Some(
            (segs, message_id, alt_message, user_id),
        ),
{
    reveal_with_fuel(find_key, 6);
    reveal_with_fuel(remove_key, 6);
    lemma_message_keys_distinct();
    crate::segment::lemma_segs_round_trip(segs);
    let p = message_pairs(segs, message_id, alt_message, user_id);
    assert(p.drop_first() =~= seq![
        ("message_id"@, Val::Str(message_id)),
        ("alt_message"@, Val::Str(alt_message)),
        ("user_id"@, Val::Str(user_id)),
    ]);
    assert(p.drop_first().drop_first() =~= seq![
        ("alt_message"@, Val::Str(alt_message)),
        ("user_id"@, Val::Str(user_id)),
    ]);
    assert(p.drop_first().drop_first().drop_first() =~= seq![("user_id"@, Val::Str(user_id))]);
    assert(find_key(p, "message"@) == Some(Val::Arr(segs_widen(segs))));
    assert(remove_key(p, "message"@) =~= p.drop_first());
    assert(remove_key(p.drop_first(), "message_id"@) =~= p.drop_first().drop_first());
    assert(remove_key(p.drop_first().drop_first(), "alt_message"@) =~= p.drop_first().drop_first(
    ).drop_first());
}

/// The running-status payload of a heartbeat.
#[derive(Debug, PartialEq)]
pub struct Status {
    pub good: bool,
    pub online: bool,
}

/// Narrowing of a status payload: `good` leaves first, then `online`, both
/// required booleans.
pub open spec fn status_narrow(pairs: Pairs) -> Option<(bool, bool)> {
    match find_key(pairs, "good"@) {
        Some(Val::Bool(g)) => match find_key(remove_key(pairs, "good"@), "online"@) {
            Some(Val::Bool(o)) => Some((g, o)),
            _ => None,
        },
        _ => None,
    }
}

impl Status {
    pub fn from_map(mut m: ValueMap) -> (r: Result<Status, WalleError>)
        ensures
            r is Ok <==> status_narrow(m@) is Some,
            r matches Ok(st) ==> Some((st.good, st.online)) == status_narrow(m@),
            find_key(m@, "good"@) is None ==> (r matches Err(e) && e
                matches WalleError::MapMissedKey(_)),
    {
        let good = match m.remove_downcast_bool("good") {
            Ok(x) => x,
            Err(e) => {
                return Err(e);
            },
        };
        let online = match m.remove_downcast_bool("online") {
            Ok(x) => x,
            Err(e) => {
                return Err(e);
            },
        };
        Ok(Status { good, online })
    }
}

/// The heartbeat facet of a meta event: its interval and the current status.
#[derive(Debug, PartialEq)]
pub struct Heartbeat {
    pub interval: i64,
    pub status: Status,
}

/// Narrowing of a heartbeat facet out of an event's extension payload:
/// `interval` leaves first, then the `status` object, narrowed in turn.
pub open spec fn heartbeat_narrow(pairs: Pairs) -> Option<(int, bool, bool)> {
    match find_key(pairs, "interval"@) {
        Some(Val::Int(iv)) => match find_key(remove_key(pairs, "interval"@), "status"@) {
            Some(Val::Obj(st)) => match status_narrow(st) {
                Some((g, o)) => Some((iv, g, o)),
                _ => None,
            },
            _ => None,
        },
        _ => None,
    }
}

impl Heartbeat {
    pub fn from_map(mut m: ValueMap) -> (r: Result<Heartbeat, WalleError>)
        ensures
            r is Ok <==> heartbeat_narrow(m@) is Some,
            r matches Ok(hb) ==> Some((hb.interval as int, hb.status.good, hb.status.online))
                == heartbeat_narrow(m@),
            find_key(m@, "interval"@) is None ==> (r matches Err(e) && e
                matches WalleError::MapMissedKey(_)),
    {
        let interval = match m.remove_downcast_int("interval") {
            Ok(x) => x,
            Err(e) => {
                return Err(e);
            },
        };
        let status_map = match m.remove_downcast_map("status") {
            Ok(x) => x,
            Err(e) => {
                return Err(e);
            },
        };
        let status = match Status::from_map(status_map) {
            Ok(x) => x,
            Err(e) => {
                return Err(e);
            },
        };
        Ok(Heartbeat { interval, status })
    }
}

} // verus!
