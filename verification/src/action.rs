use vstd::prelude::*;

use crate::bridge::str_eq;
use crate::error::WalleError;
use crate::segment::{lemma_segs_round_trip, segs_narrow, segs_val, segs_widen, MessageSegment};
use crate::value::{
    find_key, lemma_pairs_val_of_push, remove_key, upsert, wf_pairs, val_wf, Pairs, Val, DynValue,
    ValueMap,
};

verus! {

/// An action envelope: the action's name and its parameter map.
#[derive(Debug, PartialEq)]
pub struct Action {
    pub action: String,
    pub params: ValueMap,
}

/// The wire image of an action.
pub open spec fn action_pairs(name: Seq<char>, params: Pairs) -> Pairs {
    seq![("action"@, Val::Str(name)), ("params"@, Val::Obj(params))]
}

/// Narrowing a value map into an action: `action` leaves first, then
/// `params`.
pub open spec fn action_narrow(pairs: Pairs) -> Option<(Seq<char>, Pairs)> {
    match find_key(pairs, "action"@) {
        Some(Val::Str(t)) => match find_key(remove_key(pairs, "action"@), "params"@) {
            Some(Val::Obj(d)) => Some((t, d)),
            _ => None,
        },
        _ => None,
    }
}

impl Action {
    /// Widening: always succeeds.
    pub fn to_value(self) -> (r: DynValue)
        ensures
            r@ == Val::Obj(action_pairs(self.action@, self.params@)),
            wf_pairs(self.params@) ==> val_wf(r@),
    {
        let ghost name_v = self.action@;
        let ghost params_v = self.params@;
        let mut m = ValueMap::new();
        m.insert("action".to_owned(), DynValue::Str(self.action));
        m.insert("params".to_owned(), DynValue::Obj(self.params));
        proof {
            reveal_strlit("action");
            reveal_strlit("params");
            assert("action"@[0] == 'a');
            assert("params"@[0] == 'p');
            assert("action"@ != "params"@);
            assert(upsert(Seq::<(Seq<char>, Val)>::empty(), "action"@, Val::Str(name_v)) =~= seq![
                ("action"@, Val::Str(name_v)),
            ]);
            assert(seq![("action"@, Val::Str(name_v))][0] == ("action"@, Val::Str(name_v)));
            assert(seq![("action"@, Val::Str(name_v))].drop_first() =~= Seq::<(Seq<char>,
                Val,
            )>::empty());
            assert(remove_key(
                seq![("action"@, Val::Str(name_v))].drop_first(),
                "params"@,
            ) =~= Seq::<(Seq<char>, Val)>::empty());
            assert(remove_key(seq![("action"@, Val::Str(name_v))], "params"@) =~= seq![
                ("action"@, Val::Str(name_v)),
            ]);
            assert(m@ =~= action_pairs(name_v, params_v));
        }
        DynValue::Obj(m)
    }

    /// Narrowing: fails for anything but a map, for an absent `action` or
    /// `params`, and for either of the wrong shape.
    pub fn from_value(v: DynValue) -> (r: Result<Action, WalleError>)
        ensures
            r is Ok <==> (v@ is Obj && action_narrow(v@->Obj_0) is Some),
            r matches Ok(a) ==> Some((a.action@, a.params@)) == action_narrow(v@->Obj_0),
            !(v@ is Obj) ==> (r matches Err(e) && e matches WalleError::ValueTypeNotMatch(_, _)),
            r matches Err(e) ==> (e is MapMissedKey || e is ValueTypeNotMatch),
    {
        let mut m = match v.downcast_map() {
            Ok(m) => m,
            Err(e) => {
                return Err(e);
            },
        };
        let action = match m.remove_downcast_str("action") {
            Ok(t) => t,
            Err(e) => {
                return Err(e);
            },
        };
        let params = match m.remove_downcast_map("params") {
            Ok(d) => d,
            Err(e) => {
                return Err(e);
            },
        };
        Ok(Action { action, params })
    }
}

/// Widening then narrowing an action restores its name and parameters.
pub proof fn lemma_action_round_trip(name: Seq<char>, params: Pairs)
    ensures
        action_narrow(action_pairs(name, params)) == Some((name, params)),
{
    reveal_strlit("action");
    reveal_strlit("params");
    assert("action"@[0] == 'a');
    assert("params"@[0] == 'p');
    let p = action_pairs(name, params);
    assert(p.drop_first() =~= seq![("params"@, Val::Obj(params))]);
    assert(find_key(p, "action"@) == Some(Val::Str(name)));
    assert(remove_key(p, "action"@) =~= seq![("params"@, Val::Obj(params))]);
}

/// The poll for buffered events, with its page size and its long-poll
/// timeout in seconds.
#[derive(Debug, PartialEq)]
pub struct GetLatestEvents {
    pub limit: i64,
    pub timeout: i64,
}

/// Narrowing of the poll parameters: `limit` leaves first, then `timeout`,
/// both required integers.
pub open spec fn gle_narrow(pairs: Pairs) -> Option<(int, int)> {
    match find_key(pairs, "limit"@) {
        Some(Val::Int(l)) => match find_key(remove_key(pairs, "limit"@), "timeout"@) {
            Some(Val::Int(t)) => Some((l, t)),
            _ => None,
        },
        _ => None,
    }
}

impl GetLatestEvents {
    /// Narrowing of the parameter map: both fields are required integers.
    pub fn from_map(mut m: ValueMap) -> (r: Result<GetLatestEvents, WalleError>)
        ensures
            r is Ok <==> gle_narrow(m@) is Some,
            r matches Ok(a) ==> Some((a.limit as int, a.timeout as int)) == gle_narrow(m@),
            find_key(m@, "limit"@) is None ==> (r matches Err(e) && e
                matches WalleError::MapMissedKey(_)),
            r matches Err(e) ==> (e is MapMissedKey || e is ValueTypeNotMatch),
    {
        let limit = match m.remove_downcast_int("limit") {
            Ok(x) => x,
            Err(e) => {
                return Err(e);
            },
        };
        let timeout = match m.remove_downcast_int("timeout") {
            Ok(x) => x,
            Err(e) => {
                return Err(e);
            },
        };
        Ok(GetLatestEvents { limit, timeout })
    }
}


/// The wire entries of the poll parameters.
pub open spec fn gle_pairs(limit: int, timeout: int) -> Pairs {
    seq![("limit"@, Val::Int(limit)), ("timeout"@, Val::Int(timeout))]
}

impl GetLatestEvents {
    /// Widening into a parameter map; total.
    pub fn to_map(self) -> (r: ValueMap)
        ensures
            r@ == gle_pairs(self.limit as int, self.timeout as int),
            wf_pairs(r@),
    {
        let ghost l = self.limit as int;
        let ghost t = self.timeout as int;
        let mut m = ValueMap::new();
        m.insert("limit".to_owned(), DynValue::Int(self.limit));
        m.insert("timeout".to_owned(), DynValue::Int(self.timeout));
        proof {
            reveal_strlit("limit");
            reveal_strlit("timeout");
            assert("limit"@[0] == 'l');
            assert("timeout"@[0] == 't');
            assert("limit"@ != "timeout"@);
            assert(upsert(Seq::<(Seq<char>, Val)>::empty(), "limit"@, Val::Int(l)) =~= seq![
                ("limit"@, Val::Int(l)),
            ]);
            assert(seq![("limit"@, Val::Int(l))][0] == ("limit"@, Val::Int(l)));
            assert(seq![("limit"@, Val::Int(l))].drop_first() =~= Seq::<(Seq<char>,
                Val,
            )>::empty());
            assert(remove_key(seq![("limit"@, Val::Int(l))].drop_first(), "timeout"@) =~= Seq::<
                (Seq<char>, Val),
            >::empty());
            assert(remove_key(seq![("limit"@, Val::Int(l))], "timeout"@) =~= seq![
                ("limit"@, Val::Int(l)),
            ]);
            assert(m@ =~= gle_pairs(l, t));
        }
        m
    }
}

/// Widening then narrowing the poll parameters restores both fields.
pub proof fn lemma_gle_round_trip(limit: int, timeout: int)
    ensures
        gle_narrow(gle_pairs(limit, timeout)) == Some((limit, timeout)),
{
    reveal_strlit("limit");
    reveal_strlit("timeout");
    assert("limit"@[0] == 'l');
    assert("timeout"@[0] == 't');
    let p = gle_pairs(limit, timeout);
    assert(p.drop_first() =~= seq![("timeout"@, Val::Int(timeout))]);
    assert(find_key(p, "limit"@) == Some(Val::Int(limit)));
    assert(remove_key(p, "limit"@) =~= seq![("timeout"@, Val::Int(timeout))]);
}

/// A user lookup by identifier.
#[derive(Debug, PartialEq)]
pub struct GetUserInfo {
    pub user_id: String,
}

/// Narrowing of the lookup parameters: the one required string.
pub open spec fn gui_narrow(pairs: Pairs) -> Option<Seq<char>> {
    match find_key(pairs, "user_id"@) {
        Option::Some(Val::Str(s)) => Some(s),
        _ => None,
    }
}

impl GetUserInfo {
    pub fn from_map(mut m: ValueMap) -> (r: Result<GetUserInfo, WalleError>)
        ensures
            r is Ok <==> gui_narrow(m@) is Some,
            r matches Ok(a) ==> Some(a.user_id@) == gui_narrow(m@),
            find_key(m@, "user_id"@) is None ==> (r matches Err(e) && e
                matches WalleError::MapMissedKey(_)),
            find_key(m@, "user_id"@) matches Some(v) && v is Str ==> (r matches Ok(a) && Some(
                Val::Str(a.user_id@),
            ) == find_key(m@, "user_id"@)),
            find_key(m@, "user_id"@) matches Some(v) && !(v is Str) ==> (r matches Err(e) && e
                matches WalleError::ValueTypeNotMatch(_, _)),
            r matches Err(e) ==> (e is MapMissedKey || e is ValueTypeNotMatch),
    {
        let user_id = match m.remove_downcast_str("user_id") {
            Ok(x) => x,
            Err(e) => {
                return Err(e);
            },
        };
        Ok(GetUserInfo { user_id })
    }
}



/// The wire entries of the lookup parameters.
pub open spec fn gui_pairs(user_id: Seq<char>) -> Pairs {
    seq![("user_id"@, Val::Str(user_id))]
}

impl GetUserInfo {
    /// Widening into a parameter map; total.
    pub fn to_map(self) -> (r: ValueMap)
        ensures
            r@ == gui_pairs(self.user_id@),
            wf_pairs(r@),
    {
        let ghost u = self.user_id@;
        let mut m = ValueMap::new();
        m.insert("user_id".to_owned(), DynValue::Str(self.user_id));
        proof {
            assert(upsert(Seq::<(Seq<char>, Val)>::empty(), "user_id"@, Val::Str(u)) =~= seq![
                ("user_id"@, Val::Str(u)),
            ]);
            assert(seq![("user_id"@, Val::Str(u))].drop_first() =~= Seq::<(Seq<char>,
                Val,
            )>::empty());
        }
        m
    }
}

/// Widening then narrowing the lookup parameters restores the identifier.
pub proof fn lemma_gui_round_trip(user_id: Seq<char>)
    ensures
        gui_narrow(gui_pairs(user_id)) == Some(user_id),
{
    let p = gui_pairs(user_id);
    assert(find_key(p, "user_id"@) == Some(Val::Str(user_id)));
}

/// Optional string extraction at the spec level: an absent key yields no
/// value, a string its text, anything else no match at all.
pub open spec fn try_str(pairs: Pairs, k: Seq<char>) -> Option<(Option<Seq<char>>, Pairs)> {
    match find_key(pairs, k) {
        Option::None => Some((None, remove_key(pairs, k))),
        Option::Some(Val::Str(s)) => Some((Some(s), remove_key(pairs, k))),
        Option::Some(_) => None,
    }
}

pub open spec fn opt_text(o: Option<String>) -> Option<Seq<char>> {
    match o {
        Some(s) => Some(s@),
        None => None,
    }
}

/// The message-sending action: where it goes, and the segments it carries.
#[derive(Debug, PartialEq)]
pub struct SendMessage {
    pub detail_type: String,
    pub group_id: Option<String>,
    pub user_id: Option<String>,
    pub channel_id: Option<String>,
    pub guild_id: Option<String>,
    pub message: Vec<MessageSegment>,
}

/// Narrowing of the send parameters: the required target kind, four optional
/// identifiers, then the message sequence.
pub open spec fn sm_narrow(m0: Pairs) -> Option<
    (
        Seq<char>,
        Option<Seq<char>>,
        Option<Seq<char>>,
        Option<Seq<char>>,
        Option<Seq<char>>,
        Seq<(Seq<char>, Pairs)>,
    ),
> {
    match find_key(m0, "detail_type"@) {
        Option::Some(Val::Str(dt)) => {
            let m1 = remove_key(m0, "detail_type"@);
            match try_str(m1, "group_id"@) {
                Option::Some((g, m2)) => match try_str(m2, "user_id"@) {
                    Option::Some((u, m3)) => match try_str(m3, "channel_id"@) {
                        Option::Some((c, m4)) => match try_str(m4, "guild_id"@) {
                            Option::Some((gu, m5)) => match find_key(m5, "message"@) {
                                Option::Some(Val::Arr(items)) => match segs_narrow(items) {
                                    Option::Some(sgs) => Some((dt, g, u, c, gu, sgs)),
                                    Option::None => None,
                                },
                                _ => None,
                            },
                            Option::None => None,
                        },
                        Option::None => None,
                    },
                    Option::None => None,
                },
                Option::None => None,
            }
        },
        _ => None,
    }
}

impl SendMessage {
    pub fn from_map(mut m: ValueMap) -> (r: Result<SendMessage, WalleError>)
        ensures
            r is Ok <==> sm_narrow(m@) is Some,
            r matches Ok(a) ==> Some(
                (
                    a.detail_type@,
                    opt_text(a.group_id),
                    opt_text(a.user_id),
                    opt_text(a.channel_id),
                    opt_text(a.guild_id),
                    segs_val(a.message@),
                ),
            ) == sm_narrow(m@),
            r matches Err(e) ==> (e is MapMissedKey || e is ValueTypeNotMatch),
    {
        let detail_type = match m.remove_downcast_str("detail_type") {
            Ok(x) => x,
            Err(e) => {
                return Err(e);
            },
        };
        let group_id = match m.try_remove_downcast_str("group_id") {
            Ok(x) => x,
            Err(e) => {
                return Err(e);
            },
        };
        let user_id = match m.try_remove_downcast_str("user_id") {
            Ok(x) => x,
            Err(e) => {
                return Err(e);
            },
        };
        let channel_id = match m.try_remove_downcast_str("channel_id") {
            Ok(x) => x,
            Err(e) => {
                return Err(e);
            },
        };
        let guild_id = match m.try_remove_downcast_str("guild_id") {
            Ok(x) => x,
            Err(e) => {
                return Err(e);
            },
        };
        let message_vals = match m.remove_downcast_arr("message") {
            Ok(x) => x,
            Err(e) => {
                return Err(e);
            },
        };
        let message = match MessageSegment::from_values(message_vals) {
            Ok(x) => x,
            Err(e) => {
                return Err(e);
            },
        };
        Ok(SendMessage { detail_type, group_id, user_id, channel_id, guild_id, message })
    }
}


/// An optional wire entry: one pair when the value is there, nothing when it
/// is not.
pub open spec fn opt_pair(k: Seq<char>, o: Option<Seq<char>>) -> Pairs {
    match o {
        Some(s) => seq![(k, Val::Str(s))],
        None => Seq::empty(),
    }
}

/// Optional extraction inverts the optional entry, whatever follows it, as
/// long as the key does not recur.
pub proof fn lemma_try_str_opt(k: Seq<char>, o: Option<Seq<char>>, rest: Pairs)
    requires
        find_key(rest, k) is None,
    ensures
        try_str(opt_pair(k, o) + rest, k) == Some((o, rest)),
{
    match o {
        Some(s) => {
            assert((opt_pair(k, o) + rest)[0] == (k, Val::Str(s)));
            assert((opt_pair(k, o) + rest).drop_first() =~= rest);
        },
        None => {
            assert(opt_pair(k, o) + rest =~= rest);
            crate::value::lemma_remove_key_absent(rest, k);
        },
    }
}

/// Lookup passes over an optional entry for another key.
pub proof fn lemma_find_key_opt_skip(k: Seq<char>, k2: Seq<char>, o: Option<Seq<char>>, rest: Pairs)
    requires
        k != k2,
    ensures
        find_key(opt_pair(k2, o) + rest, k) == find_key(rest, k),
{
    match o {
        Some(s) => {
            assert((opt_pair(k2, o) + rest)[0] == (k2, Val::Str(s)));
            assert((opt_pair(k2, o) + rest).drop_first() =~= rest);
        },
        None => {
            assert(opt_pair(k2, o) + rest =~= rest);
        },
    }
}

/// The wire entries of the send parameters: the required target kind, then
/// whichever optional identifiers are set, then the message.
pub open spec fn sm_pairs(
    detail_type: Seq<char>,
    group_id: Option<Seq<char>>,
    user_id: Option<Seq<char>>,
    channel_id: Option<Seq<char>>,
    guild_id: Option<Seq<char>>,
    segs: Seq<(Seq<char>, Pairs)>,
) -> Pairs {
    seq![("detail_type"@, Val::Str(detail_type))] + opt_pair("group_id"@, group_id) + opt_pair(
        "user_id"@,
        user_id,
    ) + opt_pair("channel_id"@, channel_id) + opt_pair("guild_id"@, guild_id) + seq![
        ("message"@, Val::Arr(segs_widen(segs))),
    ]
}

impl SendMessage {
    /// Widening into a parameter map: an absent optional identifier writes no
    /// entry at all; total.
    pub fn to_map(self) -> (r: ValueMap)
        ensures
            r@ == sm_pairs(
                self.detail_type@,
                opt_text(self.group_id),
                opt_text(self.user_id),
                opt_text(self.channel_id),
                opt_text(self.guild_id),
                segs_val(self.message@),
            ),
    {
        let ghost dt = self.detail_type@;
        let ghost g = opt_text(self.group_id);
        let ghost u = opt_text(self.user_id);
        let ghost c = opt_text(self.channel_id);
        let ghost gu = opt_text(self.guild_id);
        let ghost sv = segs_val(self.message@);
        let mut m = ValueMap::new();
        let ghost s0 = m.entries@;
        m.entries.push(("detail_type".to_owned(), DynValue::Str(self.detail_type)));
        proof {
            lemma_pairs_val_of_push(s0, m.entries@.last());
            assert(m@ =~= seq![("detail_type"@, Val::Str(dt))]);
        }
        let ghost p1 = m@;
        if let Some(gv) = self.group_id {
            let ghost sb = m.entries@;
            m.entries.push(("group_id".to_owned(), DynValue::Str(gv)));
            proof {
                lemma_pairs_val_of_push(sb, m.entries@.last());
            }
        }
        proof {
            assert(m@ =~= p1 + opt_pair("group_id"@, g));
        }
        let ghost p2 = m@;
        if let Some(uv) = self.user_id {
            let ghost sb = m.entries@;
            m.entries.push(("user_id".to_owned(), DynValue::Str(uv)));
            proof {
                lemma_pairs_val_of_push(sb, m.entries@.last());
            }
        }
        proof {
            assert(m@ =~= p2 + opt_pair("user_id"@, u));
        }
        let ghost p3 = m@;
        if let Some(cv) = self.channel_id {
            let ghost sb = m.entries@;
            m.entries.push(("channel_id".to_owned(), DynValue::Str(cv)));
            proof {
                lemma_pairs_val_of_push(sb, m.entries@.last());
            }
        }
        proof {
            assert(m@ =~= p3 + opt_pair("channel_id"@, c));
        }
        let ghost p4 = m@;
        if let Some(guv) = self.guild_id {
            let ghost sb = m.entries@;
            m.entries.push(("guild_id".to_owned(), DynValue::Str(guv)));
            proof {
                lemma_pairs_val_of_push(sb, m.entries@.last());
            }
        }
        proof {
            assert(m@ =~= p4 + opt_pair("guild_id"@, gu));
        }
        let ghost p5 = m@;
        let vals = MessageSegment::to_values(self.message);
        let ghost sb = m.entries@;
        m.entries.push(("message".to_owned(), DynValue::Arr(vals)));
        proof {
            lemma_pairs_val_of_push(sb, m.entries@.last());
            assert(m@ =~= p5 + seq![("message"@, Val::Arr(segs_widen(sv)))]);
            assert(m@ =~= sm_pairs(dt, g, u, c, gu, sv));
        }
        m
    }
}

proof fn lemma_sm_keys_distinct()
    ensures
        "detail_type"@ != "group_id"@,
        "detail_type"@ != "user_id"@,
        "detail_type"@ != "channel_id"@,
        "detail_type"@ != "guild_id"@,
        "detail_type"@ != "message"@,
        "group_id"@ != "user_id"@,
        "group_id"@ != "channel_id"@,
        "group_id"@ != "guild_id"@,
        "group_id"@ != "message"@,
        "user_id"@ != "channel_id"@,
        "user_id"@ != "guild_id"@,
        "user_id"@ != "message"@,
        "channel_id"@ != "guild_id"@,
        "channel_id"@ != "message"@,
        "guild_id"@ != "message"@,
{
    reveal_strlit("detail_type");
    reveal_strlit("group_id");
    reveal_strlit("user_id");
    reveal_strlit("channel_id");
    reveal_strlit("guild_id");
    reveal_strlit("message");
    assert("detail_type"@[0] == 'd');
    assert("group_id"@[0] == 'g');
    assert("user_id"@[0] == 'u');
    assert("channel_id"@[0] == 'c');
    assert("guild_id"@[0] == 'g');
    assert("message"@[0] == 'm');
    assert("group_id"@[1] == 'r');
    assert("guild_id"@[1] == 'u');
}

/// Widening then narrowing the send parameters restores every field, present
/// or absent.
pub proof fn lemma_sm_round_trip(
    detail_type: Seq<char>,
    group_id: Option<Seq<char>>,
    user_id: Option<Seq<char>>,
    channel_id: Option<Seq<char>>,
    guild_id: Option<Seq<char>>,
    segs: Seq<(Seq<char>, Pairs)>,
)
    ensures
        sm_narrow(sm_pairs(detail_type, group_id, user_id, channel_id, guild_id, segs)) == Some(
            (detail_type, group_id, user_id, channel_id, guild_id, segs),
        ),
{
    lemma_sm_keys_distinct();
    let msg = seq![("message"@, Val::Arr(segs_widen(segs)))];
    let r4 = opt_pair("guild_id"@, guild_id) + msg;
    let r3 = opt_pair("channel_id"@, channel_id) + r4;
    let r2 = opt_pair("user_id"@, user_id) + r3;
    let r1 = opt_pair("group_id"@, group_id) + r2;
    let m0 = sm_pairs(detail_type, group_id, user_id, channel_id, guild_id, segs);
    assert(m0 =~= seq![("detail_type"@, Val::Str(detail_type))] + r1);
    assert(m0[0] == ("detail_type"@, Val::Str(detail_type)));
    assert(m0.drop_first() =~= r1);
    assert(find_key(m0, "detail_type"@) == Some(Val::Str(detail_type)));
    assert(remove_key(m0, "detail_type"@) =~= r1);
    assert(msg[0] == ("message"@, Val::Arr(segs_widen(segs))));
    assert(msg.drop_first() =~= Seq::<(Seq<char>, Val)>::empty());
    assert(find_key(msg, "message"@) == Some(Val::Arr(segs_widen(segs))));
    assert(find_key(msg.drop_first(), "group_id"@) is None);
    assert(find_key(msg, "group_id"@) is None);
    assert(find_key(msg.drop_first(), "user_id"@) is None);
    assert(find_key(msg, "user_id"@) is None);
    assert(find_key(msg.drop_first(), "channel_id"@) is None);
    assert(find_key(msg, "channel_id"@) is None);
    assert(find_key(msg.drop_first(), "guild_id"@) is None);
    assert(find_key(msg, "guild_id"@) is None);
    lemma_find_key_opt_skip("group_id"@, "guild_id"@, guild_id, msg);
    lemma_find_key_opt_skip("group_id"@, "channel_id"@, channel_id, r4);
    lemma_find_key_opt_skip("group_id"@, "user_id"@, user_id, r3);
    lemma_try_str_opt("group_id"@, group_id, r2);
    lemma_find_key_opt_skip("user_id"@, "guild_id"@, guild_id, msg);
    lemma_find_key_opt_skip("user_id"@, "channel_id"@, channel_id, r4);
    lemma_try_str_opt("user_id"@, user_id, r3);
    lemma_find_key_opt_skip("channel_id"@, "guild_id"@, guild_id, msg);
    lemma_try_str_opt("channel_id"@, channel_id, r4);
    lemma_try_str_opt("guild_id"@, guild_id, msg);
    lemma_segs_round_trip(segs);
}

/// A typed dispatch set over actions: each variant's tag is the lower-snake
/// form of its identifier.
#[derive(Debug, PartialEq)]
pub enum TypedAction {
    GetLatestEvents(GetLatestEvents),
    GetUserInfo(GetUserInfo),
    SendMessage(SendMessage),
}

impl TypedAction {
    /// Enum dispatch: the incoming tag is looked up against the variant tags;
    /// exactly one can match, since the tags are distinct; an unmatched tag
    /// fails with an unsupported-tag error carrying the original string.
    pub fn from_action(a: Action) -> (r: Result<TypedAction, WalleError>)
        ensures
            a.action@ == "get_latest_events"@ ==> (r is Ok <==> gle_narrow(a.params@) is Some),
            r is Ok && a.action@ == "get_latest_events"@ ==> (r->Ok_0) is GetLatestEvents
                && Some(
                (((r->Ok_0)->GetLatestEvents_0).limit as int, ((r->Ok_0)->GetLatestEvents_0).timeout as int),
            ) == gle_narrow(a.params@),
            a.action@ == "get_user_info"@ ==> (r is Ok <==> gui_narrow(a.params@) is Some),
            r is Ok && a.action@ == "get_user_info"@ ==> (r->Ok_0) is GetUserInfo && Some(
                ((r->Ok_0)->GetUserInfo_0).user_id@,
            ) == gui_narrow(a.params@),
            a.action@ == "send_message"@ ==> (r is Ok <==> sm_narrow(a.params@) is Some),
            r is Ok && a.action@ == "send_message"@ ==> (r->Ok_0) is SendMessage && Some(
                (
                    ((r->Ok_0)->SendMessage_0).detail_type@,
                    opt_text(((r->Ok_0)->SendMessage_0).group_id),
                    opt_text(((r->Ok_0)->SendMessage_0).user_id),
                    opt_text(((r->Ok_0)->SendMessage_0).channel_id),
                    opt_text(((r->Ok_0)->SendMessage_0).guild_id),
                    segs_val(((r->Ok_0)->SendMessage_0).message@),
                ),
            ) == sm_narrow(a.params@),
            r is Err && a.action@ == "get_latest_events"@ ==> !((r->Err_0) is UnsupportedTag),
            r is Err && a.action@ == "get_user_info"@ ==> !((r->Err_0) is UnsupportedTag),
            r is Err && a.action@ == "send_message"@ ==> !((r->Err_0) is UnsupportedTag),
            a.action@ != "get_latest_events"@ && a.action@ != "get_user_info"@ && a.action@
                != "send_message"@ ==> (r matches Err(e) && e
                matches WalleError::UnsupportedTag(tag) && tag@ == a.action@),
    {
        proof {
            reveal_strlit("get_latest_events");
            reveal_strlit("get_user_info");
            reveal_strlit("send_message");
            assert("get_latest_events"@[4] == 'l');
            assert("get_user_info"@[4] == 'u');
            assert("send_message"@[0] == 's');
            assert("get_latest_events"@[0] == 'g');
            assert("get_user_info"@[0] == 'g');
            assert("get_latest_events"@ != "get_user_info"@);
            assert("get_latest_events"@ != "send_message"@);
            assert("get_user_info"@ != "send_message"@);
        }
        if str_eq(a.action.as_str(), "get_latest_events") {
            match GetLatestEvents::from_map(a.params) {
                Ok(x) => Ok(TypedAction::GetLatestEvents(x)),
                Err(e) => Err(e),
            }
        } else if str_eq(a.action.as_str(), "get_user_info") {
            match GetUserInfo::from_map(a.params) {
                Ok(x) => Ok(TypedAction::GetUserInfo(x)),
                Err(e) => Err(e),
            }
        } else if str_eq(a.action.as_str(), "send_message") {
            match SendMessage::from_map(a.params) {
                Ok(x) => Ok(TypedAction::SendMessage(x)),
                Err(e) => Err(e),
            }
        } else {
            Err(WalleError::UnsupportedTag(a.action))
        }
    }
}

} // verus!
