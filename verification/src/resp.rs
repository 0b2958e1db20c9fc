use vstd::prelude::*;

use crate::error::WalleError;
use crate::value::{
    find_key, remove_key, val_wf, wf_pairs, lemma_pairs_val_of_push, Pairs, Val, DynValue,
    ValueMap,
};

verus! {

/// An action response envelope: the outcome status, its return code, the
/// result payload, and a human-readable message.
#[derive(Debug, PartialEq)]
pub struct Resp {
    pub status: String,
    pub retcode: i64,
    pub data: DynValue,
    pub message: String,
}

/// The wire entries of a response, in their canonical order.
pub open spec fn resp_pairs(status: Seq<char>, retcode: int, data: Val, message: Seq<char>) -> Pairs {
    seq![
        ("status"@, Val::Str(status)),
        ("retcode"@, Val::Int(retcode)),
        ("data"@, data),
        ("message"@, Val::Str(message)),
    ]
}

/// Narrowing a value map into a response: the four fields leave in order; the
/// payload may have any shape.
pub open spec fn resp_narrow(m0: Pairs) -> Option<(Seq<char>, int, Val, Seq<char>)> {
    match find_key(m0, "status"@) {
        Some(Val::Str(st)) => {
            let m1 = remove_key(m0, "status"@);
            match find_key(m1, "retcode"@) {
                Some(Val::Int(rc)) => {
                    let m2 = remove_key(m1, "retcode"@);
                    match find_key(m2, "data"@) {
                        Some(d) => {
                            let m3 = remove_key(m2, "data"@);
                            match find_key(m3, "message"@) {
                                Some(Val::Str(msg)) => Some((st, rc, d, msg)),
                                _ => None,
                            }
                        },
                        _ => None,
                    }
                },
                _ => None,
            }
        },
        _ => None,
    }
}

proof fn lemma_resp_keys_distinct()
    ensures
        "status"@ != "retcode"@,
        "status"@ != "data"@,
        "status"@ != "message"@,
        "retcode"@ != "data"@,
        "retcode"@ != "message"@,
        "data"@ != "message"@,
{
    reveal_strlit("status");
    reveal_strlit("retcode");
    reveal_strlit("data");
    reveal_strlit("message");
    assert("status"@[0] == 's');
    assert("retcode"@[0] == 'r');
    assert("data"@[0] == 'd');
    assert("message"@[0] == 'm');
}

impl Resp {
    /// Widening: always succeeds; the four fields under their own names.
    pub fn to_value(self) -> (r: DynValue)
        ensures
            r@ == Val::Obj(resp_pairs(self.status@, self.retcode as int, self.data@,
            self.message@)),
            val_wf(self.data@) ==> val_wf(r@),
    {
        let ghost rv = resp_pairs(self.status@, self.retcode as int, self.data@, self.message@);
        let mut m = ValueMap::new();
        let ghost s0 = m.entries@;
        m.entries.push(("status".to_owned(), DynValue::Str(self.status)));
        let ghost s1 = m.entries@;
        m.entries.push(("retcode".to_owned(), DynValue::Int(self.retcode)));
        let ghost s2 = m.entries@;
        m.entries.push(("data".to_owned(), self.data));
        let ghost s3 = m.entries@;
        m.entries.push(("message".to_owned(), DynValue::Str(self.message)));
        let ghost s4 = m.entries@;
        proof {
            lemma_resp_keys_distinct();
            lemma_pairs_val_of_push(s0, s1.last());
            lemma_pairs_val_of_push(s1, s2.last());
            lemma_pairs_val_of_push(s2, s3.last());
            lemma_pairs_val_of_push(s3, s4.last());
            assert(m@ =~= rv);
            if val_wf(self.data@) {
                reveal_with_fuel(find_key, 6);
                reveal_with_fuel(wf_pairs, 6);
                assert(rv.drop_first().drop_first().drop_first() =~= seq![
                    ("message"@, Val::Str(self.message@)),
                ]);
                assert(rv.drop_first().drop_first() =~= seq![
                    ("data"@, self.data@),
                    ("message"@, Val::Str(self.message@)),
                ]);
                assert(rv.drop_first() =~= seq![
                    ("retcode"@, Val::Int(self.retcode as int)),
                    ("data"@, self.data@),
                    ("message"@, Val::Str(self.message@)),
                ]);
                assert(wf_pairs(rv));
            }
        }
        DynValue::Obj(m)
    }

    /// Narrowing: each field removed and down-cast in order.
    pub fn from_value(v: DynValue) -> (r: Result<Resp, WalleError>)
        ensures
            r is Ok <==> (v@ is Obj && resp_narrow(v@->Obj_0) is Some),
            r matches Ok(resp) ==> Some(
                (resp.status@, resp.retcode as int, resp.data@, resp.message@),
            ) == resp_narrow(v@->Obj_0),
            !(v@ is Obj) ==> (r matches Err(e) && e matches WalleError::ValueTypeNotMatch(_, _)),
            r matches Err(e) ==> (e is MapMissedKey || e is ValueTypeNotMatch),
    {
        let mut m = match v.downcast_map() {
            Ok(m) => m,
            Err(e) => {
                return Err(e);
            },
        };
        let status = match m.remove_downcast_str("status") {
            Ok(x) => x,
            Err(e) => {
                return Err(e);
            },
        };
        let retcode = match m.remove_downcast_int("retcode") {
            Ok(x) => x,
            Err(e) => {
                return Err(e);
            },
        };
        let data = match m.remove("data") {
            Some(x) => x,
            None => {
                return Err(WalleError::MapMissedKey("data".to_owned()));
            },
        };
        let message = match m.remove_downcast_str("message") {
            Ok(x) => x,
            Err(e) => {
                return Err(e);
            },
        };
        Ok(Resp { status, retcode, data, message })
    }
}

/// Widening then narrowing a response restores every field.
pub proof fn lemma_resp_round_trip(status: Seq<char>, retcode: int, data: Val, message: Seq<char>)
    ensures
        resp_narrow(resp_pairs(status, retcode, data, message)) == Some(
            (status, retcode, data, message),
        ),
{
    reveal_with_fuel(find_key, 6);
    reveal_with_fuel(remove_key, 6);
    lemma_resp_keys_distinct();
    let p = resp_pairs(status, retcode, data, message);
    assert(p.drop_first() =~= seq![
        ("retcode"@, Val::Int(retcode)),
        ("data"@, data),
        ("message"@, Val::Str(message)),
    ]);
    assert(p.drop_first().drop_first() =~= seq![("data"@, data), ("message"@, Val::Str(message))]);
    assert(p.drop_first().drop_first().drop_first() =~= seq![("message"@, Val::Str(message))]);
    assert(find_key(p, "status"@) == Some(Val::Str(status)));
    assert(remove_key(p, "status"@) =~= p.drop_first());
    assert(remove_key(p.drop_first(), "retcode"@) =~= p.drop_first().drop_first());
    assert(remove_key(p.drop_first().drop_first(), "data"@) =~= p.drop_first().drop_first(
    ).drop_first());
}

} // verus!
