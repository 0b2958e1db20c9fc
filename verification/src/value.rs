use vstd::prelude::*;

use crate::error::WalleError;

verus! {

// `serde_json::Number` carries the protocol's non-integer numbers opaquely, so
// that the sub-second precision of a decoded time survives re-encoding exactly.
#[verifier::external_type_specification]
#[verifier::external_body]
pub struct ExJsonNumber(serde_json::Number);

/// The JSON text of a number value; it depends on the number alone.
pub uninterp spec fn num_text(n: serde_json::Number) -> Seq<char>;

/// Relies on serde_json::Number's PartialEq: numbers whose decimal texts
/// agree are the same category and magnitude, so they compare equal; and
/// equal numbers have the same integer reading. (The converse of the first
/// clause does not hold: a negative and a positive floating zero compare
/// equal yet print differently.)
pub assume_specification[ <serde_json::Number as PartialEq>::eq ](
    a: &serde_json::Number,
    b: &serde_json::Number,
) -> (r: bool)
    ensures
        num_text(*a) == num_text(*b) ==> r,
        r ==> num_int(*a) == num_int(*b),
;

/// Relies on serde_json::Number's Clone: the clone is the same number.
pub assume_specification[ <serde_json::Number as Clone>::clone ](n: &serde_json::Number) -> (r:
    serde_json::Number)
    ensures
        r == *n,
;

/// The signed-64-bit reading of a number value, where it has one; it depends
/// on the number alone.
pub uninterp spec fn num_int(n: serde_json::Number) -> Option<int>;

/// Relies on serde_json::Number::as_i64: Some exactly for values that are
/// 64-bit signed integers.
pub assume_specification[ serde_json::Number::as_i64 ](n: &serde_json::Number) -> (r: Option<i64>)
    ensures
        r matches Some(i) ==> num_int(*n) == Some(i as int),
        r is None ==> num_int(*n) is None,
;

/// The model of a number value: its integer reading where it has one, else
/// its decimal text.
pub open spec fn num_val(n: serde_json::Number) -> Val {
    match num_int(n) {
        Some(i) => Val::Int(i),
        None => Val::Float(num_text(n)),
    }
}

/// The mathematical model of a dynamic protocol value.
pub enum Val {
    Null,
    Bool(bool),
    Int(int),
    /// A non-integer number, modelled by its decimal text.
    Float(Seq<char>),
    Str(Seq<char>),
    Bytes(Seq<u8>),
    Arr(Seq<Val>),
    /// An ordered association list: keys unique, insertion order kept.
    Obj(Seq<(Seq<char>, Val)>),
}

pub type Pairs = Seq<(Seq<char>, Val)>;

/// First-match lookup in an association list.
pub open spec fn find_key(pairs: Pairs, k: Seq<char>) -> Option<Val>
    decreases pairs,
{
    if pairs.len() == 0 {
        None
    } else if pairs[0].0 == k {
        Some(pairs[0].1)
    } else {
        find_key(pairs.drop_first(), k)
    }
}

/// Removal of the first entry holding a key, order of the rest kept.
pub open spec fn remove_key(pairs: Pairs, k: Seq<char>) -> Pairs
    decreases pairs,
{
    if pairs.len() == 0 {
        pairs
    } else if pairs[0].0 == k {
        pairs.drop_first()
    } else {
        seq![pairs[0]] + remove_key(pairs.drop_first(), k)
    }
}

/// The map update used by `ValueMap::insert`: the old entry for the key leaves,
/// the new entry stands at the end, as the latest insertion.
pub open spec fn upsert(pairs: Pairs, k: Seq<char>, v: Val) -> Pairs {
    remove_key(pairs, k).push((k, v))
}

pub open spec fn wf_pairs(pairs: Pairs) -> bool
    decreases pairs,
{
    if pairs.len() == 0 {
        true
    } else {
        find_key(pairs.drop_first(), pairs[0].0) is None && val_wf(pairs[0].1) && wf_pairs(
            pairs.drop_first(),
        )
    }
}

pub open spec fn wf_seq(items: Seq<Val>) -> bool
    decreases items,
{
    if items.len() == 0 {
        true
    } else {
        val_wf(items[0]) && wf_seq(items.drop_first())
    }
}

/// Well-formedness: every object in the value has unique keys.
pub open spec fn val_wf(v: Val) -> bool
    decreases v,
{
    match v {
        Val::Arr(items) => wf_seq(items),
        Val::Obj(pairs) => wf_pairs(pairs),
        _ => true,
    }
}

pub open spec fn val_height(v: Val) -> nat
    decreases v,
{
    match v {
        Val::Arr(items) => 1 + height_of_seq(items),
        Val::Obj(pairs) => 1 + height_of_pairs(pairs),
        _ => 1,
    }
}

pub open spec fn height_of_seq(items: Seq<Val>) -> nat
    decreases items,
{
    if items.len() == 0 {
        0
    } else {
        let h = val_height(items[0]);
        let rest = height_of_seq(items.drop_first());
        if h > rest {
            h
        } else {
            rest
        }
    }
}

pub open spec fn height_of_pairs(pairs: Pairs) -> nat
    decreases pairs,
{
    if pairs.len() == 0 {
        0
    } else {
        let h = val_height(pairs[0].1);
        let rest = height_of_pairs(pairs.drop_first());
        if h > rest {
            h
        } else {
            rest
        }
    }
}

/// The dynamic tagged value of the protocol. Structural equality is
/// variant-exact: an integer and a float of the same magnitude differ.
#[derive(Debug, PartialEq)]
pub enum DynValue {
    Null,
    Bool(bool),
    Int(i64),
    /// A non-integer (or out-of-range) number, held opaquely with its exact
    /// wire precision.
    Float(serde_json::Number),
    Str(String),
    Bytes(Vec<u8>),
    Arr(Vec<DynValue>),
    Obj(ValueMap),
}

/// A mapping from string key to value: keys unique, last insertion for a key
/// wins, insertion order kept for stable re-serialization.
///
/// Key order is not semantically significant: every narrowing contract reads
/// the map through keyed lookup (`find_key`), never through positions, and
/// the codec preserves order end-to-end, so a decode–encode–decode cycle
/// yields equal values. The derived equality below is nevertheless
/// order-sensitive: two documents of independent origins whose keys merely
/// stand in different orders compare unequal as values, though they narrow
/// to the same fields.
#[derive(Debug, PartialEq)]
pub struct ValueMap {
    pub entries: Vec<(String, DynValue)>,
}

pub open spec fn val_of(v: DynValue) -> Val
    decreases v,
{
    match v {
        DynValue::Null => Val::Null,
        DynValue::Bool(b) => Val::Bool(b),
        DynValue::Int(i) => Val::Int(i as int),
        DynValue::Float(n) => Val::Float(num_text(n)),
        DynValue::Str(s) => Val::Str(s@),
        DynValue::Bytes(b) => Val::Bytes(b@),
        DynValue::Arr(items) => Val::Arr(seq_val_of(items@)),
        DynValue::Obj(m) => Val::Obj(pairs_val_of(m.entries@)),
    }
}

pub open spec fn seq_val_of(s: Seq<DynValue>) -> Seq<Val>
    decreases s,
{
    if s.len() == 0 {
        Seq::empty()
    } else {
        seq![val_of(s[0])] + seq_val_of(s.drop_first())
    }
}

pub open spec fn pairs_val_of(s: Seq<(String, DynValue)>) -> Pairs
    decreases s,
{
    if s.len() == 0 {
        Seq::empty()
    } else {
        seq![(s[0].0@, val_of(s[0].1))] + pairs_val_of(s.drop_first())
    }
}

impl View for DynValue {
    type V = Val;

    open spec fn view(&self) -> Val {
        val_of(*self)
    }
}

impl View for ValueMap {
    type V = Pairs;

    open spec fn view(&self) -> Pairs {
        pairs_val_of(self.entries@)
    }
}

// Size measure for termination of executable recursion over values.
pub open spec fn vsize(v: DynValue) -> nat
    decreases v,
{
    match v {
        DynValue::Arr(items) => 1 + vsize_seq(items@),
        DynValue::Obj(m) => 1 + vsize_pairs(m.entries@),
        _ => 1,
    }
}

pub open spec fn vsize_seq(s: Seq<DynValue>) -> nat
    decreases s,
{
    if s.len() == 0 {
        0
    } else {
        vsize(s[0]) + vsize_seq(s.drop_first())
    }
}

pub open spec fn vsize_pairs(s: Seq<(String, DynValue)>) -> nat
    decreases s,
{
    if s.len() == 0 {
        0
    } else {
        vsize(s[0].1) + vsize_pairs(s.drop_first())
    }
}

pub proof fn lemma_vsize_seq_elem(s: Seq<DynValue>, i: int)
    requires
        0 <= i < s.len(),
    ensures
        vsize(s[i]) <= vsize_seq(s),
    decreases s,
{
    if i == 0 {
    } else {
        lemma_vsize_seq_elem(s.drop_first(), i - 1);
    }
}

pub proof fn lemma_vsize_pairs_elem(s: Seq<(String, DynValue)>, i: int)
    requires
        0 <= i < s.len(),
    ensures
        vsize(s[i].1) <= vsize_pairs(s),
    decreases s,
{
    if i == 0 {
    } else {
        lemma_vsize_pairs_elem(s.drop_first(), i - 1);
    }
}


/// Exact-value well-formedness of the opaque numbers inside a value: a
/// `Float` never holds a number that reads as a signed 64-bit integer (such
/// a number belongs in `Int`).
pub open spec fn nums_wf(v: DynValue) -> bool
    decreases v,
{
    match v {
        DynValue::Float(n) => num_int(n) is None,
        DynValue::Arr(items) => nums_wf_seq(items@),
        DynValue::Obj(m) => nums_wf_pairs(m.entries@),
        _ => true,
    }
}

pub open spec fn nums_wf_seq(s: Seq<DynValue>) -> bool
    decreases s,
{
    if s.len() == 0 {
        true
    } else {
        nums_wf(s[0]) && nums_wf_seq(s.drop_first())
    }
}

pub open spec fn nums_wf_pairs(s: Seq<(String, DynValue)>) -> bool
    decreases s,
{
    if s.len() == 0 {
        true
    } else {
        nums_wf(s[0].1) && nums_wf_pairs(s.drop_first())
    }
}

pub proof fn lemma_nums_wf_seq_index(s: Seq<DynValue>)
    requires
        nums_wf_seq(s),
    ensures
        forall|i: int| 0 <= i < s.len() ==> nums_wf(#[trigger] s[i]),
    decreases s,
{
    if s.len() > 0 {
        lemma_nums_wf_seq_index(s.drop_first());
        assert(forall|i: int| 1 <= i < s.len() ==> s[i] == s.drop_first()[i - 1]);
    }
}

pub proof fn lemma_nums_wf_pairs_index(s: Seq<(String, DynValue)>)
    requires
        nums_wf_pairs(s),
    ensures
        forall|i: int| 0 <= i < s.len() ==> nums_wf((#[trigger] s[i]).1),
    decreases s,
{
    if s.len() > 0 {
        lemma_nums_wf_pairs_index(s.drop_first());
        assert(forall|i: int| 1 <= i < s.len() ==> s[i] == s.drop_first()[i - 1]);
    }
}

pub proof fn lemma_nums_wf_from_index(s: Seq<DynValue>)
    requires
        forall|i: int| 0 <= i < s.len() ==> nums_wf(#[trigger] s[i]),
    ensures
        nums_wf_seq(s),
    decreases s,
{
    if s.len() > 0 {
        assert(forall|i: int| 0 <= i < s.drop_first().len() ==> s.drop_first()[i] == s[i + 1]);
        lemma_nums_wf_from_index(s.drop_first());
    }
}

pub proof fn lemma_nums_wf_pairs_from_index(s: Seq<(String, DynValue)>)
    requires
        forall|i: int| 0 <= i < s.len() ==> nums_wf((#[trigger] s[i]).1),
    ensures
        nums_wf_pairs(s),
    decreases s,
{
    if s.len() > 0 {
        assert(forall|i: int| 0 <= i < s.drop_first().len() ==> s.drop_first()[i] == s[i + 1]);
        lemma_nums_wf_pairs_from_index(s.drop_first());
    }
}

/// Height from a pointwise bound.
pub proof fn lemma_height_pairs_from_index(pairs: Pairs, h: nat)
    requires
        forall|i: int| 0 <= i < pairs.len() ==> val_height((#[trigger] pairs[i]).1) <= h,
    ensures
        height_of_pairs(pairs) <= h,
    decreases pairs,
{
    if pairs.len() > 0 {
        assert(forall|i: int| 0 <= i < pairs.drop_first().len() ==> pairs.drop_first()[i] == pairs[
            i + 1
        ]);
        lemma_height_pairs_from_index(pairs.drop_first(), h);
    }
}

/// Height over concatenation is the larger side's height.
pub proof fn lemma_height_pairs_concat(a: Pairs, b: Pairs)
    ensures
        height_of_pairs(a + b) <= height_of_pairs(a) + height_of_pairs(b),
        height_of_pairs(a) <= height_of_pairs(a + b),
        height_of_pairs(b) <= height_of_pairs(a + b),
    decreases a,
{
    if a.len() == 0 {
        assert(a + b =~= b);
    } else {
        assert((a + b)[0] == a[0]);
        assert((a + b).drop_first() =~= a.drop_first() + b);
        lemma_height_pairs_concat(a.drop_first(), b);
    }
}

impl DynValue {
    /// A one-word description of the value's shape, used in type-mismatch
    /// diagnostics.
    pub fn shape_name(&self) -> (r: String)
        ensures
            r@ == match self@ {
                Val::Null => "null"@,
                Val::Bool(_) => "bool"@,
                Val::Int(_) => "int"@,
                Val::Float(_) => "float"@,
                Val::Str(_) => "str"@,
                Val::Bytes(_) => "bytes"@,
                Val::Arr(_) => "list"@,
                Val::Obj(_) => "map"@,
            },
    {
        match self {
            DynValue::Null => "null".to_owned(),
            DynValue::Bool(_) => "bool".to_owned(),
            DynValue::Int(_) => "int".to_owned(),
            DynValue::Float(_) => "float".to_owned(),
            DynValue::Str(_) => "str".to_owned(),
            DynValue::Bytes(_) => "bytes".to_owned(),
            DynValue::Arr(_) => "list".to_owned(),
            DynValue::Obj(_) => "map".to_owned(),
        }
    }

    /// Typed extraction: a string, or a type-mismatch error describing the
    /// actual shape.
    pub fn downcast_str(self) -> (r: Result<String, WalleError>)
        ensures
            self@ matches Val::Str(s) ==> r matches Ok(v) && v@ == s,
            !(self@ is Str) ==> (r matches Err(e) && e matches WalleError::ValueTypeNotMatch(exp, _) && exp@ == "str"@),
    {
        match self {
            DynValue::Str(s) => Ok(s),
            other => Err(WalleError::ValueTypeNotMatch("str".to_owned(), other.shape_name())),
        }
    }

    pub fn downcast_int(self) -> (r: Result<i64, WalleError>)
        ensures
            self@ matches Val::Int(i) ==> r matches Ok(v) && v == i,
            !(self@ is Int) ==> (r matches Err(e) && e matches WalleError::ValueTypeNotMatch(exp, _) && exp@ == "int"@),
    {
        match self {
            DynValue::Int(i) => Ok(i),
            other => Err(WalleError::ValueTypeNotMatch("int".to_owned(), other.shape_name())),
        }
    }

    pub fn downcast_bool(self) -> (r: Result<bool, WalleError>)
        ensures
            self@ matches Val::Bool(b) ==> r matches Ok(v) && v == b,
            !(self@ is Bool) ==> (r matches Err(e) && e matches WalleError::ValueTypeNotMatch(exp, _) && exp@ == "bool"@),
    {
        match self {
            DynValue::Bool(b) => Ok(b),
            other => Err(WalleError::ValueTypeNotMatch("bool".to_owned(), other.shape_name())),
        }
    }

    pub fn downcast_map(self) -> (r: Result<ValueMap, WalleError>)
        ensures
            self@ matches Val::Obj(pairs) ==> r matches Ok(m) && m@ == pairs,
            !(self@ is Obj) ==> (r matches Err(e) && e matches WalleError::ValueTypeNotMatch(exp, _) && exp@ == "map"@),
    {
        match self {
            DynValue::Obj(m) => Ok(m),
            other => Err(WalleError::ValueTypeNotMatch("map".to_owned(), other.shape_name())),
        }
    }

    pub fn downcast_arr(self) -> (r: Result<Vec<DynValue>, WalleError>)
        ensures
            self@ matches Val::Arr(items) ==> r matches Ok(v) && seq_val_of(v@) == items,
            !(self@ is Arr) ==> (r matches Err(e) && e matches WalleError::ValueTypeNotMatch(exp, _) && exp@ == "list"@),
    {
        match self {
            DynValue::Arr(items) => Ok(items),
            other => Err(WalleError::ValueTypeNotMatch("list".to_owned(), other.shape_name())),
        }
    }

}

impl ValueMap {
    pub open spec fn wf(&self) -> bool {
        wf_pairs(self@)
    }

    pub fn new() -> (r: ValueMap)
        ensures
            r@ == Seq::<(Seq<char>, Val)>::empty(),
            r.wf(),
    {
        ValueMap { entries: Vec::new() }
    }

    pub fn len(&self) -> (r: usize)
        ensures
            r == self@.len(),
    {
        proof {
            lemma_pairs_val_of_len(self.entries@);
        }
        self.entries.len()
    }

    /// Removes the entry for `k`, keeping the order of the rest.
    pub fn remove(&mut self, k: &str) -> (r: Option<DynValue>)
        ensures
            final(self)@ == remove_key(old(self)@, k@),
            match r {
                Some(v) => find_key(old(self)@, k@) == Some(v@),
                None => find_key(old(self)@, k@) is None,
            },
            old(self).wf() ==> final(self).wf(),
    {
        let key = k.to_owned();
        let ghost orig = self.entries@;
        let mut i: usize = 0;
        loop
            invariant
                i <= self.entries.len(),
                self.entries@ == orig,
                orig == old(self).entries@,
                key@ == k@,
                forall|j: int| 0 <= j < i ==> orig[j].0@ != k@,
            decreases self.entries.len() - i,
        {
            if i == self.entries.len() {
                proof {
                    lemma_find_key_none(orig, k@);
                    lemma_remove_key_none(orig, k@);
                    if old(self).wf() {
                    }
                }
                return None;
            }
            if self.entries[i].0 == key {
                let entry = self.entries.remove(i);
                proof {
                    lemma_find_key_at(orig, k@, i as int);
                    lemma_remove_key_at(orig, k@, i as int);
                    if wf_pairs(pairs_val_of(orig)) {
                        lemma_wf_remove(pairs_val_of(orig), k@);
                    }
                }
                return Some(entry.1);
            }
            i = i + 1;
        }
    }

    /// Inserts `v` under `k`: the old entry for `k` leaves, the new one stands
    /// at the end, as the latest insertion. Widening a field in is total.
    pub fn insert(&mut self, k: String, v: DynValue)
        ensures
            final(self)@ == upsert(old(self)@, k@, v@),
            old(self).wf() && val_wf(v@) ==> final(self).wf(),
    {
        let ghost orig = self@;
        self.remove(k.as_str());
        let ghost removed = self.entries@;
        self.entries.push((k, v));
        proof {
            lemma_pairs_val_of_push(removed, (k, v));
            if wf_pairs(orig) && val_wf(v@) {
                lemma_find_key_removed(orig, k@);
                lemma_wf_push(pairs_val_of(removed), k@, v@);
            }
        }
    }

    /// Looks a key up without removing it.
    pub fn get(&self, k: &str) -> (r: Option<&DynValue>)
        ensures
            match r {
                Some(v) => find_key(self@, k@) == Some(v@),
                None => find_key(self@, k@) is None,
            },
    {
        let key = k.to_owned();
        let mut i: usize = 0;
        loop
            invariant
                i <= self.entries.len(),
                key@ == k@,
                forall|j: int| 0 <= j < i ==> self.entries@[j].0@ != k@,
            decreases self.entries.len() - i,
        {
            if i == self.entries.len() {
                proof {
                    lemma_find_key_none(self.entries@, k@);
                }
                return None;
            }
            if self.entries[i].0 == key {
                proof {
                    lemma_find_key_at(self.entries@, k@, i as int);
                }
                return Some(&self.entries[i].1);
            }
            i = i + 1;
        }
    }
}

// --- lemmas connecting the executable scans with the recursive specs ---

pub proof fn lemma_pairs_val_of_len(s: Seq<(String, DynValue)>)
    ensures
        pairs_val_of(s).len() == s.len(),
        forall|i: int|
            0 <= i < s.len() ==> #[trigger] pairs_val_of(s)[i] == (s[i].0@, val_of(s[i].1)),
    decreases s,
{
    if s.len() > 0 {
        lemma_pairs_val_of_len(s.drop_first());
    }
}

/// `pairs_val_of` maps head and tail pointwise.
pub proof fn lemma_pairs_val_of_first(s: Seq<(String, DynValue)>)
    requires
        s.len() > 0,
    ensures
        pairs_val_of(s)[0] == (s[0].0@, val_of(s[0].1)),
        pairs_val_of(s).drop_first() == pairs_val_of(s.drop_first()),
{
    lemma_pairs_val_of_len(s);
    lemma_pairs_val_of_len(s.drop_first());
    assert(pairs_val_of(s).drop_first() =~= pairs_val_of(s.drop_first()));
}

pub proof fn lemma_pairs_val_of_push(s: Seq<(String, DynValue)>, p: (String, DynValue))
    ensures
        pairs_val_of(s.push(p)) == pairs_val_of(s).push((p.0@, val_of(p.1))),
{
    lemma_pairs_val_of_len(s);
    lemma_pairs_val_of_len(s.push(p));
    assert(pairs_val_of(s.push(p)) =~= pairs_val_of(s).push((p.0@, val_of(p.1))));
}

/// An executable scan that found `k` first at `i` matches `find_key`.
pub proof fn lemma_find_key_at(s: Seq<(String, DynValue)>, k: Seq<char>, i: int)
    requires
        0 <= i < s.len(),
        s[i].0@ == k,
        forall|j: int| 0 <= j < i ==> s[j].0@ != k,
    ensures
        find_key(pairs_val_of(s), k) == Some(val_of(s[i].1)),
    decreases i,
{
    lemma_pairs_val_of_first(s);
    if i == 0 {
    } else {
        lemma_find_key_at(s.drop_first(), k, i - 1);
    }
}

pub proof fn lemma_find_key_none(s: Seq<(String, DynValue)>, k: Seq<char>)
    requires
        forall|j: int| 0 <= j < s.len() ==> s[j].0@ != k,
    ensures
        find_key(pairs_val_of(s), k) is None,
    decreases s,
{
    if s.len() > 0 {
        lemma_pairs_val_of_first(s);
        lemma_find_key_none(s.drop_first(), k);
    }
}

pub proof fn lemma_remove_key_at(s: Seq<(String, DynValue)>, k: Seq<char>, i: int)
    requires
        0 <= i < s.len(),
        s[i].0@ == k,
        forall|j: int| 0 <= j < i ==> s[j].0@ != k,
    ensures
        remove_key(pairs_val_of(s), k) == pairs_val_of(s.remove(i)),
    decreases i,
{
    lemma_pairs_val_of_first(s);
    if i == 0 {
        assert(s.remove(0) =~= s.drop_first());
    } else {
        assert(s.remove(i).drop_first() =~= s.drop_first().remove(i - 1));
        lemma_remove_key_at(s.drop_first(), k, i - 1);
        lemma_pairs_val_of_first(s.remove(i));
        assert(remove_key(pairs_val_of(s), k) =~= pairs_val_of(s.remove(i)));
    }
}

pub proof fn lemma_remove_key_none(s: Seq<(String, DynValue)>, k: Seq<char>)
    requires
        forall|j: int| 0 <= j < s.len() ==> s[j].0@ != k,
    ensures
        remove_key(pairs_val_of(s), k) == pairs_val_of(s),
    decreases s,
{
    if s.len() > 0 {
        lemma_pairs_val_of_first(s);
        lemma_remove_key_none(s.drop_first(), k);
        assert(remove_key(pairs_val_of(s), k) =~= pairs_val_of(s));
    }
}

/// After `remove_key`, the key is gone (under well-formedness of the list).
pub proof fn lemma_find_key_removed(pairs: Pairs, k: Seq<char>)
    requires
        wf_pairs(pairs),
    ensures
        find_key(remove_key(pairs, k), k) is None,
    decreases pairs,
{
    if pairs.len() > 0 {
        if pairs[0].0 == k {
        } else {
            lemma_find_key_removed(pairs.drop_first(), k);
            let rest = remove_key(pairs.drop_first(), k);
            assert((seq![pairs[0]] + rest).drop_first() =~= rest);
        }
    }
}

/// A key other than the removed one keeps its binding.
pub proof fn lemma_find_key_remove_other(pairs: Pairs, k: Seq<char>, k2: Seq<char>)
    requires
        k2 != k,
    ensures
        find_key(remove_key(pairs, k), k2) == find_key(pairs, k2),
    decreases pairs,
{
    if pairs.len() > 0 {
        if pairs[0].0 == k {
        } else {
            lemma_find_key_remove_other(pairs.drop_first(), k, k2);
            let rest = remove_key(pairs.drop_first(), k);
            assert((seq![pairs[0]] + rest).drop_first() =~= rest);
            assert((seq![pairs[0]] + rest)[0] == pairs[0]);
        }
    }
}

pub proof fn lemma_wf_remove(pairs: Pairs, k: Seq<char>)
    requires
        wf_pairs(pairs),
    ensures
        wf_pairs(remove_key(pairs, k)),
    decreases pairs,
{
    if pairs.len() > 0 {
        if pairs[0].0 == k {
        } else {
            lemma_wf_remove(pairs.drop_first(), k);
            let rest = remove_key(pairs.drop_first(), k);
            assert((seq![pairs[0]] + rest).drop_first() =~= rest);
            lemma_find_key_remove_other(pairs.drop_first(), k, pairs[0].0);
            assert((seq![pairs[0]] + rest)[0] == pairs[0]);
        }
    }
}

/// Pushing a fresh key keeps an association list well-formed.
pub proof fn lemma_wf_push(pairs: Pairs, k: Seq<char>, v: Val)
    requires
        wf_pairs(pairs),
        find_key(pairs, k) is None,
        val_wf(v),
    ensures
        wf_pairs(pairs.push((k, v))),
    decreases pairs,
{
    if pairs.len() == 0 {
        assert(pairs.push((k, v))[0] == (k, v));
        assert(pairs.push((k, v)).drop_first() =~= Seq::<(Seq<char>, Val)>::empty());
        assert(find_key(pairs.push((k, v)).drop_first(), k) is None);
        assert(wf_pairs(pairs.push((k, v)).drop_first()));
        assert(wf_pairs(pairs.push((k, v))));
    } else {
        assert(pairs.push((k, v))[0] == pairs[0]);
        assert(pairs.push((k, v)).drop_first() =~= pairs.drop_first().push((k, v)));
        assert(pairs[0].0 != k);
        lemma_wf_push(pairs.drop_first(), k, v);
        lemma_find_key_push(pairs.drop_first(), pairs[0].0, k, v);
        assert(find_key(pairs.drop_first().push((k, v)), pairs[0].0) is None);
        assert(wf_pairs(pairs.push((k, v))));
    }
}

/// Looking up after a push: the pushed key answers last.
pub proof fn lemma_find_key_push(pairs: Pairs, k2: Seq<char>, k: Seq<char>, v: Val)
    ensures
        find_key(pairs.push((k, v)), k2) == if find_key(pairs, k2) is Some {
            find_key(pairs, k2)
        } else if k2 == k {
            Some(v)
        } else {
            None
        },
    decreases pairs,
{
    if pairs.len() == 0 {
        assert(pairs.push((k, v))[0] == (k, v));
        assert(pairs.push((k, v)).drop_first() =~= Seq::<(Seq<char>, Val)>::empty());
    } else {
        assert(pairs.push((k, v)).drop_first() =~= pairs.drop_first().push((k, v)));
        lemma_find_key_push(pairs.drop_first(), k2, k, v);
    }
}


/// Lookup distributes over concatenation: the left part answers first.
pub proof fn lemma_find_key_concat(a: Pairs, b: Pairs, k: Seq<char>)
    ensures
        find_key(a + b, k) == if find_key(a, k) is Some {
            find_key(a, k)
        } else {
            find_key(b, k)
        },
    decreases a,
{
    if a.len() == 0 {
        assert(a + b =~= b);
    } else {
        assert((a + b)[0] == a[0]);
        assert((a + b).drop_first() =~= a.drop_first() + b);
        lemma_find_key_concat(a.drop_first(), b, k);
    }
}

/// Removal distributes over concatenation.
pub proof fn lemma_remove_key_concat(a: Pairs, b: Pairs, k: Seq<char>)
    ensures
        remove_key(a + b, k) == if find_key(a, k) is Some {
            remove_key(a, k) + b
        } else {
            a + remove_key(b, k)
        },
    decreases a,
{
    if a.len() == 0 {
        assert(a + b =~= b);
        assert(a + remove_key(b, k) =~= remove_key(b, k));
    } else {
        assert((a + b)[0] == a[0]);
        assert((a + b).drop_first() =~= a.drop_first() + b);
        lemma_remove_key_concat(a.drop_first(), b, k);
        if a[0].0 == k {
            assert(remove_key(a + b, k) =~= remove_key(a, k) + b);
        } else if find_key(a.drop_first(), k) is Some {
            assert(remove_key(a + b, k) =~= seq![a[0]] + (remove_key(a.drop_first(), k) + b));
            assert(remove_key(a, k) =~= seq![a[0]] + remove_key(a.drop_first(), k));
            assert(remove_key(a + b, k) =~= remove_key(a, k) + b);
        } else {
            assert(remove_key(a + b, k) =~= seq![a[0]] + (a.drop_first() + remove_key(b, k)));
            assert(remove_key(a + b, k) =~= a + remove_key(b, k));
        }
    }
}

/// Well-formedness joins over concatenation of key-disjoint lists.
pub proof fn lemma_wf_pairs_concat(a: Pairs, b: Pairs)
    requires
        wf_pairs(a),
        wf_pairs(b),
        forall|i: int| 0 <= i < a.len() ==> find_key(b, #[trigger] a[i].0) is None,
    ensures
        wf_pairs(a + b),
    decreases a,
{
    if a.len() == 0 {
        assert(a + b =~= b);
    } else {
        assert((a + b)[0] == a[0]);
        assert((a + b).drop_first() =~= a.drop_first() + b);
        assert(forall|i: int|
            0 <= i < a.drop_first().len() ==> find_key(
                b,
                #[trigger] a.drop_first()[i].0,
            ) is None) by {
            assert(forall|i: int|
                0 <= i < a.drop_first().len() ==> a.drop_first()[i] == a[i + 1]);
        }
        lemma_wf_pairs_concat(a.drop_first(), b);
        lemma_find_key_concat(a.drop_first(), b, a[0].0);
        assert(find_key(b, a[0].0) is None);
        assert(wf_pairs(a + b));
    }
}


/// A key that is absent leaves the list as it stands.
pub proof fn lemma_remove_key_absent(pairs: Pairs, k: Seq<char>)
    requires
        find_key(pairs, k) is None,
    ensures
        remove_key(pairs, k) == pairs,
    decreases pairs,
{
    if pairs.len() > 0 {
        lemma_remove_key_absent(pairs.drop_first(), k);
        assert(remove_key(pairs, k) =~= pairs);
    }
}

impl ValueMap {
    /// Typed removal: the entry for `key` leaves the map; an absent key is a
    /// missing-key error, a present entry of the wrong shape a type-mismatch
    /// error. This is the contract for required struct fields.
    pub fn remove_downcast_str(&mut self, key: &str) -> (r: Result<String, WalleError>)
        ensures
            final(self)@ == remove_key(old(self)@, key@),
            find_key(old(self)@, key@) is None ==> (r matches Err(e) && e
                matches WalleError::MapMissedKey(k) && k@ == key@),
            find_key(old(self)@, key@) matches Some(v) && v is Str ==> (r matches Ok(out)
                && find_key(old(self)@, key@) == Some(Val::Str(out@))),
            find_key(old(self)@, key@) matches Some(v) && !(v is Str) ==> (r matches Err(e) && e
                matches WalleError::ValueTypeNotMatch(exp, _) && exp@ == "str"@),
            old(self).wf() ==> final(self).wf(),
    {
        match self.remove(key) {
            None => Err(WalleError::MapMissedKey(key.to_owned())),
            Some(v) => v.downcast_str(),
        }
    }

    /// Typed removal of an optional field: an absent key is no error and
    /// yields no value; a present entry of the wrong shape still fails.
    pub fn try_remove_downcast_str(&mut self, key: &str) -> (r: Result<
        Option<String>,
        WalleError,
    >)
        ensures
            final(self)@ == remove_key(old(self)@, key@),
            find_key(old(self)@, key@) is None ==> (r matches Ok(o) && o is None),
            find_key(old(self)@, key@) matches Some(v) && v is Str ==> (r matches Ok(o) && o
                matches Some(out) && find_key(old(self)@, key@) == Some(Val::Str(out@))),
            find_key(old(self)@, key@) matches Some(v) && !(v is Str) ==> (r matches Err(e) && e
                matches WalleError::ValueTypeNotMatch(exp, _) && exp@ == "str"@),
            old(self).wf() ==> final(self).wf(),
    {
        match self.remove(key) {
            None => Ok(None),
            Some(v) => match v.downcast_str() {
                Ok(out) => Ok(Some(out)),
                Err(e) => Err(e),
            },
        }
    }

    pub fn remove_downcast_int(&mut self, key: &str) -> (r: Result<i64, WalleError>)
        ensures
            final(self)@ == remove_key(old(self)@, key@),
            find_key(old(self)@, key@) is None ==> (r matches Err(e) && e
                matches WalleError::MapMissedKey(k) && k@ == key@),
            find_key(old(self)@, key@) matches Some(v) && v is Int ==> (r matches Ok(out)
                && find_key(old(self)@, key@) == Some(Val::Int(out as int))),
            find_key(old(self)@, key@) matches Some(v) && !(v is Int) ==> (r matches Err(e) && e
                matches WalleError::ValueTypeNotMatch(exp, _) && exp@ == "int"@),
            old(self).wf() ==> final(self).wf(),
    {
        match self.remove(key) {
            None => Err(WalleError::MapMissedKey(key.to_owned())),
            Some(v) => v.downcast_int(),
        }
    }

    pub fn try_remove_downcast_int(&mut self, key: &str) -> (r: Result<Option<i64>, WalleError>)
        ensures
            final(self)@ == remove_key(old(self)@, key@),
            find_key(old(self)@, key@) is None ==> (r matches Ok(o) && o is None),
            find_key(old(self)@, key@) matches Some(v) && v is Int ==> (r matches Ok(o) && o
                matches Some(out) && find_key(old(self)@, key@) == Some(Val::Int(out as int))),
            find_key(old(self)@, key@) matches Some(v) && !(v is Int) ==> (r matches Err(e) && e
                matches WalleError::ValueTypeNotMatch(exp, _) && exp@ == "int"@),
            old(self).wf() ==> final(self).wf(),
    {
        match self.remove(key) {
            None => Ok(None),
            Some(v) => match v.downcast_int() {
                Ok(out) => Ok(Some(out)),
                Err(e) => Err(e),
            },
        }
    }

    pub fn remove_downcast_bool(&mut self, key: &str) -> (r: Result<bool, WalleError>)
        ensures
            final(self)@ == remove_key(old(self)@, key@),
            find_key(old(self)@, key@) is None ==> (r matches Err(e) && e
                matches WalleError::MapMissedKey(k) && k@ == key@),
            find_key(old(self)@, key@) matches Some(v) && v is Bool ==> (r matches Ok(out)
                && find_key(old(self)@, key@) == Some(Val::Bool(out))),
            find_key(old(self)@, key@) matches Some(v) && !(v is Bool) ==> (r matches Err(e) && e
                matches WalleError::ValueTypeNotMatch(exp, _) && exp@ == "bool"@),
            old(self).wf() ==> final(self).wf(),
    {
        match self.remove(key) {
            None => Err(WalleError::MapMissedKey(key.to_owned())),
            Some(v) => v.downcast_bool(),
        }
    }

    pub fn remove_downcast_map(&mut self, key: &str) -> (r: Result<ValueMap, WalleError>)
        ensures
            final(self)@ == remove_key(old(self)@, key@),
            find_key(old(self)@, key@) is None ==> (r matches Err(e) && e
                matches WalleError::MapMissedKey(k) && k@ == key@),
            find_key(old(self)@, key@) matches Some(v) && v is Obj ==> (r matches Ok(out)
                && find_key(old(self)@, key@) == Some(Val::Obj(out@))),
            find_key(old(self)@, key@) matches Some(v) && !(v is Obj) ==> (r matches Err(e) && e
                matches WalleError::ValueTypeNotMatch(exp, _) && exp@ == "map"@),
            old(self).wf() ==> final(self).wf(),
    {
        match self.remove(key) {
            None => Err(WalleError::MapMissedKey(key.to_owned())),
            Some(v) => v.downcast_map(),
        }
    }

    pub fn remove_downcast_arr(&mut self, key: &str) -> (r: Result<Vec<DynValue>, WalleError>)
        ensures
            final(self)@ == remove_key(old(self)@, key@),
            find_key(old(self)@, key@) is None ==> (r matches Err(e) && e
                matches WalleError::MapMissedKey(k) && k@ == key@),
            find_key(old(self)@, key@) matches Some(v) && v is Arr ==> (r matches Ok(out)
                && find_key(old(self)@, key@) == Some(Val::Arr(seq_val_of(out@)))),
            find_key(old(self)@, key@) matches Some(v) && !(v is Arr) ==> (r matches Err(e) && e
                matches WalleError::ValueTypeNotMatch(exp, _) && exp@ == "list"@),
            old(self).wf() ==> final(self).wf(),
    {
        match self.remove(key) {
            None => Err(WalleError::MapMissedKey(key.to_owned())),
            Some(v) => v.downcast_arr(),
        }
    }

    /// Removes a numeric entry: an integer or a float both stand for the
    /// protocol's "number" fields.
    pub fn remove_downcast_num(&mut self, key: &str) -> (r: Result<DynValue, WalleError>)
        ensures
            final(self)@ == remove_key(old(self)@, key@),
            find_key(old(self)@, key@) is None ==> (r matches Err(e) && e
                matches WalleError::MapMissedKey(k) && k@ == key@),
            find_key(old(self)@, key@) matches Some(v) && v is Int ==> (r matches Ok(out)
                && find_key(old(self)@, key@) == Some(out@)),
            find_key(old(self)@, key@) matches Some(v) && v is Float ==> (r matches Ok(out)
                && find_key(old(self)@, key@) == Some(out@)),
            find_key(old(self)@, key@) matches Some(v) && !(v is Int) && !(v is Float) ==> (r
                matches Err(e) && e matches WalleError::ValueTypeNotMatch(exp, _) && exp@
                == "number"@),
            old(self).wf() ==> final(self).wf(),
    {
        match self.remove(key) {
            None => Err(WalleError::MapMissedKey(key.to_owned())),
            Some(v) => match v {
                DynValue::Int(i) => Ok(DynValue::Int(i)),
                DynValue::Float(n) => Ok(DynValue::Float(n)),
                other => Err(
                    WalleError::ValueTypeNotMatch("number".to_owned(), other.shape_name()),
                ),
            },
        }
    }
}


// --- pointwise characterizations used by the codec ---

pub proof fn lemma_seq_val_of_len(s: Seq<DynValue>)
    ensures
        seq_val_of(s).len() == s.len(),
        forall|i: int| 0 <= i < s.len() ==> #[trigger] seq_val_of(s)[i] == val_of(s[i]),
    decreases s,
{
    if s.len() > 0 {
        lemma_seq_val_of_len(s.drop_first());
    }
}

/// A key that lookup does not find stands at no position.
pub proof fn lemma_find_key_none_index(pairs: Pairs, k: Seq<char>)
    requires
        find_key(pairs, k) is None,
    ensures
        forall|i: int| 0 <= i < pairs.len() ==> (#[trigger] pairs[i]).0 != k,
    decreases pairs,
{
    if pairs.len() > 0 {
        lemma_find_key_none_index(pairs.drop_first(), k);
        assert(forall|i: int| 1 <= i < pairs.len() ==> pairs[i] == pairs.drop_first()[i - 1]);
    }
}

/// Well-formed association lists have pairwise-distinct keys and well-formed
/// values.
pub proof fn lemma_wf_pairs_index(pairs: Pairs)
    requires
        wf_pairs(pairs),
    ensures
        forall|i: int| 0 <= i < pairs.len() ==> val_wf((#[trigger] pairs[i]).1),
        forall|i: int, j: int|
            0 <= i < j < pairs.len() ==> (#[trigger] pairs[i]).0 != (#[trigger] pairs[j]).0,
    decreases pairs,
{
    if pairs.len() > 0 {
        lemma_wf_pairs_index(pairs.drop_first());
        lemma_find_key_none_index(pairs.drop_first(), pairs[0].0);
        assert(forall|i: int| 1 <= i < pairs.len() ==> pairs[i] == pairs.drop_first()[i - 1]);
    }
}

pub proof fn lemma_wf_seq_index(items: Seq<Val>)
    requires
        wf_seq(items),
    ensures
        forall|i: int| 0 <= i < items.len() ==> val_wf(#[trigger] items[i]),
    decreases items,
{
    if items.len() > 0 {
        lemma_wf_seq_index(items.drop_first());
        assert(forall|i: int| 1 <= i < items.len() ==> items[i] == items.drop_first()[i - 1]);
    }
}

/// Each element of a sequence stays within the sequence's height.
pub proof fn lemma_height_seq_elem(items: Seq<Val>, i: int)
    requires
        0 <= i < items.len(),
    ensures
        val_height(items[i]) <= height_of_seq(items),
    decreases items,
{
    if i > 0 {
        lemma_height_seq_elem(items.drop_first(), i - 1);
    }
}

pub proof fn lemma_height_pairs_elem(pairs: Pairs, i: int)
    requires
        0 <= i < pairs.len(),
    ensures
        val_height(pairs[i].1) <= height_of_pairs(pairs),
    decreases pairs,
{
    if i > 0 {
        lemma_height_pairs_elem(pairs.drop_first(), i - 1);
    }
}

} // verus!
