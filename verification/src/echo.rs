use vstd::prelude::*;

verus! {

/// An opaque correlation identifier attached to an outbound action and
/// mirrored back on its response: a string or an integer, scoped to one
/// logical connection.
#[derive(Debug, PartialEq, Eq)]
pub enum EchoToken {
    S(String),
    I(i64),
}

/// The model of a token.
pub enum TokenV {
    S(Seq<char>),
    I(int),
}

impl View for EchoToken {
    type V = TokenV;

    open spec fn view(&self) -> TokenV {
        match *self {
            EchoToken::S(s) => TokenV::S(s@),
            EchoToken::I(i) => TokenV::I(i as int),
        }
    }
}

impl EchoToken {
    pub fn duplicate(&self) -> (r: EchoToken)
        ensures
            r@ == self@,
    {
        match self {
            EchoToken::S(s) => EchoToken::S(s.clone()),
            EchoToken::I(i) => EchoToken::I(*i),
        }
    }
}

pub fn token_eq(a: &EchoToken, b: &EchoToken) -> (r: bool)
    ensures
        r == (a@ == b@),
{
    match (a, b) {
        (EchoToken::S(x), EchoToken::S(y)) => *x == *y,
        (EchoToken::I(x), EchoToken::I(y)) => *x == *y,
        _ => false,
    }
}

pub open spec fn tokens_of(s: Seq<EchoToken>) -> Seq<TokenV>
    decreases s,
{
    if s.len() == 0 {
        Seq::empty()
    } else {
        seq![s[0]@] + tokens_of(s.drop_first())
    }
}

pub open spec fn has_token(s: Seq<TokenV>, t: TokenV) -> bool
    decreases s,
{
    if s.len() == 0 {
        false
    } else {
        s[0] == t || has_token(s.drop_first(), t)
    }
}

pub open spec fn without_token(s: Seq<TokenV>, t: TokenV) -> Seq<TokenV>
    decreases s,
{
    if s.len() == 0 {
        s
    } else if s[0] == t {
        s.drop_first()
    } else {
        seq![s[0]] + without_token(s.drop_first(), t)
    }
}

/// The per-connection correlation table: the set of tokens with a pending,
/// not yet fulfilled, single-use completion slot.
#[derive(Debug, PartialEq)]
pub struct EchoMap {
    pub entries: Vec<EchoToken>,
}

impl View for EchoMap {
    type V = Seq<TokenV>;

    open spec fn view(&self) -> Seq<TokenV> {
        tokens_of(self.entries@)
    }
}

impl EchoMap {
    /// Tokens pairwise distinct: a slot is registered at most once.
    pub open spec fn wf(&self) -> bool {
        wf_tokens(self@)
    }

    pub fn new() -> (r: EchoMap)
        ensures
            r@ == Seq::<TokenV>::empty(),
            r.wf(),
    {
        EchoMap { entries: Vec::new() }
    }

    /// Registers a pending send under the given token; sending proceeds
    /// independently of this table. Registering an already-pending token
    /// leaves one single slot for it.
    pub fn register(&mut self, token: EchoToken)
        ensures
            final(self)@ == if has_token(old(self)@, token@) {
                old(self)@
            } else {
                old(self)@.push(token@)
            },
            old(self).wf() ==> final(self).wf(),
    {
        let ghost orig = self.entries@;
        let mut i: usize = 0;
        loop
            invariant
                i <= self.entries.len(),
                self.entries@ == orig,
                orig == old(self).entries@,
                forall|j: int| 0 <= j < i ==> orig[j]@ != token@,
            decreases self.entries.len() - i,
        {
            if i == self.entries.len() {
                proof {
                    lemma_has_token_none(orig, token@);
                }
                self.entries.push(token);
                proof {
                    lemma_tokens_of_push(orig, token);
                    if wf_tokens(tokens_of(orig)) {
                        lemma_wf_tokens_push(tokens_of(orig), token@);
                    }
                }
                return ;
            }
            if token_eq(&self.entries[i], &token) {
                proof {
                    lemma_has_token_at(orig, token@, i as int);
                }
                return ;
            }
            i = i + 1;
        }
    }

    /// The response path: a response bearing `token` fulfills the matching
    /// slot exactly once, and the payload is routed to whatever awaits it; an
    /// unknown or already-fulfilled token affects no slot and the payload is
    /// dropped, which is not a fatal condition.
    pub fn fulfill<R>(&mut self, token: &EchoToken, payload: R) -> (r: Option<R>)
        ensures
            has_token(old(self)@, token@) ==> (r matches Some(p) && p == payload && final(self)@
                == without_token(old(self)@, token@)),
            !has_token(old(self)@, token@) ==> (r is None && *final(self) == *old(self)),
            old(self).wf() ==> final(self).wf(),
    {
        let ghost orig = self.entries@;
        let mut i: usize = 0;
        loop
            invariant
                i <= self.entries.len(),
                *self == *old(self),
                self.entries@ == orig,
                orig == old(self).entries@,
                forall|j: int| 0 <= j < i ==> orig[j]@ != token@,
            decreases self.entries.len() - i,
        {
            if i == self.entries.len() {
                proof {
                    lemma_has_token_none(orig, token@);
                }
                return None;
            }
            if token_eq(&self.entries[i], token) {
                self.entries.remove(i);
                proof {
                    lemma_has_token_at(orig, token@, i as int);
                    lemma_without_token_at(orig, token@, i as int);
                    if wf_tokens(tokens_of(orig)) {
                        lemma_wf_tokens_remove(tokens_of(orig), token@);
                    }
                }
                return Some(payload);
            }
            i = i + 1;
        }
    }

    /// Cancellation: removes the slot without fulfilling it; the correlation
    /// layer itself never times a slot out.
    pub fn cancel(&mut self, token: &EchoToken)
        ensures
            final(self)@ == without_token(old(self)@, token@),
            old(self).wf() ==> final(self).wf(),
    {
        let ghost orig = self.entries@;
        let mut i: usize = 0;
        loop
            invariant
                i <= self.entries.len(),
                self.entries@ == orig,
                orig == old(self).entries@,
                forall|j: int| 0 <= j < i ==> orig[j]@ != token@,
            decreases self.entries.len() - i,
        {
            if i == self.entries.len() {
                proof {
                    lemma_has_token_none(orig, token@);
                    lemma_without_token_none(orig, token@);
                }
                return ;
            }
            if token_eq(&self.entries[i], token) {
                self.entries.remove(i);
                proof {
                    lemma_without_token_at(orig, token@, i as int);
                    if wf_tokens(tokens_of(orig)) {
                        lemma_wf_tokens_remove(tokens_of(orig), token@);
                    }
                }
                return ;
            }
            i = i + 1;
        }
    }
}

pub open spec fn wf_tokens(s: Seq<TokenV>) -> bool
    decreases s,
{
    if s.len() == 0 {
        true
    } else {
        !has_token(s.drop_first(), s[0]) && wf_tokens(s.drop_first())
    }
}

pub proof fn lemma_tokens_of_len(s: Seq<EchoToken>)
    ensures
        tokens_of(s).len() == s.len(),
        forall|i: int| 0 <= i < s.len() ==> #[trigger] tokens_of(s)[i] == s[i]@,
    decreases s,
{
    if s.len() > 0 {
        lemma_tokens_of_len(s.drop_first());
    }
}

pub proof fn lemma_tokens_of_first(s: Seq<EchoToken>)
    requires
        s.len() > 0,
    ensures
        tokens_of(s)[0] == s[0]@,
        tokens_of(s).drop_first() == tokens_of(s.drop_first()),
{
    lemma_tokens_of_len(s);
    lemma_tokens_of_len(s.drop_first());
    assert(tokens_of(s).drop_first() =~= tokens_of(s.drop_first()));
}

pub proof fn lemma_tokens_of_push(s: Seq<EchoToken>, t: EchoToken)
    ensures
        tokens_of(s.push(t)) == tokens_of(s).push(t@),
{
    lemma_tokens_of_len(s);
    lemma_tokens_of_len(s.push(t));
    assert(tokens_of(s.push(t)) =~= tokens_of(s).push(t@));
}

pub proof fn lemma_has_token_at(s: Seq<EchoToken>, t: TokenV, i: int)
    requires
        0 <= i < s.len(),
        s[i]@ == t,
    ensures
        has_token(tokens_of(s), t),
    decreases i,
{
    lemma_tokens_of_first(s);
    if i == 0 {
    } else {
        lemma_has_token_at(s.drop_first(), t, i - 1);
    }
}

pub proof fn lemma_has_token_none(s: Seq<EchoToken>, t: TokenV)
    requires
        forall|j: int| 0 <= j < s.len() ==> s[j]@ != t,
    ensures
        !has_token(tokens_of(s), t),
    decreases s,
{
    if s.len() > 0 {
        lemma_tokens_of_first(s);
        lemma_has_token_none(s.drop_first(), t);
    }
}

pub proof fn lemma_without_token_none(s: Seq<EchoToken>, t: TokenV)
    requires
        forall|j: int| 0 <= j < s.len() ==> s[j]@ != t,
    ensures
        without_token(tokens_of(s), t) == tokens_of(s),
    decreases s,
{
    if s.len() > 0 {
        lemma_tokens_of_first(s);
        lemma_without_token_none(s.drop_first(), t);
        assert(without_token(tokens_of(s), t) =~= tokens_of(s));
    }
}

pub proof fn lemma_without_token_at(s: Seq<EchoToken>, t: TokenV, i: int)
    requires
        0 <= i < s.len(),
        s[i]@ == t,
        forall|j: int| 0 <= j < i ==> s[j]@ != t,
    ensures
        without_token(tokens_of(s), t) == tokens_of(s.remove(i)),
    decreases i,
{
    lemma_tokens_of_first(s);
    if i == 0 {
        assert(s.remove(0) =~= s.drop_first());
    } else {
        assert(s.remove(i).drop_first() =~= s.drop_first().remove(i - 1));
        lemma_without_token_at(s.drop_first(), t, i - 1);
        lemma_tokens_of_first(s.remove(i));
        assert(without_token(tokens_of(s), t) =~= tokens_of(s.remove(i)));
    }
}

pub proof fn lemma_has_without_other(s: Seq<TokenV>, t: TokenV, t2: TokenV)
    requires
        t2 != t,
    ensures
        has_token(without_token(s, t), t2) == has_token(s, t2),
    decreases s,
{
    if s.len() > 0 {
        if s[0] == t {
        } else {
            lemma_has_without_other(s.drop_first(), t, t2);
            let rest = without_token(s.drop_first(), t);
            assert((seq![s[0]] + rest).drop_first() =~= rest);
            assert((seq![s[0]] + rest)[0] == s[0]);
        }
    }
}

pub proof fn lemma_wf_tokens_remove(s: Seq<TokenV>, t: TokenV)
    requires
        wf_tokens(s),
    ensures
        wf_tokens(without_token(s, t)),
        !has_token(without_token(s, t), t),
    decreases s,
{
    if s.len() > 0 {
        if s[0] == t {
        } else {
            lemma_wf_tokens_remove(s.drop_first(), t);
            lemma_has_without_other(s.drop_first(), t, s[0]);
            let rest = without_token(s.drop_first(), t);
            assert((seq![s[0]] + rest).drop_first() =~= rest);
            assert((seq![s[0]] + rest)[0] == s[0]);
        }
    }
}

pub proof fn lemma_wf_tokens_push(s: Seq<TokenV>, t: TokenV)
    requires
        wf_tokens(s),
        !has_token(s, t),
    ensures
        wf_tokens(s.push(t)),
    decreases s,
{
    if s.len() == 0 {
        assert(s.push(t)[0] == t);
        assert(s.push(t).drop_first() =~= Seq::<TokenV>::empty());
        assert(!has_token(s.push(t).drop_first(), t));
        assert(wf_tokens(s.push(t).drop_first()));
        assert(wf_tokens(s.push(t)));
    } else {
        assert(s.push(t)[0] == s[0]);
        assert(s.push(t).drop_first() =~= s.drop_first().push(t));
        assert(s[0] != t);
        lemma_wf_tokens_push(s.drop_first(), t);
        lemma_has_token_push(s.drop_first(), s[0], t);
        assert(!has_token(s.drop_first().push(t), s[0]));
        assert(wf_tokens(s.push(t)));
    }
}

pub proof fn lemma_has_token_push(s: Seq<TokenV>, t2: TokenV, t: TokenV)
    ensures
        has_token(s.push(t), t2) == (has_token(s, t2) || t2 == t),
    decreases s,
{
    if s.len() == 0 {
        assert(s.push(t)[0] == t);
        assert(s.push(t).drop_first() =~= Seq::<TokenV>::empty());
        assert(!has_token(s, t2));
        assert(!has_token(s.push(t).drop_first(), t2));
        assert(has_token(s.push(t), t2) == (t2 == t));
    } else {
        assert(s.push(t)[0] == s[0]);
        assert(s.push(t).drop_first() =~= s.drop_first().push(t));
        lemma_has_token_push(s.drop_first(), t2, t);
    }
}

/// Correlation law: a response whose token matches a pending send fulfills
/// that slot exactly once — after the fulfilment the token is no longer
/// pending, so a second response bearing it is dropped — while a response
/// bearing an unregistered token leaves every pending slot in place.
pub proof fn correlation_law(m: Seq<TokenV>, t: TokenV)
    requires
        wf_tokens(m),
    ensures
        has_token(m, t) ==> !has_token(without_token(m, t), t),
        forall|t2: TokenV| t2 != t ==> has_token(without_token(m, t), t2) == has_token(m, t2),
{
    lemma_wf_tokens_remove(m, t);
    assert forall|t2: TokenV| t2 != t implies has_token(without_token(m, t), t2) == has_token(
        m,
        t2,
    ) by {
        lemma_has_without_other(m, t, t2);
    }
}

} // verus!
