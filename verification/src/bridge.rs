use vstd::prelude::*;
use vstd::string::StringSliceAdditionalSpecFns;

verus! {

/// The characters of a byte sequence, one character per byte.
pub open spec fn chars_of(bs: Seq<u8>) -> Seq<char> {
    Seq::new(bs.len(), |i: int| bs[i] as char)
}

/// String comparison with an exact character-level contract.
pub fn str_eq(a: &str, b: &str) -> (r: bool)
    ensures
        r == (a@ == b@),
{
    let x = a.to_owned();
    let y = b.to_owned();
    x == y
}

/// Relies on String::from_utf8: ASCII bytes are valid UTF-8 and come back as
/// the same byte sequence, one character per byte.
#[verifier::external_body]
fn ascii_string(bytes: Vec<u8>) -> (r: String)
    requires
        forall|i: int| 0 <= i < bytes@.len() ==> bytes@[i] < 128,
    ensures
        r.is_ascii(),
        r@.len() == bytes@.len(),
        forall|i: int| 0 <= i < bytes@.len() ==> #[trigger] r@[i] == bytes@[i] as char,
{
    String::from_utf8(bytes).unwrap()
}

pub open spec fn is_upper_byte(b: u8) -> bool {
    65 <= b <= 90
}

pub open spec fn lower_byte(b: u8) -> u8 {
    if is_upper_byte(b) {
        (b + 32) as u8
    } else {
        b
    }
}

/// The tag of every character after the first: an upper-case letter opens a
/// new word, written as an underscore and its lower-case form.
pub open spec fn snake_tail(s: Seq<u8>) -> Seq<u8>
    decreases s,
{
    if s.len() == 0 {
        Seq::empty()
    } else if is_upper_byte(s[0]) {
        seq![95u8, lower_byte(s[0])] + snake_tail(s.drop_first())
    } else {
        seq![s[0]] + snake_tail(s.drop_first())
    }
}

/// The lower-snake normalization that turns a variant identifier into its
/// wire tag: first character lower-cased, every further upper-case character
/// preceded by an underscore.
pub open spec fn snake_bytes(s: Seq<u8>) -> Seq<u8> {
    seq![lower_byte(s[0])] + snake_tail(s.drop_first())
}

pub open spec fn ascii_bytes(s: Seq<u8>) -> bool {
    forall|i: int| 0 <= i < s.len() ==> s[i] < 128
}

/// Case-normalizes an identifier to its lower-snake wire tag.
pub fn snake_case(s: &str) -> (r: String)
    requires
        s@.len() > 0,
        s.is_ascii(),
    ensures
        r.is_ascii(),
        r@ == chars_of(snake_bytes(s.spec_bytes())),
{
    broadcast use vstd::string::is_ascii_spec_bytes;

    let bytes = s.as_bytes();
    let mut out: Vec<u8> = Vec::new();
    let first = bytes[0];
    if 65 <= first && first <= 90 {
        out.push(first + 32);
    } else {
        out.push(first);
    }
    let mut i: usize = 1;
    proof {
        assert(out@ =~= seq![lower_byte(s.spec_bytes()[0])]);
        assert(snake_tail(s.spec_bytes().skip(1)) =~= snake_tail(s.spec_bytes().drop_first()));
        assert(out@ + snake_tail(s.spec_bytes().skip(s@.len() as int)) =~= out@ + snake_tail(
            Seq::<u8>::empty(),
        ));
    }
    while i < bytes.len()
        invariant
            1 <= i <= bytes.len(),
            bytes@ == s.spec_bytes(),
            s.is_ascii(),
            s@.len() > 0,
            bytes@.len() == s@.len(),
            ascii_bytes(out@),
            snake_bytes(s.spec_bytes()) == out@ + snake_tail(s.spec_bytes().skip(i as int)),
        decreases bytes.len() - i,
    {
        let b = bytes[i];
        let ghost rest = s.spec_bytes().skip(i as int);
        proof {
            assert(rest[0] == bytes@[i as int]);
            assert(rest.drop_first() =~= s.spec_bytes().skip(i as int + 1));
        }
        if 65 <= b && b <= 90 {
            out.push(95);
            out.push(b + 32);
        } else {
            out.push(b);
        }
        proof {
            if is_upper_byte(b) {
                assert(out@ + snake_tail(s.spec_bytes().skip(i as int + 1)) =~= snake_bytes(
                    s.spec_bytes(),
                ));
            } else {
                assert(out@ + snake_tail(s.spec_bytes().skip(i as int + 1)) =~= snake_bytes(
                    s.spec_bytes(),
                ));
            }
        }
        i = i + 1;
    }
    proof {
        assert(s.spec_bytes().skip(s@.len() as int) =~= Seq::<u8>::empty());
        assert(snake_tail(Seq::<u8>::empty()) =~= Seq::<u8>::empty());
        assert(out@ =~= snake_bytes(s.spec_bytes()));
    }
    let r = ascii_string(out);
    proof {
        assert(r@ =~= chars_of(snake_bytes(s.spec_bytes())));
    }
    r
}

} // verus!
