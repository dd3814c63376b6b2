//! Small helpers on `String` and `str` that the reader and the writer share.
use vstd::prelude::*;
use vstd::std_specs::iter::IteratorSpec;
use vstd::utf8::{char_is_scalar, encode_scalar, encode_utf8, is_scalar};

verus! {

/// The characters of `s`, in order.
pub fn chars_of(s: &str) -> (r: Vec<char>)
    ensures
        r@ == s@,
{
    broadcast use vstd::string::group_string_axioms;

    let mut it = s.chars();
    let mut out: Vec<char> = Vec::new();
    assert(out@ + it.remaining() =~= s@);
    loop
        invariant
            it.obeys_prophetic_iter_laws(),
            it.decrease() is Some,
            out@ + it.remaining() =~= s@,
        decreases it.decrease()->0,
    {
        let ghost before = it;
        match it.next() {
            Some(c) => {
                assert(before.remaining() =~= seq![c] + it.remaining());
                out.push(c);
            },
            None => {
                assert(it.remaining().len() == 0);
                assert(out@ =~= s@);
                return out;
            },
        }
    }
}

/// Appends one character to `s`.
///
/// Trusted: wraps `String::push`. The contract says that the string grows by
/// exactly that character at its end.
#[verifier::external_body]
pub(crate) fn push_char(s: &mut String, c: char)
    ensures
        final(s)@ == old(s)@.push(c),
{
    s.push(c)
}

/// The one-character text that stands for an absent package coordinate.
pub open spec fn sentinel() -> Seq<char> {
    seq!['.']
}

/// Whether `s` is exactly the absent-coordinate sentinel.
pub fn is_sentinel(s: &str) -> (r: bool)
    ensures
        r == (s@ == sentinel()),
{
    let n = s.unicode_len();
    if n != 1 {
        false
    } else {
        let c = s.get_char(0);
        assert(c == '.' ==> s@ =~= sentinel());
        c == '.'
    }
}

/// A fresh string holding the sentinel.
pub fn sentinel_string() -> (r: String)
    ensures
        r@ == sentinel(),
{
    let mut r = String::new();
    push_char(&mut r, '.');
    assert(r@ =~= sentinel());
    r
}

/// The number of bytes that the first `i` characters of `s` take in UTF-8:
/// the byte offset of the character with index `i`.
pub open spec fn byte_offset(s: Seq<char>, i: int) -> nat {
    encode_utf8(s.take(i)).len()
}

/// The encoding of a concatenation is as long as the two encodings together.
pub proof fn lemma_encoded_len_concat(a: Seq<char>, b: Seq<char>)
    ensures
        encode_utf8(a + b).len() == encode_utf8(a).len() + encode_utf8(b).len(),
    decreases a.len(),
{
    if a.len() == 0 {
        assert(a + b =~= b);
    } else {
        assert((a + b).drop_first() =~= a.drop_first() + b);
        assert((a + b)[0] == a[0]);
        lemma_encoded_len_concat(a.drop_first(), b);
    }
}

/// The byte offset in `raw` of the character with index `i`, where `cs`
/// holds the characters of `raw`.
pub(crate) fn offset_in_bytes(raw: &str, cs: &Vec<char>, i: usize) -> (r: usize)
    requires
        cs@ == raw@,
        i <= cs.len(),
    ensures
        r == byte_offset(raw@, i as int),
{
    broadcast use char_is_scalar;

    let total: usize = raw.as_bytes().len();
    let mut k: usize = 0;
    let mut acc: usize = 0;
    assert(cs@.take(0) =~= Seq::<char>::empty());
    while k < i
        invariant
            k <= i <= cs.len(),
            acc == encode_utf8(cs@.take(k as int)).len(),
            total == encode_utf8(cs@).len(),
        decreases i - k,
    {
        let c = cs[k];
        let u: u32 = c as u32;
        let w: usize = if u < 0x80 {
            1
        } else if u < 0x800 {
            2
        } else if u < 0x10000 {
            3
        } else {
            4
        };
        proof {
            let one = seq![c];
            assert(one.drop_first() =~= Seq::<char>::empty());
            assert(encode_utf8(one.drop_first()).len() == 0);
            assert(one[0] == c);
            char_is_scalar(c);
            assert(is_scalar(u));
            assert(encode_scalar(u).len() == w);
            assert(encode_utf8(one) == encode_scalar(u) + encode_utf8(one.drop_first()));
            assert(encode_utf8(one).len() == w);
            assert(cs@.take(k + 1) =~= cs@.take(k as int) + one);
            lemma_encoded_len_concat(cs@.take(k as int), one);
            assert(cs@.take(k + 1) + cs@.skip(k + 1) =~= cs@);
            lemma_encoded_len_concat(cs@.take(k + 1), cs@.skip(k + 1));
        }
        acc += w;
        k += 1;
    }
    acc
}

} // verus!
