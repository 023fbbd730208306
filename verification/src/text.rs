//! Text held in fixed byte arrays.
//!
//! A string field is a byte array that holds UTF-8 up to its first zero
//! byte. Bytes that are not UTF-8 are cut off: the text is the longest
//! prefix that is.

use vstd::prelude::*;
use vstd::slice::slice_subrange;
use vstd::string::StringSliceAdditionalSpecFns;
use vstd::utf8::{decode_utf8, valid_utf8};

verus! {

/// `k` is the length of the longest prefix of `bytes` that is UTF-8.
pub open spec fn longest_utf8_prefix(bytes: Seq<u8>, k: int) -> bool {
    &&& 0 <= k <= bytes.len()
    &&& valid_utf8(bytes.take(k))
    &&& forall|j: int| k < j <= bytes.len() ==> !valid_utf8(#[trigger] bytes.take(j))
}

/// The text of the longest prefix of `bytes` that is UTF-8.
pub open spec fn utf8_text(bytes: Seq<u8>) -> Seq<char> {
    decode_utf8(bytes.take(choose|k: int| longest_utf8_prefix(bytes, k)))
}

/// The index of the first zero byte, or the length where there is none.
pub open spec fn first_zero(bytes: Seq<u8>) -> int
    decreases bytes.len(),
{
    if bytes.len() == 0 || bytes[0] == 0 {
        0
    } else {
        1 + first_zero(bytes.drop_first())
    }
}

/// The text of a string field: what stands before the first zero byte, or
/// the whole array where no byte is zero, cut to its longest UTF-8 prefix.
pub open spec fn field_text(bytes: Seq<u8>) -> Seq<char> {
    utf8_text(bytes.take(first_zero(bytes)))
}

/// `first_zero` is the one index that has only nonzero bytes before it and
/// either a zero byte or the end at it.
pub proof fn lemma_first_zero(bytes: Seq<u8>)
    ensures
        0 <= first_zero(bytes) <= bytes.len(),
        forall|j: int| 0 <= j < first_zero(bytes) ==> bytes[j] != 0,
        first_zero(bytes) < bytes.len() ==> bytes[first_zero(bytes)] == 0,
    decreases bytes.len(),
{
    if bytes.len() != 0 && bytes[0] != 0 {
        let rest = bytes.drop_first();
        lemma_first_zero(rest);
        assert forall|j: int| 0 <= j < first_zero(bytes) implies bytes[j] != 0 by {
            if j > 0 {
                assert(bytes[j] == rest[j - 1]);
            }
        }
    }
}

/// An index with only nonzero bytes before it, and a zero byte or the end
/// at it, is `first_zero`.
pub proof fn lemma_first_zero_is(bytes: Seq<u8>, n: int)
    requires
        0 <= n <= bytes.len(),
        forall|j: int| 0 <= j < n ==> bytes[j] != 0,
        n < bytes.len() ==> bytes[n] == 0,
    ensures
        first_zero(bytes) == n,
{
    lemma_first_zero(bytes);
    let m = first_zero(bytes);
    if m < n {
        assert(bytes[m] != 0);
    }
    if n < m {
        assert(bytes[n] != 0);
    }
}

/// Two longest prefixes are one.
pub proof fn lemma_longest_utf8_prefix_unique(bytes: Seq<u8>, a: int, b: int)
    requires
        longest_utf8_prefix(bytes, a),
        longest_utf8_prefix(bytes, b),
    ensures
        a == b,
{
    if a < b {
        assert(!valid_utf8(bytes.take(b)));
    }
    if b < a {
        assert(!valid_utf8(bytes.take(a)));
    }
}

/// No bytes, no text.
pub proof fn lemma_utf8_text_empty(bytes: Seq<u8>)
    requires
        bytes.len() == 0,
    ensures
        utf8_text(bytes) == Seq::<char>::empty(),
{
    assert(bytes.take(0) =~= Seq::<u8>::empty());
    assert(valid_utf8(bytes.take(0)));
    assert(longest_utf8_prefix(bytes, 0));
    let k = choose|k: int| longest_utf8_prefix(bytes, k);
    assert(k == 0);
    assert(decode_utf8(bytes.take(0)) =~= Seq::<char>::empty());
}

/// A string field that starts with a zero byte holds the empty text; so
/// does one that is all zeros.
pub proof fn lemma_field_text_leading_zero(bytes: Seq<u8>)
    requires
        bytes.len() == 0 || bytes[0] == 0,
    ensures
        field_text(bytes) == Seq::<char>::empty(),
{
    lemma_utf8_text_empty(bytes.take(0));
}

/// A string field without a zero byte is read in full.
pub proof fn lemma_field_text_unterminated(bytes: Seq<u8>)
    requires
        forall|j: int| 0 <= j < bytes.len() ==> bytes[j] != 0,
    ensures
        field_text(bytes) == utf8_text(bytes),
{
    lemma_first_zero_is(bytes, bytes.len() as int);
    assert(bytes.take(bytes.len() as int) =~= bytes);
}

/// Calls `shah::AsUtf8Str::as_utf8_str` on `bytes`: the whole slice as text
/// where it is UTF-8, else the part before the first offending byte. The
/// contract says that the bytes of the text are a prefix of `bytes`, that
/// this prefix is UTF-8 and that no longer one is.
#[verifier::external_body]
fn as_utf8_str(bytes: &[u8]) -> (s: &str)
    ensures
        s.spec_bytes() == bytes@.take(s.spec_bytes().len() as int),
        longest_utf8_prefix(bytes@, s.spec_bytes().len() as int),
{
    shah::AsUtf8Str::as_utf8_str(bytes)
}

/// The text of the longest prefix of `bytes` that is UTF-8.
pub fn lossy_text(bytes: &[u8]) -> (s: String)
    ensures
        s@ == utf8_text(bytes@),
{
    let text: &str = as_utf8_str(bytes);
    proof {
        let k = text.spec_bytes().len() as int;
        let c = choose|c: int| longest_utf8_prefix(bytes@, c);
        lemma_longest_utf8_prefix_unique(bytes@, k, c);
        vstd::utf8::encode_utf8_decode_utf8(text@);
    }
    String::from_str(text)
}

/// The index of the first zero byte of `bytes`, or its length.
pub fn find_zero(bytes: &[u8]) -> (n: usize)
    ensures
        n == first_zero(bytes@),
        n <= bytes@.len(),
{
    let mut i: usize = 0;
    while i < bytes.len() && bytes[i] != 0
        invariant
            i <= bytes@.len(),
            forall|j: int| 0 <= j < i ==> bytes@[j] != 0,
        decreases bytes@.len() - i,
    {
        i = i + 1;
    }
    proof {
        lemma_first_zero_is(bytes@, i as int);
    }
    i
}

/// Reads the text of a string field.
pub fn read_text(bytes: &[u8]) -> (s: String)
    ensures
        s@ == field_text(bytes@),
{
    let n: usize = find_zero(bytes);
    let head: &[u8] = slice_subrange(bytes, 0, n);
    assert(head@ =~= bytes@.take(n as int));
    lossy_text(head)
}

} // verus!
