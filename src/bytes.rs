//! Byte-level helpers shared by the parser and the command renderer.

use vstd::prelude::*;
use vstd::utf8::*;

verus! {

/// ASCII upper-casing of one byte.
pub open spec fn upper(b: u8) -> u8 {
    if 97 <= b && b <= 122 {
        (b - 32) as u8
    } else {
        b
    }
}

/// ASCII upper-casing of a byte string.
pub open spec fn upper_seq(s: Seq<u8>) -> Seq<u8> {
    s.map_values(|b: u8| upper(b))
}

pub fn upper_byte(b: u8) -> (r: u8)
    ensures
        r == upper(b),
{
    if 97 <= b && b <= 122 {
        b - 32
    } else {
        b
    }
}

/// Whether `s[from..to]`, upper-cased, equals `kw`.
pub fn eq_upper(s: &[u8], from: usize, to: usize, kw: &[u8]) -> (r: bool)
    requires
        from <= to <= s@.len(),
    ensures
        r == (upper_seq(s@.subrange(from as int, to as int)) == kw@),
{
    if to - from != kw.len() {
        proof {
            assert(upper_seq(s@.subrange(from as int, to as int)).len() != kw@.len());
        }
        return false;
    }
    let mut i: usize = 0;
    while i < kw.len()
        invariant
            to - from == kw@.len(),
            from <= to <= s@.len(),
            i <= kw@.len(),
            forall|j: int| 0 <= j < i ==> upper(s@[from + j]) == kw@[j],
        decreases kw@.len() - i,
    {
        if upper_byte(s[from + i]) != kw[i] {
            proof {
                assert(upper_seq(s@.subrange(from as int, to as int))[i as int] != kw@[i as int]);
            }
            return false;
        }
        i += 1;
    }
    proof {
        assert(upper_seq(s@.subrange(from as int, to as int)) =~= kw@);
    }
    true
}

/// The characters of ASCII bytes, one for each byte.
pub open spec fn ascii_chars(b: Seq<u8>) -> Seq<char> {
    b.map_values(|x: u8| x as char)
}

pub open spec fn all_ascii(b: Seq<u8>) -> bool {
    forall|i: int| 0 <= i < b.len() ==> #[trigger] b[i] < 128
}

/// ASCII bytes are valid UTF-8 and decode to one character each.
pub proof fn lemma_ascii_utf8(b: Seq<u8>)
    requires
        all_ascii(b),
    ensures
        valid_utf8(b),
        decode_utf8(b) == ascii_chars(b),
    decreases b.len(),
{
    if b.len() > 0 {
        let b0 = b[0];
        assert(b0 < 128);
        assert((b0 & 0x7f) == b0) by (bit_vector)
            requires
                b0 < 128,
        ;
        assert(valid_first_scalar(b));
        let rest = pop_first_scalar(b);
        assert(rest =~= b.subrange(1, b.len() as int));
        assert(all_ascii(rest)) by {
            assert forall|i: int| 0 <= i < rest.len() implies #[trigger] rest[i] < 128 by {
                assert(rest[i] == b[i + 1]);
            }
        }
        lemma_ascii_utf8(rest);
        assert(decode_utf8(b) =~= ascii_chars(b)) by {
            assert(decode_utf8(b) == seq![decode_first_scalar(b) as char] + decode_utf8(rest));
            assert forall|i: int| 0 <= i < b.len() implies decode_utf8(b)[i] == ascii_chars(b)[i] by {
                if i > 0 {
                    assert(decode_utf8(b)[i] == decode_utf8(rest)[i - 1]);
                }
            }
        }
    }
}

/// Whether `s[from..to]` equals `kw` byte for byte.
pub fn eq_exact(s: &[u8], from: usize, to: usize, kw: &[u8]) -> (r: bool)
    requires
        from <= to <= s@.len(),
    ensures
        r == (s@.subrange(from as int, to as int) == kw@),
{
    if to - from != kw.len() {
        return false;
    }
    let mut i: usize = 0;
    while i < kw.len()
        invariant
            to - from == kw@.len(),
            from <= to <= s@.len(),
            i <= kw@.len(),
            forall|j: int| 0 <= j < i ==> s@[from + j] == kw@[j],
        decreases kw@.len() - i,
    {
        if s[from + i] != kw[i] {
            assert(s@.subrange(from as int, to as int)[i as int] != kw@[i as int]);
            return false;
        }
        i += 1;
    }
    assert(s@.subrange(from as int, to as int) =~= kw@);
    true
}

/// The upper-cased copy of `s[from..to]`.
pub fn upper_vec(s: &[u8], from: usize, to: usize) -> (r: Vec<u8>)
    requires
        from <= to <= s@.len(),
    ensures
        r@ == upper_seq(s@.subrange(from as int, to as int)),
{
    let mut r: Vec<u8> = Vec::new();
    let mut i = from;
    while i < to
        invariant
            from <= i <= to <= s@.len(),
            r@ =~= upper_seq(s@.subrange(from as int, i as int)),
        decreases to - i,
    {
        r.push(upper_byte(s[i]));
        i += 1;
    }
    r
}

pub proof fn lemma_upper_ascii(b: Seq<u8>)
    requires
        all_ascii(b),
    ensures
        all_ascii(upper_seq(b)),
{
    assert forall|i: int| 0 <= i < upper_seq(b).len() implies #[trigger] upper_seq(b)[i] < 128 by {
        assert(b[i] < 128);
    }
}

/// The string of ASCII bytes.
pub fn ascii_string(b: &[u8]) -> (r: String)
    requires
        all_ascii(b@),
    ensures
        r@ == ascii_chars(b@),
{
    proof {
        lemma_ascii_utf8(b@);
    }
    match utf8_string(b) {
        Some(s) => s,
        None => String::new(),
    }
}

/// Relies on `String::from_utf8`: it succeeds exactly on valid UTF-8 and then holds the
/// characters that the bytes encode.
#[verifier::external_body]
pub(crate) fn utf8_string(b: &[u8]) -> (r: Option<String>)
    ensures
        r is Some <==> valid_utf8(b@),
        r matches Some(s) ==> s@ == decode_utf8(b@),
{
    String::from_utf8(b.to_vec()).ok()
}

} // verus!
