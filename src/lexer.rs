//! The tokens of the IMAP grammar: character runs, numbers, keywords, quoted strings and
//! literals.
//!
//! Each token has a spec function over the input bytes and a start position, which gives
//! `None` where the token does not stand there and otherwise what it holds and where it ends;
//! the executable function of the same name without the `spec_` prefix computes exactly that.

use vstd::prelude::*;
use vstd::utf8::*;
use crate::bytes::{eq_upper, upper_seq, utf8_string};

verus! {

pub const SP: u8 = 32;
pub const CR: u8 = 13;
pub const LF: u8 = 10;
pub const DQUOTE: u8 = 34;
pub const BACKSLASH: u8 = 92;
pub const LPAREN: u8 = 40;
pub const RPAREN: u8 = 41;
pub const LBRACE: u8 = 123;
pub const RBRACE: u8 = 125;
pub const LBRACKET: u8 = 91;
pub const RBRACKET: u8 = 93;
pub const STAR: u8 = 42;
pub const PLUS: u8 = 43;
pub const LANGLE: u8 = 60;
pub const RANGLE: u8 = 62;

/// The largest 32-bit number of the grammar.
pub const MAX_U32: u64 = 4294967295;

/// The largest byte count of a literal: any count that a buffer in memory can hold.
pub open spec fn max_literal() -> nat {
    usize::MAX as nat
}

/// The character classes whose runs form tokens.
#[derive(Clone, Copy, PartialEq, Eq, Debug)]
pub enum CharClass {
    /// ATOM-CHAR: visible ASCII except the atom specials `( ) { % * " \ ]`.
    Atom,
    /// ASTRING-CHAR: ATOM-CHAR or `]`.
    AString,
    /// The characters of a tag: ASTRING-CHAR except `+`.
    Tag,
    /// The characters of a message attribute name: ATOM-CHAR except `[`.
    Name,
    /// Decimal digits.
    Digit,
    /// TEXT-CHAR: any byte but CR, LF and NUL.
    Text,
    /// TEXT-CHAR except `]`.
    CodeText,
    /// A bare token inside a value that is skipped: visible ASCII except `( ) " {`.
    Bare,
}

pub open spec fn is_atom_char(b: u8) -> bool {
    &&& 33 <= b <= 126
    &&& b != LPAREN && b != RPAREN && b != LBRACE && b != 37 && b != STAR
    &&& b != DQUOTE && b != BACKSLASH && b != RBRACKET
}

pub open spec fn in_class(c: CharClass, b: u8) -> bool {
    match c {
        CharClass::Atom => is_atom_char(b),
        CharClass::AString => is_atom_char(b) || b == RBRACKET,
        CharClass::Tag => (is_atom_char(b) || b == RBRACKET) && b != PLUS,
        CharClass::Name => is_atom_char(b) && b != LBRACKET,
        CharClass::Digit => 48 <= b <= 57,
        CharClass::Text => b != CR && b != LF && b != 0,
        CharClass::CodeText => b != CR && b != LF && b != RBRACKET && b != 0,
        CharClass::Bare => 33 <= b <= 126 && b != LPAREN && b != RPAREN && b != DQUOTE && b
            != LBRACE,
    }
}

pub fn class_has(c: CharClass, b: u8) -> (r: bool)
    ensures
        r == in_class(c, b),
{
    let atom = 33 <= b && b <= 126 && b != LPAREN && b != RPAREN && b != LBRACE && b != 37 && b
        != STAR && b != DQUOTE && b != BACKSLASH && b != RBRACKET;
    match c {
        CharClass::Atom => atom,
        CharClass::AString => atom || b == RBRACKET,
        CharClass::Tag => (atom || b == RBRACKET) && b != PLUS,
        CharClass::Name => atom && b != LBRACKET,
        CharClass::Digit => 48 <= b && b <= 57,
        CharClass::Text => b != CR && b != LF && b != 0,
        CharClass::CodeText => b != CR && b != LF && b != RBRACKET && b != 0,
        CharClass::Bare => 33 <= b && b <= 126 && b != LPAREN && b != RPAREN && b != DQUOTE && b
            != LBRACE,
    }
}

/// The end of the longest run of class `c` that starts at `p`.
pub open spec fn run_end(s: Seq<u8>, p: int, c: CharClass) -> int
    decreases s.len() - p,
{
    if 0 <= p < s.len() && in_class(c, s[p]) {
        run_end(s, p + 1, c)
    } else {
        p
    }
}

pub proof fn lemma_run_end(s: Seq<u8>, p: int, c: CharClass)
    requires
        0 <= p <= s.len(),
    ensures
        p <= run_end(s, p, c) <= s.len(),
        forall|i: int| p <= i < run_end(s, p, c) ==> in_class(c, #[trigger] s[i]),
        run_end(s, p, c) < s.len() ==> !in_class(c, s[run_end(s, p, c)]),
    decreases s.len() - p,
{
    if p < s.len() && in_class(c, s[p]) {
        lemma_run_end(s, p + 1, c);
    }
}

pub fn scan(s: &[u8], p: usize, c: CharClass) -> (e: usize)
    requires
        p <= s@.len(),
    ensures
        e as int == run_end(s@, p as int, c),
        p <= e <= s@.len(),
{
    let mut i = p;
    while i < s.len() && class_has(c, s[i])
        invariant
            p <= i <= s@.len(),
            run_end(s@, p as int, c) == run_end(s@, i as int, c),
        decreases s@.len() - i,
    {
        i += 1;
    }
    i
}

/// A position found by an executable function, as an integer.
pub open spec fn pos_of(r: Option<usize>) -> Option<int> {
    match r {
        Some(e) => Some(e as int),
        None => None,
    }
}

/// Whether the byte at `p` is `b`.
pub open spec fn at(s: Seq<u8>, p: int, b: u8) -> bool {
    0 <= p < s.len() && s[p] == b
}

pub fn peek(s: &[u8], p: usize, b: u8) -> (r: bool)
    ensures
        r == at(s@, p as int, b),
        r ==> p < s@.len() <= usize::MAX,
{
    p < s.len() && s[p] == b
}

/// The keyword `kw`, given upper-case, matched without regard to case.
pub open spec fn spec_keyword(s: Seq<u8>, p: int, kw: Seq<u8>) -> Option<int> {
    if 0 <= p && p + kw.len() <= s.len() && upper_seq(s.subrange(p, p + kw.len())) == kw {
        Some(p + kw.len())
    } else {
        None
    }
}

pub fn keyword(s: &[u8], p: usize, kw: &[u8]) -> (r: Option<usize>)
    requires
        p <= s@.len(),
    ensures
        pos_of(r) == spec_keyword(s@, p as int, kw@),
        r matches Some(e) ==> p <= e <= s@.len(),
{
    if kw.len() <= s.len() - p && eq_upper(s, p, p + kw.len(), kw) {
        Some(p + kw.len())
    } else {
        None
    }
}

/// The value of a string of decimal digits.
pub open spec fn digits_value(d: Seq<u8>) -> nat
    decreases d.len(),
{
    if d.len() == 0 {
        0
    } else {
        digits_value(d.drop_last()) * 10 + (d.last() - 48) as nat
    }
}

proof fn lemma_digits_grow(s: Seq<u8>, p: int, i: int, e: int)
    requires
        0 <= p <= i <= e <= s.len(),
        forall|k: int| p <= k < e ==> in_class(CharClass::Digit, #[trigger] s[k]),
    ensures
        digits_value(s.subrange(p, i)) <= digits_value(s.subrange(p, e)),
    decreases e - i,
{
    if i < e {
        lemma_digits_grow(s, p, i, e - 1);
        assert(s.subrange(p, e).drop_last() =~= s.subrange(p, e - 1));
    }
}

/// A number of one or more digits whose value is at most `max`.
pub open spec fn spec_number(s: Seq<u8>, p: int, max: nat) -> Option<(nat, int)> {
    let e = run_end(s, p, CharClass::Digit);
    if e > p && digits_value(s.subrange(p, e)) <= max {
        Some((digits_value(s.subrange(p, e)), e))
    } else {
        None
    }
}

pub fn number(s: &[u8], p: usize, max: u64) -> (r: Option<(u64, usize)>)
    requires
        p <= s@.len(),
    ensures
        r matches Some((v, e)) ==> spec_number(s@, p as int, max as nat) == Some(
            (v as nat, e as int),
        ) && p < e <= s@.len(),
        r is None ==> spec_number(s@, p as int, max as nat) is None,
{
    let e = scan(s, p, CharClass::Digit);
    proof {
        lemma_run_end(s@, p as int, CharClass::Digit);
    }
    if e == p {
        return None;
    }
    let mut v: u64 = 0;
    let mut i = p;
    while i < e
        invariant
            p <= i <= e <= s@.len(),
            e as int == run_end(s@, p as int, CharClass::Digit),
            forall|k: int| p <= k < e ==> in_class(CharClass::Digit, #[trigger] s@[k]),
            v as nat == digits_value(s@.subrange(p as int, i as int)),
            v <= max,
        decreases e - i,
    {
        let d = (s[i] - 48) as u64;
        assert(in_class(CharClass::Digit, s@[i as int]));
        assert(s@.subrange(p as int, i + 1).drop_last() =~= s@.subrange(p as int, i as int));
        if d > max || v > (max - d) / 10 {
            assert(v * 10 + d > max) by (nonlinear_arith)
                requires
                    d > max || v > (max - d) / 10,
                    v >= 0,
            ;
            proof {
                lemma_digits_grow(s@, p as int, i + 1, e as int);
            }
            return None;
        }
        assert(v * 10 + d <= max) by (nonlinear_arith)
            requires
                v <= (max - d) / 10,
                d <= max,
        ;
        v = v * 10 + d;
        i += 1;
    }
    assert(s@.subrange(p as int, i as int) == s@.subrange(p as int, e as int));
    Some((v, e))
}

/// `a` put in front of the bytes of a token result.
pub open spec fn prepend(a: Seq<u8>, r: Option<(Seq<u8>, int)>) -> Option<(Seq<u8>, int)> {
    match r {
        Some((v, e)) => Some((a + v, e)),
        None => None,
    }
}

proof fn lemma_prepend_push(a: Seq<u8>, x: u8, r: Option<(Seq<u8>, int)>)
    ensures
        prepend(a, prepend(seq![x], r)) == prepend(a.push(x), r),
{
    if let Some((v, e)) = r {
        assert(a + (seq![x] + v) =~= a.push(x) + v);
    }
}

/// The rest of a quoted string after its opening quote: its unescaped bytes, and the
/// position after the closing quote.
pub open spec fn spec_quoted_body(s: Seq<u8>, p: int) -> Option<(Seq<u8>, int)>
    decreases s.len() - p,
{
    if p < 0 || p >= s.len() {
        None
    } else if s[p] == DQUOTE {
        Some((Seq::empty(), p + 1))
    } else if s[p] == CR || s[p] == LF || s[p] == 0 {
        None
    } else if s[p] == BACKSLASH {
        if p + 1 < s.len() && (s[p + 1] == DQUOTE || s[p + 1] == BACKSLASH) {
            prepend(seq![s[p + 1]], spec_quoted_body(s, p + 2))
        } else {
            None
        }
    } else {
        prepend(seq![s[p]], spec_quoted_body(s, p + 1))
    }
}

/// A quoted string.
pub open spec fn spec_quoted(s: Seq<u8>, p: int) -> Option<(Seq<u8>, int)> {
    if at(s, p, DQUOTE) {
        spec_quoted_body(s, p + 1)
    } else {
        None
    }
}

pub fn quoted(s: &[u8], p: usize) -> (r: Option<(Vec<u8>, usize)>)
    requires
        p <= s@.len(),
    ensures
        r matches Some((v, e)) ==> spec_quoted(s@, p as int) == Some((v@, e as int)) && p < e
            <= s@.len(),
        r is None ==> spec_quoted(s@, p as int) is None,
{
    if !peek(s, p, DQUOTE) {
        return None;
    }
    let mut acc: Vec<u8> = Vec::new();
    let mut i = p + 1;
    assert(acc@ + Seq::<u8>::empty() =~= acc@);
    while i < s.len()
        invariant
            p < i <= s@.len(),
            spec_quoted(s@, p as int) == prepend(acc@, spec_quoted_body(s@, i as int)),
        decreases s@.len() - i,
    {
        let b = s[i];
        if b == DQUOTE {
            assert(acc@ + Seq::<u8>::empty() =~= acc@);
            return Some((acc, i + 1));
        } else if b == CR || b == LF || b == 0 {
            return None;
        } else if b == BACKSLASH {
            if i + 1 < s.len() && (s[i + 1] == DQUOTE || s[i + 1] == BACKSLASH) {
                proof {
                    lemma_prepend_push(acc@, s@[i + 1], spec_quoted_body(s@, i + 2));
                }
                acc.push(s[i + 1]);
                i += 2;
            } else {
                return None;
            }
        } else {
            proof {
                lemma_prepend_push(acc@, b, spec_quoted_body(s@, i + 1));
            }
            acc.push(b);
            i += 1;
        }
    }
    None
}

/// A literal: `{n}` CRLF and then exactly `n` bytes of any value.
pub open spec fn spec_literal(s: Seq<u8>, p: int) -> Option<(Seq<u8>, int)> {
    if !at(s, p, LBRACE) {
        None
    } else {
        match spec_number(s, p + 1, max_literal()) {
            None => None,
            Some((n, q)) => if at(s, q, RBRACE) && at(s, q + 1, CR) && at(s, q + 2, LF) && q + 3
                + n <= s.len() {
                Some((s.subrange(q + 3, q + 3 + n), q + 3 + n))
            } else {
                None
            },
        }
    }
}

pub fn literal(s: &[u8], p: usize) -> (r: Option<(Vec<u8>, usize)>)
    requires
        p <= s@.len(),
    ensures
        r matches Some((v, e)) ==> spec_literal(s@, p as int) == Some((v@, e as int)) && p < e
            <= s@.len(),
        r is None ==> spec_literal(s@, p as int) is None,
{
    if !peek(s, p, LBRACE) {
        return None;
    }
    match number(s, p + 1, usize::MAX as u64) {
        None => None,
        Some((n, q)) => {
            if peek(s, q, RBRACE) && peek(s, q + 1, CR) && peek(s, q + 2, LF) && (s.len() - (q
                + 3)) as u64 >= n {
                let start = q + 3;
                let end = start + n as usize;
                Some((vstd::slice::slice_to_vec(&s[start..end]), end))
            } else {
                None
            }
        },
    }
}

/// A string: quoted or literal.
pub open spec fn spec_string(s: Seq<u8>, p: int) -> Option<(Seq<u8>, int)> {
    if at(s, p, DQUOTE) {
        spec_quoted(s, p)
    } else if at(s, p, LBRACE) {
        spec_literal(s, p)
    } else {
        None
    }
}

pub fn string(s: &[u8], p: usize) -> (r: Option<(Vec<u8>, usize)>)
    requires
        p <= s@.len(),
    ensures
        r matches Some((v, e)) ==> spec_string(s@, p as int) == Some((v@, e as int)) && p < e
            <= s@.len(),
        r is None ==> spec_string(s@, p as int) is None,
{
    if peek(s, p, DQUOTE) {
        quoted(s, p)
    } else if peek(s, p, LBRACE) {
        literal(s, p)
    } else {
        None
    }
}

pub open spec fn kw_nil() -> Seq<u8> {
    seq!['N' as u8, 'I' as u8, 'L' as u8]
}

/// `NIL`, in any case.
pub open spec fn spec_nil(s: Seq<u8>, p: int) -> Option<int> {
    spec_keyword(s, p, kw_nil())
}

pub fn nil(s: &[u8], p: usize) -> (r: Option<usize>)
    requires
        p <= s@.len(),
    ensures
        pos_of(r) == spec_nil(s@, p as int),
        r matches Some(e) ==> p <= e <= s@.len(),
{
    let kw: [u8; 3] = ['N' as u8, 'I' as u8, 'L' as u8];
    assert(kw@ == kw_nil());
    keyword(s, p, &kw)
}

/// A string or `NIL`.
pub open spec fn spec_nstring(s: Seq<u8>, p: int) -> Option<(Option<Seq<u8>>, int)> {
    if at(s, p, DQUOTE) || at(s, p, LBRACE) {
        match spec_string(s, p) {
            Some((v, e)) => Some((Some(v), e)),
            None => None,
        }
    } else {
        match spec_nil(s, p) {
            Some(e) => Some((None, e)),
            None => None,
        }
    }
}

pub fn nstring(s: &[u8], p: usize) -> (r: Option<(Option<Vec<u8>>, usize)>)
    requires
        p <= s@.len(),
    ensures
        r matches Some((v, e)) ==> spec_nstring(s@, p as int) == Some((v.deep_view(), e as int))
            && p < e <= s@.len(),
        r is None ==> spec_nstring(s@, p as int) is None,
{
    if peek(s, p, DQUOTE) || peek(s, p, LBRACE) {
        match string(s, p) {
            Some((v, e)) => Some((Some(v), e)),
            None => None,
        }
    } else {
        match nil(s, p) {
            Some(e) => Some((None, e)),
            None => None,
        }
    }
}

/// An astring: one or more ASTRING-CHARs, or a string.
pub open spec fn spec_astring(s: Seq<u8>, p: int) -> Option<(Seq<u8>, int)> {
    if at(s, p, DQUOTE) || at(s, p, LBRACE) {
        spec_string(s, p)
    } else {
        let e = run_end(s, p, CharClass::AString);
        if e > p {
            Some((s.subrange(p, e), e))
        } else {
            None
        }
    }
}

pub fn astring(s: &[u8], p: usize) -> (r: Option<(Vec<u8>, usize)>)
    requires
        p <= s@.len(),
    ensures
        r matches Some((v, e)) ==> spec_astring(s@, p as int) == Some((v@, e as int)) && p < e
            <= s@.len(),
        r is None ==> spec_astring(s@, p as int) is None,
{
    if peek(s, p, DQUOTE) || peek(s, p, LBRACE) {
        string(s, p)
    } else {
        let e = scan(s, p, CharClass::AString);
        if e > p {
            Some((vstd::slice::slice_to_vec(&s[p..e]), e))
        } else {
            None
        }
    }
}

/// The characters that the bytes encode as UTF-8, where they are valid UTF-8.
pub open spec fn text_of(b: Seq<u8>) -> Option<Seq<char>> {
    if valid_utf8(b) {
        Some(decode_utf8(b))
    } else {
        None
    }
}

pub fn text(b: &[u8]) -> (r: Option<String>)
    ensures
        r.deep_view() == text_of(b@),
{
    utf8_string(b)
}

} // verus!
