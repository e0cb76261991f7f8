//! Finding where the next response ends in a buffer that may hold part of it.
//!
//! A response ends at the first CRLF that is not inside a literal. A literal header
//! `{n}` CRLF is followed by `n` bytes of any value, which the scan steps over.

use vstd::prelude::*;
use crate::lexer::{
    class_has, in_class, max_literal, PLUS, SP, STAR,
    at, digits_value, lemma_run_end, number, run_end, scan, CR, CharClass, LBRACE, LF,
    RBRACE,
};

verus! {

/// The outcome of the scan for the end of a response.
#[derive(Clone, Copy, Debug, PartialEq, Eq)]
pub enum Framing {
    /// The response ends just before this position.
    Complete(usize),
    /// The buffer ends before the response does.
    Incomplete,
    /// The bytes can never be a response: they cannot begin one, hold a NUL outside a
    /// literal, or a literal announces more bytes than any literal may hold.
    Malformed,
}

pub enum FramingModel {
    Complete(int),
    Incomplete,
    Malformed,
}

impl View for Framing {
    type V = FramingModel;

    open spec fn view(&self) -> FramingModel {
        match self {
            Framing::Complete(e) => FramingModel::Complete(*e as int),
            Framing::Incomplete => FramingModel::Incomplete,
            Framing::Malformed => FramingModel::Malformed,
        }
    }
}

/// Whether the buffer may begin a response: empty, or `+`, or `*` followed by a space (or by
/// nothing yet), or a tag character.
pub open spec fn may_begin(s: Seq<u8>) -> bool {
    s.len() == 0 || (s[0] == PLUS || (s[0] == STAR && (s.len() == 1 || s[1] == SP)) || in_class(
        CharClass::Tag,
        s[0],
    ))
}

/// The scan from position `p`. A NUL byte outside a literal can never stand in a response.
pub open spec fn spec_frame(s: Seq<u8>, p: int) -> FramingModel
    decreases s.len() - p,
{
    if p < 0 || p >= s.len() {
        FramingModel::Incomplete
    } else if s[p] == CR {
        if p + 1 >= s.len() {
            FramingModel::Incomplete
        } else if s[p + 1] == LF {
            FramingModel::Complete(p + 2)
        } else {
            spec_frame(s, p + 1)
        }
    } else if s[p] == 0 {
        FramingModel::Malformed
    } else if s[p] == LBRACE {
        let e = run_end(s, p + 1, CharClass::Digit);
        if e <= p + 1 {
            spec_frame(s, p + 1)
        } else if e >= s.len() {
            FramingModel::Incomplete
        } else if s[e] != RBRACE {
            spec_frame(s, p + 1)
        } else if e + 1 >= s.len() {
            FramingModel::Incomplete
        } else if s[e + 1] != CR {
            spec_frame(s, p + 1)
        } else if e + 2 >= s.len() {
            FramingModel::Incomplete
        } else if s[e + 2] != LF {
            spec_frame(s, p + 1)
        } else if digits_value(s.subrange(p + 1, e)) > max_literal() {
            FramingModel::Malformed
        } else if e + 3 + digits_value(s.subrange(p + 1, e)) > s.len() {
            FramingModel::Incomplete
        } else {
            spec_frame(s, e + 3 + digits_value(s.subrange(p + 1, e)))
        }
    } else {
        spec_frame(s, p + 1)
    }
}

/// Where the response at the start of the buffer ends, or why that is not known.
pub open spec fn spec_framed(s: Seq<u8>) -> FramingModel {
    if may_begin(s) {
        spec_frame(s, 0)
    } else {
        FramingModel::Malformed
    }
}

/// Finds where the response that starts at the beginning of `s` ends.
pub fn frame(s: &[u8]) -> (r: Framing)
    ensures
        r@ == spec_framed(s@),
        r matches Framing::Complete(e) ==> e <= s@.len(),
{
    if s.len() > 0 {
        let b = s[0];
        let star_ok = b == STAR && (s.len() == 1 || s[1] == SP);
        if !(b == PLUS || star_ok || class_has(CharClass::Tag, b)) {
            return Framing::Malformed;
        }
    }
    let mut i: usize = 0;
    while i < s.len()
        invariant
            i <= s@.len(),
            spec_framed(s@) == spec_frame(s@, i as int),
        decreases s@.len() - i,
    {
        if s[i] == CR {
            if i + 1 >= s.len() {
                return Framing::Incomplete;
            } else if s[i + 1] == LF {
                return Framing::Complete(i + 2);
            }
            i += 1;
        } else if s[i] == 0 {
            return Framing::Malformed;
        } else if s[i] == LBRACE {
            let e = scan(s, i + 1, CharClass::Digit);
            if e <= i + 1 {
                i += 1;
            } else if e >= s.len() {
                return Framing::Incomplete;
            } else if s[e] != RBRACE {
                i += 1;
            } else if e + 1 >= s.len() {
                return Framing::Incomplete;
            } else if s[e + 1] != CR {
                i += 1;
            } else if e + 2 >= s.len() {
                return Framing::Incomplete;
            } else if s[e + 2] != LF {
                i += 1;
            } else {
                proof {
                    lemma_run_end(s@, i + 1, CharClass::Digit);
                }
                match number(s, i + 1, usize::MAX as u64) {
                    None => {
                        return Framing::Malformed;
                    },
                    Some((n, q)) => {
                        assert(q == e);
                        if (s.len() - (e + 3)) as u64 >= n {
                            i = e + 3 + n as usize;
                        } else {
                            return Framing::Incomplete;
                        }
                    },
                }
            }
        } else {
            i += 1;
        }
    }
    Framing::Incomplete
}

} // verus!
