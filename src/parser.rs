//! The response grammar: spec functions that say what a response is, and the executable
//! parser that computes exactly that.
//!
//! Each `spec_*` function takes the input bytes and a position, and gives `None` where the
//! construct does not stand there, or else its model and the position after it. The
//! executable function of the same name without the prefix agrees with it on every input.

use vstd::prelude::*;
use vstd::string::StringSliceAdditionalSpecFns;
use crate::bytes::{
    all_ascii, ascii_chars, ascii_string, eq_exact, eq_upper, lemma_upper_ascii, upper_seq,
    upper_vec,
};
use crate::keywords as kw;
use crate::fetch::{date_time, msg_att, spec_date_time, spec_msg_att, spec_zone, zone};
use crate::framing::{frame, spec_framed, Framing, FramingModel};
use crate::lexer::{
    astring, at, class_has, in_class, lemma_run_end, literal, nil, nstring, number, peek, run_end,
    scan, spec_astring, spec_literal, spec_nil, spec_nstring, spec_number, text, text_of, BACKSLASH,
    CR, CharClass, LBRACKET, LF, LPAREN, MAX_U32, PLUS, RBRACKET, RPAREN, SP, STAR,
};
use crate::response::{
    Capability, CapabilityModel, DateTime, MailboxData, MailboxDataModel, MailboxFlag,
    MailboxFlagModel, Response, ResponseCode, ResponseCodeModel, ResponseData, ResponseDone,
    ResponseModel, Status, StatusAttribute,
};

verus! {

/// `x` put in front of the items of a result.
pub open spec fn cons<T>(x: T, r: Option<(Seq<T>, int)>) -> Option<(Seq<T>, int)> {
    match r {
        Some((v, e)) => Some((seq![x] + v, e)),
        None => None,
    }
}

/// `a` put in front of the items of a result.
pub open spec fn after<T>(a: Seq<T>, r: Option<(Seq<T>, int)>) -> Option<(Seq<T>, int)> {
    match r {
        Some((v, e)) => Some((a + v, e)),
        None => None,
    }
}

pub proof fn lemma_after_cons<T>(a: Seq<T>, x: T, r: Option<(Seq<T>, int)>)
    ensures
        after(a, cons(x, r)) == after(a.push(x), r),
        after(a, Some((Seq::<T>::empty(), 0int))) == Some((a, 0int)),
{
    if let Some((v, e)) = r {
        assert(a + (seq![x] + v) =~= a.push(x) + v);
    }
    assert(a + Seq::<T>::empty() =~= a);
}

pub proof fn lemma_bytes_deep(v: Vec<u8>)
    ensures
        v.deep_view() == v@,
{
    assert(v.deep_view() =~= v@);
}

proof fn lemma_atom_ascii(s: Seq<u8>, p: int, e: int)
    requires
        0 <= p <= e <= s.len(),
        forall|i: int| p <= i < e ==> in_class(CharClass::Atom, #[trigger] s[i]),
    ensures
        all_ascii(s.subrange(p, e)),
{
    assert forall|i: int| 0 <= i < e - p implies #[trigger] s.subrange(p, e)[i] < 128 by {
        assert(in_class(CharClass::Atom, s[p + i]));
    }
}

// ---------------------------------------------------------------------------------------------
// Status words
// ---------------------------------------------------------------------------------------------

/// The status that an upper-cased word names.
pub open spec fn status_of(u: Seq<u8>) -> Option<Status> {
    if u == kw::ok() {
        Some(Status::OK)
    } else if u == kw::no() {
        Some(Status::No)
    } else if u == kw::bad() {
        Some(Status::Bad)
    } else if u == kw::preauth() {
        Some(Status::PreAuth)
    } else if u == kw::bye() {
        Some(Status::Bye)
    } else {
        None
    }
}

pub fn status_word(s: &[u8], p: usize, e: usize) -> (r: Option<Status>)
    requires
        p <= e <= s@.len(),
    ensures
        r == status_of(upper_seq(s@.subrange(p as int, e as int))),
{
    if eq_upper(s, p, e, &kw::ok_bytes()) {
        Some(Status::OK)
    } else if eq_upper(s, p, e, &kw::no_bytes()) {
        Some(Status::No)
    } else if eq_upper(s, p, e, &kw::bad_bytes()) {
        Some(Status::Bad)
    } else if eq_upper(s, p, e, &kw::preauth_bytes()) {
        Some(Status::PreAuth)
    } else if eq_upper(s, p, e, &kw::bye_bytes()) {
        Some(Status::Bye)
    } else {
        None
    }
}

// ---------------------------------------------------------------------------------------------
// Capabilities
// ---------------------------------------------------------------------------------------------

/// The capability that an atom names: `AUTH=<mechanism>` in any case gives the upper-cased
/// mechanism, `IMAP4rev1` exactly gives the protocol, and any other atom is upper-cased.
pub open spec fn cap_of(t: Seq<u8>) -> CapabilityModel {
    if t.len() > 5 && upper_seq(t.subrange(0, 5)) == kw::auth() {
        CapabilityModel::Auth(ascii_chars(upper_seq(t.subrange(5, t.len() as int))))
    } else if t == kw::imap4rev1() {
        CapabilityModel::Imap4rev1
    } else {
        CapabilityModel::Atom(ascii_chars(upper_seq(t)))
    }
}

pub fn capability_of(s: &[u8], p: usize, e: usize) -> (r: Capability)
    requires
        p <= e <= s@.len(),
        all_ascii(s@.subrange(p as int, e as int)),
    ensures
        r.deep_view() == cap_of(s@.subrange(p as int, e as int)),
{
    let ghost t = s@.subrange(p as int, e as int);
    if e - p > 5 && eq_upper(s, p, p + 5, &kw::auth_bytes()) {
        assert(t.subrange(0, 5) =~= s@.subrange(p as int, p + 5));
        assert(t.subrange(5, t.len() as int) =~= s@.subrange(p + 5, e as int));
        assert(all_ascii(s@.subrange(p + 5, e as int))) by {
            assert forall|i: int| 0 <= i < e - (p + 5) implies #[trigger] s@.subrange(
                p + 5,
                e as int,
            )[i] < 128 by {
                assert(t[i + 5] < 128);
            }
        }
        proof {
            lemma_upper_ascii(s@.subrange(p + 5, e as int));
        }
        Capability::Auth(ascii_string(&upper_vec(s, p + 5, e)))
    } else {
        proof {
            if t.len() > 5 {
                assert(t.subrange(0, 5) =~= s@.subrange(p as int, p + 5));
            }
        }
        if eq_exact(s, p, e, &kw::imap4rev1_bytes()) {
            Capability::Imap4rev1
        } else {
            proof {
                lemma_upper_ascii(t);
            }
            Capability::Atom(ascii_string(&upper_vec(s, p, e)))
        }
    }
}

/// A list of capabilities, each after a space.
pub open spec fn spec_caps(s: Seq<u8>, p: int) -> Option<(Seq<CapabilityModel>, int)>
    decreases s.len() - p,
{
    if at(s, p, SP) {
        let e = run_end(s, p + 1, CharClass::Atom);
        if e <= p + 1 || e > s.len() {
            None
        } else {
            cons(cap_of(s.subrange(p + 1, e)), spec_caps(s, e))
        }
    } else {
        Some((Seq::empty(), p))
    }
}

pub fn caps(s: &[u8], p: usize) -> (r: Option<(Vec<Capability>, usize)>)
    requires
        p <= s@.len(),
    ensures
        r matches Some((v, e)) ==> spec_caps(s@, p as int) == Some((v.deep_view(), e as int))
            && p <= e <= s@.len(),
        r is None ==> spec_caps(s@, p as int) is None,
{
    let mut acc: Vec<Capability> = Vec::new();
    let mut i = p;
    proof {
        lemma_after_cons(acc.deep_view(), CapabilityModel::Imap4rev1, None);
        assert(acc.deep_view() =~= Seq::<CapabilityModel>::empty());
        assert(after(Seq::<CapabilityModel>::empty(), spec_caps(s@, p as int)) == spec_caps(
            s@,
            p as int,
        )) by {
            if let Some((v, e)) = spec_caps(s@, p as int) {
                assert(Seq::<CapabilityModel>::empty() + v =~= v);
            }
        }
    }
    while peek(s, i, SP)
        invariant
            p <= i <= s@.len(),
            spec_caps(s@, p as int) == after(acc.deep_view(), spec_caps(s@, i as int)),
        decreases s@.len() - i,
    {
        let e = scan(s, i + 1, CharClass::Atom);
        if e <= i + 1 {
            return None;
        }
        proof {
            lemma_run_end(s@, i + 1, CharClass::Atom);
            lemma_atom_ascii(s@, i + 1, e as int);
        }
        let c = capability_of(s, i + 1, e);
        proof {
            lemma_after_cons(acc.deep_view(), c.deep_view(), spec_caps(s@, e as int));
        }
        let ghost old_acc = acc.deep_view();
        acc.push(c);
        assert(acc.deep_view() =~= old_acc.push(c.deep_view()));
        i = e;
    }
    proof {
        lemma_after_cons(acc.deep_view(), CapabilityModel::Imap4rev1, None);
    }
    assert(acc.deep_view() + Seq::<CapabilityModel>::empty() =~= acc.deep_view());
    Some((acc, i))
}

// ---------------------------------------------------------------------------------------------
// Flags
// ---------------------------------------------------------------------------------------------

/// The end of a flag token at `p`: `\*`, a backslash and an atom, or an atom; `p` where none
/// stands there.
pub open spec fn flag_end(s: Seq<u8>, p: int) -> int {
    if at(s, p, BACKSLASH) {
        if at(s, p + 1, STAR) {
            p + 2
        } else {
            let e = run_end(s, p + 1, CharClass::Atom);
            if e > p + 1 {
                e
            } else {
                p
            }
        }
    } else {
        run_end(s, p, CharClass::Atom)
    }
}

fn flag_token_end(s: &[u8], p: usize) -> (e: usize)
    requires
        p <= s@.len(),
    ensures
        e as int == flag_end(s@, p as int),
        p <= e <= s@.len(),
        all_ascii(s@.subrange(p as int, e as int)),
{
    if peek(s, p, BACKSLASH) {
        if peek(s, p + 1, STAR) {
            assert(all_ascii(s@.subrange(p as int, p + 2))) by {
                assert(s@.subrange(p as int, p + 2)[0] == BACKSLASH);
                assert(s@.subrange(p as int, p + 2)[1] == STAR);
            }
            p + 2
        } else {
            let e = scan(s, p + 1, CharClass::Atom);
            proof {
                lemma_run_end(s@, p + 1, CharClass::Atom);
                lemma_atom_ascii(s@, p + 1, e as int);
            }
            if e > p + 1 {
                assert(all_ascii(s@.subrange(p as int, e as int))) by {
                    assert forall|i: int| 0 <= i < e - p implies #[trigger] s@.subrange(
                        p as int,
                        e as int,
                    )[i] < 128 by {
                        if i > 0 {
                            assert(s@.subrange(p + 1, e as int)[i - 1] < 128);
                        }
                    }
                }
                e
            } else {
                assert(all_ascii(s@.subrange(p as int, p as int)));
                p
            }
        }
    } else {
        let e = scan(s, p, CharClass::Atom);
        proof {
            lemma_run_end(s@, p as int, CharClass::Atom);
            lemma_atom_ascii(s@, p as int, e as int);
        }
        e
    }
}

/// The flags after an opening parenthesis that has one at least: the raw tokens, and the
/// position after the closing parenthesis.
pub open spec fn spec_flags_rest(s: Seq<u8>, p: int) -> Option<(Seq<Seq<u8>>, int)>
    decreases s.len() - p,
{
    let e = flag_end(s, p);
    if e <= p {
        None
    } else if at(s, e, RPAREN) {
        Some((seq![s.subrange(p, e)], e + 1))
    } else if at(s, e, SP) {
        cons(s.subrange(p, e), spec_flags_rest(s, e + 1))
    } else {
        None
    }
}

/// A parenthesized list of flags, separated by spaces.
pub open spec fn spec_flag_list(s: Seq<u8>, p: int) -> Option<(Seq<Seq<u8>>, int)> {
    if !at(s, p, LPAREN) {
        None
    } else if at(s, p + 1, RPAREN) {
        Some((Seq::empty(), p + 2))
    } else {
        spec_flags_rest(s, p + 1)
    }
}

pub fn flag_list(s: &[u8], p: usize) -> (r: Option<(Vec<Vec<u8>>, usize)>)
    requires
        p <= s@.len(),
    ensures
        r matches Some((v, e)) ==> spec_flag_list(s@, p as int) == Some((v.deep_view(), e as int))
            && p < e <= s@.len() && forall|k: int| 0 <= k < v@.len() ==> all_ascii(#[trigger] v@[k]@),
        r is None ==> spec_flag_list(s@, p as int) is None,
{
    if !peek(s, p, LPAREN) {
        return None;
    }
    if peek(s, p + 1, RPAREN) {
        let v: Vec<Vec<u8>> = Vec::new();
        assert(v.deep_view() =~= Seq::<Seq<u8>>::empty());
        return Some((v, p + 2));
    }
    let mut acc: Vec<Vec<u8>> = Vec::new();
    let mut i = p + 1;
    assert(acc.deep_view() =~= Seq::<Seq<u8>>::empty());
    assert(after(Seq::<Seq<u8>>::empty(), spec_flags_rest(s@, i as int)) == spec_flags_rest(
        s@,
        i as int,
    )) by {
        if let Some((v, e)) = spec_flags_rest(s@, i as int) {
            assert(Seq::<Seq<u8>>::empty() + v =~= v);
        }
    }
    loop
        invariant
            p < i <= s@.len(),
            spec_flag_list(s@, p as int) == after(acc.deep_view(), spec_flags_rest(s@, i as int)),
            forall|k: int| 0 <= k < acc@.len() ==> all_ascii(#[trigger] acc@[k]@),
        decreases s@.len() - i,
    {
        let e = flag_token_end(s, i);
        if e <= i {
            return None;
        }
        let tok = vstd::slice::slice_to_vec(&s[i..e]);
        proof {
            lemma_bytes_deep(tok);
        }
        let ghost old_acc = acc.deep_view();
        if peek(s, e, RPAREN) {
            proof {
                lemma_after_cons(old_acc, tok@, Some((Seq::<Seq<u8>>::empty(), e + 1)));
            }
            acc.push(tok);
            assert(acc.deep_view() =~= old_acc.push(tok@));
            assert(acc.deep_view() + Seq::<Seq<u8>>::empty() =~= acc.deep_view());
            assert(seq![tok@] + Seq::<Seq<u8>>::empty() =~= seq![tok@]);
            return Some((acc, e + 1));
        } else if peek(s, e, SP) {
            proof {
                lemma_after_cons(old_acc, tok@, spec_flags_rest(s@, e + 1));
            }
            acc.push(tok);
            assert(acc.deep_view() =~= old_acc.push(tok@));
            i = e + 1;
        } else {
            return None;
        }
    }
}

/// The flag that a token names; the system flags are matched exactly.
pub open spec fn flag_of(t: Seq<u8>) -> MailboxFlagModel {
    if t == kw::answered() {
        MailboxFlagModel::Answered
    } else if t == kw::flagged() {
        MailboxFlagModel::Flagged
    } else if t == kw::deleted() {
        MailboxFlagModel::Deleted
    } else if t == kw::seen() {
        MailboxFlagModel::Seen
    } else if t == kw::draft() {
        MailboxFlagModel::Draft
    } else if t == kw::recent_flag() {
        MailboxFlagModel::Recent
    } else {
        MailboxFlagModel::Ext(ascii_chars(t))
    }
}

pub fn flag_from(t: &Vec<u8>) -> (r: MailboxFlag)
    requires
        all_ascii(t@),
    ensures
        r.deep_view() == flag_of(t@),
{
    let n = t.len();
    let s = t.as_slice();
    assert(s@.subrange(0, n as int) =~= t@);
    if eq_exact(s, 0, n, &kw::answered_bytes()) {
        MailboxFlag::Answered
    } else if eq_exact(s, 0, n, &kw::flagged_bytes()) {
        MailboxFlag::Flagged
    } else if eq_exact(s, 0, n, &kw::deleted_bytes()) {
        MailboxFlag::Deleted
    } else if eq_exact(s, 0, n, &kw::seen_bytes()) {
        MailboxFlag::Seen
    } else if eq_exact(s, 0, n, &kw::draft_bytes()) {
        MailboxFlag::Draft
    } else if eq_exact(s, 0, n, &kw::recent_flag_bytes()) {
        MailboxFlag::Recent
    } else {
        MailboxFlag::Ext(ascii_string(s))
    }
}

/// The flags that tokens name.
pub open spec fn flags_of(toks: Seq<Seq<u8>>) -> Seq<MailboxFlagModel> {
    toks.map_values(|t: Seq<u8>| flag_of(t))
}

pub fn flags_from(toks: &Vec<Vec<u8>>) -> (r: Vec<MailboxFlag>)
    requires
        forall|k: int| 0 <= k < toks@.len() ==> all_ascii(#[trigger] toks@[k]@),
    ensures
        r.deep_view() == flags_of(toks.deep_view()),
{
    let mut r: Vec<MailboxFlag> = Vec::new();
    let mut i: usize = 0;
    while i < toks.len()
        invariant
            i <= toks@.len(),
            forall|k: int| 0 <= k < toks@.len() ==> all_ascii(#[trigger] toks@[k]@),
            r.deep_view() =~= flags_of(toks.deep_view()).subrange(0, i as int),
        decreases toks@.len() - i,
    {
        proof {
            lemma_bytes_deep(toks@[i as int]);
        }
        let f = flag_from(&toks[i]);
        let ghost old_r = r.deep_view();
        r.push(f);
        assert(r.deep_view() =~= old_r.push(f.deep_view()));
        i += 1;
    }
    assert(flags_of(toks.deep_view()).subrange(0, i as int) =~= flags_of(toks.deep_view()));
    r
}

/// The texts of ASCII tokens.
pub open spec fn texts_of(toks: Seq<Seq<u8>>) -> Seq<Seq<char>> {
    toks.map_values(|t: Seq<u8>| ascii_chars(t))
}

pub fn texts_from(toks: &Vec<Vec<u8>>) -> (r: Vec<String>)
    requires
        forall|k: int| 0 <= k < toks@.len() ==> all_ascii(#[trigger] toks@[k]@),
    ensures
        r.deep_view() == texts_of(toks.deep_view()),
{
    let mut r: Vec<String> = Vec::new();
    let mut i: usize = 0;
    while i < toks.len()
        invariant
            i <= toks@.len(),
            forall|k: int| 0 <= k < toks@.len() ==> all_ascii(#[trigger] toks@[k]@),
            r.deep_view() =~= texts_of(toks.deep_view()).subrange(0, i as int),
        decreases toks@.len() - i,
    {
        proof {
            lemma_bytes_deep(toks@[i as int]);
        }
        let t = ascii_string(toks[i].as_slice());
        let ghost old_r = r.deep_view();
        r.push(t);
        assert(r.deep_view() =~= old_r.push(t.deep_view()));
        i += 1;
    }
    assert(texts_of(toks.deep_view()).subrange(0, i as int) =~= texts_of(toks.deep_view()));
    r
}

// ---------------------------------------------------------------------------------------------
// Response codes and response text
// ---------------------------------------------------------------------------------------------

/// A space and a number of at most `max`.
pub open spec fn spec_sp_number(s: Seq<u8>, p: int, max: nat) -> Option<(nat, int)> {
    if at(s, p, SP) {
        spec_number(s, p + 1, max)
    } else {
        None
    }
}

pub fn sp_number(s: &[u8], p: usize, max: u64) -> (r: Option<(u64, usize)>)
    requires
        p <= s@.len(),
    ensures
        r matches Some((v, e)) ==> spec_sp_number(s@, p as int, max as nat) == Some(
            (v as nat, e as int),
        ) && p < e <= s@.len() && v <= max,
        r is None ==> spec_sp_number(s@, p as int, max as nat) is None,
{
    if peek(s, p, SP) {
        number(s, p + 1, max)
    } else {
        None
    }
}

/// The code inside the brackets of a response text, from its name on.
pub open spec fn spec_code(s: Seq<u8>, p: int) -> Option<(ResponseCodeModel, int)> {
    let e = run_end(s, p, CharClass::Atom);
    let u = upper_seq(s.subrange(p, e));
    if e <= p || e > s.len() {
        None
    } else if u == kw::alert() {
        Some((ResponseCodeModel::Alert, e))
    } else if u == kw::parse() {
        Some((ResponseCodeModel::Parse, e))
    } else if u == kw::read_only() {
        Some((ResponseCodeModel::ReadOnly, e))
    } else if u == kw::read_write() {
        Some((ResponseCodeModel::ReadWrite, e))
    } else if u == kw::trycreate() {
        Some((ResponseCodeModel::TryCreate, e))
    } else if u == kw::uidnotsticky() {
        Some((ResponseCodeModel::UidNotSticky, e))
    } else if u == kw::uidnext() {
        match spec_sp_number(s, e, MAX_U32 as nat) {
            Some((n, q)) => Some((ResponseCodeModel::UidNext(n as u32), q)),
            None => None,
        }
    } else if u == kw::uidvalidity() {
        match spec_sp_number(s, e, MAX_U32 as nat) {
            Some((n, q)) => Some((ResponseCodeModel::UidValidity(n as u32), q)),
            None => None,
        }
    } else if u == kw::unseen() {
        match spec_sp_number(s, e, MAX_U32 as nat) {
            Some((n, q)) => Some((ResponseCodeModel::Unseen(n as u32), q)),
            None => None,
        }
    } else if u == kw::highestmodseq() {
        match spec_sp_number(s, e, u64::MAX as nat) {
            Some((n, q)) => Some((ResponseCodeModel::HighestModSeq(n as u64), q)),
            None => None,
        }
    } else if u == kw::capability() {
        match spec_caps(s, e) {
            Some((c, q)) => Some((ResponseCodeModel::Capabilities(c), q)),
            None => None,
        }
    } else if u == kw::permanentflags() {
        if at(s, e, SP) {
            match spec_flag_list(s, e + 1) {
                Some((f, q)) => Some((ResponseCodeModel::PermanentFlags(texts_of(f)), q)),
                None => None,
            }
        } else {
            None
        }
    } else if at(s, e, SP) {
        let q = run_end(s, e + 1, CharClass::CodeText);
        match text_of(s.subrange(e + 1, q)) {
            Some(t) => Some((ResponseCodeModel::Other(ascii_chars(s.subrange(p, e)), Some(t)), q)),
            None => None,
        }
    } else {
        Some((ResponseCodeModel::Other(ascii_chars(s.subrange(p, e)), None), e))
    }
}

pub fn code(s: &[u8], p: usize) -> (r: Option<(ResponseCode, usize)>)
    requires
        p <= s@.len(),
    ensures
        r matches Some((v, e)) ==> spec_code(s@, p as int) == Some((v.deep_view(), e as int)) && p
            < e <= s@.len(),
        r is None ==> spec_code(s@, p as int) is None,
{
    let e = scan(s, p, CharClass::Atom);
    if e <= p {
        return None;
    }
    proof {
        lemma_run_end(s@, p as int, CharClass::Atom);
        lemma_atom_ascii(s@, p as int, e as int);
    }
    if eq_upper(s, p, e, &kw::alert_bytes()) {
        Some((ResponseCode::Alert, e))
    } else if eq_upper(s, p, e, &kw::parse_bytes()) {
        Some((ResponseCode::Parse, e))
    } else if eq_upper(s, p, e, &kw::read_only_bytes()) {
        Some((ResponseCode::ReadOnly, e))
    } else if eq_upper(s, p, e, &kw::read_write_bytes()) {
        Some((ResponseCode::ReadWrite, e))
    } else if eq_upper(s, p, e, &kw::trycreate_bytes()) {
        Some((ResponseCode::TryCreate, e))
    } else if eq_upper(s, p, e, &kw::uidnotsticky_bytes()) {
        Some((ResponseCode::UidNotSticky, e))
    } else if eq_upper(s, p, e, &kw::uidnext_bytes()) {
        match sp_number(s, e, MAX_U32) {
            Some((n, q)) => Some((ResponseCode::UidNext(n as u32), q)),
            None => None,
        }
    } else if eq_upper(s, p, e, &kw::uidvalidity_bytes()) {
        match sp_number(s, e, MAX_U32) {
            Some((n, q)) => Some((ResponseCode::UidValidity(n as u32), q)),
            None => None,
        }
    } else if eq_upper(s, p, e, &kw::unseen_bytes()) {
        match sp_number(s, e, MAX_U32) {
            Some((n, q)) => Some((ResponseCode::Unseen(n as u32), q)),
            None => None,
        }
    } else if eq_upper(s, p, e, &kw::highestmodseq_bytes()) {
        match sp_number(s, e, u64::MAX) {
            Some((n, q)) => Some((ResponseCode::HighestModSeq(n), q)),
            None => None,
        }
    } else if eq_upper(s, p, e, &kw::capability_bytes()) {
        match caps(s, e) {
            Some((c, q)) => Some((ResponseCode::Capabilities(c), q)),
            None => None,
        }
    } else if eq_upper(s, p, e, &kw::permanentflags_bytes()) {
        if peek(s, e, SP) {
            match flag_list(s, e + 1) {
                Some((f, q)) => Some((ResponseCode::PermanentFlags(texts_from(&f)), q)),
                None => None,
            }
        } else {
            None
        }
    } else if peek(s, e, SP) {
        let q = scan(s, e + 1, CharClass::CodeText);
        match text(&s[e + 1..q]) {
            Some(t) => Some((ResponseCode::Other(ascii_string(&s[p..e]), Some(t)), q)),
            None => None,
        }
    } else {
        Some((ResponseCode::Other(ascii_string(&s[p..e]), None), e))
    }
}

/// An optional bracketed code, with the space after it.
pub open spec fn spec_code_part(s: Seq<u8>, p: int) -> Option<(Option<ResponseCodeModel>, int)> {
    if at(s, p, LBRACKET) {
        match spec_code(s, p + 1) {
            Some((c, q)) => if at(s, q, RBRACKET) {
                Some((Some(c), if at(s, q + 1, SP) { q + 2 } else { q + 1 }))
            } else {
                None
            },
            None => None,
        }
    } else {
        Some((None, p))
    }
}

pub fn code_part(s: &[u8], p: usize) -> (r: Option<(Option<ResponseCode>, usize)>)
    requires
        p <= s@.len(),
    ensures
        r matches Some((v, e)) ==> spec_code_part(s@, p as int) == Some((v.deep_view(), e as int))
            && p <= e <= s@.len(),
        r is None ==> spec_code_part(s@, p as int) is None,
{
    if peek(s, p, LBRACKET) {
        match code(s, p + 1) {
            Some((c, q)) => if peek(s, q, RBRACKET) {
                Some((Some(c), if peek(s, q + 1, SP) { q + 2 } else { q + 1 }))
            } else {
                None
            },
            None => None,
        }
    } else {
        Some((None, p))
    }
}

/// The text up to the end of the line; none where it is empty.
pub open spec fn spec_info(s: Seq<u8>, p: int) -> Option<(Option<Seq<char>>, int)> {
    let e = run_end(s, p, CharClass::Text);
    if e <= p {
        Some((None, p))
    } else {
        match text_of(s.subrange(p, e)) {
            Some(t) => Some((Some(t), e)),
            None => None,
        }
    }
}

pub fn info(s: &[u8], p: usize) -> (r: Option<(Option<String>, usize)>)
    requires
        p <= s@.len(),
    ensures
        r matches Some((v, e)) ==> spec_info(s@, p as int) == Some((v.deep_view(), e as int)) && p
            <= e <= s@.len(),
        r is None ==> spec_info(s@, p as int) is None,
{
    let e = scan(s, p, CharClass::Text);
    if e <= p {
        Some((None, p))
    } else {
        match text(&s[p..e]) {
            Some(t) => Some((Some(t), e)),
            None => None,
        }
    }
}

/// A response text: an optional code, then the text.
pub open spec fn spec_resp_text(s: Seq<u8>, p: int) -> Option<
    (Option<ResponseCodeModel>, Option<Seq<char>>, int),
> {
    match spec_code_part(s, p) {
        Some((c, q)) => match spec_info(s, q) {
            Some((i, e)) => Some((c, i, e)),
            None => None,
        },
        None => None,
    }
}

pub fn resp_text(s: &[u8], p: usize) -> (r: Option<(Option<ResponseCode>, Option<String>, usize)>)
    requires
        p <= s@.len(),
    ensures
        r matches Some((c, i, e)) ==> spec_resp_text(s@, p as int) == Some(
            (c.deep_view(), i.deep_view(), e as int),
        ) && p <= e <= s@.len(),
        r is None ==> spec_resp_text(s@, p as int) is None,
{
    match code_part(s, p) {
        Some((c, q)) => match info(s, q) {
            Some((i, e)) => Some((c, i, e)),
            None => None,
        },
        None => None,
    }
}

/// What follows a status word: a space and a response text, or nothing.
pub open spec fn spec_status_tail(s: Seq<u8>, p: int) -> Option<
    (Option<ResponseCodeModel>, Option<Seq<char>>, int),
> {
    if at(s, p, SP) {
        spec_resp_text(s, p + 1)
    } else {
        Some((None, None, p))
    }
}

pub fn status_tail(s: &[u8], p: usize) -> (r: Option<(Option<ResponseCode>, Option<String>, usize)>)
    requires
        p <= s@.len(),
    ensures
        r matches Some((c, i, e)) ==> spec_status_tail(s@, p as int) == Some(
            (c.deep_view(), i.deep_view(), e as int),
        ) && p <= e <= s@.len(),
        r is None ==> spec_status_tail(s@, p as int) is None,
{
    if peek(s, p, SP) {
        resp_text(s, p + 1)
    } else {
        Some((None, None, p))
    }
}

// ---------------------------------------------------------------------------------------------
// Mailbox data
// ---------------------------------------------------------------------------------------------

/// The text of an optional string, where it is valid UTF-8.
pub open spec fn opt_text(d: Option<Seq<u8>>) -> Option<Option<Seq<char>>> {
    match d {
        None => Some(None),
        Some(b) => match text_of(b) {
            Some(t) => Some(Some(t)),
            None => None,
        },
    }
}

pub fn opt_text_of(d: &Option<Vec<u8>>) -> (r: Option<Option<String>>)
    ensures
        r.deep_view() == opt_text(d.deep_view()),
{
    match d {
        None => Some(None),
        Some(b) => {
            proof {
                lemma_bytes_deep(*b);
            }
            match text(b.as_slice()) {
                Some(t) => Some(Some(t)),
                None => None,
            }
        },
    }
}

/// The body of a LIST response: flags, hierarchy delimiter and mailbox name.
pub open spec fn spec_mailbox_list(s: Seq<u8>, p: int) -> Option<(MailboxDataModel, int)> {
    match spec_flag_list(s, p) {
        None => None,
        Some((f, q)) => if !at(s, q, SP) {
            None
        } else {
            match spec_nstring(s, q + 1) {
                None => None,
                Some((d, q2)) => match opt_text(d) {
                    None => None,
                    Some(dt) => if !at(s, q2, SP) {
                        None
                    } else {
                        match spec_astring(s, q2 + 1) {
                            None => None,
                            Some((n, q3)) => match text_of(n) {
                                None => None,
                                Some(nt) => Some(
                                    (
                                        MailboxDataModel::List {
                                            flags: texts_of(f),
                                            delimiter: dt,
                                            name: nt,
                                        },
                                        q3,
                                    ),
                                ),
                            },
                        }
                    },
                },
            }
        },
    }
}

pub fn mailbox_list(s: &[u8], p: usize) -> (r: Option<(MailboxData, usize)>)
    requires
        p <= s@.len(),
    ensures
        r matches Some((v, e)) ==> spec_mailbox_list(s@, p as int) == Some(
            (v.deep_view(), e as int),
        ) && p < e <= s@.len(),
        r is None ==> spec_mailbox_list(s@, p as int) is None,
{
    let (f, q) = match flag_list(s, p) {
        None => return None,
        Some(x) => x,
    };
    if !peek(s, q, SP) {
        return None;
    }
    let (d, q2) = match nstring(s, q + 1) {
        None => return None,
        Some(x) => x,
    };
    let dt = match opt_text_of(&d) {
        None => return None,
        Some(x) => x,
    };
    if !peek(s, q2, SP) {
        return None;
    }
    let (n, q3) = match astring(s, q2 + 1) {
        None => return None,
        Some(x) => x,
    };
    let nt = match text(n.as_slice()) {
        None => return None,
        Some(x) => x,
    };
    Some((MailboxData::List { flags: texts_from(&f), delimiter: dt, name: nt }, q3))
}

/// The status item that an upper-cased name gives to a number, where the number fits it.
pub open spec fn status_item_of(u: Seq<u8>, n: nat) -> Option<StatusAttribute> {
    if u == kw::highestmodseq() {
        Some(StatusAttribute::HighestModSeq(n as u64))
    } else if n > MAX_U32 {
        None
    } else if u == kw::messages() {
        Some(StatusAttribute::Messages(n as u32))
    } else if u == kw::recent() {
        Some(StatusAttribute::Recent(n as u32))
    } else if u == kw::uidnext() {
        Some(StatusAttribute::UidNext(n as u32))
    } else if u == kw::uidvalidity() {
        Some(StatusAttribute::UidValidity(n as u32))
    } else if u == kw::unseen() {
        Some(StatusAttribute::Unseen(n as u32))
    } else {
        None
    }
}

/// One status item: a name, a space and a number.
pub open spec fn spec_status_item(s: Seq<u8>, p: int) -> Option<(StatusAttribute, int)> {
    let w = run_end(s, p, CharClass::Atom);
    if w <= p || w > s.len() {
        None
    } else {
        match spec_sp_number(s, w, u64::MAX as nat) {
            Some((n, e)) => match status_item_of(upper_seq(s.subrange(p, w)), n) {
                Some(a) => Some((a, e)),
                None => None,
            },
            None => None,
        }
    }
}

fn status_item(s: &[u8], p: usize) -> (r: Option<(StatusAttribute, usize)>)
    requires
        p <= s@.len(),
    ensures
        r matches Some((v, e)) ==> spec_status_item(s@, p as int) == Some((v, e as int)) && p
            < e <= s@.len(),
        r is None ==> spec_status_item(s@, p as int) is None,
{
    let w = scan(s, p, CharClass::Atom);
    if w <= p {
        return None;
    }
    let (n, e) = match sp_number(s, w, u64::MAX) {
        Some(x) => x,
        None => return None,
    };
    let item = if eq_upper(s, p, w, &kw::highestmodseq_bytes()) {
        StatusAttribute::HighestModSeq(n)
    } else if n > MAX_U32 {
        return None;
    } else if eq_upper(s, p, w, &kw::messages_bytes()) {
        StatusAttribute::Messages(n as u32)
    } else if eq_upper(s, p, w, &kw::recent_bytes()) {
        StatusAttribute::Recent(n as u32)
    } else if eq_upper(s, p, w, &kw::uidnext_bytes()) {
        StatusAttribute::UidNext(n as u32)
    } else if eq_upper(s, p, w, &kw::uidvalidity_bytes()) {
        StatusAttribute::UidValidity(n as u32)
    } else if eq_upper(s, p, w, &kw::unseen_bytes()) {
        StatusAttribute::Unseen(n as u32)
    } else {
        return None;
    };
    Some((item, e))
}

/// Status items separated by spaces, and the closing parenthesis.
pub open spec fn spec_status_items(s: Seq<u8>, p: int) -> Option<(Seq<StatusAttribute>, int)>
    decreases s.len() - p,
{
    match spec_status_item(s, p) {
        Some((a, e)) => if at(s, e, RPAREN) {
            Some((seq![a], e + 1))
        } else if p < e && at(s, e, SP) {
            cons(a, spec_status_items(s, e + 1))
        } else {
            None
        },
        None => None,
    }
}

/// The body of a STATUS response: a mailbox name, a space and its status items.
pub open spec fn spec_mailbox_status(s: Seq<u8>, p: int) -> Option<(MailboxDataModel, int)> {
    match spec_astring(s, p) {
        None => None,
        Some((n, q)) => match text_of(n) {
            None => None,
            Some(name) => if !at(s, q, SP) || !at(s, q + 1, LPAREN) {
                None
            } else {
                let items = if at(s, q + 2, RPAREN) {
                    Some((Seq::<StatusAttribute>::empty(), q + 3))
                } else {
                    spec_status_items(s, q + 2)
                };
                match items {
                    Some((v, e)) => Some((MailboxDataModel::Status { mailbox: name, status: v }, e)),
                    None => None,
                }
            },
        },
    }
}

fn mailbox_status(s: &[u8], p: usize) -> (r: Option<(MailboxData, usize)>)
    requires
        p <= s@.len(),
    ensures
        r matches Some((v, e)) ==> spec_mailbox_status(s@, p as int) == Some(
            (v.deep_view(), e as int),
        ) && p < e <= s@.len(),
        r is None ==> spec_mailbox_status(s@, p as int) is None,
{
    let (n, q) = match astring(s, p) {
        None => return None,
        Some(x) => x,
    };
    let name = match text(n.as_slice()) {
        None => return None,
        Some(x) => x,
    };
    if !peek(s, q, SP) || !peek(s, q + 1, LPAREN) {
        return None;
    }
    let mut acc: Vec<StatusAttribute> = Vec::new();
    if peek(s, q + 2, RPAREN) {
        assert(acc@ =~= Seq::<StatusAttribute>::empty());
        return Some((MailboxData::Status { mailbox: name, status: acc }, q + 3));
    }
    let mut i = q + 2;
    proof {
        lemma_after_cons(acc@, StatusAttribute::Messages(0), None);
        if let Some((v, e)) = spec_status_items(s@, i as int) {
            assert(acc@ + v =~= v);
        }
    }
    loop
        invariant
            p < i <= s@.len(),
            spec_mailbox_status(s@, p as int) == match after(acc@, spec_status_items(s@, i as int)) {
                Some((v, e)) => Some((MailboxDataModel::Status { mailbox: name@, status: v }, e)),
                None => None,
            },
        decreases s@.len() - i,
    {
        let (a, e) = match status_item(s, i) {
            None => return None,
            Some(x) => x,
        };
        if peek(s, e, RPAREN) {
            proof {
                lemma_after_cons(acc@, a, Some((Seq::<StatusAttribute>::empty(), e + 1)));
                assert(seq![a] + Seq::<StatusAttribute>::empty() =~= seq![a]);
            }
            acc.push(a);
            assert(acc@ + Seq::<StatusAttribute>::empty() =~= acc@);
            return Some((MailboxData::Status { mailbox: name, status: acc }, e + 1));
        } else if peek(s, e, SP) {
            proof {
                lemma_after_cons(acc@, a, spec_status_items(s@, e + 1));
            }
            acc.push(a);
            i = e + 1;
        } else {
            return None;
        }
    }
}

/// The numbers of a SEARCH response, each after a space.
pub open spec fn spec_search(s: Seq<u8>, p: int) -> Option<(Seq<u32>, int)>
    decreases s.len() - p,
{
    if at(s, p, SP) {
        match spec_number(s, p + 1, MAX_U32 as nat) {
            Some((n, e)) => if p < e <= s.len() {
                cons(n as u32, spec_search(s, e))
            } else {
                None
            },
            None => None,
        }
    } else {
        Some((Seq::empty(), p))
    }
}

pub fn search(s: &[u8], p: usize) -> (r: Option<(Vec<u32>, usize)>)
    requires
        p <= s@.len(),
    ensures
        r matches Some((v, e)) ==> spec_search(s@, p as int) == Some((v@, e as int)) && p <= e
            <= s@.len(),
        r is None ==> spec_search(s@, p as int) is None,
{
    let mut acc: Vec<u32> = Vec::new();
    let mut i = p;
    proof {
        lemma_after_cons(acc@, 0u32, None);
        if let Some((v, e)) = spec_search(s@, p as int) {
            assert(acc@ + v =~= v);
        }
    }
    while peek(s, i, SP)
        invariant
            p <= i <= s@.len(),
            spec_search(s@, p as int) == after(acc@, spec_search(s@, i as int)),
        decreases s@.len() - i,
    {
        match number(s, i + 1, MAX_U32) {
            Some((n, e)) => {
                proof {
                    lemma_after_cons(acc@, n as u32, spec_search(s@, e as int));
                }
                acc.push(n as u32);
                i = e;
            },
            None => return None,
        }
    }
    proof {
        lemma_after_cons(acc@, 0u32, None);
    }
    Some((acc, i))
}

// ---------------------------------------------------------------------------------------------
// Responses
// ---------------------------------------------------------------------------------------------

proof fn lemma_tag_ascii(s: Seq<u8>, e: int)
    requires
        0 <= e <= s.len(),
        forall|i: int| 0 <= i < e ==> in_class(CharClass::Tag, #[trigger] s[i]),
    ensures
        all_ascii(s.subrange(0, e)),
{
    assert forall|i: int| 0 <= i < e implies #[trigger] s.subrange(0, e)[i] < 128 by {
        assert(in_class(CharClass::Tag, s[i]));
    }
}

/// Untagged data that starts with a number: a message count or an expunged or fetched message.
pub open spec fn spec_numbered(s: Seq<u8>, p: int) -> Option<(ResponseModel, int)> {
    match spec_number(s, p, MAX_U32 as nat) {
        None => None,
        Some((n, q)) => {
            let w = run_end(s, q + 1, CharClass::Atom);
            let u = upper_seq(s.subrange(q + 1, w));
            if !at(s, q, SP) || w > s.len() {
                None
            } else if u == kw::exists_count() {
                Some((ResponseModel::MailboxData(MailboxDataModel::Exists(n as u32)), w))
            } else if u == kw::recent() {
                Some((ResponseModel::MailboxData(MailboxDataModel::Recent(n as u32)), w))
            } else if u == kw::expunge() {
                Some((ResponseModel::Expunge(n as u32), w))
            } else if u == kw::fetch() && at(s, w, SP) {
                match spec_msg_att(s, w + 1) {
                    Some((a, e)) => Some((ResponseModel::Fetch(n as u32, a), e)),
                    None => None,
                }
            } else {
                None
            }
        },
    }
}

fn numbered(s: &[u8], p: usize) -> (r: Option<(Response, usize)>)
    requires
        p <= s@.len(),
    ensures
        r matches Some((v, e)) ==> spec_numbered(s@, p as int) == Some((v.deep_view(), e as int))
            && p < e <= s@.len(),
        r is None ==> spec_numbered(s@, p as int) is None,
{
    let (n, q) = match number(s, p, MAX_U32) {
        None => return None,
        Some(x) => x,
    };
    if !peek(s, q, SP) {
        return None;
    }
    let w = scan(s, q + 1, CharClass::Atom);
    let n = n as u32;
    if eq_upper(s, q + 1, w, &kw::exists_count_bytes()) {
        Some((Response::MailboxData(MailboxData::Exists(n)), w))
    } else if eq_upper(s, q + 1, w, &kw::recent_bytes()) {
        Some((Response::MailboxData(MailboxData::Recent(n)), w))
    } else if eq_upper(s, q + 1, w, &kw::expunge_bytes()) {
        Some((Response::Expunge(n), w))
    } else if eq_upper(s, q + 1, w, &kw::fetch_bytes()) && peek(s, w, SP) {
        match msg_att(s, w + 1) {
            Some((a, e)) => Some((Response::Fetch(n, a), e)),
            None => None,
        }
    } else {
        None
    }
}

/// Untagged data that starts with a word: a status, capabilities, flags, a mailbox of a
/// LIST, or the result of a SEARCH.
pub open spec fn spec_worded(s: Seq<u8>, p: int) -> Option<(ResponseModel, int)> {
    let w = run_end(s, p, CharClass::Atom);
    let u = upper_seq(s.subrange(p, w));
    if w <= p || w > s.len() {
        None
    } else if status_of(u) is Some {
        match spec_status_tail(s, w) {
            Some((c, i, e)) => Some(
                (ResponseModel::Data { status: status_of(u)->Some_0, code: c, information: i }, e),
            ),
            None => None,
        }
    } else if u == kw::capability() {
        match spec_caps(s, w) {
            Some((c, e)) => Some((ResponseModel::Capabilities(c), e)),
            None => None,
        }
    } else if u == kw::flags() && at(s, w, SP) {
        match spec_flag_list(s, w + 1) {
            Some((f, e)) => Some(
                (ResponseModel::MailboxData(MailboxDataModel::Flags(flags_of(f))), e),
            ),
            None => None,
        }
    } else if u == kw::list() && at(s, w, SP) {
        match spec_mailbox_list(s, w + 1) {
            Some((m, e)) => Some((ResponseModel::MailboxData(m), e)),
            None => None,
        }
    } else if u == kw::search() {
        match spec_search(s, w) {
            Some((v, e)) => Some((ResponseModel::MailboxData(MailboxDataModel::Search(v)), e)),
            None => None,
        }
    } else if u == kw::status() && at(s, w, SP) {
        match spec_mailbox_status(s, w + 1) {
            Some((m, e)) => Some((ResponseModel::MailboxData(m), e)),
            None => None,
        }
    } else {
        None
    }
}

fn worded(s: &[u8], p: usize) -> (r: Option<(Response, usize)>)
    requires
        p <= s@.len(),
    ensures
        r matches Some((v, e)) ==> spec_worded(s@, p as int) == Some((v.deep_view(), e as int))
            && p < e <= s@.len(),
        r is None ==> spec_worded(s@, p as int) is None,
{
    let w = scan(s, p, CharClass::Atom);
    if w <= p {
        return None;
    }
    if let Some(status) = status_word(s, p, w) {
        match status_tail(s, w) {
            Some((code, information, e)) => Some(
                (Response::Data(ResponseData { status, code, information }), e),
            ),
            None => None,
        }
    } else if eq_upper(s, p, w, &kw::capability_bytes()) {
        match caps(s, w) {
            Some((c, e)) => Some((Response::Capabilities(c), e)),
            None => None,
        }
    } else if eq_upper(s, p, w, &kw::flags_bytes()) && peek(s, w, SP) {
        match flag_list(s, w + 1) {
            Some((f, e)) => Some((Response::MailboxData(MailboxData::Flags(flags_from(&f))), e)),
            None => None,
        }
    } else if eq_upper(s, p, w, &kw::list_bytes()) && peek(s, w, SP) {
        match mailbox_list(s, w + 1) {
            Some((m, e)) => Some((Response::MailboxData(m), e)),
            None => None,
        }
    } else if eq_upper(s, p, w, &kw::search_bytes()) {
        match search(s, w) {
            Some((v, e)) => Some((Response::MailboxData(MailboxData::Search(v)), e)),
            None => None,
        }
    } else if eq_upper(s, p, w, &kw::status_bytes()) && peek(s, w, SP) {
        match mailbox_status(s, w + 1) {
            Some((m, e)) => Some((Response::MailboxData(m), e)),
            None => None,
        }
    } else {
        None
    }
}

/// The data of an untagged response after `* `.
pub open spec fn spec_untagged(s: Seq<u8>, p: int) -> Option<(ResponseModel, int)> {
    if 0 <= p < s.len() && in_class(CharClass::Digit, s[p]) {
        spec_numbered(s, p)
    } else {
        spec_worded(s, p)
    }
}

pub fn untagged(s: &[u8], p: usize) -> (r: Option<(Response, usize)>)
    requires
        p <= s@.len(),
    ensures
        r matches Some((v, e)) ==> spec_untagged(s@, p as int) == Some((v.deep_view(), e as int))
            && p < e <= s@.len(),
        r is None ==> spec_untagged(s@, p as int) is None,
{
    if p < s.len() && class_has(CharClass::Digit, s[p]) {
        numbered(s, p)
    } else {
        worded(s, p)
    }
}

/// A tagged response at the start of `s`: a tag, a space, `OK`, `NO` or `BAD`, and the rest.
pub open spec fn spec_tagged(s: Seq<u8>) -> Option<(ResponseModel, int)> {
    let e = run_end(s, 0, CharClass::Tag);
    let w = run_end(s, e + 1, CharClass::Atom);
    let st = status_of(upper_seq(s.subrange(e + 1, w)));
    if e <= 0 || !at(s, e, SP) || w > s.len() {
        None
    } else if st == Some(Status::OK) || st == Some(Status::No) || st == Some(Status::Bad) {
        match spec_status_tail(s, w) {
            Some((c, i, q)) => Some(
                (
                    ResponseModel::Done {
                        tag: ascii_chars(s.subrange(0, e)),
                        status: st->Some_0,
                        code: c,
                        information: i,
                    },
                    q,
                ),
            ),
            None => None,
        }
    } else {
        None
    }
}

pub fn tagged(s: &[u8]) -> (r: Option<(Response, usize)>)
    ensures
        r matches Some((v, e)) ==> spec_tagged(s@) == Some((v.deep_view(), e as int)) && 0 < e
            <= s@.len(),
        r is None ==> spec_tagged(s@) is None,
{
    let e = scan(s, 0, CharClass::Tag);
    if e == 0 || !peek(s, e, SP) {
        return None;
    }
    let w = scan(s, e + 1, CharClass::Atom);
    let status = match status_word(s, e + 1, w) {
        Some(Status::OK) => Status::OK,
        Some(Status::No) => Status::No,
        Some(Status::Bad) => Status::Bad,
        _ => return None,
    };
    proof {
        lemma_run_end(s@, 0, CharClass::Tag);
        lemma_tag_ascii(s@, e as int);
    }
    match status_tail(s, w) {
        Some((code, information, q)) => Some(
            (
                Response::Done(
                    ResponseDone { tag: ascii_string(&s[0..e]), status, code, information },
                ),
                q,
            ),
        ),
        None => None,
    }
}

/// One response at the start of `s`, with its closing CRLF: a continuation request (`+`),
/// untagged data (`* `), or a tagged completion.
pub open spec fn spec_response(s: Seq<u8>) -> Option<(ResponseModel, int)> {
    let body = if at(s, 0, PLUS) {
        match spec_resp_text(s, if at(s, 1, SP) { 2 } else { 1 }) {
            Some((c, i, e)) => Some((ResponseModel::Continue { code: c, information: i }, e)),
            None => None,
        }
    } else if at(s, 0, STAR) && at(s, 1, SP) {
        spec_untagged(s, 2)
    } else {
        spec_tagged(s)
    };
    match body {
        Some((r, e)) => if at(s, e, CR) && at(s, e + 1, LF) {
            Some((r, e + 2))
        } else {
            None
        },
        None => None,
    }
}

pub fn response(s: &[u8]) -> (r: Option<(Response, usize)>)
    ensures
        r matches Some((v, e)) ==> spec_response(s@) == Some((v.deep_view(), e as int)) && e
            <= s@.len(),
        r is None ==> spec_response(s@) is None,
{
    let body = if peek(s, 0, PLUS) {
        match resp_text(s, if peek(s, 1, SP) { 2 } else { 1 }) {
            Some((code, information, e)) => Some((Response::Continue { code, information }, e)),
            None => None,
        }
    } else if peek(s, 0, STAR) && peek(s, 1, SP) {
        untagged(s, 2)
    } else {
        tagged(s)
    };
    match body {
        Some((r, e)) => if peek(s, e, CR) && peek(s, e + 1, LF) {
            Some((r, e + 2))
        } else {
            None
        },
        None => None,
    }
}

/// Why bytes do not parse.
#[derive(Clone, Copy, Debug, PartialEq, Eq)]
pub enum ParseError {
    /// The bytes so far may begin a response; more must be read before trying again.
    Incomplete,
    /// The bytes can never form a response.
    Malformed,
}

/// What parsing the front of a buffer gives: the response and the number of bytes it took.
pub open spec fn spec_parse_streamed(s: Seq<u8>) -> Result<(ResponseModel, int), ParseError> {
    match spec_framed(s) {
        FramingModel::Incomplete => Err(ParseError::Incomplete),
        FramingModel::Malformed => Err(ParseError::Malformed),
        FramingModel::Complete(end) => match spec_response(s.subrange(0, end)) {
            Some((r, e)) => if e == end {
                Ok((r, end))
            } else {
                Err(ParseError::Malformed)
            },
            None => Err(ParseError::Malformed),
        },
    }
}

/// Parses the response at the front of a buffer that may hold less or more than one response.
pub fn parse_streamed_response(s: &[u8]) -> (r: Result<(Response, usize), ParseError>)
    ensures
        r matches Ok((v, n)) ==> spec_parse_streamed(s@) == Ok::<(ResponseModel, int), ParseError>(
            (v.deep_view(), n as int),
        ) && 0 < n <= s@.len(),
        r matches Err(e) ==> spec_parse_streamed(s@) == Err::<(ResponseModel, int), ParseError>(e),
{
    match frame(s) {
        Framing::Incomplete => Err(ParseError::Incomplete),
        Framing::Malformed => Err(ParseError::Malformed),
        Framing::Complete(end) => match response(&s[0..end]) {
            Some((r, e)) => if e == end {
                Ok((r, end))
            } else {
                Err(ParseError::Malformed)
            },
            None => Err(ParseError::Malformed),
        },
    }
}

// ---------------------------------------------------------------------------------------------
// Whole inputs
// ---------------------------------------------------------------------------------------------

/// What parsing bytes that must hold exactly one response gives.
pub open spec fn spec_parse_response(b: Seq<u8>) -> Result<ResponseModel, ParseError> {
    match spec_parse_streamed(b) {
        Ok((r, n)) => if n == b.len() {
            Ok(r)
        } else {
            Err(ParseError::Malformed)
        },
        Err(e) => Err(e),
    }
}

/// Parses text that holds exactly one response, CRLF included.
pub fn parse_response(s: &str) -> (r: Result<Response, ParseError>)
    ensures
        r matches Ok(v) ==> spec_parse_response(s.spec_bytes()) == Ok::<ResponseModel, ParseError>(
            v.deep_view(),
        ),
        r matches Err(e) ==> spec_parse_response(s.spec_bytes()) == Err::<ResponseModel, ParseError>(
            e,
        ),
{
    let b = s.as_bytes();
    match parse_streamed_response(b) {
        Ok((r, n)) => if n == b.len() {
            Ok(r)
        } else {
            Err(ParseError::Malformed)
        },
        Err(e) => Err(e),
    }
}

/// Whether the bytes are one atom, so that they name a capability.
pub open spec fn is_capability(b: Seq<u8>) -> bool {
    b.len() > 0 && run_end(b, 0, CharClass::Atom) == b.len()
}

/// Parses the name of one capability, as the server advertises it.
pub fn parse_capability(s: &str) -> (r: Result<Capability, ParseError>)
    ensures
        r is Ok <==> is_capability(s.spec_bytes()),
        r matches Ok(c) ==> c.deep_view() == cap_of(s.spec_bytes()),
        r matches Err(e) ==> e == ParseError::Malformed,
{
    let b = s.as_bytes();
    let e = scan(b, 0, CharClass::Atom);
    if e == 0 || e != b.len() {
        return Err(ParseError::Malformed);
    }
    proof {
        lemma_run_end(b@, 0, CharClass::Atom);
        lemma_atom_ascii(b@, 0, e as int);
        assert(b@.subrange(0, e as int) =~= b@);
    }
    Ok(capability_of(b, 0, e))
}

/// Parses bytes that are exactly one literal, and gives the bytes that it holds.
pub fn parse_literal(s: &[u8]) -> (r: Result<Vec<u8>, ParseError>)
    ensures
        r matches Ok(v) ==> spec_literal(s@, 0) == Some((v@, s@.len() as int)),
        r is Err ==> !(spec_literal(s@, 0) matches Some((_, e)) && e == s@.len()),
{
    match literal(s, 0) {
        Some((v, e)) => if e == s.len() {
            Ok(v)
        } else {
            Err(ParseError::Malformed)
        },
        None => Err(ParseError::Malformed),
    }
}

/// Checks that the text is `NIL`, in any case.
pub fn parse_nil(s: &str) -> (r: Result<(), ParseError>)
    ensures
        r is Ok <==> spec_nil(s.spec_bytes(), 0) == Some(s.spec_bytes().len() as int),
{
    let b = s.as_bytes();
    match nil(b, 0) {
        Some(e) => if e == b.len() {
            Ok(())
        } else {
            Err(ParseError::Malformed)
        },
        None => Err(ParseError::Malformed),
    }
}

/// Parses text that is exactly one quoted date-time.
pub fn parse_date_time(s: &str) -> (r: Result<DateTime, ParseError>)
    ensures
        r matches Ok(d) ==> spec_date_time(s.spec_bytes(), 0) == Some(
            (d, s.spec_bytes().len() as int),
        ),
        r is Err ==> !(spec_date_time(s.spec_bytes(), 0) matches Some((_, e)) && e
            == s.spec_bytes().len()),
{
    let b = s.as_bytes();
    match date_time(b, 0) {
        Some((d, e)) => if e == b.len() {
            Ok(d)
        } else {
            Err(ParseError::Malformed)
        },
        None => Err(ParseError::Malformed),
    }
}

/// Parses text that is exactly one zone, `+hhmm` or `-hhmm`, into seconds east of UTC.
pub fn parse_zone(s: &str) -> (r: Result<i32, ParseError>)
    ensures
        r matches Ok(z) ==> s.spec_bytes().len() == 5 && spec_zone(s.spec_bytes(), 0) == Some(
            z as int,
        ),
        r is Err ==> s.spec_bytes().len() != 5 || spec_zone(s.spec_bytes(), 0) is None,
{
    let b = s.as_bytes();
    if b.len() != 5 {
        return Err(ParseError::Malformed);
    }
    match zone(b, 0) {
        Some(z) => Ok(z),
        None => Err(ParseError::Malformed),
    }
}

} // verus!
