//! The attributes of a FETCH response: flags, sizes, UIDs, the envelope with its address
//! lists, the internal date, message bodies, and values that are stepped over whole.

use vstd::prelude::*;
use crate::bytes::{ascii_chars, ascii_string, eq_upper, upper_seq};
use crate::keywords as kw;
use crate::lexer::{
    at, lemma_run_end, literal, nil, nstring, number, peek, quoted, run_end, scan, spec_literal,
    spec_nil, spec_nstring, spec_number, spec_quoted, CR, CharClass, DQUOTE, LANGLE, LBRACE,
    LBRACKET, LF, LPAREN, MAX_U32, RANGLE, RBRACKET, RPAREN, SP,
};
use crate::parser::{
    after, cons, flag_list, flags_from, flags_of, lemma_after_cons, opt_text, opt_text_of,
    sp_number, spec_flag_list, spec_sp_number,
};
use crate::response::{
    Address, AddressModel, AttributeValue, AttributeValueModel, BodySection, DateTime, Envelope,
    EnvelopeModel, MessageSection, SectionPath, SectionPathModel,
};

verus! {

pub const DASH: u8 = 45;
pub const COLON: u8 = 58;

// ---------------------------------------------------------------------------------------------
// Dates
// ---------------------------------------------------------------------------------------------

pub open spec fn is_leap_year(y: int) -> bool {
    (y % 4 == 0 && y % 100 != 0) || y % 400 == 0
}

pub open spec fn days_in_month(y: int, m: int) -> int {
    if m == 2 {
        if is_leap_year(y) {
            29
        } else {
            28
        }
    } else if m == 4 || m == 6 || m == 9 || m == 11 {
        30
    } else {
        31
    }
}

/// Whether the day exists in the proleptic Gregorian calendar.
pub open spec fn is_calendar_date(y: int, m: int, d: int) -> bool {
    1 <= m <= 12 && 1 <= d <= days_in_month(y, m)
}

/// Relies on chrono's `NaiveDate::from_ymd_opt`: it gives a date exactly when the day exists
/// in the proleptic Gregorian calendar, for every year from 0 to 9999.
#[verifier::external_body]
fn calendar_date_exists(year: u32, month: u32, day: u32) -> (r: bool)
    requires
        year <= 9999,
    ensures
        r == is_calendar_date(year as int, month as int, day as int),
{
    chrono::NaiveDate::from_ymd_opt(year as i32, month, day).is_some()
}

/// The value of the digit at `i`.
pub open spec fn digit(s: Seq<u8>, i: int) -> Option<nat> {
    if 0 <= i < s.len() && 48 <= s[i] <= 57 {
        Some((s[i] - 48) as nat)
    } else {
        None
    }
}

fn digit_at(s: &[u8], i: usize) -> (r: Option<u32>)
    ensures
        r matches Some(v) ==> digit(s@, i as int) == Some(v as nat) && v <= 9,
        r is None ==> digit(s@, i as int) is None,
{
    if i < s.len() && 48 <= s[i] && s[i] <= 57 {
        Some((s[i] - 48) as u32)
    } else {
        None
    }
}

/// The value of the two digits at `i`.
pub open spec fn two_digits(s: Seq<u8>, i: int) -> Option<nat> {
    match (digit(s, i), digit(s, i + 1)) {
        (Some(a), Some(b)) => Some(a * 10 + b),
        _ => None,
    }
}

fn two_digits_at(s: &[u8], i: usize) -> (r: Option<u32>)
    requires
        i < usize::MAX,
    ensures
        r matches Some(v) ==> two_digits(s@, i as int) == Some(v as nat) && v <= 99,
        r is None ==> two_digits(s@, i as int) is None,
{
    match (digit_at(s, i), digit_at(s, i + 1)) {
        (Some(a), Some(b)) => Some(a * 10 + b),
        _ => None,
    }
}

/// A zone: a sign and four digits of hours and minutes, as an offset in seconds east of UTC.
pub open spec fn spec_zone(s: Seq<u8>, p: int) -> Option<int> {
    match (two_digits(s, p + 1), two_digits(s, p + 3)) {
        (Some(h), Some(m)) => if h <= 23 && m <= 59 {
            if at(s, p, 43) {
                Some((h * 3600 + m * 60) as int)
            } else if at(s, p, DASH) {
                Some(-(h * 3600 + m * 60))
            } else {
                None
            }
        } else {
            None
        },
        _ => None,
    }
}

pub fn zone(s: &[u8], p: usize) -> (r: Option<i32>)
    requires
        p <= s@.len(),
    ensures
        r matches Some(v) ==> spec_zone(s@, p as int) == Some(v as int),
        r is None ==> spec_zone(s@, p as int) is None,
{
    if s.len() - p < 5 {
        return None;
    }
    let plus = peek(s, p, 43);
    let minus = peek(s, p, DASH);
    if !plus && !minus {
        return None;
    }
    match (two_digits_at(s, p + 1), two_digits_at(s, p + 3)) {
        (Some(h), Some(m)) => if h <= 23 && m <= 59 {
            let v = (h * 3600 + m * 60) as i32;
            if plus {
                Some(v)
            } else {
                Some(-v)
            }
        } else {
            None
        },
        _ => None,
    }
}

/// The month that an upper-cased three-letter name gives, or 0.
pub open spec fn month_of(u: Seq<u8>) -> nat {
    if u == kw::jan() {
        1
    } else if u == kw::feb() {
        2
    } else if u == kw::mar() {
        3
    } else if u == kw::apr() {
        4
    } else if u == kw::may() {
        5
    } else if u == kw::jun() {
        6
    } else if u == kw::jul() {
        7
    } else if u == kw::aug() {
        8
    } else if u == kw::sep() {
        9
    } else if u == kw::oct() {
        10
    } else if u == kw::nov() {
        11
    } else if u == kw::dec() {
        12
    } else {
        0
    }
}

fn month_at(s: &[u8], p: usize) -> (r: u32)
    requires
        p + 3 <= s@.len() <= usize::MAX,
    ensures
        r as nat == month_of(upper_seq(s@.subrange(p as int, p + 3))),
{
    let e = p + 3;
    if eq_upper(s, p, e, &kw::jan_bytes()) {
        1
    } else if eq_upper(s, p, e, &kw::feb_bytes()) {
        2
    } else if eq_upper(s, p, e, &kw::mar_bytes()) {
        3
    } else if eq_upper(s, p, e, &kw::apr_bytes()) {
        4
    } else if eq_upper(s, p, e, &kw::may_bytes()) {
        5
    } else if eq_upper(s, p, e, &kw::jun_bytes()) {
        6
    } else if eq_upper(s, p, e, &kw::jul_bytes()) {
        7
    } else if eq_upper(s, p, e, &kw::aug_bytes()) {
        8
    } else if eq_upper(s, p, e, &kw::sep_bytes()) {
        9
    } else if eq_upper(s, p, e, &kw::oct_bytes()) {
        10
    } else if eq_upper(s, p, e, &kw::nov_bytes()) {
        11
    } else if eq_upper(s, p, e, &kw::dec_bytes()) {
        12
    } else {
        0
    }
}

/// The day of a date: a space and one digit, or two digits.
pub open spec fn spec_day(s: Seq<u8>, i: int) -> Option<nat> {
    if at(s, i, SP) {
        digit(s, i + 1)
    } else {
        two_digits(s, i)
    }
}

/// A date-time: `"dd-Mon-yyyy hh:mm:ss +zzzz"`, 28 bytes with its quotes, naming an existing
/// day and a valid time of day.
pub open spec fn spec_date_time(s: Seq<u8>, p: int) -> Option<(DateTime, int)> {
    if 0 <= p && p + 28 <= s.len() && at(s, p, DQUOTE) && at(s, p + 3, DASH) && at(s, p + 7, DASH)
        && at(s, p + 12, SP) && at(s, p + 15, COLON) && at(s, p + 18, COLON) && at(s, p + 21, SP)
        && at(s, p + 27, DQUOTE) && spec_day(s, p + 1) is Some && two_digits(s, p + 8) is Some
        && two_digits(s, p + 10) is Some && two_digits(s, p + 13) is Some && two_digits(
        s,
        p + 16,
    ) is Some && two_digits(s, p + 19) is Some && spec_zone(s, p + 22) is Some {
        let day = spec_day(s, p + 1)->Some_0;
        let month = month_of(upper_seq(s.subrange(p + 4, p + 7)));
        let year = two_digits(s, p + 8)->Some_0 * 100 + two_digits(s, p + 10)->Some_0;
        let hour = two_digits(s, p + 13)->Some_0;
        let minute = two_digits(s, p + 16)->Some_0;
        let second = two_digits(s, p + 19)->Some_0;
        if is_calendar_date(year as int, month as int, day as int) && hour <= 23 && minute <= 59 && second
            <= 59 {
            Some(
                (
                    DateTime {
                        year: year as u32,
                        month: month as u32,
                        day: day as u32,
                        hour: hour as u32,
                        minute: minute as u32,
                        second: second as u32,
                        offset_seconds: spec_zone(s, p + 22)->Some_0 as i32,
                    },
                    p + 28,
                ),
            )
        } else {
            None
        }
    } else {
        None
    }
}

pub fn date_time(s: &[u8], p: usize) -> (r: Option<(DateTime, usize)>)
    requires
        p <= s@.len(),
    ensures
        r matches Some((v, e)) ==> spec_date_time(s@, p as int) == Some((v, e as int)) && e
            <= s@.len(),
        r is None ==> spec_date_time(s@, p as int) is None,
{
    if s.len() - p < 28 {
        return None;
    }
    if !(peek(s, p, DQUOTE) && peek(s, p + 3, DASH) && peek(s, p + 7, DASH) && peek(s, p + 12, SP)
        && peek(s, p + 15, COLON) && peek(s, p + 18, COLON) && peek(s, p + 21, SP) && peek(
        s,
        p + 27,
        DQUOTE,
    )) {
        return None;
    }
    let day = if peek(s, p + 1, SP) {
        digit_at(s, p + 2)
    } else {
        two_digits_at(s, p + 1)
    };
    let (day, y1, y2, hour, minute, second, off) = match (
        day,
        two_digits_at(s, p + 8),
        two_digits_at(s, p + 10),
        two_digits_at(s, p + 13),
        two_digits_at(s, p + 16),
        two_digits_at(s, p + 19),
        zone(s, p + 22),
    ) {
        (Some(a), Some(b), Some(c), Some(d), Some(e), Some(f), Some(g)) => (a, b, c, d, e, f, g),
        _ => return None,
    };
    let month = month_at(s, p + 4);
    let year = y1 * 100 + y2;
    if calendar_date_exists(year, month, day) && hour <= 23 && minute <= 59 && second <= 59 {
        Some(
            (
                DateTime {
                    year,
                    month,
                    day,
                    hour,
                    minute,
                    second,
                    offset_seconds: off,
                },
                p + 28,
            ),
        )
    } else {
        None
    }
}

// ---------------------------------------------------------------------------------------------
// Envelopes
// ---------------------------------------------------------------------------------------------

/// An nstring read as text.
pub open spec fn spec_ntext(s: Seq<u8>, p: int) -> Option<(Option<Seq<char>>, int)> {
    match spec_nstring(s, p) {
        Some((d, e)) => match opt_text(d) {
            Some(t) => Some((t, e)),
            None => None,
        },
        None => None,
    }
}

pub fn ntext(s: &[u8], p: usize) -> (r: Option<(Option<String>, usize)>)
    requires
        p <= s@.len(),
    ensures
        r matches Some((v, e)) ==> spec_ntext(s@, p as int) == Some((v.deep_view(), e as int)) && p
            < e <= s@.len(),
        r is None ==> spec_ntext(s@, p as int) is None,
{
    match nstring(s, p) {
        Some((d, e)) => match opt_text_of(&d) {
            Some(t) => Some((t, e)),
            None => None,
        },
        None => None,
    }
}

/// A space and then an nstring read as text.
pub open spec fn spec_sp_ntext(s: Seq<u8>, p: int) -> Option<(Option<Seq<char>>, int)> {
    if at(s, p, SP) {
        spec_ntext(s, p + 1)
    } else {
        None
    }
}

pub fn sp_ntext(s: &[u8], p: usize) -> (r: Option<(Option<String>, usize)>)
    requires
        p <= s@.len(),
    ensures
        r matches Some((v, e)) ==> spec_sp_ntext(s@, p as int) == Some((v.deep_view(), e as int))
            && p < e <= s@.len(),
        r is None ==> spec_sp_ntext(s@, p as int) is None,
{
    if peek(s, p, SP) {
        ntext(s, p + 1)
    } else {
        None
    }
}

/// An address: name, source route, mailbox and host, in parentheses.
pub open spec fn spec_address(s: Seq<u8>, p: int) -> Option<(AddressModel, int)> {
    if !at(s, p, LPAREN) {
        None
    } else {
        match spec_ntext(s, p + 1) {
            None => None,
            Some((name, a)) => match spec_sp_ntext(s, a) {
                None => None,
                Some((adl, b)) => match spec_sp_ntext(s, b) {
                    None => None,
                    Some((mailbox, c)) => match spec_sp_ntext(s, c) {
                        None => None,
                        Some((host, d)) => if at(s, d, RPAREN) {
                            Some((AddressModel { name, adl, mailbox, host }, d + 1))
                        } else {
                            None
                        },
                    },
                },
            },
        }
    }
}

pub fn address(s: &[u8], p: usize) -> (r: Option<(Address, usize)>)
    requires
        p <= s@.len(),
    ensures
        r matches Some((v, e)) ==> spec_address(s@, p as int) == Some((v.deep_view(), e as int))
            && p < e <= s@.len(),
        r is None ==> spec_address(s@, p as int) is None,
{
    if !peek(s, p, LPAREN) {
        return None;
    }
    let (name, a) = match ntext(s, p + 1) {
        None => return None,
        Some(x) => x,
    };
    let (adl, b) = match sp_ntext(s, a) {
        None => return None,
        Some(x) => x,
    };
    let (mailbox, c) = match sp_ntext(s, b) {
        None => return None,
        Some(x) => x,
    };
    let (host, d) = match sp_ntext(s, c) {
        None => return None,
        Some(x) => x,
    };
    if peek(s, d, RPAREN) {
        Some((Address { name, adl, mailbox, host }, d + 1))
    } else {
        None
    }
}

/// One or more addresses and the closing parenthesis of their list.
pub open spec fn spec_addresses(s: Seq<u8>, p: int) -> Option<(Seq<AddressModel>, int)>
    decreases s.len() - p,
{
    match spec_address(s, p) {
        Some((a, e)) => if at(s, e, RPAREN) {
            Some((seq![a], e + 1))
        } else if p < e && at(s, e, LPAREN) {
            cons(a, spec_addresses(s, e))
        } else {
            None
        },
        None => None,
    }
}

/// An address list, or `NIL`.
pub open spec fn spec_address_list(s: Seq<u8>, p: int) -> Option<(Option<Seq<AddressModel>>, int)> {
    if at(s, p, LPAREN) {
        match spec_addresses(s, p + 1) {
            Some((v, e)) => Some((Some(v), e)),
            None => None,
        }
    } else {
        match spec_nil(s, p) {
            Some(e) => Some((None, e)),
            None => None,
        }
    }
}

pub fn address_list(s: &[u8], p: usize) -> (r: Option<(Option<Vec<Address>>, usize)>)
    requires
        p <= s@.len(),
    ensures
        r matches Some((v, e)) ==> spec_address_list(s@, p as int) == Some(
            (v.deep_view(), e as int),
        ) && p < e <= s@.len(),
        r is None ==> spec_address_list(s@, p as int) is None,
{
    if !peek(s, p, LPAREN) {
        return match nil(s, p) {
            Some(e) => Some((None, e)),
            None => None,
        };
    }
    let mut acc: Vec<Address> = Vec::new();
    let mut i = p + 1;
    assert(acc.deep_view() =~= Seq::<AddressModel>::empty());
    assert(after(Seq::<AddressModel>::empty(), spec_addresses(s@, i as int)) == spec_addresses(
        s@,
        i as int,
    )) by {
        if let Some((v, e)) = spec_addresses(s@, i as int) {
            assert(Seq::<AddressModel>::empty() + v =~= v);
        }
    }
    loop
        invariant
            p < i <= s@.len(),
            spec_address_list(s@, p as int) == match after(
                acc.deep_view(),
                spec_addresses(s@, i as int),
            ) {
                Some((v, e)) => Some((Some(v), e)),
                None => None,
            },
        decreases s@.len() - i,
    {
        let (a, e) = match address(s, i) {
            None => return None,
            Some(x) => x,
        };
        let ghost old_acc = acc.deep_view();
        if peek(s, e, RPAREN) {
            proof {
                lemma_after_cons(old_acc, a.deep_view(), Some((Seq::<AddressModel>::empty(), e + 1)));
            }
            acc.push(a);
            assert(acc.deep_view() =~= old_acc.push(a.deep_view()));
            assert(seq![a.deep_view()] + Seq::<AddressModel>::empty() =~= seq![a.deep_view()]);
            assert(acc.deep_view() + Seq::<AddressModel>::empty() =~= acc.deep_view());
            return Some((Some(acc), e + 1));
        } else if peek(s, e, LPAREN) {
            proof {
                lemma_after_cons(old_acc, a.deep_view(), spec_addresses(s@, e as int));
            }
            acc.push(a);
            assert(acc.deep_view() =~= old_acc.push(a.deep_view()));
            i = e;
        } else {
            return None;
        }
    }
}

/// A space and then an address list.
pub open spec fn spec_sp_address_list(s: Seq<u8>, p: int) -> Option<
    (Option<Seq<AddressModel>>, int),
> {
    if at(s, p, SP) {
        spec_address_list(s, p + 1)
    } else {
        None
    }
}

pub fn sp_address_list(s: &[u8], p: usize) -> (r: Option<(Option<Vec<Address>>, usize)>)
    requires
        p <= s@.len(),
    ensures
        r matches Some((v, e)) ==> spec_sp_address_list(s@, p as int) == Some(
            (v.deep_view(), e as int),
        ) && p < e <= s@.len(),
        r is None ==> spec_sp_address_list(s@, p as int) is None,
{
    if peek(s, p, SP) {
        address_list(s, p + 1)
    } else {
        None
    }
}

/// The first half of an envelope after its parenthesis: date, subject, from, sender, reply-to.
pub open spec fn spec_envelope_head(s: Seq<u8>, p: int) -> Option<
    (
        Option<Seq<char>>,
        Option<Seq<char>>,
        Option<Seq<AddressModel>>,
        Option<Seq<AddressModel>>,
        Option<Seq<AddressModel>>,
        int,
    ),
> {
    match spec_ntext(s, p) {
        None => None,
        Some((date, e1)) => match spec_sp_ntext(s, e1) {
            None => None,
            Some((subject, e2)) => match spec_sp_address_list(s, e2) {
                None => None,
                Some((from, e3)) => match spec_sp_address_list(s, e3) {
                    None => None,
                    Some((sender, e4)) => match spec_sp_address_list(s, e4) {
                        None => None,
                        Some((reply_to, e5)) => Some((date, subject, from, sender, reply_to, e5)),
                    },
                },
            },
        },
    }
}

/// The second half of an envelope: to, cc, bcc, in-reply-to, message id, and the closing
/// parenthesis.
pub open spec fn spec_envelope_tail(s: Seq<u8>, p: int) -> Option<
    (
        Option<Seq<AddressModel>>,
        Option<Seq<AddressModel>>,
        Option<Seq<AddressModel>>,
        Option<Seq<char>>,
        Option<Seq<char>>,
        int,
    ),
> {
    match spec_sp_address_list(s, p) {
        None => None,
        Some((to, e6)) => match spec_sp_address_list(s, e6) {
            None => None,
            Some((cc, e7)) => match spec_sp_address_list(s, e7) {
                None => None,
                Some((bcc, e8)) => match spec_sp_ntext(s, e8) {
                    None => None,
                    Some((in_reply_to, e9)) => match spec_sp_ntext(s, e9) {
                        None => None,
                        Some((message_id, e10)) => if at(s, e10, RPAREN) {
                            Some((to, cc, bcc, in_reply_to, message_id, e10 + 1))
                        } else {
                            None
                        },
                    },
                },
            },
        },
    }
}

/// An envelope: date, subject, the six address lists from, sender, reply-to, to, cc and bcc,
/// in-reply-to and message id, separated by spaces, in parentheses.
pub open spec fn spec_envelope(s: Seq<u8>, p: int) -> Option<(EnvelopeModel, int)> {
    if !at(s, p, LPAREN) {
        None
    } else {
        match spec_envelope_head(s, p + 1) {
            None => None,
            Some((date, subject, from, sender, reply_to, e5)) => match spec_envelope_tail(s, e5) {
                None => None,
                Some((to, cc, bcc, in_reply_to, message_id, e)) => Some(
                    (
                        EnvelopeModel {
                            date,
                            subject,
                            from,
                            sender,
                            reply_to,
                            to,
                            cc,
                            bcc,
                            in_reply_to,
                            message_id,
                        },
                        e,
                    ),
                ),
            },
        }
    }
}

fn envelope_head(s: &[u8], p: usize) -> (r: Option<
    (
        Option<String>,
        Option<String>,
        Option<Vec<Address>>,
        Option<Vec<Address>>,
        Option<Vec<Address>>,
        usize,
    ),
>)
    requires
        p <= s@.len(),
    ensures
        r matches Some((a, b, c, d, f, e)) ==> spec_envelope_head(s@, p as int) == Some(
            (a.deep_view(), b.deep_view(), c.deep_view(), d.deep_view(), f.deep_view(), e as int),
        ) && p < e <= s@.len(),
        r is None ==> spec_envelope_head(s@, p as int) is None,
{
    let (date, e1) = match ntext(s, p) {
        None => return None,
        Some(x) => x,
    };
    let (subject, e2) = match sp_ntext(s, e1) {
        None => return None,
        Some(x) => x,
    };
    let (from, e3) = match sp_address_list(s, e2) {
        None => return None,
        Some(x) => x,
    };
    let (sender, e4) = match sp_address_list(s, e3) {
        None => return None,
        Some(x) => x,
    };
    let (reply_to, e5) = match sp_address_list(s, e4) {
        None => return None,
        Some(x) => x,
    };
    Some((date, subject, from, sender, reply_to, e5))
}

fn envelope_tail(s: &[u8], p: usize) -> (r: Option<
    (
        Option<Vec<Address>>,
        Option<Vec<Address>>,
        Option<Vec<Address>>,
        Option<String>,
        Option<String>,
        usize,
    ),
>)
    requires
        p <= s@.len(),
    ensures
        r matches Some((a, b, c, d, f, e)) ==> spec_envelope_tail(s@, p as int) == Some(
            (a.deep_view(), b.deep_view(), c.deep_view(), d.deep_view(), f.deep_view(), e as int),
        ) && p < e <= s@.len(),
        r is None ==> spec_envelope_tail(s@, p as int) is None,
{
    let (to, e6) = match sp_address_list(s, p) {
        None => return None,
        Some(x) => x,
    };
    let (cc, e7) = match sp_address_list(s, e6) {
        None => return None,
        Some(x) => x,
    };
    let (bcc, e8) = match sp_address_list(s, e7) {
        None => return None,
        Some(x) => x,
    };
    let (in_reply_to, e9) = match sp_ntext(s, e8) {
        None => return None,
        Some(x) => x,
    };
    let (message_id, e10) = match sp_ntext(s, e9) {
        None => return None,
        Some(x) => x,
    };
    if peek(s, e10, RPAREN) {
        Some((to, cc, bcc, in_reply_to, message_id, e10 + 1))
    } else {
        None
    }
}

pub fn envelope(s: &[u8], p: usize) -> (r: Option<(Envelope, usize)>)
    requires
        p <= s@.len(),
    ensures
        r matches Some((v, e)) ==> spec_envelope(s@, p as int) == Some((v.deep_view(), e as int))
            && p < e <= s@.len(),
        r is None ==> spec_envelope(s@, p as int) is None,
{
    if !peek(s, p, LPAREN) {
        return None;
    }
    let (date, subject, from, sender, reply_to, e5) = match envelope_head(s, p + 1) {
        None => return None,
        Some(x) => x,
    };
    let (to, cc, bcc, in_reply_to, message_id, e) = match envelope_tail(s, e5) {
        None => return None,
        Some(x) => x,
    };
    Some(
        (
            Envelope {
                date,
                subject,
                from,
                sender,
                reply_to,
                to,
                cc,
                bcc,
                in_reply_to,
                message_id,
            },
            e,
        ),
    )
}

// ---------------------------------------------------------------------------------------------
// Values stepped over whole
// ---------------------------------------------------------------------------------------------

/// The rest of a parenthesized value whose parentheses are open `depth` deep: the position
/// after the parenthesis that closes the outermost. Strings and literals inside are stepped
/// over as units, so parentheses within them do not count.
pub open spec fn spec_skip_list(s: Seq<u8>, p: int, depth: nat) -> Option<int>
    decreases s.len() - p,
{
    if p < 0 || p >= s.len() {
        None
    } else if s[p] == LPAREN {
        spec_skip_list(s, p + 1, depth + 1)
    } else if s[p] == RPAREN {
        if depth <= 1 {
            Some(p + 1)
        } else {
            spec_skip_list(s, p + 1, (depth - 1) as nat)
        }
    } else if s[p] == DQUOTE {
        match spec_quoted(s, p) {
            Some((_, e)) => if p < e <= s.len() {
                spec_skip_list(s, e, depth)
            } else {
                None
            },
            None => None,
        }
    } else if s[p] == LBRACE {
        match spec_literal(s, p) {
            Some((_, e)) => if p < e <= s.len() {
                spec_skip_list(s, e, depth)
            } else {
                None
            },
            None => None,
        }
    } else if s[p] == CR || s[p] == LF {
        None
    } else {
        spec_skip_list(s, p + 1, depth)
    }
}

/// One value of any shape: a parenthesized list, a string, or a bare token.
pub open spec fn spec_skip_value(s: Seq<u8>, p: int) -> Option<int> {
    if at(s, p, LPAREN) {
        spec_skip_list(s, p + 1, 1)
    } else if at(s, p, DQUOTE) {
        match spec_quoted(s, p) {
            Some((_, e)) => Some(e),
            None => None,
        }
    } else if at(s, p, LBRACE) {
        match spec_literal(s, p) {
            Some((_, e)) => Some(e),
            None => None,
        }
    } else {
        let e = run_end(s, p, CharClass::Bare);
        if e > p {
            Some(e)
        } else {
            None
        }
    }
}

pub fn skip_value(s: &[u8], p: usize) -> (r: Option<usize>)
    requires
        p <= s@.len(),
    ensures
        r matches Some(e) ==> spec_skip_value(s@, p as int) == Some(e as int) && p < e <= s@.len(),
        r is None ==> spec_skip_value(s@, p as int) is None,
{
    if peek(s, p, DQUOTE) {
        return match quoted(s, p) {
            Some((_, e)) => Some(e),
            None => None,
        };
    } else if peek(s, p, LBRACE) {
        return match literal(s, p) {
            Some((_, e)) => Some(e),
            None => None,
        };
    } else if !peek(s, p, LPAREN) {
        let e = scan(s, p, CharClass::Bare);
        return if e > p {
            Some(e)
        } else {
            None
        };
    }
    let mut i = p + 1;
    let mut depth: usize = 1;
    while i < s.len()
        invariant
            p < i <= s@.len(),
            1 <= depth <= i - p,
            spec_skip_value(s@, p as int) == spec_skip_list(s@, i as int, depth as nat),
        decreases s@.len() - i,
    {
        let b = s[i];
        if b == LPAREN {
            depth += 1;
            i += 1;
        } else if b == RPAREN {
            if depth <= 1 {
                return Some(i + 1);
            }
            depth -= 1;
            i += 1;
        } else if b == DQUOTE {
            match quoted(s, i) {
                Some((_, e)) => {
                    i = e;
                },
                None => return None,
            }
        } else if b == LBRACE {
            match literal(s, i) {
                Some((_, e)) => {
                    i = e;
                },
                None => return None,
            }
        } else if b == CR || b == LF {
            return None;
        } else {
            i += 1;
        }
    }
    None
}

// ---------------------------------------------------------------------------------------------
// Attributes
// ---------------------------------------------------------------------------------------------

/// The section that the upper-cased text between the brackets of `BODY[...]` names: the
/// whole message where it is empty, a whole-message part for `HEADER`, `TEXT` and `MIME`.
pub open spec fn section_of(u: Seq<u8>) -> Option<SectionPathModel> {
    if u == kw::header() {
        Some(SectionPathModel::Full(MessageSection::Header))
    } else if u == kw::text() {
        Some(SectionPathModel::Full(MessageSection::Text))
    } else if u == kw::mime() {
        Some(SectionPathModel::Full(MessageSection::Mime))
    } else {
        None
    }
}

fn section_at(s: &[u8], p: usize, e: usize) -> (r: Option<SectionPath>)
    requires
        p <= e <= s@.len(),
    ensures
        r.deep_view() == section_of(upper_seq(s@.subrange(p as int, e as int))),
{
    if eq_upper(s, p, e, &kw::header_bytes()) {
        Some(SectionPath::Full(MessageSection::Header))
    } else if eq_upper(s, p, e, &kw::text_bytes()) {
        Some(SectionPath::Full(MessageSection::Text))
    } else if eq_upper(s, p, e, &kw::mime_bytes()) {
        Some(SectionPath::Full(MessageSection::Mime))
    } else {
        None
    }
}

/// A body section after `BODY`: `[section]`, an optional `<origin>`, a space and the data.
pub open spec fn spec_body_section(s: Seq<u8>, p: int) -> Option<(AttributeValueModel, int)> {
    let q = run_end(s, p + 1, CharClass::CodeText);
    if !at(s, p, LBRACKET) || !at(s, q, RBRACKET) {
        None
    } else {
        let section = section_of(upper_seq(s.subrange(p + 1, q)));
        let index = if at(s, q + 1, LANGLE) {
            match spec_number(s, q + 2, MAX_U32 as nat) {
                Some((n, r)) => if at(s, r, RANGLE) {
                    Some((Some(n as u32), r + 1))
                } else {
                    None
                },
                None => None,
            }
        } else {
            Some((None, q + 1))
        };
        match index {
            None => None,
            Some((index, r)) => if at(s, r, SP) {
                match spec_nstring(s, r + 1) {
                    Some((data, e)) => Some(
                        (AttributeValueModel::BodySection { section, index, data }, e),
                    ),
                    None => None,
                }
            } else {
                None
            },
        }
    }
}

fn body_section(s: &[u8], p: usize) -> (r: Option<(AttributeValue, usize)>)
    requires
        p <= s@.len(),
    ensures
        r matches Some((v, e)) ==> spec_body_section(s@, p as int) == Some(
            (v.deep_view(), e as int),
        ) && p < e <= s@.len(),
        r is None ==> spec_body_section(s@, p as int) is None,
{
    if !peek(s, p, LBRACKET) {
        return None;
    }
    let q = scan(s, p + 1, CharClass::CodeText);
    if !peek(s, q, RBRACKET) {
        return None;
    }
    let section = section_at(s, p + 1, q);
    let (index, r) = if peek(s, q + 1, LANGLE) {
        match number(s, q + 2, MAX_U32) {
            Some((n, r)) => if peek(s, r, RANGLE) {
                (Some(n as u32), r + 1)
            } else {
                return None;
            },
            None => return None,
        }
    } else {
        (None, q + 1)
    };
    if !peek(s, r, SP) {
        return None;
    }
    match nstring(s, r + 1) {
        Some((data, e)) => Some((AttributeValue::BodySection(BodySection { section, index, data }), e)),
        None => None,
    }
}

/// The nstring after a space.
pub open spec fn spec_sp_nstring(s: Seq<u8>, p: int) -> Option<(Option<Seq<u8>>, int)> {
    if at(s, p, SP) {
        spec_nstring(s, p + 1)
    } else {
        None
    }
}

fn sp_nstring(s: &[u8], p: usize) -> (r: Option<(Option<Vec<u8>>, usize)>)
    requires
        p <= s@.len(),
    ensures
        r matches Some((v, e)) ==> spec_sp_nstring(s@, p as int) == Some((v.deep_view(), e as int))
            && p < e <= s@.len(),
        r is None ==> spec_sp_nstring(s@, p as int) is None,
{
    if peek(s, p, SP) {
        nstring(s, p + 1)
    } else {
        None
    }
}

/// One message attribute, from its name on. Attributes whose names this library does not
/// structure keep their names and step over their values.
pub open spec fn spec_attribute(s: Seq<u8>, p: int) -> Option<(AttributeValueModel, int)> {
    let w = run_end(s, p, CharClass::Name);
    let u = upper_seq(s.subrange(p, w));
    if w <= p || w > s.len() {
        None
    } else if u == kw::flags() {
        if at(s, w, SP) {
            match spec_flag_list(s, w + 1) {
                Some((f, e)) => Some((AttributeValueModel::Flags(flags_of(f)), e)),
                None => None,
            }
        } else {
            None
        }
    } else if u == kw::envelope() {
        if at(s, w, SP) {
            match spec_envelope(s, w + 1) {
                Some((v, e)) => Some((AttributeValueModel::Envelope(v), e)),
                None => None,
            }
        } else {
            None
        }
    } else if u == kw::internaldate() {
        if at(s, w, SP) {
            match spec_date_time(s, w + 1) {
                Some((d, e)) => Some((AttributeValueModel::InternalDate(d), e)),
                None => None,
            }
        } else {
            None
        }
    } else if u == kw::rfc822_size() {
        match spec_sp_number(s, w, MAX_U32 as nat) {
            Some((n, e)) => Some((AttributeValueModel::Rfc822Size(n as u32), e)),
            None => None,
        }
    } else if u == kw::uid() {
        match spec_sp_number(s, w, MAX_U32 as nat) {
            Some((n, e)) => Some((AttributeValueModel::Uid(n as u32), e)),
            None => None,
        }
    } else if u == kw::modseq() {
        if at(s, w, SP) && at(s, w + 1, LPAREN) {
            match spec_number(s, w + 2, u64::MAX as nat) {
                Some((n, e)) => if at(s, e, RPAREN) {
                    Some((AttributeValueModel::ModSeq(n as u64), e + 1))
                } else {
                    None
                },
                None => None,
            }
        } else {
            None
        }
    } else {
        spec_attribute_rest(s, p, w)
    }
}

pub fn attribute(s: &[u8], p: usize) -> (r: Option<(AttributeValue, usize)>)
    requires
        p <= s@.len(),
    ensures
        r matches Some((v, e)) ==> spec_attribute(s@, p as int) == Some((v.deep_view(), e as int))
            && p < e <= s@.len(),
        r is None ==> spec_attribute(s@, p as int) is None,
{
    let w = scan(s, p, CharClass::Name);
    if w <= p {
        return None;
    }
    if eq_upper(s, p, w, &kw::flags_bytes()) {
        if peek(s, w, SP) {
            match flag_list(s, w + 1) {
                Some((f, e)) => Some((AttributeValue::Flags(flags_from(&f)), e)),
                None => None,
            }
        } else {
            None
        }
    } else if eq_upper(s, p, w, &kw::envelope_bytes()) {
        if peek(s, w, SP) {
            match envelope(s, w + 1) {
                Some((v, e)) => Some((AttributeValue::Envelope(v), e)),
                None => None,
            }
        } else {
            None
        }
    } else if eq_upper(s, p, w, &kw::internaldate_bytes()) {
        if peek(s, w, SP) {
            match date_time(s, w + 1) {
                Some((d, e)) => Some((AttributeValue::InternalDate(d), e)),
                None => None,
            }
        } else {
            None
        }
    } else if eq_upper(s, p, w, &kw::rfc822_size_bytes()) {
        match sp_number(s, w, MAX_U32) {
            Some((n, e)) => Some((AttributeValue::Rfc822Size(n as u32), e)),
            None => None,
        }
    } else if eq_upper(s, p, w, &kw::uid_bytes()) {
        match sp_number(s, w, MAX_U32) {
            Some((n, e)) => Some((AttributeValue::Uid(n as u32), e)),
            None => None,
        }
    } else if eq_upper(s, p, w, &kw::modseq_bytes()) {
        if peek(s, w, SP) && peek(s, w + 1, LPAREN) {
            match number(s, w + 2, u64::MAX) {
                Some((n, e)) => if peek(s, e, RPAREN) {
                    Some((AttributeValue::ModSeq(n), e + 1))
                } else {
                    None
                },
                None => None,
            }
        } else {
            None
        }
    } else {
        attribute_rest(s, p, w)
    }
}

/// The attributes after the first six: message bodies, and those stepped over.
pub open spec fn spec_attribute_rest(s: Seq<u8>, p: int, w: int) -> Option<(AttributeValueModel, int)> {
    let u = upper_seq(s.subrange(p, w));
    if u == kw::rfc822() {
        match spec_sp_nstring(s, w) {
            Some((d, e)) => Some((AttributeValueModel::Rfc822(d), e)),
            None => None,
        }
    } else if u == kw::rfc822_header() {
        match spec_sp_nstring(s, w) {
            Some((d, e)) => Some((AttributeValueModel::Rfc822Header(d), e)),
            None => None,
        }
    } else if u == kw::rfc822_text() {
        match spec_sp_nstring(s, w) {
            Some((d, e)) => Some((AttributeValueModel::Rfc822Text(d), e)),
            None => None,
        }
    } else if u == kw::body() && at(s, w, LBRACKET) {
        spec_body_section(s, w)
    } else if u == kw::body() {
        if at(s, w, SP) {
            match spec_skip_value(s, w + 1) {
                Some(e) => Some(
                    (AttributeValueModel::BodySection { section: None, index: None, data: None }, e),
                ),
                None => None,
            }
        } else {
            None
        }
    } else if at(s, w, SP) {
        match spec_skip_value(s, w + 1) {
            Some(e) => Some((AttributeValueModel::Unparsed(ascii_chars(s.subrange(p, w))), e)),
            None => None,
        }
    } else {
        None
    }
}


fn attribute_rest(s: &[u8], p: usize, w: usize) -> (r: Option<(AttributeValue, usize)>)
    requires
        p < w <= s@.len(),
        w as int == run_end(s@, p as int, CharClass::Name),
    ensures
        r matches Some((v, e)) ==> spec_attribute_rest(s@, p as int, w as int) == Some(
            (v.deep_view(), e as int),
        ) && p < e <= s@.len(),
        r is None ==> spec_attribute_rest(s@, p as int, w as int) is None,
{
    if eq_upper(s, p, w, &kw::rfc822_bytes()) {
        match sp_nstring(s, w) {
            Some((d, e)) => Some((AttributeValue::Rfc822(d), e)),
            None => None,
        }
    } else if eq_upper(s, p, w, &kw::rfc822_header_bytes()) {
        match sp_nstring(s, w) {
            Some((d, e)) => Some((AttributeValue::Rfc822Header(d), e)),
            None => None,
        }
    } else if eq_upper(s, p, w, &kw::rfc822_text_bytes()) {
        match sp_nstring(s, w) {
            Some((d, e)) => Some((AttributeValue::Rfc822Text(d), e)),
            None => None,
        }
    } else if eq_upper(s, p, w, &kw::body_bytes()) && peek(s, w, LBRACKET) {
        body_section(s, w)
    } else if eq_upper(s, p, w, &kw::body_bytes()) {
        if peek(s, w, SP) {
            match skip_value(s, w + 1) {
                Some(e) => Some(
                    (
                        AttributeValue::BodySection(
                            BodySection { section: None, index: None, data: None },
                        ),
                        e,
                    ),
                ),
                None => None,
            }
        } else {
            None
        }
    } else if peek(s, w, SP) {
        proof {
            lemma_run_end(s@, p as int, CharClass::Name);
        }
        assert(crate::bytes::all_ascii(s@.subrange(p as int, w as int)));
        match skip_value(s, w + 1) {
            Some(e) => Some((AttributeValue::Unparsed(ascii_string(&s[p..w])), e)),
            None => None,
        }
    } else {
        None
    }
}


/// One or more attributes separated by spaces, and the closing parenthesis.
pub open spec fn spec_attributes(s: Seq<u8>, p: int) -> Option<(Seq<AttributeValueModel>, int)>
    decreases s.len() - p,
{
    match spec_attribute(s, p) {
        Some((a, e)) => if at(s, e, RPAREN) {
            Some((seq![a], e + 1))
        } else if p < e && at(s, e, SP) {
            cons(a, spec_attributes(s, e + 1))
        } else {
            None
        },
        None => None,
    }
}

/// The parenthesized attribute list of a FETCH response.
pub open spec fn spec_msg_att(s: Seq<u8>, p: int) -> Option<(Seq<AttributeValueModel>, int)> {
    if !at(s, p, LPAREN) {
        None
    } else if at(s, p + 1, RPAREN) {
        Some((Seq::empty(), p + 2))
    } else {
        spec_attributes(s, p + 1)
    }
}

pub fn msg_att(s: &[u8], p: usize) -> (r: Option<(Vec<AttributeValue>, usize)>)
    requires
        p <= s@.len(),
    ensures
        r matches Some((v, e)) ==> spec_msg_att(s@, p as int) == Some((v.deep_view(), e as int))
            && p < e <= s@.len(),
        r is None ==> spec_msg_att(s@, p as int) is None,
{
    if !peek(s, p, LPAREN) {
        return None;
    }
    if peek(s, p + 1, RPAREN) {
        let v: Vec<AttributeValue> = Vec::new();
        assert(v.deep_view() =~= Seq::<AttributeValueModel>::empty());
        return Some((v, p + 2));
    }
    let mut acc: Vec<AttributeValue> = Vec::new();
    let mut i = p + 1;
    assert(acc.deep_view() =~= Seq::<AttributeValueModel>::empty());
    assert(after(Seq::<AttributeValueModel>::empty(), spec_attributes(s@, i as int))
        == spec_attributes(s@, i as int)) by {
        if let Some((v, e)) = spec_attributes(s@, i as int) {
            assert(Seq::<AttributeValueModel>::empty() + v =~= v);
        }
    }
    loop
        invariant
            p < i <= s@.len(),
            spec_msg_att(s@, p as int) == after(acc.deep_view(), spec_attributes(s@, i as int)),
        decreases s@.len() - i,
    {
        let (a, e) = match attribute(s, i) {
            None => return None,
            Some(x) => x,
        };
        let ghost old_acc = acc.deep_view();
        let ghost av = a.deep_view();
        if peek(s, e, RPAREN) {
            proof {
                lemma_after_cons(old_acc, av, Some((Seq::<AttributeValueModel>::empty(), e + 1)));
            }
            acc.push(a);
            assert(acc.deep_view() =~= old_acc.push(av));
            assert(seq![av] + Seq::<AttributeValueModel>::empty() =~= seq![av]);
            assert(acc.deep_view() + Seq::<AttributeValueModel>::empty() =~= acc.deep_view());
            return Some((acc, e + 1));
        } else if peek(s, e, SP) {
            proof {
                lemma_after_cons(old_acc, av, spec_attributes(s@, e + 1));
            }
            acc.push(a);
            assert(acc.deep_view() =~= old_acc.push(av));
            i = e + 1;
        } else {
            return None;
        }
    }
}

} // verus!
