//! The fixed words of the grammar, as byte strings.
//!
//! Each word has a spec function that gives its bytes and an executable function that returns
//! them as an array.

use vstd::prelude::*;

verus! {

pub open spec fn ok() -> Seq<u8> {
    seq!['O' as u8, 'K' as u8]
}

pub(crate) fn ok_bytes() -> (r: [u8; 2])
    ensures
        r@ == ok(),
{
    ['O' as u8, 'K' as u8]
}

pub open spec fn no() -> Seq<u8> {
    seq!['N' as u8, 'O' as u8]
}

pub(crate) fn no_bytes() -> (r: [u8; 2])
    ensures
        r@ == no(),
{
    ['N' as u8, 'O' as u8]
}

pub open spec fn bad() -> Seq<u8> {
    seq!['B' as u8, 'A' as u8, 'D' as u8]
}

pub(crate) fn bad_bytes() -> (r: [u8; 3])
    ensures
        r@ == bad(),
{
    ['B' as u8, 'A' as u8, 'D' as u8]
}

pub open spec fn preauth() -> Seq<u8> {
    seq!['P' as u8, 'R' as u8, 'E' as u8, 'A' as u8, 'U' as u8, 'T' as u8, 'H' as u8]
}

pub(crate) fn preauth_bytes() -> (r: [u8; 7])
    ensures
        r@ == preauth(),
{
    ['P' as u8, 'R' as u8, 'E' as u8, 'A' as u8, 'U' as u8, 'T' as u8, 'H' as u8]
}

pub open spec fn bye() -> Seq<u8> {
    seq!['B' as u8, 'Y' as u8, 'E' as u8]
}

pub(crate) fn bye_bytes() -> (r: [u8; 3])
    ensures
        r@ == bye(),
{
    ['B' as u8, 'Y' as u8, 'E' as u8]
}

pub open spec fn capability() -> Seq<u8> {
    seq!['C' as u8, 'A' as u8, 'P' as u8, 'A' as u8, 'B' as u8, 'I' as u8, 'L' as u8, 'I' as u8, 'T' as u8, 'Y' as u8]
}

pub(crate) fn capability_bytes() -> (r: [u8; 10])
    ensures
        r@ == capability(),
{
    ['C' as u8, 'A' as u8, 'P' as u8, 'A' as u8, 'B' as u8, 'I' as u8, 'L' as u8, 'I' as u8, 'T' as u8, 'Y' as u8]
}

pub open spec fn flags() -> Seq<u8> {
    seq!['F' as u8, 'L' as u8, 'A' as u8, 'G' as u8, 'S' as u8]
}

pub(crate) fn flags_bytes() -> (r: [u8; 5])
    ensures
        r@ == flags(),
{
    ['F' as u8, 'L' as u8, 'A' as u8, 'G' as u8, 'S' as u8]
}

pub open spec fn list() -> Seq<u8> {
    seq!['L' as u8, 'I' as u8, 'S' as u8, 'T' as u8]
}

pub(crate) fn list_bytes() -> (r: [u8; 4])
    ensures
        r@ == list(),
{
    ['L' as u8, 'I' as u8, 'S' as u8, 'T' as u8]
}

pub open spec fn search() -> Seq<u8> {
    seq!['S' as u8, 'E' as u8, 'A' as u8, 'R' as u8, 'C' as u8, 'H' as u8]
}

pub(crate) fn search_bytes() -> (r: [u8; 6])
    ensures
        r@ == search(),
{
    ['S' as u8, 'E' as u8, 'A' as u8, 'R' as u8, 'C' as u8, 'H' as u8]
}

pub open spec fn exists_count() -> Seq<u8> {
    seq!['E' as u8, 'X' as u8, 'I' as u8, 'S' as u8, 'T' as u8, 'S' as u8]
}

pub(crate) fn exists_count_bytes() -> (r: [u8; 6])
    ensures
        r@ == exists_count(),
{
    ['E' as u8, 'X' as u8, 'I' as u8, 'S' as u8, 'T' as u8, 'S' as u8]
}

pub open spec fn recent() -> Seq<u8> {
    seq!['R' as u8, 'E' as u8, 'C' as u8, 'E' as u8, 'N' as u8, 'T' as u8]
}

pub(crate) fn recent_bytes() -> (r: [u8; 6])
    ensures
        r@ == recent(),
{
    ['R' as u8, 'E' as u8, 'C' as u8, 'E' as u8, 'N' as u8, 'T' as u8]
}

pub open spec fn expunge() -> Seq<u8> {
    seq!['E' as u8, 'X' as u8, 'P' as u8, 'U' as u8, 'N' as u8, 'G' as u8, 'E' as u8]
}

pub(crate) fn expunge_bytes() -> (r: [u8; 7])
    ensures
        r@ == expunge(),
{
    ['E' as u8, 'X' as u8, 'P' as u8, 'U' as u8, 'N' as u8, 'G' as u8, 'E' as u8]
}

pub open spec fn fetch() -> Seq<u8> {
    seq!['F' as u8, 'E' as u8, 'T' as u8, 'C' as u8, 'H' as u8]
}

pub(crate) fn fetch_bytes() -> (r: [u8; 5])
    ensures
        r@ == fetch(),
{
    ['F' as u8, 'E' as u8, 'T' as u8, 'C' as u8, 'H' as u8]
}

pub open spec fn alert() -> Seq<u8> {
    seq!['A' as u8, 'L' as u8, 'E' as u8, 'R' as u8, 'T' as u8]
}

pub(crate) fn alert_bytes() -> (r: [u8; 5])
    ensures
        r@ == alert(),
{
    ['A' as u8, 'L' as u8, 'E' as u8, 'R' as u8, 'T' as u8]
}

pub open spec fn parse() -> Seq<u8> {
    seq!['P' as u8, 'A' as u8, 'R' as u8, 'S' as u8, 'E' as u8]
}

pub(crate) fn parse_bytes() -> (r: [u8; 5])
    ensures
        r@ == parse(),
{
    ['P' as u8, 'A' as u8, 'R' as u8, 'S' as u8, 'E' as u8]
}

pub open spec fn read_only() -> Seq<u8> {
    seq!['R' as u8, 'E' as u8, 'A' as u8, 'D' as u8, '-' as u8, 'O' as u8, 'N' as u8, 'L' as u8, 'Y' as u8]
}

pub(crate) fn read_only_bytes() -> (r: [u8; 9])
    ensures
        r@ == read_only(),
{
    ['R' as u8, 'E' as u8, 'A' as u8, 'D' as u8, '-' as u8, 'O' as u8, 'N' as u8, 'L' as u8, 'Y' as u8]
}

pub open spec fn read_write() -> Seq<u8> {
    seq!['R' as u8, 'E' as u8, 'A' as u8, 'D' as u8, '-' as u8, 'W' as u8, 'R' as u8, 'I' as u8, 'T' as u8, 'E' as u8]
}

pub(crate) fn read_write_bytes() -> (r: [u8; 10])
    ensures
        r@ == read_write(),
{
    ['R' as u8, 'E' as u8, 'A' as u8, 'D' as u8, '-' as u8, 'W' as u8, 'R' as u8, 'I' as u8, 'T' as u8, 'E' as u8]
}

pub open spec fn trycreate() -> Seq<u8> {
    seq!['T' as u8, 'R' as u8, 'Y' as u8, 'C' as u8, 'R' as u8, 'E' as u8, 'A' as u8, 'T' as u8, 'E' as u8]
}

pub(crate) fn trycreate_bytes() -> (r: [u8; 9])
    ensures
        r@ == trycreate(),
{
    ['T' as u8, 'R' as u8, 'Y' as u8, 'C' as u8, 'R' as u8, 'E' as u8, 'A' as u8, 'T' as u8, 'E' as u8]
}

pub open spec fn uidnotsticky() -> Seq<u8> {
    seq!['U' as u8, 'I' as u8, 'D' as u8, 'N' as u8, 'O' as u8, 'T' as u8, 'S' as u8, 'T' as u8, 'I' as u8, 'C' as u8, 'K' as u8, 'Y' as u8]
}

pub(crate) fn uidnotsticky_bytes() -> (r: [u8; 12])
    ensures
        r@ == uidnotsticky(),
{
    ['U' as u8, 'I' as u8, 'D' as u8, 'N' as u8, 'O' as u8, 'T' as u8, 'S' as u8, 'T' as u8, 'I' as u8, 'C' as u8, 'K' as u8, 'Y' as u8]
}

pub open spec fn uidnext() -> Seq<u8> {
    seq!['U' as u8, 'I' as u8, 'D' as u8, 'N' as u8, 'E' as u8, 'X' as u8, 'T' as u8]
}

pub(crate) fn uidnext_bytes() -> (r: [u8; 7])
    ensures
        r@ == uidnext(),
{
    ['U' as u8, 'I' as u8, 'D' as u8, 'N' as u8, 'E' as u8, 'X' as u8, 'T' as u8]
}

pub open spec fn uidvalidity() -> Seq<u8> {
    seq!['U' as u8, 'I' as u8, 'D' as u8, 'V' as u8, 'A' as u8, 'L' as u8, 'I' as u8, 'D' as u8, 'I' as u8, 'T' as u8, 'Y' as u8]
}

pub(crate) fn uidvalidity_bytes() -> (r: [u8; 11])
    ensures
        r@ == uidvalidity(),
{
    ['U' as u8, 'I' as u8, 'D' as u8, 'V' as u8, 'A' as u8, 'L' as u8, 'I' as u8, 'D' as u8, 'I' as u8, 'T' as u8, 'Y' as u8]
}

pub open spec fn unseen() -> Seq<u8> {
    seq!['U' as u8, 'N' as u8, 'S' as u8, 'E' as u8, 'E' as u8, 'N' as u8]
}

pub(crate) fn unseen_bytes() -> (r: [u8; 6])
    ensures
        r@ == unseen(),
{
    ['U' as u8, 'N' as u8, 'S' as u8, 'E' as u8, 'E' as u8, 'N' as u8]
}

pub open spec fn highestmodseq() -> Seq<u8> {
    seq!['H' as u8, 'I' as u8, 'G' as u8, 'H' as u8, 'E' as u8, 'S' as u8, 'T' as u8, 'M' as u8, 'O' as u8, 'D' as u8, 'S' as u8, 'E' as u8, 'Q' as u8]
}

pub(crate) fn highestmodseq_bytes() -> (r: [u8; 13])
    ensures
        r@ == highestmodseq(),
{
    ['H' as u8, 'I' as u8, 'G' as u8, 'H' as u8, 'E' as u8, 'S' as u8, 'T' as u8, 'M' as u8, 'O' as u8, 'D' as u8, 'S' as u8, 'E' as u8, 'Q' as u8]
}

pub open spec fn permanentflags() -> Seq<u8> {
    seq!['P' as u8, 'E' as u8, 'R' as u8, 'M' as u8, 'A' as u8, 'N' as u8, 'E' as u8, 'N' as u8, 'T' as u8, 'F' as u8, 'L' as u8, 'A' as u8, 'G' as u8, 'S' as u8]
}

pub(crate) fn permanentflags_bytes() -> (r: [u8; 14])
    ensures
        r@ == permanentflags(),
{
    ['P' as u8, 'E' as u8, 'R' as u8, 'M' as u8, 'A' as u8, 'N' as u8, 'E' as u8, 'N' as u8, 'T' as u8, 'F' as u8, 'L' as u8, 'A' as u8, 'G' as u8, 'S' as u8]
}

pub open spec fn auth() -> Seq<u8> {
    seq!['A' as u8, 'U' as u8, 'T' as u8, 'H' as u8, '=' as u8]
}

pub(crate) fn auth_bytes() -> (r: [u8; 5])
    ensures
        r@ == auth(),
{
    ['A' as u8, 'U' as u8, 'T' as u8, 'H' as u8, '=' as u8]
}

pub open spec fn imap4rev1() -> Seq<u8> {
    seq!['I' as u8, 'M' as u8, 'A' as u8, 'P' as u8, '4' as u8, 'r' as u8, 'e' as u8, 'v' as u8, '1' as u8]
}

pub(crate) fn imap4rev1_bytes() -> (r: [u8; 9])
    ensures
        r@ == imap4rev1(),
{
    ['I' as u8, 'M' as u8, 'A' as u8, 'P' as u8, '4' as u8, 'r' as u8, 'e' as u8, 'v' as u8, '1' as u8]
}

pub open spec fn envelope() -> Seq<u8> {
    seq!['E' as u8, 'N' as u8, 'V' as u8, 'E' as u8, 'L' as u8, 'O' as u8, 'P' as u8, 'E' as u8]
}

pub(crate) fn envelope_bytes() -> (r: [u8; 8])
    ensures
        r@ == envelope(),
{
    ['E' as u8, 'N' as u8, 'V' as u8, 'E' as u8, 'L' as u8, 'O' as u8, 'P' as u8, 'E' as u8]
}

pub open spec fn internaldate() -> Seq<u8> {
    seq!['I' as u8, 'N' as u8, 'T' as u8, 'E' as u8, 'R' as u8, 'N' as u8, 'A' as u8, 'L' as u8, 'D' as u8, 'A' as u8, 'T' as u8, 'E' as u8]
}

pub(crate) fn internaldate_bytes() -> (r: [u8; 12])
    ensures
        r@ == internaldate(),
{
    ['I' as u8, 'N' as u8, 'T' as u8, 'E' as u8, 'R' as u8, 'N' as u8, 'A' as u8, 'L' as u8, 'D' as u8, 'A' as u8, 'T' as u8, 'E' as u8]
}

pub open spec fn rfc822_size() -> Seq<u8> {
    seq!['R' as u8, 'F' as u8, 'C' as u8, '8' as u8, '2' as u8, '2' as u8, '.' as u8, 'S' as u8, 'I' as u8, 'Z' as u8, 'E' as u8]
}

pub(crate) fn rfc822_size_bytes() -> (r: [u8; 11])
    ensures
        r@ == rfc822_size(),
{
    ['R' as u8, 'F' as u8, 'C' as u8, '8' as u8, '2' as u8, '2' as u8, '.' as u8, 'S' as u8, 'I' as u8, 'Z' as u8, 'E' as u8]
}

pub open spec fn rfc822() -> Seq<u8> {
    seq!['R' as u8, 'F' as u8, 'C' as u8, '8' as u8, '2' as u8, '2' as u8]
}

pub(crate) fn rfc822_bytes() -> (r: [u8; 6])
    ensures
        r@ == rfc822(),
{
    ['R' as u8, 'F' as u8, 'C' as u8, '8' as u8, '2' as u8, '2' as u8]
}

pub open spec fn rfc822_header() -> Seq<u8> {
    seq!['R' as u8, 'F' as u8, 'C' as u8, '8' as u8, '2' as u8, '2' as u8, '.' as u8, 'H' as u8, 'E' as u8, 'A' as u8, 'D' as u8, 'E' as u8, 'R' as u8]
}

pub(crate) fn rfc822_header_bytes() -> (r: [u8; 13])
    ensures
        r@ == rfc822_header(),
{
    ['R' as u8, 'F' as u8, 'C' as u8, '8' as u8, '2' as u8, '2' as u8, '.' as u8, 'H' as u8, 'E' as u8, 'A' as u8, 'D' as u8, 'E' as u8, 'R' as u8]
}

pub open spec fn rfc822_text() -> Seq<u8> {
    seq!['R' as u8, 'F' as u8, 'C' as u8, '8' as u8, '2' as u8, '2' as u8, '.' as u8, 'T' as u8, 'E' as u8, 'X' as u8, 'T' as u8]
}

pub(crate) fn rfc822_text_bytes() -> (r: [u8; 11])
    ensures
        r@ == rfc822_text(),
{
    ['R' as u8, 'F' as u8, 'C' as u8, '8' as u8, '2' as u8, '2' as u8, '.' as u8, 'T' as u8, 'E' as u8, 'X' as u8, 'T' as u8]
}

pub open spec fn uid() -> Seq<u8> {
    seq!['U' as u8, 'I' as u8, 'D' as u8]
}

pub(crate) fn uid_bytes() -> (r: [u8; 3])
    ensures
        r@ == uid(),
{
    ['U' as u8, 'I' as u8, 'D' as u8]
}

pub open spec fn modseq() -> Seq<u8> {
    seq!['M' as u8, 'O' as u8, 'D' as u8, 'S' as u8, 'E' as u8, 'Q' as u8]
}

pub(crate) fn modseq_bytes() -> (r: [u8; 6])
    ensures
        r@ == modseq(),
{
    ['M' as u8, 'O' as u8, 'D' as u8, 'S' as u8, 'E' as u8, 'Q' as u8]
}

pub open spec fn body() -> Seq<u8> {
    seq!['B' as u8, 'O' as u8, 'D' as u8, 'Y' as u8]
}

pub(crate) fn body_bytes() -> (r: [u8; 4])
    ensures
        r@ == body(),
{
    ['B' as u8, 'O' as u8, 'D' as u8, 'Y' as u8]
}

pub open spec fn header() -> Seq<u8> {
    seq!['H' as u8, 'E' as u8, 'A' as u8, 'D' as u8, 'E' as u8, 'R' as u8]
}

pub(crate) fn header_bytes() -> (r: [u8; 6])
    ensures
        r@ == header(),
{
    ['H' as u8, 'E' as u8, 'A' as u8, 'D' as u8, 'E' as u8, 'R' as u8]
}

pub open spec fn text() -> Seq<u8> {
    seq!['T' as u8, 'E' as u8, 'X' as u8, 'T' as u8]
}

pub(crate) fn text_bytes() -> (r: [u8; 4])
    ensures
        r@ == text(),
{
    ['T' as u8, 'E' as u8, 'X' as u8, 'T' as u8]
}

pub open spec fn mime() -> Seq<u8> {
    seq!['M' as u8, 'I' as u8, 'M' as u8, 'E' as u8]
}

pub(crate) fn mime_bytes() -> (r: [u8; 4])
    ensures
        r@ == mime(),
{
    ['M' as u8, 'I' as u8, 'M' as u8, 'E' as u8]
}

pub open spec fn answered() -> Seq<u8> {
    seq!['\\' as u8, 'A' as u8, 'n' as u8, 's' as u8, 'w' as u8, 'e' as u8, 'r' as u8, 'e' as u8, 'd' as u8]
}

pub(crate) fn answered_bytes() -> (r: [u8; 9])
    ensures
        r@ == answered(),
{
    ['\\' as u8, 'A' as u8, 'n' as u8, 's' as u8, 'w' as u8, 'e' as u8, 'r' as u8, 'e' as u8, 'd' as u8]
}

pub open spec fn flagged() -> Seq<u8> {
    seq!['\\' as u8, 'F' as u8, 'l' as u8, 'a' as u8, 'g' as u8, 'g' as u8, 'e' as u8, 'd' as u8]
}

pub(crate) fn flagged_bytes() -> (r: [u8; 8])
    ensures
        r@ == flagged(),
{
    ['\\' as u8, 'F' as u8, 'l' as u8, 'a' as u8, 'g' as u8, 'g' as u8, 'e' as u8, 'd' as u8]
}

pub open spec fn deleted() -> Seq<u8> {
    seq!['\\' as u8, 'D' as u8, 'e' as u8, 'l' as u8, 'e' as u8, 't' as u8, 'e' as u8, 'd' as u8]
}

pub(crate) fn deleted_bytes() -> (r: [u8; 8])
    ensures
        r@ == deleted(),
{
    ['\\' as u8, 'D' as u8, 'e' as u8, 'l' as u8, 'e' as u8, 't' as u8, 'e' as u8, 'd' as u8]
}

pub open spec fn seen() -> Seq<u8> {
    seq!['\\' as u8, 'S' as u8, 'e' as u8, 'e' as u8, 'n' as u8]
}

pub(crate) fn seen_bytes() -> (r: [u8; 5])
    ensures
        r@ == seen(),
{
    ['\\' as u8, 'S' as u8, 'e' as u8, 'e' as u8, 'n' as u8]
}

pub open spec fn draft() -> Seq<u8> {
    seq!['\\' as u8, 'D' as u8, 'r' as u8, 'a' as u8, 'f' as u8, 't' as u8]
}

pub(crate) fn draft_bytes() -> (r: [u8; 6])
    ensures
        r@ == draft(),
{
    ['\\' as u8, 'D' as u8, 'r' as u8, 'a' as u8, 'f' as u8, 't' as u8]
}

pub open spec fn recent_flag() -> Seq<u8> {
    seq!['\\' as u8, 'R' as u8, 'e' as u8, 'c' as u8, 'e' as u8, 'n' as u8, 't' as u8]
}

pub(crate) fn recent_flag_bytes() -> (r: [u8; 7])
    ensures
        r@ == recent_flag(),
{
    ['\\' as u8, 'R' as u8, 'e' as u8, 'c' as u8, 'e' as u8, 'n' as u8, 't' as u8]
}

pub open spec fn w_starttls() -> Seq<u8> {
    seq!['S' as u8, 'T' as u8, 'A' as u8, 'R' as u8, 'T' as u8, 'T' as u8, 'L' as u8, 'S' as u8]
}

pub(crate) fn w_starttls_bytes() -> (r: [u8; 8])
    ensures
        r@ == w_starttls(),
{
    ['S' as u8, 'T' as u8, 'A' as u8, 'R' as u8, 'T' as u8, 'T' as u8, 'L' as u8, 'S' as u8]
}

pub open spec fn w_login() -> Seq<u8> {
    seq!['L' as u8, 'O' as u8, 'G' as u8, 'I' as u8, 'N' as u8, ' ' as u8]
}

pub(crate) fn w_login_bytes() -> (r: [u8; 6])
    ensures
        r@ == w_login(),
{
    ['L' as u8, 'O' as u8, 'G' as u8, 'I' as u8, 'N' as u8, ' ' as u8]
}

pub open spec fn w_select() -> Seq<u8> {
    seq!['S' as u8, 'E' as u8, 'L' as u8, 'E' as u8, 'C' as u8, 'T' as u8, ' ' as u8]
}

pub(crate) fn w_select_bytes() -> (r: [u8; 7])
    ensures
        r@ == w_select(),
{
    ['S' as u8, 'E' as u8, 'L' as u8, 'E' as u8, 'C' as u8, 'T' as u8, ' ' as u8]
}

pub open spec fn w_list() -> Seq<u8> {
    seq!['L' as u8, 'I' as u8, 'S' as u8, 'T' as u8, ' ' as u8]
}

pub(crate) fn w_list_bytes() -> (r: [u8; 5])
    ensures
        r@ == w_list(),
{
    ['L' as u8, 'I' as u8, 'S' as u8, 'T' as u8, ' ' as u8]
}

pub open spec fn w_search() -> Seq<u8> {
    seq!['S' as u8, 'E' as u8, 'A' as u8, 'R' as u8, 'C' as u8, 'H' as u8, ' ' as u8]
}

pub(crate) fn w_search_bytes() -> (r: [u8; 7])
    ensures
        r@ == w_search(),
{
    ['S' as u8, 'E' as u8, 'A' as u8, 'R' as u8, 'C' as u8, 'H' as u8, ' ' as u8]
}

pub open spec fn w_uid_search() -> Seq<u8> {
    seq!['U' as u8, 'I' as u8, 'D' as u8, ' ' as u8, 'S' as u8, 'E' as u8, 'A' as u8, 'R' as u8, 'C' as u8, 'H' as u8, ' ' as u8]
}

pub(crate) fn w_uid_search_bytes() -> (r: [u8; 11])
    ensures
        r@ == w_uid_search(),
{
    ['U' as u8, 'I' as u8, 'D' as u8, ' ' as u8, 'S' as u8, 'E' as u8, 'A' as u8, 'R' as u8, 'C' as u8, 'H' as u8, ' ' as u8]
}

pub open spec fn w_fetch() -> Seq<u8> {
    seq!['F' as u8, 'E' as u8, 'T' as u8, 'C' as u8, 'H' as u8, ' ' as u8]
}

pub(crate) fn w_fetch_bytes() -> (r: [u8; 6])
    ensures
        r@ == w_fetch(),
{
    ['F' as u8, 'E' as u8, 'T' as u8, 'C' as u8, 'H' as u8, ' ' as u8]
}

pub open spec fn w_uid_fetch() -> Seq<u8> {
    seq!['U' as u8, 'I' as u8, 'D' as u8, ' ' as u8, 'F' as u8, 'E' as u8, 'T' as u8, 'C' as u8, 'H' as u8, ' ' as u8]
}

pub(crate) fn w_uid_fetch_bytes() -> (r: [u8; 10])
    ensures
        r@ == w_uid_fetch(),
{
    ['U' as u8, 'I' as u8, 'D' as u8, ' ' as u8, 'F' as u8, 'E' as u8, 'T' as u8, 'C' as u8, 'H' as u8, ' ' as u8]
}

pub open spec fn w_idle() -> Seq<u8> {
    seq!['I' as u8, 'D' as u8, 'L' as u8, 'E' as u8]
}

pub(crate) fn w_idle_bytes() -> (r: [u8; 4])
    ensures
        r@ == w_idle(),
{
    ['I' as u8, 'D' as u8, 'L' as u8, 'E' as u8]
}

pub open spec fn w_done() -> Seq<u8> {
    seq!['D' as u8, 'O' as u8, 'N' as u8, 'E' as u8]
}

pub(crate) fn w_done_bytes() -> (r: [u8; 4])
    ensures
        r@ == w_done(),
{
    ['D' as u8, 'O' as u8, 'N' as u8, 'E' as u8]
}

pub open spec fn w_all() -> Seq<u8> {
    seq!['A' as u8, 'L' as u8, 'L' as u8]
}

pub(crate) fn w_all_bytes() -> (r: [u8; 3])
    ensures
        r@ == w_all(),
{
    ['A' as u8, 'L' as u8, 'L' as u8]
}

pub open spec fn w_fast() -> Seq<u8> {
    seq!['F' as u8, 'A' as u8, 'S' as u8, 'T' as u8]
}

pub(crate) fn w_fast_bytes() -> (r: [u8; 4])
    ensures
        r@ == w_fast(),
{
    ['F' as u8, 'A' as u8, 'S' as u8, 'T' as u8]
}

pub open spec fn w_full() -> Seq<u8> {
    seq!['F' as u8, 'U' as u8, 'L' as u8, 'L' as u8]
}

pub(crate) fn w_full_bytes() -> (r: [u8; 4])
    ensures
        r@ == w_full(),
{
    ['F' as u8, 'U' as u8, 'L' as u8, 'L' as u8]
}

pub open spec fn tag_prefix() -> Seq<u8> {
    seq!['p' as u8, 't' as u8, 'a' as u8, 'g' as u8]
}

pub(crate) fn tag_prefix_bytes() -> (r: [u8; 4])
    ensures
        r@ == tag_prefix(),
{
    ['p' as u8, 't' as u8, 'a' as u8, 'g' as u8]
}

pub open spec fn status() -> Seq<u8> {
    seq!['S' as u8, 'T' as u8, 'A' as u8, 'T' as u8, 'U' as u8, 'S' as u8]
}

pub(crate) fn status_bytes() -> (r: [u8; 6])
    ensures
        r@ == status(),
{
    ['S' as u8, 'T' as u8, 'A' as u8, 'T' as u8, 'U' as u8, 'S' as u8]
}

pub open spec fn messages() -> Seq<u8> {
    seq!['M' as u8, 'E' as u8, 'S' as u8, 'S' as u8, 'A' as u8, 'G' as u8, 'E' as u8, 'S' as u8]
}

pub(crate) fn messages_bytes() -> (r: [u8; 8])
    ensures
        r@ == messages(),
{
    ['M' as u8, 'E' as u8, 'S' as u8, 'S' as u8, 'A' as u8, 'G' as u8, 'E' as u8, 'S' as u8]
}

pub open spec fn jan() -> Seq<u8> {
    seq!['J' as u8, 'A' as u8, 'N' as u8]
}

pub(crate) fn jan_bytes() -> (r: [u8; 3])
    ensures
        r@ == jan(),
{
    ['J' as u8, 'A' as u8, 'N' as u8]
}

pub open spec fn feb() -> Seq<u8> {
    seq!['F' as u8, 'E' as u8, 'B' as u8]
}

pub(crate) fn feb_bytes() -> (r: [u8; 3])
    ensures
        r@ == feb(),
{
    ['F' as u8, 'E' as u8, 'B' as u8]
}

pub open spec fn mar() -> Seq<u8> {
    seq!['M' as u8, 'A' as u8, 'R' as u8]
}

pub(crate) fn mar_bytes() -> (r: [u8; 3])
    ensures
        r@ == mar(),
{
    ['M' as u8, 'A' as u8, 'R' as u8]
}

pub open spec fn apr() -> Seq<u8> {
    seq!['A' as u8, 'P' as u8, 'R' as u8]
}

pub(crate) fn apr_bytes() -> (r: [u8; 3])
    ensures
        r@ == apr(),
{
    ['A' as u8, 'P' as u8, 'R' as u8]
}

pub open spec fn may() -> Seq<u8> {
    seq!['M' as u8, 'A' as u8, 'Y' as u8]
}

pub(crate) fn may_bytes() -> (r: [u8; 3])
    ensures
        r@ == may(),
{
    ['M' as u8, 'A' as u8, 'Y' as u8]
}

pub open spec fn jun() -> Seq<u8> {
    seq!['J' as u8, 'U' as u8, 'N' as u8]
}

pub(crate) fn jun_bytes() -> (r: [u8; 3])
    ensures
        r@ == jun(),
{
    ['J' as u8, 'U' as u8, 'N' as u8]
}

pub open spec fn jul() -> Seq<u8> {
    seq!['J' as u8, 'U' as u8, 'L' as u8]
}

pub(crate) fn jul_bytes() -> (r: [u8; 3])
    ensures
        r@ == jul(),
{
    ['J' as u8, 'U' as u8, 'L' as u8]
}

pub open spec fn aug() -> Seq<u8> {
    seq!['A' as u8, 'U' as u8, 'G' as u8]
}

pub(crate) fn aug_bytes() -> (r: [u8; 3])
    ensures
        r@ == aug(),
{
    ['A' as u8, 'U' as u8, 'G' as u8]
}

pub open spec fn sep() -> Seq<u8> {
    seq!['S' as u8, 'E' as u8, 'P' as u8]
}

pub(crate) fn sep_bytes() -> (r: [u8; 3])
    ensures
        r@ == sep(),
{
    ['S' as u8, 'E' as u8, 'P' as u8]
}

pub open spec fn oct() -> Seq<u8> {
    seq!['O' as u8, 'C' as u8, 'T' as u8]
}

pub(crate) fn oct_bytes() -> (r: [u8; 3])
    ensures
        r@ == oct(),
{
    ['O' as u8, 'C' as u8, 'T' as u8]
}

pub open spec fn nov() -> Seq<u8> {
    seq!['N' as u8, 'O' as u8, 'V' as u8]
}

pub(crate) fn nov_bytes() -> (r: [u8; 3])
    ensures
        r@ == nov(),
{
    ['N' as u8, 'O' as u8, 'V' as u8]
}

pub open spec fn dec() -> Seq<u8> {
    seq!['D' as u8, 'E' as u8, 'C' as u8]
}

pub(crate) fn dec_bytes() -> (r: [u8; 3])
    ensures
        r@ == dec(),
{
    ['D' as u8, 'E' as u8, 'C' as u8]
}

} // verus!
