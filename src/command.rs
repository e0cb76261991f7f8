//! The commands a client sends, and the text each one is written as on the wire.

use vstd::prelude::*;
use vstd::utf8::encode_utf8;
use crate::keywords as kw;
use crate::lexer::{BACKSLASH, DQUOTE, SP};

verus! {

/// A command, without its tag.
#[derive(Clone)]
pub enum Command {
    Capability,
    Starttls,
    Login { username: String, password: String },
    Select { mailbox: String },
    List { reference: String, mailbox: String },
    Search { criteria: SearchCriteria },
    Fetch { uids: Vec<u32>, items: FetchItems },
    UidSearch { criteria: SearchCriteria },
    UidFetch { uids: Vec<u32>, items: FetchItems },
    Idle,
    /// The line that ends an IDLE command.
    Done,
}

#[derive(Clone, Copy, Debug, PartialEq, Eq)]
pub enum SearchCriteria {
    All,
}

#[derive(Clone, Copy, Debug, PartialEq, Eq)]
pub enum FetchItems {
    All,
    Fast,
    Full,
}

/// The decimal digits of `n`, without leading zeros.
pub open spec fn decimal(n: nat) -> Seq<u8>
    decreases n,
{
    if n < 10 {
        seq![(48 + n) as u8]
    } else {
        decimal(n / 10).push((48 + n % 10) as u8)
    }
}

/// Appends the decimal digits of `n`.
pub fn push_decimal(out: &mut Vec<u8>, n: u64)
    ensures
        final(out)@ == old(out)@ + decimal(n as nat),
    decreases n,
{
    if n >= 10 {
        push_decimal(out, n / 10);
    }
    out.push((48 + n % 10) as u8);
    assert(out@ =~= old(out)@ + decimal(n as nat));
}

/// Appends all bytes of `b`.
pub fn push_all(out: &mut Vec<u8>, b: &[u8])
    ensures
        final(out)@ == old(out)@ + b@,
{
    let mut i: usize = 0;
    while i < b.len()
        invariant
            i <= b@.len(),
            out@ == old(out)@ + b@.subrange(0, i as int),
        decreases b@.len() - i,
    {
        out.push(b[i]);
        i += 1;
        assert(out@ =~= old(out)@ + b@.subrange(0, i as int));
    }
    assert(b@.subrange(0, i as int) =~= b@);
}

/// The UIDs written in decimal and joined by commas.
pub open spec fn joined(u: Seq<u32>) -> Seq<u8>
    decreases u.len(),
{
    if u.len() == 0 {
        Seq::empty()
    } else if u.len() == 1 {
        decimal(u[0] as nat)
    } else {
        joined(u.drop_last()) + seq![44u8] + decimal(u.last() as nat)
    }
}

pub fn push_joined(out: &mut Vec<u8>, u: &Vec<u32>)
    ensures
        final(out)@ == old(out)@ + joined(u@),
{
    let mut i: usize = 0;
    while i < u.len()
        invariant
            i <= u@.len(),
            out@ == old(out)@ + joined(u@.subrange(0, i as int)),
        decreases u@.len() - i,
    {
        if i > 0 {
            out.push(44u8);
        }
        push_decimal(out, u[i] as u64);
        i += 1;
        proof {
            let w = u@.subrange(0, i as int);
            assert(w.drop_last() =~= u@.subrange(0, i - 1));
            assert(w.last() == u@[i - 1]);
            assert(out@ =~= old(out)@ + joined(w));
        }
    }
    assert(u@.subrange(0, i as int) =~= u@);
}

/// The bytes of a quoted string: each `"` and `\` escaped by a backslash.
pub open spec fn escaped(b: Seq<u8>) -> Seq<u8>
    decreases b.len(),
{
    if b.len() == 0 {
        Seq::empty()
    } else {
        escaped(b.drop_last()) + if b.last() == DQUOTE || b.last() == BACKSLASH {
            seq![BACKSLASH, b.last()]
        } else {
            seq![b.last()]
        }
    }
}

/// The text as a quoted string.
pub open spec fn quoted_text(s: Seq<char>) -> Seq<u8> {
    seq![DQUOTE] + escaped(encode_utf8(s)) + seq![DQUOTE]
}

pub fn push_quoted(out: &mut Vec<u8>, s: &String)
    ensures
        final(out)@ == old(out)@ + quoted_text(s@),
{
    let b = s.as_str().as_bytes();
    out.push(DQUOTE);
    let mut i: usize = 0;
    while i < b.len()
        invariant
            i <= b@.len(),
            b@ == encode_utf8(s@),
            out@ == old(out)@ + seq![DQUOTE] + escaped(b@.subrange(0, i as int)),
        decreases b@.len() - i,
    {
        if b[i] == DQUOTE || b[i] == BACKSLASH {
            out.push(BACKSLASH);
        }
        out.push(b[i]);
        i += 1;
        proof {
            let w = b@.subrange(0, i as int);
            assert(w.drop_last() =~= b@.subrange(0, i - 1));
            assert(out@ =~= old(out)@ + seq![DQUOTE] + escaped(w));
        }
    }
    assert(b@.subrange(0, i as int) =~= b@);
    out.push(DQUOTE);
    assert(out@ =~= old(out)@ + quoted_text(s@));
}

pub open spec fn criteria_bytes(c: SearchCriteria) -> Seq<u8> {
    match c {
        SearchCriteria::All => kw::w_all(),
    }
}

pub open spec fn items_bytes(i: FetchItems) -> Seq<u8> {
    match i {
        FetchItems::All => kw::w_all(),
        FetchItems::Fast => kw::w_fast(),
        FetchItems::Full => kw::w_full(),
    }
}

/// The wire text of a command, without tag and without the closing CRLF.
pub open spec fn command_text(c: Command) -> Seq<u8> {
    match c {
        Command::Capability => kw::capability(),
        Command::Starttls => kw::w_starttls(),
        Command::Login { username, password } => kw::w_login() + quoted_text(username@) + seq![SP]
            + quoted_text(password@),
        Command::Select { mailbox } => kw::w_select() + encode_utf8(mailbox@),
        Command::List { reference, mailbox } => kw::w_list() + quoted_text(reference@) + seq![SP]
            + quoted_text(mailbox@),
        Command::Search { criteria } => kw::w_search() + criteria_bytes(criteria),
        Command::Fetch { uids, items } => kw::w_fetch() + joined(uids@) + seq![SP] + items_bytes(
            items,
        ),
        Command::UidSearch { criteria } => kw::w_uid_search() + criteria_bytes(criteria),
        Command::UidFetch { uids, items } => kw::w_uid_fetch() + joined(uids@) + seq![SP]
            + items_bytes(items),
        Command::Idle => kw::w_idle(),
        Command::Done => kw::w_done(),
    }
}

impl SearchCriteria {
    pub fn push_to(&self, out: &mut Vec<u8>)
        ensures
            final(out)@ == old(out)@ + criteria_bytes(*self),
    {
        match self {
            SearchCriteria::All => push_all(out, &kw::w_all_bytes()),
        }
    }
}

impl FetchItems {
    pub fn push_to(&self, out: &mut Vec<u8>)
        ensures
            final(out)@ == old(out)@ + items_bytes(*self),
    {
        match self {
            FetchItems::All => push_all(out, &kw::w_all_bytes()),
            FetchItems::Fast => push_all(out, &kw::w_fast_bytes()),
            FetchItems::Full => push_all(out, &kw::w_full_bytes()),
        }
    }
}

impl Command {
    /// Appends the wire text of the command, without tag and without the closing CRLF.
    pub fn push_to(&self, out: &mut Vec<u8>)
        ensures
            final(out)@ == old(out)@ + command_text(*self),
    {
        match self {
            Command::Capability => push_all(out, &kw::capability_bytes()),
            Command::Starttls => push_all(out, &kw::w_starttls_bytes()),
            Command::Login { username, password } => {
                push_all(out, &kw::w_login_bytes());
                push_quoted(out, username);
                out.push(SP);
                push_quoted(out, password);
            },
            Command::Select { mailbox } => {
                push_all(out, &kw::w_select_bytes());
                push_all(out, mailbox.as_str().as_bytes());
            },
            Command::List { reference, mailbox } => {
                push_all(out, &kw::w_list_bytes());
                push_quoted(out, reference);
                out.push(SP);
                push_quoted(out, mailbox);
            },
            Command::Search { criteria } => {
                push_all(out, &kw::w_search_bytes());
                criteria.push_to(out);
            },
            Command::Fetch { uids, items } => {
                push_all(out, &kw::w_fetch_bytes());
                push_joined(out, uids);
                out.push(SP);
                items.push_to(out);
            },
            Command::UidSearch { criteria } => {
                push_all(out, &kw::w_uid_search_bytes());
                criteria.push_to(out);
            },
            Command::UidFetch { uids, items } => {
                push_all(out, &kw::w_uid_fetch_bytes());
                push_joined(out, uids);
                out.push(SP);
                items.push_to(out);
            },
            Command::Idle => push_all(out, &kw::w_idle_bytes()),
            Command::Done => push_all(out, &kw::w_done_bytes()),
        }
        assert(out@ =~= old(out)@ + command_text(*self));
    }

    /// The wire text of the command, without tag and without the closing CRLF.
    pub fn to_bytes(&self) -> (r: Vec<u8>)
        ensures
            r@ == command_text(*self),
    {
        let mut out: Vec<u8> = Vec::new();
        self.push_to(&mut out);
        assert(out@ =~= command_text(*self));
        out
    }
}

} // verus!
