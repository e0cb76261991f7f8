//! The session: what may be done before and after authentication, and how the responses of
//! LIST, SELECT, SEARCH and FETCH become results.
//!
//! A client is first unauthenticated, may be upgraded to TLS with STARTTLS, and becomes
//! authenticated by a successful login. Each state holds the connection's engine; the
//! operations of the authenticated state exist only on it.

use vstd::prelude::*;
use crate::bytes::ascii_chars;
use crate::command::{Command, FetchItems, SearchCriteria};
use crate::engine::{after_execute, tagged_line, Client, ClientModel};
use crate::keywords as kw;
use crate::parser::{cap_of, capability_of};
use crate::response::{
    AttributeValue, CapabilityModel, MailboxData, MailboxDataModel, MailboxFlag, MailboxFlagModel,
    Response, ResponseCode, ResponseCodeModel, ResponseData, ResponseDone, ResponseModel, Status,
};

verus! {

/// Where to connect.
#[derive(Clone, Debug)]
pub struct ClientConfig {
    /// The host name of the server; with TLS it is also the name the certificate must hold.
    pub hostname: String,
    pub port: u16,
    /// Whether TLS is started when connecting, before the greeting.
    pub tls: bool,
}

/// A connected client that has not logged in.
pub struct ClientUnauthenticated {
    pub engine: Client,
    pub encrypted: bool,
}

/// A client that has logged in.
pub struct ClientAuthenticated {
    pub engine: Client,
    pub encrypted: bool,
}

/// Why a client could not move on.
#[derive(Debug)]
pub enum ClientError {
    /// The server's capabilities are not known yet; ask for them first.
    CapabilitiesUnknown,
    /// The server did not advertise the capability that the operation needs.
    CapabilityMissing,
    /// Other commands are in flight, and STARTTLS may only be sent alone.
    CommandsInFlight,
    /// The login was refused with this completion.
    Rejected(ResponseDone),
    /// The connection ended before the command completed.
    NoCompletion,
    /// The SEARCH command gave no result.
    NoSearchResult,
}

/// The capability that STARTTLS needs.
pub open spec fn starttls_capability() -> CapabilityModel {
    cap_of(kw::w_starttls())
}

/// What asking to upgrade an unencrypted connection gives.
pub open spec fn upgrade_decision(e: ClientModel) -> Result<(), ClientError> {
    match e.capabilities {
        None => Err(ClientError::CapabilitiesUnknown),
        Some(c) => if !c.contains(starttls_capability()) {
            Err(ClientError::CapabilityMissing)
        } else if e.in_flight.len() > 0 {
            Err(ClientError::CommandsInFlight)
        } else {
            Ok(())
        },
    }
}

impl ClientUnauthenticated {
    /// A client on a connection that was just opened, with a fresh engine.
    pub fn new(encrypted: bool) -> (r: ClientUnauthenticated)
        ensures
            r.encrypted == encrypted,
            r.engine@.next_tag == 0,
            r.engine@.in_flight.len() == 0,
            r.engine@.greeting is None,
            r.engine@.capabilities is None,
            r.engine.well_formed(),
    {
        ClientUnauthenticated { engine: Client::new(), encrypted }
    }

    /// Starts the upgrade to TLS: nothing to do on an encrypted connection; otherwise the
    /// STARTTLS line to write, where the server advertised STARTTLS and nothing is in flight.
    /// Nothing is written where that is not so.
    pub fn upgrade(&mut self) -> (r: Result<Option<(u64, Vec<u8>)>, ClientError>)
        requires
            old(self).engine.well_formed(),
            old(self).engine@.next_tag < u64::MAX,
        ensures
            old(self).encrypted ==> (r matches Ok(None) && final(self).engine@ == old(self).engine@),
            !old(self).encrypted && upgrade_decision(old(self).engine@) is Err ==> (r is Err
                && final(self).engine@ == old(self).engine@),
            !old(self).encrypted ==> (r matches Err(e) ==> upgrade_decision(old(self).engine@)
                == Err::<(), ClientError>(e)),
            !old(self).encrypted && upgrade_decision(old(self).engine@) is Ok ==> (r matches Ok(
                Some((id, line)),
            ) && id == old(self).engine@.next_tag && line@ == tagged_line(
                id as nat,
                Command::Starttls,
            ) && final(self).engine@ == after_execute(old(self).engine@)),
            final(self).encrypted == old(self).encrypted,
            final(self).engine.well_formed(),
    {
        if self.encrypted {
            return Ok(None);
        }
        let name = kw::w_starttls_bytes();
        proof {
            assert(crate::bytes::all_ascii(name@.subrange(0, 8)));
            assert(name@.subrange(0, 8) =~= kw::w_starttls());
        }
        let cap = capability_of(&name, 0, 8);
        match self.engine.has_capability(&cap) {
            None => Err(ClientError::CapabilitiesUnknown),
            Some(false) => Err(ClientError::CapabilityMissing),
            Some(true) => if self.engine.in_flight().len() > 0 {
                Err(ClientError::CommandsInFlight)
            } else {
                Ok(Some(self.engine.execute(&Command::Starttls)))
            },
        }
    }

    /// The client on the connection once TLS is established: the engine starts again, since
    /// the encrypted connection is a new session for tags and capabilities, and keeps the
    /// greeting.
    pub fn upgraded(self) -> (r: ClientUnauthenticated)
        ensures
            r.encrypted,
            r.engine@.next_tag == 0,
            r.engine@.in_flight.len() == 0,
            r.engine@.capabilities is None,
            r.engine@.greeting == self.engine@.greeting,
            r.engine.well_formed(),
    {
        ClientUnauthenticated { engine: self.engine.renew(), encrypted: true }
    }
}

/// Credentials for a plain login.
#[derive(Clone, Debug)]
pub struct Plain {
    pub username: String,
    pub password: String,
}

impl Plain {
    /// The LOGIN command with these credentials.
    pub fn login_command(&self) -> (r: Command)
        ensures
            (r matches Command::Login { username, password } && username@ == self.username@
                && password@ == self.password@),
    {
        Command::Login { username: self.username.clone(), password: self.password.clone() }
    }

    /// Ends authentication with the completion of the LOGIN command: the client is
    /// authenticated where the status is OK. Capabilities known before may change with the
    /// login, so they are forgotten.
    pub fn perform_auth(client: ClientUnauthenticated, done: Option<ResponseDone>) -> (r: Result<
        ClientAuthenticated,
        ClientError,
    >)
        requires
            client.engine.well_formed(),
        ensures
            done is None ==> r matches Err(ClientError::NoCompletion),
            done matches Some(d) ==> (d.status == Status::OK <==> r is Ok),
            r matches Ok(a) ==> (a.encrypted == client.encrypted && a.engine@ == (ClientModel {
                capabilities: None,
                ..client.engine@
            }) && a.engine.well_formed()),
            r matches Err(ClientError::Rejected(d)) ==> (done matches Some(x) && d.status
                == x.status && d.status != Status::OK),
    {
        match done {
            None => Err(ClientError::NoCompletion),
            Some(d) => if let Status::OK = d.status {
                let mut a = convert_client(client);
                a.engine.forget_capabilities();
                Ok(a)
            } else {
                Err(ClientError::Rejected(d))
            },
        }
    }
}

/// The authenticated client on the same connection.
pub fn convert_client(client: ClientUnauthenticated) -> (r: ClientAuthenticated)
    ensures
        r.engine == client.engine,
        r.encrypted == client.encrypted,
{
    ClientAuthenticated { engine: client.engine, encrypted: client.encrypted }
}

/// What SELECT reports of a mailbox.
#[derive(Debug, PartialEq, Eq)]
pub struct SelectResponse {
    pub flags: Vec<MailboxFlag>,
    pub exists: Option<u32>,
    pub recent: Option<u32>,
    pub uid_next: Option<u32>,
    pub uid_validity: Option<u32>,
    pub unseen: Option<u32>,
}

pub struct SelectModel {
    pub flags: Seq<MailboxFlagModel>,
    pub exists: Option<u32>,
    pub recent: Option<u32>,
    pub uid_next: Option<u32>,
    pub uid_validity: Option<u32>,
    pub unseen: Option<u32>,
}

impl DeepView for SelectResponse {
    type V = SelectModel;

    open spec fn deep_view(&self) -> SelectModel {
        SelectModel {
            flags: self.flags.deep_view(),
            exists: self.exists,
            recent: self.recent,
            uid_next: self.uid_next,
            uid_validity: self.uid_validity,
            unseen: self.unseen,
        }
    }
}

/// What one response of a SELECT adds to what is known of the mailbox: the flags, the
/// message counts, and the codes of untagged OK responses. Later responses win.
pub open spec fn select_step(m: SelectModel, r: ResponseModel) -> SelectModel {
    match r {
        ResponseModel::MailboxData(MailboxDataModel::Flags(f)) => SelectModel { flags: f, ..m },
        ResponseModel::MailboxData(MailboxDataModel::Exists(n)) => SelectModel {
            exists: Some(n),
            ..m
        },
        ResponseModel::MailboxData(MailboxDataModel::Recent(n)) => SelectModel {
            recent: Some(n),
            ..m
        },
        ResponseModel::Data { code: Some(ResponseCodeModel::UidNext(n)), .. } => SelectModel {
            uid_next: Some(n),
            ..m
        },
        ResponseModel::Data { code: Some(ResponseCodeModel::UidValidity(n)), .. } => SelectModel {
            uid_validity: Some(n),
            ..m
        },
        ResponseModel::Data { code: Some(ResponseCodeModel::Unseen(n)), .. } => SelectModel {
            unseen: Some(n),
            ..m
        },
        _ => m,
    }
}

/// What the responses of a SELECT report, in order.
pub open spec fn select_summary(rs: Seq<ResponseModel>) -> SelectModel
    decreases rs.len(),
{
    if rs.len() == 0 {
        SelectModel {
            flags: Seq::empty(),
            exists: None,
            recent: None,
            uid_next: None,
            uid_validity: None,
            unseen: None,
        }
    } else {
        select_step(select_summary(rs.drop_last()), rs.last())
    }
}

/// A copy of a flag.
pub fn copy_flag(f: &MailboxFlag) -> (r: MailboxFlag)
    ensures
        r.deep_view() == f.deep_view(),
{
    match f {
        MailboxFlag::Answered => MailboxFlag::Answered,
        MailboxFlag::Flagged => MailboxFlag::Flagged,
        MailboxFlag::Deleted => MailboxFlag::Deleted,
        MailboxFlag::Seen => MailboxFlag::Seen,
        MailboxFlag::Draft => MailboxFlag::Draft,
        MailboxFlag::Recent => MailboxFlag::Recent,
        MailboxFlag::Ext(s) => MailboxFlag::Ext(s.clone()),
    }
}

/// A copy of a list of flags.
pub fn copy_flags(v: &Vec<MailboxFlag>) -> (r: Vec<MailboxFlag>)
    ensures
        r.deep_view() == v.deep_view(),
{
    let mut r: Vec<MailboxFlag> = Vec::new();
    let mut i: usize = 0;
    while i < v.len()
        invariant
            i <= v@.len(),
            r.deep_view() =~= v.deep_view().subrange(0, i as int),
        decreases v@.len() - i,
    {
        let f = copy_flag(&v[i]);
        let ghost old_r = r.deep_view();
        r.push(f);
        assert(r.deep_view() =~= old_r.push(f.deep_view()));
        i += 1;
    }
    assert(v.deep_view().subrange(0, i as int) =~= v.deep_view());
    r
}

/// A copy of a list of numbers.
pub fn copy_numbers(v: &Vec<u32>) -> (r: Vec<u32>)
    ensures
        r@ == v@,
{
    let mut r: Vec<u32> = Vec::new();
    let mut i: usize = 0;
    while i < v.len()
        invariant
            i <= v@.len(),
            r@ =~= v@.subrange(0, i as int),
        decreases v@.len() - i,
    {
        r.push(v[i]);
        i += 1;
    }
    assert(v@.subrange(0, i as int) =~= v@);
    r
}

proof fn lemma_prefix_last<T>(v: Seq<T>, i: int)
    requires
        0 <= i < v.len(),
    ensures
        v.subrange(0, i + 1).drop_last() =~= v.subrange(0, i),
        v.subrange(0, i + 1).last() == v[i],
{
}

impl ClientAuthenticated {
    /// The LIST command for every mailbox.
    pub fn list_command() -> (r: Command)
        ensures
            (r matches Command::List { reference, mailbox } && reference@ == Seq::<char>::empty()
                && mailbox@ == seq!['*']),
    {
        proof {
            reveal_strlit("*");
        }
        Command::List { reference: String::new(), mailbox: String::from_str("*") }
    }

    /// The SELECT command for a mailbox.
    pub fn select_command(mailbox: &str) -> (r: Command)
        ensures
            (r matches Command::Select { mailbox: m } && m@ == mailbox@),
    {
        Command::Select { mailbox: String::from_str(mailbox) }
    }

    /// The UID SEARCH command for all messages.
    pub fn uid_search_command() -> (r: Command)
        ensures
            r matches Command::UidSearch { criteria: SearchCriteria::All },
    {
        Command::UidSearch { criteria: SearchCriteria::All }
    }

    /// The UID FETCH command for these UIDs, with the ALL items.
    pub fn uid_fetch_command(uids: &Vec<u32>) -> (r: Command)
        ensures
            (r matches Command::UidFetch { uids: u, items: FetchItems::All } && u@ == uids@),
    {
        Command::UidFetch { uids: copy_numbers(uids), items: FetchItems::All }
    }

    /// The names of the mailboxes that the responses of a LIST report, in order.
    pub fn list(responses: &Vec<Response>) -> (r: Vec<String>)
        ensures
            r.deep_view() == folder_names(responses.deep_view()),
    {
        let mut r: Vec<String> = Vec::new();
        let mut i: usize = 0;
        while i < responses.len()
            invariant
                i <= responses@.len(),
                r.deep_view() == folder_names(responses.deep_view().subrange(0, i as int)),
            decreases responses@.len() - i,
        {
            proof {
                lemma_prefix_last(responses.deep_view(), i as int);
            }
            if let Response::MailboxData(MailboxData::List { name, .. }) = &responses[i] {
                let ghost old_r = r.deep_view();
                r.push(name.clone());
                assert(r.deep_view() =~= old_r.push(name@));
            }
            i += 1;
        }
        assert(responses.deep_view().subrange(0, i as int) =~= responses.deep_view());
        r
    }

    /// What the responses of a SELECT report of the mailbox.
    pub fn select(responses: &Vec<Response>) -> (r: SelectResponse)
        ensures
            r.deep_view() == select_summary(responses.deep_view()),
    {
        let mut r = SelectResponse {
            flags: Vec::new(),
            exists: None,
            recent: None,
            uid_next: None,
            uid_validity: None,
            unseen: None,
        };
        assert(r.deep_view() =~= select_summary(Seq::<ResponseModel>::empty())) by {
            assert(r.flags.deep_view() =~= Seq::<MailboxFlagModel>::empty());
        }
        assert(responses.deep_view().subrange(0, 0) =~= Seq::<ResponseModel>::empty());
        let mut i: usize = 0;
        while i < responses.len()
            invariant
                i <= responses@.len(),
                r.deep_view() == select_summary(responses.deep_view().subrange(0, i as int)),
            decreases responses@.len() - i,
        {
            proof {
                lemma_prefix_last(responses.deep_view(), i as int);
            }
            match &responses[i] {
                Response::MailboxData(MailboxData::Flags(f)) => {
                    r.flags = copy_flags(f);
                },
                Response::MailboxData(MailboxData::Exists(n)) => {
                    r.exists = Some(*n);
                },
                Response::MailboxData(MailboxData::Recent(n)) => {
                    r.recent = Some(*n);
                },
                Response::Data(ResponseData { code: Some(ResponseCode::UidNext(n)), .. }) => {
                    r.uid_next = Some(*n);
                },
                Response::Data(ResponseData { code: Some(ResponseCode::UidValidity(n)), .. }) => {
                    r.uid_validity = Some(*n);
                },
                Response::Data(ResponseData { code: Some(ResponseCode::Unseen(n)), .. }) => {
                    r.unseen = Some(*n);
                },
                _ => {},
            }
            i += 1;
        }
        assert(responses.deep_view().subrange(0, i as int) =~= responses.deep_view());
        r
    }

    /// The UIDs of the first SEARCH result among the responses.
    pub fn uid_search(responses: &Vec<Response>) -> (r: Result<Vec<u32>, ClientError>)
        ensures
            r matches Ok(v) ==> first_search(responses.deep_view()) == Some(v@),
            r is Err ==> first_search(responses.deep_view()) is None,
    {
        let mut i: usize = 0;
        assert(responses.deep_view().subrange(0, responses@.len() as int) =~= responses.deep_view());
        while i < responses.len()
            invariant
                i <= responses@.len(),
                first_search(responses.deep_view()) == first_search(
                    responses.deep_view().subrange(i as int, responses@.len() as int),
                ),
            decreases responses@.len() - i,
        {
            let ghost rest = responses.deep_view().subrange(i as int, responses@.len() as int);
            assert(rest.drop_first() =~= responses.deep_view().subrange(
                i + 1,
                responses@.len() as int,
            ));
            if let Response::MailboxData(MailboxData::Search(uids)) = &responses[i] {
                return Ok(copy_numbers(uids));
            }
            i += 1;
        }
        Err(ClientError::NoSearchResult)
    }

    /// The message of a FETCH response: its UID or sequence number and its attributes.
    pub fn uid_fetch(response: Response) -> (r: Option<(u32, Vec<AttributeValue>)>)
        ensures
            r is Some <==> response is Fetch,
            r matches Some((n, a)) ==> response.deep_view() == ResponseModel::Fetch(
                n,
                a.deep_view(),
            ),
    {
        match response {
            Response::Fetch(n, a) => Some((n, a)),
            _ => None,
        }
    }

    /// Starts IDLE: the token that ends it and the line to write.
    pub fn idle(&mut self) -> (r: (crate::engine::IdleToken, Vec<u8>))
        requires
            old(self).engine.well_formed(),
            old(self).engine@.next_tag < u64::MAX,
        ensures
            final(self).engine@ == after_execute(old(self).engine@),
            r.1@ == tagged_line(r.0.id() as nat, Command::Idle),
            final(self).engine.well_formed(),
            final(self).encrypted == old(self).encrypted,
    {
        self.engine.idle()
    }
}

/// The mailbox names of the LIST data among responses, in order.
pub open spec fn folder_names(rs: Seq<ResponseModel>) -> Seq<Seq<char>>
    decreases rs.len(),
{
    if rs.len() == 0 {
        Seq::empty()
    } else {
        match rs.last() {
            ResponseModel::MailboxData(MailboxDataModel::List { name, .. }) => folder_names(
                rs.drop_last(),
            ).push(name),
            _ => folder_names(rs.drop_last()),
        }
    }
}

/// The numbers of the first SEARCH result among responses.
pub open spec fn first_search(rs: Seq<ResponseModel>) -> Option<Seq<u32>>
    decreases rs.len(),
{
    if rs.len() == 0 {
        None
    } else {
        match rs[0] {
            ResponseModel::MailboxData(MailboxDataModel::Search(v)) => Some(v),
            _ => first_search(rs.drop_first()),
        }
    }
}

} // verus!
