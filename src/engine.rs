//! The connection engine: the decisions of a connection, apart from its I/O.
//!
//! The engine numbers commands with tags, keeps the commands in flight in the order they were
//! written, holds the server's greeting and the capabilities it last advertised, and decides
//! for each response which command it belongs to. Whoever owns the socket writes the bytes
//! that [`Client::execute`] returns and hands the bytes it reads to [`Client::receive`].
//! IMAP servers answer commands in the order they were sent, so the oldest command in flight
//! owns every response until its completion arrives.

use vstd::prelude::*;
use vstd::string::StringSliceAdditionalSpecFns;
use crate::command::{command_text, decimal, push_decimal, Command};
use crate::keywords as kw;
use crate::lexer::{CR, LF, SP};
use crate::parser::{
    cap_of, is_capability, parse_capability, parse_streamed_response, spec_parse_streamed,
    ParseError,
};
use crate::response::{
    Capability, CapabilityModel, Response, ResponseCode, ResponseCodeModel, ResponseData,
    ResponseDone, ResponseModel, Status,
};

verus! {

/// The connection engine: the state of one connection, apart from its socket.
pub struct Client {
    next_tag: u64,
    in_flight: Vec<u64>,
    capabilities: Option<Vec<Capability>>,
    greeting: Option<Response>,
    closed: bool,
}

pub struct ClientModel {
    /// The number of the next tag.
    pub next_tag: nat,
    /// The tag numbers of the commands written and not yet completed, oldest first.
    pub in_flight: Seq<u64>,
    /// The capabilities last advertised, where any were.
    pub capabilities: Option<Seq<CapabilityModel>>,
    /// The first response of the connection.
    pub greeting: Option<ResponseModel>,
    /// Whether the server said BYE.
    pub closed: bool,
}

impl View for Client {
    type V = ClientModel;

    closed spec fn view(&self) -> ClientModel {
        ClientModel {
            next_tag: self.next_tag as nat,
            in_flight: self.in_flight@,
            capabilities: self.capabilities.deep_view(),
            greeting: self.greeting.deep_view(),
            closed: self.closed,
        }
    }
}

/// Where a response went.
#[derive(Debug)]
pub enum Delivery {
    /// It completed the command with this tag number, which is no longer in flight.
    Completed(u64, ResponseDone),
    /// It belongs to the command with this tag number, which is still in flight.
    Intermediate(u64, Response),
    /// No command was in flight.
    Unsolicited(Response),
    /// The server said BYE; the connection is over.
    Closed(Response),
}

pub enum DeliveryModel {
    Completed(u64, ResponseModel),
    Intermediate(u64, ResponseModel),
    Unsolicited(ResponseModel),
    Closed(ResponseModel),
}

impl DeepView for Delivery {
    type V = DeliveryModel;

    open spec fn deep_view(&self) -> DeliveryModel {
        match self {
            Delivery::Completed(id, d) => DeliveryModel::Completed(
                *id,
                Response::Done(*d).deep_view(),
            ),
            Delivery::Intermediate(id, r) => DeliveryModel::Intermediate(*id, r.deep_view()),
            Delivery::Unsolicited(r) => DeliveryModel::Unsolicited(r.deep_view()),
            Delivery::Closed(r) => DeliveryModel::Closed(r.deep_view()),
        }
    }
}

/// Tag numbers in flight increase from the oldest to the newest and are all below the next.
pub open spec fn well_formed(e: ClientModel) -> bool {
    &&& forall|i: int, j: int|
        0 <= i < j < e.in_flight.len() ==> #[trigger] e.in_flight[i] < #[trigger] e.in_flight[j]
    &&& forall|i: int| 0 <= i < e.in_flight.len() ==> #[trigger] e.in_flight[i] < e.next_tag
}

/// The line that a command is written as: the tag prefix, the tag number, a space, the
/// command, CRLF.
pub open spec fn tagged_line(id: nat, c: Command) -> Seq<u8> {
    kw::tag_prefix() + decimal(id) + seq![SP] + command_text(c) + seq![CR, LF]
}

/// The state after writing a command: the tag number is taken and the command is in flight.
pub open spec fn after_execute(e: ClientModel) -> ClientModel {
    ClientModel {
        next_tag: e.next_tag + 1,
        in_flight: e.in_flight.push(e.next_tag as u64),
        ..e
    }
}

/// The capabilities that a response advertises: a capability list, or a status response
/// with a CAPABILITY code.
pub open spec fn caps_in(r: ResponseModel) -> Option<Seq<CapabilityModel>> {
    match r {
        ResponseModel::Capabilities(c) => Some(c),
        ResponseModel::Data { code: Some(ResponseCodeModel::Capabilities(c)), .. } => Some(c),
        ResponseModel::Done { code: Some(ResponseCodeModel::Capabilities(c)), .. } => Some(c),
        _ => None,
    }
}

pub open spec fn is_bye(r: ResponseModel) -> bool {
    r matches ResponseModel::Data { status: Status::Bye, .. }
}

pub open spec fn is_done(r: ResponseModel) -> bool {
    r is Done
}

/// What receiving a response records: the first response of the connection is held as the
/// greeting, and any capabilities a response advertises replace those held.
pub open spec fn received(e: ClientModel, r: ResponseModel) -> ClientModel {
    ClientModel {
        greeting: if e.greeting is None {
            Some(r)
        } else {
            e.greeting
        },
        capabilities: if caps_in(r) is Some {
            caps_in(r)
        } else {
            e.capabilities
        },
        ..e
    }
}

/// Where a response goes: BYE closes; with no command in flight it belongs to none; a
/// completion ends the oldest command in flight; any other response belongs to that command.
pub open spec fn dispatched(e: ClientModel, r: ResponseModel) -> (ClientModel, DeliveryModel) {
    if is_bye(r) {
        (ClientModel { closed: true, ..e }, DeliveryModel::Closed(r))
    } else if e.in_flight.len() == 0 {
        (e, DeliveryModel::Unsolicited(r))
    } else if is_done(r) {
        (
            ClientModel { in_flight: e.in_flight.drop_first(), ..e },
            DeliveryModel::Completed(e.in_flight[0], r),
        )
    } else {
        (e, DeliveryModel::Intermediate(e.in_flight[0], r))
    }
}

/// What receiving a response does.
pub open spec fn route(e: ClientModel, r: ResponseModel) -> (ClientModel, DeliveryModel) {
    dispatched(received(e, r), r)
}

/// What asking for capabilities does: where none are held or `force` is set, a CAPABILITY
/// command is written; otherwise nothing happens. The flag says whether a command was written.
pub open spec fn capability_request(e: ClientModel, force: bool) -> (ClientModel, bool) {
    if force || e.capabilities is None {
        (after_execute(e), true)
    } else {
        (e, false)
    }
}

/// The line that ends an IDLE command.
pub open spec fn done_line() -> Seq<u8> {
    command_text(Command::Done) + seq![CR, LF]
}

/// A running IDLE command. Releasing it gives the line that ends the command; it can be
/// released once.
pub struct IdleToken {
    id: u64,
}

impl IdleToken {
    pub closed spec fn id(&self) -> u64 {
        self.id
    }

    /// The tag number of the IDLE command.
    pub fn tag(&self) -> (r: u64)
        ensures
            r == self.id(),
    {
        self.id
    }

    /// Ends the IDLE command: gives the `DONE` line to write.
    pub fn release(self) -> (r: Vec<u8>)
        ensures
            r@ == done_line(),
    {
        let mut out = Command::Done.to_bytes();
        out.push(CR);
        out.push(LF);
        assert(out@ =~= done_line());
        out
    }
}

/// A copy of a capability.
pub fn copy_capability(c: &Capability) -> (r: Capability)
    ensures
        r.deep_view() == c.deep_view(),
{
    match c {
        Capability::Imap4rev1 => Capability::Imap4rev1,
        Capability::Auth(s) => Capability::Auth(s.clone()),
        Capability::Atom(s) => Capability::Atom(s.clone()),
    }
}

/// A copy of a list of capabilities.
pub fn copy_capabilities(v: &Vec<Capability>) -> (r: Vec<Capability>)
    ensures
        r.deep_view() == v.deep_view(),
{
    let mut r: Vec<Capability> = Vec::new();
    let mut i: usize = 0;
    while i < v.len()
        invariant
            i <= v@.len(),
            r.deep_view() =~= v.deep_view().subrange(0, i as int),
        decreases v@.len() - i,
    {
        let c = copy_capability(&v[i]);
        let ghost old_r = r.deep_view();
        r.push(c);
        assert(r.deep_view() =~= old_r.push(c.deep_view()));
        i += 1;
    }
    assert(v.deep_view().subrange(0, i as int) =~= v.deep_view());
    r
}

/// The capabilities that a response advertises, copied.
pub fn capabilities_in(r: &Response) -> (c: Option<Vec<Capability>>)
    ensures
        c.deep_view() == caps_in(r.deep_view()),
{
    match r {
        Response::Capabilities(c) => Some(copy_capabilities(c)),
        Response::Data(ResponseData { code: Some(ResponseCode::Capabilities(c)), .. }) => Some(
            copy_capabilities(c),
        ),
        Response::Done(ResponseDone { code: Some(ResponseCode::Capabilities(c)), .. }) => Some(
            copy_capabilities(c),
        ),
        _ => None,
    }
}

/// Whether two capabilities are the same.
pub fn same_capability(a: &Capability, b: &Capability) -> (r: bool)
    ensures
        r == (a.deep_view() == b.deep_view()),
{
    match (a, b) {
        (Capability::Imap4rev1, Capability::Imap4rev1) => true,
        (Capability::Auth(x), Capability::Auth(y)) => x.eq(y),
        (Capability::Atom(x), Capability::Atom(y)) => x.eq(y),
        _ => false,
    }
}

impl Client {
    pub closed spec fn well_formed(&self) -> bool {
        well_formed(self@)
    }

    /// A new engine: the first tag is 0, nothing is in flight or held.
    pub fn new() -> (r: Client)
        ensures
            r@.next_tag == 0,
            r@.in_flight == Seq::<u64>::empty(),
            r@.capabilities is None,
            r@.greeting is None,
            !r@.closed,
            r.well_formed(),
    {
        let r = Client {
            next_tag: 0,
            in_flight: Vec::new(),
            capabilities: None,
            greeting: None,
            closed: false,
        };
        assert(r.in_flight@ =~= Seq::<u64>::empty());
        r
    }

    /// The engine of the same connection once TLS is started on it: tags start again at 0,
    /// nothing is in flight and no capabilities are held. The greeting is kept, since a server
    /// sends none after STARTTLS.
    pub fn renew(self) -> (r: Client)
        ensures
            r@ == (ClientModel {
                next_tag: 0,
                in_flight: Seq::<u64>::empty(),
                capabilities: None,
                greeting: self@.greeting,
                closed: false,
            }),
            r.well_formed(),
    {
        let r = Client {
            next_tag: 0,
            in_flight: Vec::new(),
            capabilities: None,
            greeting: self.greeting,
            closed: false,
        };
        assert(r.in_flight@ =~= Seq::<u64>::empty());
        r
    }

    /// Takes the next tag for `cmd`, puts the command in flight behind the others, and gives
    /// its tag number and the line to write and flush.
    pub fn execute(&mut self, cmd: &Command) -> (r: (u64, Vec<u8>))
        requires
            old(self).well_formed(),
            old(self)@.next_tag < u64::MAX,
        ensures
            final(self)@ == after_execute(old(self)@),
            r.0 == old(self)@.next_tag,
            r.1@ == tagged_line(r.0 as nat, *cmd),
            final(self).well_formed(),
    {
        let id = self.next_tag;
        let mut line: Vec<u8> = Vec::new();
        crate::command::push_all(&mut line, &kw::tag_prefix_bytes());
        push_decimal(&mut line, id);
        line.push(SP);
        cmd.push_to(&mut line);
        line.push(CR);
        line.push(LF);
        self.next_tag = id + 1;
        self.in_flight.push(id);
        assert(line@ =~= tagged_line(id as nat, *cmd));
        assert(self@ == after_execute(old(self)@)) by {
            assert(self@.in_flight =~= old(self)@.in_flight.push(id));
        }
        (id, line)
    }

    /// Takes back the newest command, whose line could not be written, so that it is not left
    /// waiting for a completion that will never come.
    pub fn abandon(&mut self, id: u64)
        requires
            old(self).well_formed(),
            old(self)@.in_flight.len() > 0,
            old(self)@.in_flight.last() == id,
        ensures
            final(self)@ == (ClientModel { in_flight: old(self)@.in_flight.drop_last(), ..old(self)@ }),
            final(self).well_formed(),
    {
        self.in_flight.pop();
        assert(self@.in_flight =~= old(self)@.in_flight.drop_last());
    }

    /// Routes one parsed response, once the greeting is held.
    pub fn on_response(&mut self, resp: Response) -> (d: Delivery)
        requires
            old(self).well_formed(),
            old(self)@.greeting is Some,
        ensures
            (final(self)@, d.deep_view()) == route(old(self)@, resp.deep_view()),
            final(self).well_formed(),
    {
        self.record_capabilities(&resp);
        self.dispatch(resp)
    }

    /// Reads the response at the front of `buf` and routes it: gives where it went and how
    /// many bytes it took. Where `buf` holds only part of a response, or its front can never
    /// be one, nothing changes and that is the error.
    pub fn receive(&mut self, buf: &[u8]) -> (r: Result<(Delivery, usize), ParseError>)
        requires
            old(self).well_formed(),
        ensures
            spec_parse_streamed(buf@) matches Ok((m, n)) ==> (r matches Ok((d, k)) && k == n
                && (final(self)@, d.deep_view()) == route(old(self)@, m)),
            spec_parse_streamed(buf@) matches Err(e) ==> (r matches Err(x) && x == e
                && final(self)@ == old(self)@),
            final(self).well_formed(),
    {
        let (resp, n) = match parse_streamed_response(buf) {
            Ok(x) => x,
            Err(e) => return Err(e),
        };
        if self.greeting.is_none() {
            self.hold_greeting(buf);
        }
        self.record_capabilities(&resp);
        Ok((self.dispatch(resp), n))
    }

    /// Holds the response at the front of `buf` as the greeting. The parser gives the same
    /// response for the same bytes, so the one held is the one that is then routed.
    fn hold_greeting(&mut self, buf: &[u8])
        requires
            old(self).well_formed(),
            spec_parse_streamed(buf@) is Ok,
        ensures
            final(self)@ == (ClientModel {
                greeting: Some(spec_parse_streamed(buf@)->Ok_0.0),
                ..old(self)@
            }),
            final(self).well_formed(),
    {
        if let Ok((copy, _)) = parse_streamed_response(buf) {
            self.greeting = Some(copy);
        }
    }

    fn record_capabilities(&mut self, resp: &Response)
        requires
            old(self).well_formed(),
        ensures
            final(self)@ == (ClientModel {
                capabilities: if caps_in(resp.deep_view()) is Some {
                    caps_in(resp.deep_view())
                } else {
                    old(self)@.capabilities
                },
                ..old(self)@
            }),
            final(self).well_formed(),
    {
        if let Some(c) = capabilities_in(resp) {
            self.capabilities = Some(c);
        }
    }

    fn dispatch(&mut self, resp: Response) -> (d: Delivery)
        requires
            old(self).well_formed(),
        ensures
            (final(self)@, d.deep_view()) == dispatched(old(self)@, resp.deep_view()),
            final(self).well_formed(),
    {
        if let Response::Data(ResponseData { status: Status::Bye, .. }) = &resp {
            self.closed = true;
            return Delivery::Closed(resp);
        }
        if self.in_flight.len() == 0 {
            return Delivery::Unsolicited(resp);
        }
        let id = self.in_flight[0];
        match resp {
            Response::Done(d) => {
                self.in_flight.remove(0);
                assert(self.in_flight@ =~= old(self)@.in_flight.drop_first());
                Delivery::Completed(id, d)
            },
            other => Delivery::Intermediate(id, other),
        }
    }

    /// The number of the next tag. A command can be written while it is below `u64::MAX`.
    pub fn next_tag(&self) -> (r: u64)
        ensures
            r == self@.next_tag,
    {
        self.next_tag
    }

    /// The greeting latch: the greeting once it has arrived, and nothing before; every caller
    /// sees the same one, at once. Callers waiting for the greeting wait until it is there.
    pub fn wait_for_greeting(&self) -> (r: Option<&Response>)
        ensures
            r.deep_view() == self@.greeting,
    {
        match &self.greeting {
            Some(g) => Some(g),
            None => None,
        }
    }

    /// The tag numbers of the commands in flight, oldest first.
    pub fn in_flight(&self) -> (r: &Vec<u64>)
        ensures
            r@ == self@.in_flight,
    {
        &self.in_flight
    }

    /// Whether the server said BYE.
    pub fn is_closed(&self) -> (r: bool)
        ensures
            r == self@.closed,
    {
        self.closed
    }

    /// Asks for the capabilities where none are held or `force` is set: gives the tag number
    /// and line of a CAPABILITY command then, and nothing otherwise.
    pub fn capabilities(&mut self, force: bool) -> (r: Option<(u64, Vec<u8>)>)
        requires
            old(self).well_formed(),
            force || old(self)@.capabilities is None ==> old(self)@.next_tag < u64::MAX,
        ensures
            final(self)@ == capability_request(old(self)@, force).0,
            r is Some == capability_request(old(self)@, force).1,
            r matches Some((id, line)) ==> id == old(self)@.next_tag && line@ == tagged_line(
                id as nat,
                Command::Capability,
            ),
            final(self).well_formed(),
    {
        if force || self.capabilities.is_none() {
            Some(self.execute(&Command::Capability))
        } else {
            None
        }
    }

    /// Starts an IDLE command: gives the token that ends it and the line to write.
    pub fn idle(&mut self) -> (r: (IdleToken, Vec<u8>))
        requires
            old(self).well_formed(),
            old(self)@.next_tag < u64::MAX,
        ensures
            final(self)@ == after_execute(old(self)@),
            r.0.id() == old(self)@.next_tag,
            r.1@ == tagged_line(r.0.id() as nat, Command::Idle),
            final(self).well_formed(),
    {
        let (id, line) = self.execute(&Command::Idle);
        (IdleToken { id }, line)
    }

    /// Forgets the capabilities held, after a command that may change them.
    pub fn forget_capabilities(&mut self)
        requires
            old(self).well_formed(),
        ensures
            final(self)@ == (ClientModel { capabilities: None, ..old(self)@ }),
            final(self).well_formed(),
    {
        self.capabilities = None;
    }

    /// Whether the server advertised `cap`; nothing where no capabilities are held.
    pub fn has_capability(&self, cap: &Capability) -> (r: Option<bool>)
        ensures
            r matches Some(b) ==> (self@.capabilities matches Some(c) && b == c.contains(
                cap.deep_view(),
            )),
            r is None <==> self@.capabilities is None,
    {
        match &self.capabilities {
            None => None,
            Some(v) => {
                let mut i: usize = 0;
                while i < v.len()
                    invariant
                        i <= v@.len(),
                        self@.capabilities == Some(v.deep_view()),
                        forall|k: int| 0 <= k < i ==> v.deep_view()[k] != cap.deep_view(),
                    decreases v@.len() - i,
                {
                    if same_capability(&v[i], cap) {
                        assert(v.deep_view()[i as int] == cap.deep_view());
                        assert(self@.capabilities == Some(v.deep_view()));
                        assert(v.deep_view().contains(cap.deep_view()));
                        return Some(true);
                    }
                    i += 1;
                }
                assert(self@.capabilities == Some(v.deep_view()));
                Some(false)
            },
        }
    }

    /// Whether the server advertised the capability with this name, read as the server
    /// writes it (so `starttls` and `STARTTLS` are the same); nothing where no capabilities
    /// are held. A name that is no capability is an error.
    pub fn has_capability_named(&self, name: &str) -> (r: Result<Option<bool>, ParseError>)
        ensures
            r is Err <==> !is_capability(name.spec_bytes()),
            r matches Ok(Some(b)) ==> (self@.capabilities matches Some(c) && b == c.contains(
                cap_of(name.spec_bytes()),
            )),
            r matches Ok(None) ==> self@.capabilities is None,
    {
        match parse_capability(name) {
            Ok(c) => Ok(self.has_capability(&c)),
            Err(e) => Err(e),
        }
    }
}

} // verus!
