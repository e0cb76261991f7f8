//! Properties that hold of the parser and the engine over all inputs.

use vstd::prelude::*;
use crate::command::decimal;
use crate::framing::{may_begin, spec_frame, FramingModel};
use crate::parser::spec_parse_streamed;
use crate::engine::{
    after_execute, capability_request, done_line, is_bye, is_done, route, well_formed,
    DeliveryModel, ClientModel,
};
use crate::lexer::{
    digits_value, in_class, lemma_run_end, run_end, spec_literal, CR, CharClass, LBRACE, LF, RBRACE,
};
use crate::response::ResponseModel;

verus! {

/// Bytes written as a literal: `{n}`, CRLF, and the `n` bytes.
pub open spec fn literal_encoding(b: Seq<u8>) -> Seq<u8> {
    seq![LBRACE] + decimal(b.len()) + seq![RBRACE, CR, LF] + b
}

proof fn lemma_decimal(n: nat)
    ensures
        decimal(n).len() >= 1,
        forall|i: int| 0 <= i < decimal(n).len() ==> in_class(CharClass::Digit, #[trigger] decimal(n)[i]),
        digits_value(decimal(n)) == n,
    decreases n,
{
    if n < 10 {
        let d = decimal(n);
        assert(d.drop_last() =~= Seq::<u8>::empty());
        assert(d.last() == (48 + n) as u8);
        assert(((48 + n) as u8) as int == 48 + n);
        assert(digits_value(d) == digits_value(d.drop_last()) * 10 + (d.last() - 48) as nat);
    } else {
        lemma_decimal(n / 10);
        let d = decimal(n);
        assert(d.drop_last() =~= decimal(n / 10));
        assert(d.last() == (48 + n % 10) as u8);
        assert(((48 + n % 10) as u8) as int == 48 + n % 10);
        assert(digits_value(d) == digits_value(d.drop_last()) * 10 + (d.last() - 48) as nat);
        assert((n / 10) * 10 + n % 10 == n);
    }
}

proof fn lemma_run_end_at(s: Seq<u8>, p: int, e: int, c: CharClass)
    requires
        0 <= p <= e <= s.len(),
        forall|i: int| p <= i < e ==> in_class(c, #[trigger] s[i]),
        e == s.len() || !in_class(c, s[e]),
    ensures
        run_end(s, p, c) == e,
    decreases e - p,
{
    if p < e {
        lemma_run_end_at(s, p + 1, e, c);
    }
}

/// Writing any bytes as a literal and reading the literal back gives exactly those bytes, and
/// the literal ends where its bytes end, whatever the bytes hold (CR, LF and NUL included),
/// for every length that a buffer in memory can have.
pub proof fn literal_round_trip(b: Seq<u8>)
    requires
        b.len() <= usize::MAX,
    ensures
        spec_literal(literal_encoding(b), 0) == Some((b, literal_encoding(b).len() as int)),
{
    let s = literal_encoding(b);
    let d = decimal(b.len());
    lemma_decimal(b.len());
    let q: int = 1 + d.len() as int;
    assert(s.subrange(1, q) =~= d);
    assert forall|i: int| 1 <= i < q implies in_class(CharClass::Digit, #[trigger] s[i]) by {
        assert(s[i] == d[i - 1]);
    }
    assert(s[q] == RBRACE);
    lemma_run_end_at(s, 1, q, CharClass::Digit);
    assert(s[q + 1] == CR);
    assert(s[q + 2] == LF);
    assert(s.subrange(q + 3, q + 3 + b.len() as int) =~= b);
}

proof fn lemma_frame_complete(s: Seq<u8>, p: int)
    requires
        0 <= p,
    ensures
        spec_frame(s, p) matches FramingModel::Complete(n) ==> p + 2 <= n <= s.len() && s[n
            - 2] == CR && s[n - 1] == LF,
    decreases s.len() - p,
{
    if p < s.len() {
        if s[p] == CR {
            if p + 1 < s.len() && s[p + 1] != LF {
                lemma_frame_complete(s, p + 1);
            }
        } else if s[p] == LBRACE {
            let e = run_end(s, p + 1, CharClass::Digit);
            lemma_run_end(s, p + 1, CharClass::Digit);
            if e + 2 < s.len() && s[e] == RBRACE && s[e + 1] == CR && s[e + 2] == LF && e > p + 1 {
                let v = digits_value(s.subrange(p + 1, e));
                if e + 3 + v <= s.len() {
                    lemma_frame_complete(s, e + 3 + v);
                }
            }
            lemma_frame_complete(s, p + 1);
        } else if s[p] != 0 {
            lemma_frame_complete(s, p + 1);
        }
    }
}

proof fn lemma_frame_prefix(s: Seq<u8>, p: int, n: int)
    requires
        0 <= p,
        spec_frame(s, p) == FramingModel::Complete(n),
    ensures
        spec_frame(s.subrange(0, n), p) == FramingModel::Complete(n),
    decreases s.len() - p,
{
    lemma_frame_complete(s, p);
    let t = s.subrange(0, n);
    assert(t.len() == n);
    if s[p] == CR {
        if s[p + 1] != LF {
            lemma_frame_complete(s, p + 1);
            lemma_frame_prefix(s, p + 1, n);
        }
    } else if s[p] == LBRACE {
        let e = run_end(s, p + 1, CharClass::Digit);
        lemma_run_end(s, p + 1, CharClass::Digit);
        lemma_frame_complete(s, p + 1);
        if e <= p + 1 || s[e] != RBRACE || s[e + 1] != CR || s[e + 2] != LF {
            if p + 1 + 2 <= n {
                assert(!in_class(CharClass::Digit, s[n - 2]));
                assert(e <= n - 2);
                assert forall|i: int| p + 1 <= i < e implies in_class(CharClass::Digit, #[trigger] t[i]) by {
                    assert(t[i] == s[i]);
                }
                lemma_run_end_at(t, p + 1, e, CharClass::Digit);
            }
            lemma_frame_prefix(s, p + 1, n);
        } else {
            let v = digits_value(s.subrange(p + 1, e));
            lemma_frame_complete(s, e + 3 + v);
            assert forall|i: int| p + 1 <= i < e implies in_class(CharClass::Digit, #[trigger] t[i]) by {
                assert(t[i] == s[i]);
            }
            lemma_run_end_at(t, p + 1, e, CharClass::Digit);
            assert(t.subrange(p + 1, e) =~= s.subrange(p + 1, e));
            lemma_frame_prefix(s, e + 3 + v, n);
        }
    } else {
        lemma_frame_complete(s, p + 1);
        lemma_frame_prefix(s, p + 1, n);
    }
}

/// The bytes that a streamed parse takes are a response on their own: parsing just them gives
/// the same response, and the bytes after them play no part in it.
pub proof fn streamed_prefix(s: Seq<u8>)
    requires
        spec_parse_streamed(s) is Ok,
    ensures
        spec_parse_streamed(s.subrange(0, spec_parse_streamed(s)->Ok_0.1)) == spec_parse_streamed(s),
{
    let n = spec_parse_streamed(s)->Ok_0.1;
    let t = s.subrange(0, n);
    lemma_frame_complete(s, 0);
    lemma_frame_prefix(s, 0, n);
    assert(may_begin(t) == may_begin(s)) by {
        if n >= 2 {
            assert(t[0] == s[0] && t[1] == s[1]);
        }
    }
    assert(t.subrange(0, n) =~= s.subrange(0, n));
}

/// The state after `k` commands are written.
pub open spec fn after_executes(e: ClientModel, k: nat) -> ClientModel
    decreases k,
{
    if k == 0 {
        e
    } else {
        after_execute(after_executes(e, (k - 1) as nat))
    }
}

proof fn lemma_after_executes(e: ClientModel, k: nat)
    ensures
        after_executes(e, k).next_tag == e.next_tag + k,
    decreases k,
{
    if k > 0 {
        lemma_after_executes(e, (k - 1) as nat);
    }
}

/// The command written `i`-th on an engine (counting from 0) takes tag number
/// `next_tag + i`: tags strictly increase and never repeat, and on a new engine, whose next
/// tag is 0, they count 0, 1, 2, and so on.
pub proof fn tags_increase(e: ClientModel, i: nat, j: nat)
    requires
        i < j,
    ensures
        after_executes(e, i).next_tag == e.next_tag + i,
        after_executes(e, i).next_tag < after_executes(e, j).next_tag,
{
    lemma_after_executes(e, i);
    lemma_after_executes(e, j);
}

/// The deliveries of responses received in order.
pub open spec fn deliveries(e: ClientModel, rs: Seq<ResponseModel>) -> (ClientModel, Seq<DeliveryModel>)
    decreases rs.len(),
{
    if rs.len() == 0 {
        (e, Seq::empty())
    } else {
        let (e1, ds) = deliveries(e, rs.drop_last());
        let (e2, d) = route(e1, rs.last());
        (e2, ds.push(d))
    }
}

proof fn lemma_deliveries_push(e: ClientModel, rs: Seq<ResponseModel>, r: ResponseModel)
    ensures
        deliveries(e, rs.push(r)) == (
            route(deliveries(e, rs).0, r).0,
            deliveries(e, rs).1.push(route(deliveries(e, rs).0, r).1),
        ),
{
    assert(rs.push(r).drop_last() =~= rs);
}

/// Two commands A and B written in that order on an engine with none in flight, answered by
/// data for A, A's completion, data for B and B's completion: A receives exactly its data and
/// its completion, and then B exactly its own, and nothing stays in flight.
pub proof fn fifo_routing(
    e: ClientModel,
    a_data: ResponseModel,
    a_done: ResponseModel,
    b_data: ResponseModel,
    b_done: ResponseModel,
)
    requires
        well_formed(e),
        e.in_flight.len() == 0,
        e.greeting is Some,
        !is_done(a_data) && !is_bye(a_data),
        is_done(a_done),
        !is_done(b_data) && !is_bye(b_data),
        is_done(b_done),
    ensures
        ({
            let a = e.next_tag as u64;
            let b = (e.next_tag + 1) as u64;
            let (fin, ds) = deliveries(
                after_execute(after_execute(e)),
                seq![a_data, a_done, b_data, b_done],
            );
            &&& ds == seq![
                DeliveryModel::Intermediate(a, a_data),
                DeliveryModel::Completed(a, a_done),
                DeliveryModel::Intermediate(b, b_data),
                DeliveryModel::Completed(b, b_done),
            ]
            &&& fin.in_flight.len() == 0
        }),
{
    let a = e.next_tag as u64;
    let b = (e.next_tag + 1) as u64;
    let e2 = after_execute(after_execute(e));
    assert(e2.in_flight =~= seq![a, b]);
    let rs = seq![a_data, a_done, b_data, b_done];
    assert(rs.drop_last().drop_last().drop_last().drop_last() =~= Seq::<ResponseModel>::empty());
    assert(rs.drop_last().drop_last().drop_last() =~= seq![a_data]);
    assert(rs.drop_last().drop_last() =~= seq![a_data, a_done]);
    assert(rs.drop_last() =~= seq![a_data, a_done, b_data]);
    let (e3, d1) = route(e2, a_data);
    assert(e3.in_flight == e2.in_flight);
    let (e4, d2) = route(e3, a_done);
    assert(e4.in_flight =~= seq![b]);
    let (e5, d3) = route(e4, b_data);
    let (e6, d4) = route(e5, b_done);
    assert(e6.in_flight =~= Seq::<u64>::empty());
    let empty = Seq::<ResponseModel>::empty();
    lemma_deliveries_push(e2, empty, a_data);
    assert(empty.push(a_data) =~= seq![a_data]);
    assert(Seq::<DeliveryModel>::empty().push(d1) =~= seq![d1]);
    lemma_deliveries_push(e2, seq![a_data], a_done);
    assert(seq![a_data].push(a_done) =~= seq![a_data, a_done]);
    assert(seq![d1].push(d2) =~= seq![d1, d2]);
    lemma_deliveries_push(e2, seq![a_data, a_done], b_data);
    assert(seq![a_data, a_done].push(b_data) =~= seq![a_data, a_done, b_data]);
    assert(seq![d1, d2].push(d3) =~= seq![d1, d2, d3]);
    lemma_deliveries_push(e2, seq![a_data, a_done, b_data], b_done);
    assert(seq![a_data, a_done, b_data].push(b_done) =~= rs);
    assert(seq![d1, d2, d3].push(d4) =~= seq![d1, d2, d3, d4]);
}

/// Asking for capabilities without force while some are held writes nothing and changes
/// nothing, so asking twice writes nothing the second time either; asking with force always
/// writes one command.
pub proof fn capability_cache(e: ClientModel)
    ensures
        e.capabilities is Some ==> capability_request(e, false) == (e, false)
            && capability_request(capability_request(e, false).0, false) == (e, false),
        capability_request(e, true) == (after_execute(e), true),
{
}

/// The state after responses received in order.
pub open spec fn after_responses(e: ClientModel, rs: Seq<ResponseModel>) -> ClientModel {
    deliveries(e, rs).0
}

/// The first response of a connection is its greeting, and no later response changes it:
/// whoever asks for the greeting, before or after any number of later responses, sees the same.
pub proof fn greeting_latch(e: ClientModel, first: ResponseModel, rest: Seq<ResponseModel>)
    requires
        e.greeting is None,
    ensures
        after_responses(e, seq![first] + rest).greeting == Some(first),
    decreases rest.len(),
{
    if rest.len() == 0 {
        assert(seq![first] + rest =~= Seq::<ResponseModel>::empty().push(first));
        lemma_deliveries_push(e, Seq::<ResponseModel>::empty(), first);
    } else {
        greeting_latch(e, first, rest.drop_last());
        assert(seq![first] + rest =~= (seq![first] + rest.drop_last()).push(rest.last()));
        lemma_deliveries_push(e, seq![first] + rest.drop_last(), rest.last());
    }
}

/// Releasing an IDLE token writes exactly the one line `DONE` CRLF.
pub proof fn idle_release_sends_done()
    ensures
        done_line() == seq!['D' as u8, 'O' as u8, 'N' as u8, 'E' as u8, CR, LF],
{
    assert(done_line() =~= seq!['D' as u8, 'O' as u8, 'N' as u8, 'E' as u8, CR, LF]);
}

} // verus!
