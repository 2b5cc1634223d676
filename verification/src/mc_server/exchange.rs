//! Whole status exchanges: what a run of events makes of a state, and the
//! course of an exchange in which nothing goes wrong.

use crate::error::ProtocolErrorView;
use crate::mc_server::protocol::{
    continues, decode_varint, frame, lemma_continuation_run, lemma_continuation_run_bytes,
    lemma_varint_bytes_shape, lemma_varint_round_trip, length_prefix, varint_bytes, wire_bits,
};
use crate::mc_server::{
    handshake_payload, ping_step, response_document, status_request_payload, PingActionView,
    PingEventView, PingStateView, ServerStatusView, TIMEOUT_SECS,
};
use vstd::prelude::*;

verus! {

/// What a run of events makes of a state: the state at the end, and the
/// actions that were asked for on the way, one for each event.
pub open spec fn ping_run(state: PingStateView, events: Seq<PingEventView>) -> (
    PingStateView,
    Seq<PingActionView>,
)
    decreases events.len(),
{
    if events.len() == 0 {
        (state, Seq::empty())
    } else {
        let step = ping_step(state, events[0]);
        let rest = ping_run(step.0, events.drop_first());
        (rest.0, seq![step.1] + rest.1)
    }
}

/// The events of reading bytes one at a time.
pub open spec fn byte_events(bytes: Seq<u8>) -> Seq<PingEventView> {
    Seq::new(bytes.len(), |i: int| PingEventView::Byte(bytes[i]))
}

/// The actions of reading a length of `count` bytes and then a payload of
/// `len` bytes: after each byte but the last, another byte is asked for;
/// after the last, the payload.
pub open spec fn length_actions(count: nat, len: nat) -> Seq<PingActionView> {
    Seq::new(
        count,
        |i: int|
            if i + 1 < count {
                PingActionView::ReadByte
            } else {
                PingActionView::ReadExact(len)
            },
    )
}

/// A run of one event is one step.
pub proof fn lemma_run_one(state: PingStateView, event: PingEventView)
    ensures
        ping_run(state, seq![event]) == (
            ping_step(state, event).0,
            seq![ping_step(state, event).1],
        ),
{
    let events = seq![event];
    assert(events.drop_first() =~= Seq::<PingEventView>::empty());
    assert(ping_run(ping_step(state, event).0, events.drop_first()).1 =~= Seq::<
        PingActionView,
    >::empty());
    assert(seq![ping_step(state, event).1] + Seq::<PingActionView>::empty() =~= seq![
        ping_step(state, event).1,
    ]);
}

/// A run of events one after the other is the run of the first ones,
/// followed from where it ends by the run of the others.
pub proof fn lemma_run_append(
    state: PingStateView,
    first: Seq<PingEventView>,
    second: Seq<PingEventView>,
)
    ensures
        ping_run(state, first + second) == (
            ping_run(ping_run(state, first).0, second).0,
            ping_run(state, first).1 + ping_run(ping_run(state, first).0, second).1,
        ),
    decreases first.len(),
{
    let all = first + second;
    if first.len() == 0 {
        assert(all =~= second);
        assert(Seq::<PingActionView>::empty() + ping_run(state, second).1 =~= ping_run(
            state,
            second,
        ).1);
    } else {
        let step = ping_step(state, first[0]);
        assert(all[0] == first[0]);
        assert(all.drop_first() =~= first.drop_first() + second);
        lemma_run_append(step.0, first.drop_first(), second);
        let head = ping_run(step.0, first.drop_first());
        let tail = ping_run(head.0, second);
        assert(seq![step.1] + (head.1 + tail.1) =~= (seq![step.1] + head.1) + tail.1);
    }
}

/// Reading the length prefix of a payload byte by byte leads to reading
/// the payload: from any point within the prefix, the bytes that remain
/// ask for one more byte each, and the last one for the payload.
pub proof fn lemma_run_length(len: nat, taken: nat)
    requires
        len <= i32::MAX,
        taken < varint_bytes(len).len(),
    ensures
        ping_run(
            PingStateView::ReadingLength { seen: varint_bytes(len).take(taken as int) },
            byte_events(varint_bytes(len).skip(taken as int)),
        ) == (
            PingStateView::ReadingBody { len },
            length_actions((varint_bytes(len).len() - taken) as nat, len),
        ),
    decreases varint_bytes(len).len() - taken,
{
    let prefix = varint_bytes(len);
    let count = prefix.len();
    let seen = prefix.take(taken as int);
    let events = byte_events(prefix.skip(taken as int));
    let state = PingStateView::ReadingLength { seen };
    let value: i32 = len as i32;
    assert(wire_bits(value) == len);
    lemma_varint_bytes_shape(len, Seq::<u8>::empty());
    assert(prefix + Seq::<u8>::empty() =~= prefix);
    lemma_continuation_run_bytes(prefix);
    lemma_varint_round_trip(value, Seq::<u8>::empty());
    assert(events[0] == PingEventView::Byte(prefix[taken as int]));
    let longer = prefix.take(taken as int + 1);
    assert(seen.push(prefix[taken as int]) =~= longer);
    let step = ping_step(state, events[0]);
    let rest = ping_run(step.0, events.drop_first());
    assert(events.len() == count - taken);
    assert(ping_run(state, events) == (rest.0, seq![step.1] + rest.1));
    if taken + 1 < count {
        assert forall|i: int| 0 <= i < longer.len() implies continues(#[trigger] longer[i]) by {
            assert(longer[i] == prefix[i]);
        }
        lemma_continuation_run(longer, longer.len());
        assert(decode_varint(longer) == Err::<(i32, nat), ProtocolErrorView>(
            ProtocolErrorView::UnexpectedEndOfData,
        ));
        assert(step == (PingStateView::ReadingLength { seen: longer }, PingActionView::ReadByte));
        lemma_run_length(len, taken + 1);
        assert(events.drop_first() =~= byte_events(prefix.skip(taken as int + 1)));
        assert(seq![PingActionView::ReadByte] + length_actions((count - taken - 1) as nat, len)
            =~= length_actions((count - taken) as nat, len));
    } else {
        assert(longer =~= prefix);
        assert(decode_varint(longer) == Ok::<(i32, nat), ProtocolErrorView>((value, count)));
        assert(step == (PingStateView::ReadingBody { len }, PingActionView::ReadExact(len)));
        assert(events.drop_first() =~= Seq::<PingEventView>::empty());
        assert(rest == (step.0, Seq::<PingActionView>::empty()));
        assert(seq![PingActionView::ReadExact(len)] + Seq::<PingActionView>::empty()
            =~= length_actions((count - taken) as nat, len));
    }
}

/// The events of an exchange in which nothing goes wrong: the address
/// resolves to an endpoint, the connection opens, its timeouts are set,
/// both packets are sent, the response arrives as it was framed, and its
/// document parses to a status.
pub open spec fn smooth_events(
    host: Seq<char>,
    port: u16,
    response: Seq<u8>,
    status: ServerStatusView,
) -> Seq<PingEventView> {
    seq![
        PingEventView::Endpoint { host, port },
        PingEventView::Done,
        PingEventView::Done,
        PingEventView::Done,
        PingEventView::Done,
    ] + byte_events(length_prefix(response.len())) + seq![
        PingEventView::Bytes(response),
        PingEventView::Status(status),
    ]
}

/// The actions of an exchange in which nothing goes wrong: connect within
/// the bound, bound the reads and writes, send the framed handshake for
/// the endpoint, send the framed status request, read the length of the
/// response byte by byte and then its payload, parse the document in it,
/// and finish.
pub open spec fn smooth_actions(host: Seq<char>, port: u16, response: Seq<u8>) -> Seq<
    PingActionView,
> {
    seq![
        PingActionView::Connect { timeout_secs: TIMEOUT_SECS },
        PingActionView::SetTimeouts { secs: TIMEOUT_SECS },
        PingActionView::Send(frame(handshake_payload(host, port))),
        PingActionView::Send(frame(status_request_payload())),
        PingActionView::ReadByte,
    ] + length_actions(length_prefix(response.len()).len(), response.len()) + seq![
        PingActionView::ParseStatus(response_document(response)->Ok_0),
        PingActionView::Finish,
    ]
}

/// An exchange in which nothing goes wrong ends with the status that the
/// response carries, after exactly the actions of the protocol, for every
/// endpoint, every response whose payload holds a document, and every
/// status that the document parses to.
pub proof fn lemma_smooth_exchange(
    host: Seq<char>,
    port: u16,
    response: Seq<u8>,
    status: ServerStatusView,
)
    requires
        response.len() <= i32::MAX,
        response_document(response) is Ok,
    ensures
        ping_run(PingStateView::Disconnected, smooth_events(host, port, response, status)) == (
            PingStateView::Parsed(status),
            smooth_actions(host, port, response),
        ),
{
    let e0 = PingEventView::Endpoint { host, port };
    let done = PingEventView::Done;
    let s0 = PingStateView::Disconnected;
    let s1 = PingStateView::Resolved { host, port };
    let s2 = PingStateView::Connected { host, port };
    let s3 = PingStateView::HandshakeSent;
    let s4 = PingStateView::RequestSent;
    let s5 = PingStateView::ReadingLength { seen: Seq::empty() };
    let s6 = PingStateView::ReadingBody { len: response.len() };
    let s7 = PingStateView::ResponseRead;
    let opening = seq![e0, done, done, done, done];
    let reading = byte_events(length_prefix(response.len()));
    let closing = seq![PingEventView::Bytes(response), PingEventView::Status(status)];
    let prefix = varint_bytes(response.len());
    assert(length_prefix(response.len()) == prefix);

    // The five steps up to the first read.
    lemma_run_one(s0, e0);
    lemma_run_one(s1, done);
    lemma_run_one(s2, done);
    lemma_run_one(s3, done);
    lemma_run_one(s4, done);
    assert(seq![e0] + seq![done] =~= seq![e0, done]);
    assert(seq![e0, done] + seq![done] =~= seq![e0, done, done]);
    assert(seq![e0, done, done] + seq![done] =~= seq![e0, done, done, done]);
    assert(seq![e0, done, done, done] + seq![done] =~= opening);
    lemma_run_append(s0, seq![e0], seq![done]);
    lemma_run_append(s0, seq![e0, done], seq![done]);
    lemma_run_append(s0, seq![e0, done, done], seq![done]);
    lemma_run_append(s0, seq![e0, done, done, done], seq![done]);
    let opened = ping_run(s0, opening);
    assert(opened.0 == s5);
    assert(opened.1 =~= seq![
        PingActionView::Connect { timeout_secs: TIMEOUT_SECS },
        PingActionView::SetTimeouts { secs: TIMEOUT_SECS },
        PingActionView::Send(frame(handshake_payload(host, port))),
        PingActionView::Send(frame(status_request_payload())),
        PingActionView::ReadByte,
    ]);

    // The length of the response, byte by byte.
    lemma_varint_bytes_shape(response.len(), Seq::<u8>::empty());
    lemma_run_length(response.len(), 0);
    assert(prefix.take(0) =~= Seq::<u8>::empty());
    assert(prefix.skip(0) =~= prefix);
    let read = ping_run(s5, reading);
    assert(read.0 == s6);

    // The payload and the status.
    lemma_run_one(s6, PingEventView::Bytes(response));
    lemma_run_one(s7, PingEventView::Status(status));
    lemma_run_append(s6, seq![PingEventView::Bytes(response)], seq![PingEventView::Status(status)]);
    assert(seq![PingEventView::Bytes(response)] + seq![PingEventView::Status(status)]
        =~= closing);
    let closed = ping_run(s6, closing);
    assert(closed.0 == PingStateView::Parsed(status));
    assert(closed.1 =~= seq![
        PingActionView::ParseStatus(response_document(response)->Ok_0),
        PingActionView::Finish,
    ]);

    lemma_run_append(s0, opening, reading);
    lemma_run_append(s0, opening + reading, closing);
}

} // verus!
