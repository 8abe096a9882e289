//! The wire protocol of a connection: each message is a frame of an
//! eight-byte big-endian payload length, an eight-byte big-endian message id
//! and the payload. Positive ids mark messages, non-positive ids mark replies
//! to a request that handed out that id.

use crate::bytes::{
    lemma_u64_be_value_roundtrip, push_u64_be, read_u64_be, u64_from_be, u64_to_be,
};
use std::collections::HashMap;
use std::marker::PhantomData;
use vstd::prelude::*;

verus! {

broadcast use vstd::std_specs::hash::group_hash_axioms;

/// The number of header bytes that precede the payload of a frame.
pub const HEADER_LEN: usize = 16;

/// One message on the wire: its id and its serialized payload.
pub struct Message {
    pub id: i64,
    pub data: Vec<u8>,
}

/// What a message is, as far as the protocol is concerned.
pub struct MessageView {
    pub id: i64,
    pub data: Seq<u8>,
}

impl View for Message {
    type V = MessageView;

    open spec fn view(&self) -> MessageView {
        MessageView { id: self.id, data: self.data@ }
    }
}

/// The bytes that carry `m` on the wire.
pub open spec fn frame_bytes(m: MessageView) -> Seq<u8> {
    u64_to_be(m.data.len() as u64) + u64_to_be(m.id as u64) + m.data
}

/// The frame at the front of `buf`, if all of it has arrived: the message and
/// the number of bytes that it takes up.
pub open spec fn parse_frame(buf: Seq<u8>) -> Option<(MessageView, int)> {
    if buf.len() < HEADER_LEN {
        None
    } else {
        let len = u64_from_be(buf.subrange(0, 8));
        if buf.len() - HEADER_LEN < len {
            None
        } else {
            Some(
                (
                    MessageView {
                        id: u64_from_be(buf.subrange(8, 16)) as i64,
                        data: buf.subrange(16, 16 + len),
                    },
                    16 + len,
                ),
            )
        }
    }
}

/// The messages that the complete frames at the front of `buf` carry, in
/// order, and the bytes that are left over after them.
pub open spec fn drain_frames(buf: Seq<u8>) -> (Seq<MessageView>, Seq<u8>)
    decreases buf.len(),
{
    match parse_frame(buf) {
        None => (Seq::empty(), buf),
        Some((m, n)) => {
            if 0 < n <= buf.len() {
                let (ms, rest) = drain_frames(buf.subrange(n, buf.len() as int));
                (seq![m] + ms, rest)
            } else {
                (Seq::empty(), buf)
            }
        },
    }
}

/// The bytes of the frames of `ms`, one after the other.
pub open spec fn frames_bytes(ms: Seq<MessageView>) -> Seq<u8>
    decreases ms.len(),
{
    if ms.len() == 0 {
        Seq::empty()
    } else {
        frame_bytes(ms[0]) + frames_bytes(ms.subrange(1, ms.len() as int))
    }
}

/// A message can be framed when its payload length fits the length field.
pub open spec fn frameable(m: MessageView) -> bool {
    m.data.len() <= u64::MAX
}

proof fn lemma_i64_u64_roundtrip(id: i64)
    ensures
        (id as u64) as i64 == id,
{
    assert((id as u64) as i64 == id) by (bit_vector);
}

/// A frame parses back to the message that it was made from, whatever
/// follows it.
pub proof fn lemma_frame_roundtrip(m: MessageView, rest: Seq<u8>)
    requires
        frameable(m),
    ensures
        parse_frame(frame_bytes(m) + rest) == Some((m, frame_bytes(m).len() as int)),
        frame_bytes(m).len() == HEADER_LEN + m.data.len(),
{
    let buf = frame_bytes(m) + rest;
    let len_bytes = u64_to_be(m.data.len() as u64);
    let id_bytes = u64_to_be(m.id as u64);
    lemma_u64_be_value_roundtrip(m.data.len() as u64);
    lemma_u64_be_value_roundtrip(m.id as u64);
    lemma_i64_u64_roundtrip(m.id);
    assert(buf.subrange(0, 8) =~= len_bytes);
    assert(buf.subrange(8, 16) =~= id_bytes);
    assert(buf.subrange(16, 16 + m.data.len() as int) =~= m.data);
}

/// A frame is not taken before its last byte has arrived: no strict prefix
/// of a frame parses.
pub proof fn lemma_partial_frame_waits(m: MessageView, k: int)
    requires
        frameable(m),
        0 <= k < frame_bytes(m).len(),
    ensures
        parse_frame(frame_bytes(m).subrange(0, k)) is None,
{
    let buf = frame_bytes(m).subrange(0, k);
    lemma_u64_be_value_roundtrip(m.data.len() as u64);
    if buf.len() >= HEADER_LEN {
        assert(buf.subrange(0, 8) =~= u64_to_be(m.data.len() as u64));
    }
}

/// A complete frame at the front of a buffer stays the same frame whatever
/// arrives after it.
pub proof fn lemma_parse_frame_extend(a: Seq<u8>, b: Seq<u8>)
    requires
        parse_frame(a) is Some,
    ensures
        parse_frame(a + b) == parse_frame(a),
{
    assert((a + b).subrange(0, 8) =~= a.subrange(0, 8));
    assert((a + b).subrange(8, 16) =~= a.subrange(8, 16));
    let len = u64_from_be(a.subrange(0, 8));
    assert((a + b).subrange(16, 16 + len) =~= a.subrange(16, 16 + len));
}

/// How bytes are cut into chunks does not change what is delivered: the
/// messages of `a + b` are those of `a` followed by those of what `a` left
/// over joined with `b`, and the bytes left at the end are the same.
pub proof fn lemma_drain_append(a: Seq<u8>, b: Seq<u8>)
    ensures
        drain_frames(a + b).0 == drain_frames(a).0 + drain_frames(drain_frames(a).1 + b).0,
        drain_frames(a + b).1 == drain_frames(drain_frames(a).1 + b).1,
    decreases a.len(),
{
    match parse_frame(a) {
        None => {
            assert(drain_frames(a).1 == a);
            assert(drain_frames(a).0 =~= Seq::<MessageView>::empty());
            assert(drain_frames(a).0 + drain_frames(a + b).0 =~= drain_frames(a + b).0);
        },
        Some((m, n)) => {
            lemma_parse_frame_extend(a, b);
            let a2 = a.subrange(n, a.len() as int);
            assert((a + b).subrange(n, (a + b).len() as int) =~= a2 + b);
            lemma_drain_append(a2, b);
            assert(drain_frames(a + b).0 =~= seq![m] + drain_frames(a2 + b).0);
            assert(drain_frames(a).0 =~= seq![m] + drain_frames(a2).0);
            assert(drain_frames(a).1 == drain_frames(a2).1);
            assert(drain_frames(a + b).0 =~= drain_frames(a).0 + drain_frames(
                drain_frames(a).1 + b,
            ).0);
        },
    }
}

/// Frames sent one after another are received as the same messages in the
/// same order, with nothing left over.
pub proof fn lemma_drain_frames_bytes(ms: Seq<MessageView>)
    requires
        forall|i: int| 0 <= i < ms.len() ==> frameable(#[trigger] ms[i]),
    ensures
        drain_frames(frames_bytes(ms)) == (ms, Seq::<u8>::empty()),
    decreases ms.len(),
{
    if ms.len() == 0 {
        assert(parse_frame(Seq::<u8>::empty()) is None);
    } else {
        let tail = ms.subrange(1, ms.len() as int);
        assert forall|i: int| 0 <= i < tail.len() implies frameable(#[trigger] tail[i]) by {
            assert(tail[i] == ms[i + 1]);
        }
        lemma_drain_frames_bytes(tail);
        let f = frame_bytes(ms[0]);
        let rest = frames_bytes(tail);
        lemma_frame_roundtrip(ms[0], rest);
        let buf = frames_bytes(ms);
        assert(buf == f + rest);
        assert(parse_frame(buf) == Some((ms[0], f.len() as int)));
        assert(buf.subrange(f.len() as int, buf.len() as int) =~= rest);
        assert(drain_frames(buf).0 == seq![ms[0]] + drain_frames(rest).0);
        assert(drain_frames(buf).1 == drain_frames(rest).1);
        assert(seq![ms[0]] + tail =~= ms);
    }
}

/// The bytes that carry `m` on the wire.
pub fn encode_frame(m: &Message) -> (out: Vec<u8>)
    ensures
        out@ == frame_bytes(m@),
{
    let mut out: Vec<u8> = Vec::new();
    push_u64_be(&mut out, m.data.len() as u64);
    push_u64_be(&mut out, m.id as u64);
    out.extend_from_slice(m.data.as_slice());
    assert(out@ =~= frame_bytes(m@));
    out
}

/// Bytes received on a connection that do not yet form a complete frame.
pub struct FrameBuffer {
    inbound: Vec<u8>,
}

impl View for FrameBuffer {
    type V = Seq<u8>;

    closed spec fn view(&self) -> Seq<u8> {
        self.inbound@
    }
}

impl FrameBuffer {
    /// A buffer that holds nothing yet.
    pub fn new() -> (b: Self)
        ensures
            b@ == Seq::<u8>::empty(),
    {
        FrameBuffer { inbound: Vec::new() }
    }

    /// Appends bytes as they arrive.
    pub fn push(&mut self, data: &[u8])
        ensures
            final(self)@ == old(self)@ + data@,
    {
        self.inbound.extend_from_slice(data);
        assert(self.inbound@ =~= old(self)@ + data@);
    }

    /// Takes the frame at the front of the buffer once all of it has arrived.
    pub fn next_frame(&mut self) -> (r: Option<Message>)
        ensures
            match parse_frame(old(self)@) {
                None => r is None && final(self)@ == old(self)@,
                Some((m, n)) => {
                    &&& r matches Some(msg) && msg@ == m
                    &&& final(self)@ == old(self)@.subrange(n, old(self)@.len() as int)
                },
            },
    {
        let total = self.inbound.len();
        if total < HEADER_LEN {
            return None;
        }
        let len = read_u64_be(self.inbound.as_slice(), 0);
        let id = read_u64_be(self.inbound.as_slice(), 8) as i64;
        if ((total - HEADER_LEN) as u64) < len {
            return None;
        }
        let end = HEADER_LEN + len as usize;
        let ghost before = self.inbound@;
        let rest = self.inbound.split_off(end);
        let data = self.inbound.split_off(HEADER_LEN);
        self.inbound = rest;
        assert(data@ =~= before.subrange(16, 16 + len));
        Some(Message { id, data })
    }
}

/// A counter that hands out message ids, starting at one.
pub struct IdCounter {
    current: i64,
}

impl View for IdCounter {
    type V = i64;

    closed spec fn view(&self) -> i64 {
        self.current
    }
}

impl IdCounter {
    /// A counter whose first id is one.
    pub fn new() -> (c: Self)
        ensures
            c@ == 1,
    {
        IdCounter { current: 1 }
    }

    /// Hands out the current id and moves on to the next one; the counter
    /// wraps around at the end of the range of `i64`.
    pub fn next_id(&mut self) -> (id: i64)
        ensures
            id == old(self)@,
            final(self)@ == old(self)@.wrapping_add(1),
    {
        let id = self.current;
        self.current = self.current.wrapping_add(1);
        id
    }
}

/// The negation of `n`, which wraps around at the end of the range of `i64`
/// (the negation of `i64::MIN` is itself).
pub open spec fn wrapping_negation(n: i64) -> i64 {
    if n == i64::MIN {
        n
    } else {
        -n as i64
    }
}

/// The id of a request made with sequence number `n`: its negation, so that
/// the reply can be told apart from ordinary messages.
pub fn request_id(n: i64) -> (id: i64)
    ensures
        id == wrapping_negation(n),
        n != i64::MIN ==> id + n == 0,
        n == i64::MIN ==> id == n,
{
    if n == i64::MIN {
        n
    } else {
        -n
    }
}

/// Request ids are the negations of their sequence numbers: a positive
/// sequence number gives a negative id of the same size, and negating twice
/// gives the number back.
pub proof fn lemma_request_id_negates(n: i64)
    ensures
        n != i64::MIN ==> wrapping_negation(n) + n == 0,
        n >= 1 ==> wrapping_negation(n) < 0,
        wrapping_negation(wrapping_negation(n)) == n,
{
}

/// Distinct sequence numbers give distinct request ids, so two requests that
/// wait at the same time never share an id.
pub proof fn lemma_request_ids_distinct(n: i64, m: i64)
    requires
        n != m,
    ensures
        wrapping_negation(n) != wrapping_negation(m),
{
    lemma_request_id_negates(n);
    lemma_request_id_negates(m);
}

/// Where a received message goes.
#[derive(Clone, Copy, Debug, PartialEq, Eq, Structural)]
pub enum Route {
    /// An ordinary message, for the receiver of the connection.
    Incoming,
    /// A reply, for whoever made the request with that id.
    Reply,
}

/// Where a received message with id `id` goes: positive ids are ordinary
/// messages, all others are replies.
pub open spec fn route_of(id: i64) -> Route {
    if id > 0 {
        Route::Incoming
    } else {
        Route::Reply
    }
}

/// Where a received message with id `id` goes.
pub fn route(id: i64) -> (r: Route)
    ensures
        r == route_of(id),
        r == Route::Incoming <==> id > 0,
        r == Route::Reply <==> id <= 0,
{
    if id > 0 {
        Route::Incoming
    } else {
        Route::Reply
    }
}

/// Ids handed out by a counter are routed as ordinary messages, and the
/// request ids made from them as replies, as long as the counter has not
/// wrapped around.
pub proof fn lemma_ids_route_apart(n: i64)
    requires
        n >= 1,
    ensures
        route_of(n) == Route::Incoming,
        route_of(wrapping_negation(n)) == Route::Reply,
{
}

/// The token that travels with a request and names the reply that answers it.
pub struct ReplyToken<T> {
    id: i64,
    _phantom: PhantomData<T>,
}

impl<T> ReplyToken<T> {
    /// The token for the request with id `id`.
    pub fn new(id: i64) -> (t: Self)
        ensures
            t.id() == id,
    {
        ReplyToken { id, _phantom: PhantomData }
    }

    /// The id that the reply must carry.
    pub closed spec fn id(&self) -> i64 {
        self.id
    }

    /// The id that the reply must carry.
    pub fn reply_id(&self) -> (id: i64)
        ensures
            id == self.id(),
    {
        self.id
    }
}

/// The handlers of the requests that still wait for their reply, by id.
pub struct PendingReplies<V> {
    map: HashMap<i64, V>,
}

/// The pending handlers after the reply with id `id` has arrived, and the
/// handler that takes it, if any.
pub open spec fn take_reply<V>(m: Map<i64, V>, id: i64) -> (Map<i64, V>, Option<V>) {
    if m.contains_key(id) {
        (m.remove(id), Some(m[id]))
    } else {
        (m, None)
    }
}

impl<V> View for PendingReplies<V> {
    type V = Map<i64, V>;

    closed spec fn view(&self) -> Map<i64, V> {
        self.map@
    }
}

impl<V> PendingReplies<V> {
    /// No request waits.
    pub fn new() -> (p: Self)
        ensures
            p@ == Map::<i64, V>::empty(),
    {
        PendingReplies { map: HashMap::new() }
    }

    /// Records the handler of the request with id `id`.
    pub fn register(&mut self, id: i64, handler: V)
        ensures
            final(self)@ == old(self)@.insert(id, handler),
    {
        self.map.insert(id, handler);
    }

    /// Hands out the handler for a reply with id `id`, which then no longer
    /// waits; a reply that nobody waits for is dropped.
    pub fn take(&mut self, id: i64) -> (r: Option<V>)
        ensures
            (final(self)@, r) == take_reply(old(self)@, id),
    {
        let r = self.map.remove(&id);
        proof {
            if old(self)@.contains_key(id) {
                assert(self.map@ == old(self)@.remove(id));
            }
        }
        r
    }
}

/// A reply reaches the handler that was registered for its id.
pub proof fn lemma_reply_reaches_handler<V>(m: Map<i64, V>, id: i64, handler: V)
    ensures
        take_reply(m.insert(id, handler), id).1 == Some(handler),
        take_reply(m.insert(id, handler), id).0 == m.remove(id),
{
    assert(m.insert(id, handler).remove(id) =~= m.remove(id));
}

/// A reply is handed out at most once: a second reply with the same id
/// finds nobody waiting.
pub proof fn lemma_reply_taken_once<V>(m: Map<i64, V>, id: i64)
    ensures
        take_reply(take_reply(m, id).0, id).1 is None,
{
}

/// Replies to other requests leave a registered handler waiting.
pub proof fn lemma_other_reply_keeps_handler<V>(m: Map<i64, V>, id: i64, other: i64)
    requires
        m.contains_key(id),
        other != id,
    ensures
        take_reply(m, other).0.contains_key(id),
        take_reply(m, other).0[id] == m[id],
{
}

} // verus!
