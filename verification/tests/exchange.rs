use unishare::transport::{
    encode_frame, request_id, route, FrameBuffer, IdCounter, Message, PendingReplies,
    ReplyToken, Route,
};

/// One side of a connection, without the network: outgoing frames are
/// collected as bytes, incoming bytes are framed and routed.
struct Endpoint {
    ids: IdCounter,
    pending: PendingReplies<&'static str>,
    inbound: FrameBuffer,
    incoming: Vec<Message>,
    replies: Vec<(&'static str, Vec<u8>)>,
}

impl Endpoint {
    fn new() -> Self {
        Endpoint {
            ids: IdCounter::new(),
            pending: PendingReplies::new(),
            inbound: FrameBuffer::new(),
            incoming: Vec::new(),
            replies: Vec::new(),
        }
    }

    fn send(&mut self, data: &[u8]) -> Vec<u8> {
        let id = self.ids.next_id();
        encode_frame(&Message { id, data: data.to_vec() })
    }

    fn request(&mut self, handler: &'static str) -> ReplyToken<i64> {
        let id = request_id(self.ids.next_id());
        self.pending.register(id, handler);
        ReplyToken::new(id)
    }

    fn reply(&mut self, token: &ReplyToken<i64>, data: &[u8]) -> Vec<u8> {
        encode_frame(&Message { id: token.reply_id(), data: data.to_vec() })
    }

    fn receive(&mut self, bytes: &[u8]) {
        self.inbound.push(bytes);
        while let Some(m) = self.inbound.next_frame() {
            match route(m.id) {
                Route::Incoming => self.incoming.push(m),
                Route::Reply => {
                    if let Some(h) = self.pending.take(m.id) {
                        self.replies.push((h, m.data));
                    }
                }
            }
        }
    }
}

#[test]
fn messages_cross_in_both_directions() {
    let mut a = Endpoint::new();
    let mut b = Endpoint::new();
    let hi = a.send(b"ASaidHi");
    b.receive(&hi);
    let yo = b.send(b"BSaidYo");
    a.receive(&yo);
    let bye = a.send(b"ASaidBye");
    b.receive(&bye[..5]);
    b.receive(&bye[5..]);
    let got: Vec<&[u8]> = b.incoming.iter().map(|m| m.data.as_slice()).collect();
    assert_eq!(got, vec![&b"ASaidHi"[..], &b"ASaidBye"[..]]);
    assert_eq!(a.incoming.len(), 1);
    assert_eq!(a.incoming[0].data, b"BSaidYo".to_vec());
}

#[test]
fn a_reply_reaches_the_request_that_made_the_token() {
    let mut a = Endpoint::new();
    let mut b = Endpoint::new();
    let hi = a.send(b"ASaidHi");
    b.receive(&hi);
    let token = b.request("query");
    let query = b.send(&token.reply_id().to_be_bytes());
    a.receive(&query);
    let reply = a.reply(&token, &17i64.to_be_bytes());
    b.receive(&reply);
    assert_eq!(b.replies, vec![("query", 17i64.to_be_bytes().to_vec())]);
    // the same reply again finds nobody waiting
    b.receive(&reply);
    assert_eq!(b.replies.len(), 1);
    assert_eq!(b.incoming.len(), 1);
    let bye = a.send(b"ASaidBye");
    b.receive(&bye);
    assert_eq!(b.incoming.len(), 2);
    assert_eq!(b.incoming[1].data, b"ASaidBye".to_vec());
}
