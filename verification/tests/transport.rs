use unishare::transport::{
    encode_frame, request_id, route, FrameBuffer, IdCounter, Message, PendingReplies,
    ReplyToken, Route, HEADER_LEN,
};

fn message(id: i64, data: &[u8]) -> Message {
    Message { id, data: data.to_vec() }
}

#[test]
fn frame_layout_is_length_id_payload() {
    let bytes = encode_frame(&message(3, b"abc"));
    assert_eq!(
        bytes,
        vec![0, 0, 0, 0, 0, 0, 0, 3, 0, 0, 0, 0, 0, 0, 0, 3, b'a', b'b', b'c']
    );
    assert_eq!(HEADER_LEN, 16);
}

#[test]
fn negative_id_is_twos_complement() {
    let bytes = encode_frame(&message(-1, b""));
    assert_eq!(bytes.len(), 16);
    assert_eq!(&bytes[..8], &[0u8; 8]);
    assert_eq!(&bytes[8..], &[0xffu8; 8]);
}

#[test]
fn frame_roundtrip_through_buffer() {
    let mut buf = FrameBuffer::new();
    buf.push(&encode_frame(&message(42, b"hello")));
    let m = buf.next_frame().expect("a complete frame");
    assert_eq!(m.id, 42);
    assert_eq!(m.data, b"hello".to_vec());
    assert!(buf.next_frame().is_none());
}

#[test]
fn partial_frame_waits_for_the_rest() {
    let bytes = encode_frame(&message(7, b"payload"));
    let mut buf = FrameBuffer::new();
    for (i, b) in bytes.iter().enumerate() {
        assert!(buf.next_frame().is_none(), "frame taken after {} bytes", i);
        buf.push(&[*b]);
    }
    let m = buf.next_frame().expect("frame complete");
    assert_eq!(m.id, 7);
    assert_eq!(m.data, b"payload".to_vec());
}

#[test]
fn frames_arrive_in_order_across_chunks() {
    let mut all = Vec::new();
    all.extend(encode_frame(&message(1, b"first")));
    all.extend(encode_frame(&message(-5, b"")));
    all.extend(encode_frame(&message(2, b"second message")));
    let mut buf = FrameBuffer::new();
    let mut got = Vec::new();
    for chunk in all.chunks(5) {
        buf.push(chunk);
        while let Some(m) = buf.next_frame() {
            got.push((m.id, m.data));
        }
    }
    assert_eq!(
        got,
        vec![
            (1, b"first".to_vec()),
            (-5, Vec::new()),
            (2, b"second message".to_vec())
        ]
    );
}

#[test]
fn huge_length_never_completes() {
    let mut buf = FrameBuffer::new();
    let mut bytes = vec![0xffu8; 8];
    bytes.extend_from_slice(&1i64.to_be_bytes());
    bytes.extend_from_slice(b"xyz");
    buf.push(&bytes);
    assert!(buf.next_frame().is_none());
}

#[test]
fn counter_starts_at_one_and_counts_up() {
    let mut c = IdCounter::new();
    assert_eq!(c.next_id(), 1);
    assert_eq!(c.next_id(), 2);
    assert_eq!(c.next_id(), 3);
}

#[test]
fn request_ids_are_negated() {
    assert_eq!(request_id(5), -5);
    assert_eq!(request_id(1), -1);
    assert_eq!(request_id(i64::MIN), i64::MIN);
}

#[test]
fn routing_by_sign() {
    assert_eq!(route(1), Route::Incoming);
    assert_eq!(route(17), Route::Incoming);
    assert_eq!(route(0), Route::Reply);
    assert_eq!(route(-3), Route::Reply);
}

#[test]
fn reply_reaches_its_handler_once() {
    let mut pending: PendingReplies<&str> = PendingReplies::new();
    pending.register(-1, "first");
    pending.register(-2, "second");
    assert_eq!(pending.take(-2), Some("second"));
    assert_eq!(pending.take(-2), None);
    assert_eq!(pending.take(-9), None);
    assert_eq!(pending.take(-1), Some("first"));
}

#[test]
fn reply_token_carries_its_id() {
    let t: ReplyToken<i64> = ReplyToken::new(-17);
    assert_eq!(t.reply_id(), -17);
}
