use bytes::BytesMut;
use remote_agent::protocol::{Message, TERMINAL_DATA};

#[test]
fn encode_into_appends_the_encoding() {
    let msg = Message::session(TERMINAL_DATA, 3, 1, b"xyz".to_vec());
    let mut buf = BytesMut::new();
    buf.extend_from_slice(b"head");
    msg.encode_into(&mut buf);
    let mut expected = b"head".to_vec();
    expected.extend_from_slice(&msg.encode());
    assert_eq!(&buf[..], &expected[..]);
    msg.encode_into(&mut buf);
    assert_eq!(buf.len(), 4 + 2 * 12);
}
