use simple_lib::msg::{ClientMessage, DecodeError, ServerResponse, TcpMessage};

fn text_field(text: &str) -> Vec<u8> {
    let mut out = (text.len() as u64).to_le_bytes().to_vec();
    out.extend_from_slice(text.as_bytes());
    out
}

#[test]
fn user_name_is_tag_zero_then_length_then_text() {
    let bytes = ClientMessage::UserName("alice".to_string()).encode();
    assert_eq!(
        bytes,
        vec![0, 0, 0, 0, 5, 0, 0, 0, 0, 0, 0, 0, b'a', b'l', b'i', b'c', b'e']
    );
}

#[test]
fn chat_message_is_tag_one_then_length_then_text() {
    let bytes = ClientMessage::Message("hi".to_string()).encode();
    assert_eq!(bytes, vec![1, 0, 0, 0, 2, 0, 0, 0, 0, 0, 0, 0, b'h', b'i']);
}

#[test]
fn username_accepted_is_the_bare_tag() {
    assert_eq!(ServerResponse::UsernameAccepted.encode(), vec![0, 0, 0, 0]);
}

#[test]
fn username_rejected_carries_its_reason() {
    let bytes = ServerResponse::UsernameRejected { reason: "name taken".to_string() }.encode();
    let mut expected = vec![1, 0, 0, 0];
    expected.extend(text_field("name taken"));
    assert_eq!(bytes, expected);
}

#[test]
fn broadcast_carries_name_then_text() {
    let bytes = ServerResponse::Broadcast {
        username: "alice".to_string(),
        message: "hi".to_string(),
    }
    .encode();
    let mut expected = vec![2, 0, 0, 0];
    expected.extend(text_field("alice"));
    expected.extend(text_field("hi"));
    assert_eq!(bytes, expected);
}

#[test]
fn length_counts_bytes_not_characters() {
    let bytes = ClientMessage::Message("né".to_string()).encode();
    assert_eq!(bytes, vec![1, 0, 0, 0, 3, 0, 0, 0, 0, 0, 0, 0, b'n', 0xc3, 0xa9]);
}

#[test]
fn long_text_uses_the_higher_length_bytes() {
    let text = "x".repeat(70_000);
    let bytes = ClientMessage::Message(text.clone()).encode();
    assert_eq!(bytes.len(), 4 + 8 + 70_000);
    assert_eq!(&bytes[4..12], &[0x70, 0x11, 0x01, 0, 0, 0, 0, 0]);
    assert_eq!(ClientMessage::decode(&bytes), Ok(ClientMessage::Message(text)));
}

#[test]
fn every_client_frame_decodes_to_itself() {
    let frames = vec![
        ClientMessage::UserName("alice".to_string()),
        ClientMessage::UserName(String::new()),
        ClientMessage::Message("hello, world".to_string()),
        ClientMessage::Message("grüße 🌍".to_string()),
    ];
    for frame in frames {
        assert_eq!(ClientMessage::decode(&frame.encode()), Ok(frame));
    }
}

#[test]
fn every_server_frame_decodes_to_itself() {
    let frames = vec![
        ServerResponse::UsernameAccepted,
        ServerResponse::UsernameRejected { reason: "name taken".to_string() },
        ServerResponse::UsernameRejected { reason: String::new() },
        ServerResponse::Broadcast { username: "alice".to_string(), message: "hi".to_string() },
        ServerResponse::Broadcast { username: String::new(), message: "日本語".to_string() },
    ];
    for frame in frames {
        assert_eq!(ServerResponse::decode(&frame.encode()), Ok(frame));
    }
}

#[test]
fn bytes_after_a_frame_are_ignored() {
    let mut bytes = ClientMessage::Message("hi".to_string()).encode();
    bytes.push(b'\n');
    bytes.extend_from_slice(&[1, 2, 3]);
    assert_eq!(ClientMessage::decode(&bytes), Ok(ClientMessage::Message("hi".to_string())));

    let mut bytes = ServerResponse::UsernameAccepted.encode();
    bytes.extend_from_slice(&[9, 9]);
    assert_eq!(ServerResponse::decode(&bytes), Ok(ServerResponse::UsernameAccepted));
}

#[test]
fn no_bytes_are_truncated() {
    assert_eq!(ClientMessage::decode(&[]), Err(DecodeError::Truncated));
    assert_eq!(ServerResponse::decode(&[]), Err(DecodeError::Truncated));
}

#[test]
fn a_short_tag_is_truncated() {
    assert_eq!(ClientMessage::decode(&[0, 0, 0]), Err(DecodeError::Truncated));
    assert_eq!(ServerResponse::decode(&[2, 0, 0]), Err(DecodeError::Truncated));
}

#[test]
fn a_tag_without_a_variant_is_unknown() {
    assert_eq!(ClientMessage::decode(&[2, 0, 0, 0]), Err(DecodeError::UnknownVariant));
    assert_eq!(ClientMessage::decode(&[0, 1, 0, 0]), Err(DecodeError::UnknownVariant));
    assert_eq!(ServerResponse::decode(&[3, 0, 0, 0]), Err(DecodeError::UnknownVariant));
    assert_eq!(
        ServerResponse::decode(&[0xff, 0xff, 0xff, 0xff, 0, 0]),
        Err(DecodeError::UnknownVariant)
    );
}

#[test]
fn a_short_length_is_truncated() {
    assert_eq!(ClientMessage::decode(&[0, 0, 0, 0]), Err(DecodeError::Truncated));
    assert_eq!(
        ClientMessage::decode(&[1, 0, 0, 0, 2, 0, 0, 0, 0, 0, 0]),
        Err(DecodeError::Truncated)
    );
}

#[test]
fn a_short_text_is_truncated() {
    assert_eq!(
        ClientMessage::decode(&[1, 0, 0, 0, 3, 0, 0, 0, 0, 0, 0, 0, b'h', b'i']),
        Err(DecodeError::Truncated)
    );
}

#[test]
fn a_length_beyond_any_buffer_is_truncated() {
    let mut bytes = vec![0, 0, 0, 0];
    bytes.extend_from_slice(&[0xff; 8]);
    bytes.extend_from_slice(b"alice");
    assert_eq!(ClientMessage::decode(&bytes), Err(DecodeError::Truncated));
}

#[test]
fn text_that_is_not_utf8_is_refused() {
    assert_eq!(
        ClientMessage::decode(&[0, 0, 0, 0, 2, 0, 0, 0, 0, 0, 0, 0, 0xc3, 0x28]),
        Err(DecodeError::InvalidUtf8)
    );
    assert_eq!(
        ServerResponse::decode(&[1, 0, 0, 0, 1, 0, 0, 0, 0, 0, 0, 0, 0xff]),
        Err(DecodeError::InvalidUtf8)
    );
}

#[test]
fn a_broadcast_needs_both_texts() {
    let mut bytes = vec![2, 0, 0, 0];
    bytes.extend(text_field("alice"));
    assert_eq!(ServerResponse::decode(&bytes), Err(DecodeError::Truncated));
    bytes.extend_from_slice(&[2, 0, 0, 0, 0, 0, 0, 0, b'h']);
    assert_eq!(ServerResponse::decode(&bytes), Err(DecodeError::Truncated));
    bytes.push(0x80);
    assert_eq!(ServerResponse::decode(&bytes), Err(DecodeError::InvalidUtf8));
}

#[test]
fn a_text_ends_where_its_length_says() {
    let mut bytes = vec![2, 0, 0, 0];
    bytes.extend(text_field("al"));
    bytes.extend(text_field("ice"));
    assert_eq!(
        ServerResponse::decode(&bytes),
        Ok(ServerResponse::Broadcast { username: "al".to_string(), message: "ice".to_string() })
    );
}

#[test]
fn from_bytes_is_decode_without_the_reason() {
    let bytes = ClientMessage::UserName("bob".to_string()).encode();
    assert_eq!(ClientMessage::from_bytes(&bytes), Some(ClientMessage::UserName("bob".to_string())));
    assert_eq!(ClientMessage::from_bytes(&[5, 0, 0, 0]), None);
    assert_eq!(ClientMessage::from_bytes(&[]), None);
    assert_eq!(ServerResponse::from_bytes(&[0, 0, 0, 0]), Some(ServerResponse::UsernameAccepted));
    assert_eq!(ServerResponse::from_bytes(&[1, 0, 0, 0]), None);
}

#[test]
fn to_bytes_is_encode() {
    let frame = ClientMessage::Message("hi".to_string());
    assert_eq!(frame.to_bytes(), Some(frame.encode()));
    let frame = ServerResponse::Broadcast { username: "a".to_string(), message: "b".to_string() };
    assert_eq!(frame.to_bytes(), Some(frame.encode()));
}

#[test]
fn a_string_travels_as_its_utf8_bytes() {
    let text = "héllo".to_string();
    assert_eq!(text.to_bytes(), Some(vec![b'h', 0xc3, 0xa9, b'l', b'l', b'o']));
    assert_eq!(String::from_bytes(&text.to_bytes().unwrap()), Some(text));
    assert_eq!(String::from_bytes(&[]), Some(String::new()));
}

#[test]
fn a_string_read_from_broken_bytes_is_repaired() {
    assert_eq!(String::from_bytes(&[b'h', b'i', 0xff]), Some("hi\u{fffd}".to_string()));
    assert_eq!(String::from_bytes(&[0xc3]), Some("\u{fffd}".to_string()));
}

fn chat_with_body(body: &[u8]) -> Vec<u8> {
    let mut bytes = vec![1, 0, 0, 0];
    bytes.extend_from_slice(&(body.len() as u64).to_le_bytes());
    bytes.extend_from_slice(body);
    bytes
}

#[test]
fn text_at_the_edges_of_utf8() {
    let accepted: [(&[u8], &str); 4] = [
        (&[0x7f], "\u{7f}"),
        (&[0xc2, 0x80], "\u{80}"),
        (&[0xef, 0xbf, 0xbf], "\u{ffff}"),
        (&[0xf4, 0x8f, 0xbf, 0xbf], "\u{10ffff}"),
    ];
    for (body, text) in accepted {
        assert_eq!(
            ClientMessage::decode(&chat_with_body(body)),
            Ok(ClientMessage::Message(text.to_string()))
        );
    }
    let refused: [&[u8]; 6] = [
        &[0x80],
        &[0xc0, 0x80],
        &[0xe0, 0x80, 0x80],
        &[0xed, 0xa0, 0x80],
        &[0xf4, 0x90, 0x80, 0x80],
        &[0xe2, 0x82],
    ];
    for body in refused {
        assert_eq!(ClientMessage::decode(&chat_with_body(body)), Err(DecodeError::InvalidUtf8));
    }
}
