use rport::dtls_signaling::SignalingMessage;
use rport::frame::{
    decode_record, encode_message, new_buffer, recv_message, take_frame, FrameError, MAX_FRAME_SIZE,
};
use std::collections::VecDeque;

/// The JSON text of an offer.
fn offer_json(msg: &SignalingMessage) -> String {
    match msg {
        SignalingMessage::Offer { session_id, agent_id, offer_sdp, .. } => {
            let mut map = serde_json::Map::new();
            map.insert("type".to_string(), serde_json::Value::from("offer"));
            map.insert("session_id".to_string(), serde_json::Value::from(session_id.as_str()));
            map.insert("agent_id".to_string(), serde_json::Value::from(agent_id.as_str()));
            map.insert("offer_sdp".to_string(), serde_json::Value::from(offer_sdp.as_str()));
            serde_json::to_string(&serde_json::Value::Object(map)).unwrap()
        }
        other => panic!("Expected offer, got {:?}", other),
    }
}

#[test]
fn test_recv_message_reassembles_fragmented_frame() {
    let msg = SignalingMessage::new_offer(
        "sess".into(),
        "agent".into(),
        "v=0\r\no=- 0 0 IN IP4 127.0.0.1\r\ns=-\r\nt=0 0\r\n".to_string(),
        None,
    );
    let encoded = encode_message(&offer_json(&msg));

    let chunks: Vec<&[u8]> = encoded.chunks(7).collect();
    assert!(chunks.len() > 1, "test payload must span multiple chunks");
    let mut records: VecDeque<Vec<u8>> = VecDeque::new();
    for c in chunks {
        records.push_back(c.to_vec());
    }

    let mut buf = new_buffer();
    let payload = recv_message(&mut records, &mut buf).unwrap().unwrap();
    let got: serde_json::Value = serde_json::from_slice(&payload).unwrap();
    assert_eq!(got["type"], "offer");
    assert_eq!(got["session_id"], "sess");
    assert!(got["offer_sdp"].as_str().unwrap().contains("v=0"));
    assert!(records.is_empty());
    assert_eq!(buf.len(), 0);
}

#[test]
fn a_frame_is_a_length_and_a_payload() {
    assert_eq!(encode_message("ab"), vec![0, 0, 0, 2, b'a', b'b']);
    assert_eq!(encode_message(""), vec![0, 0, 0, 0]);
    let long = "x".repeat(0x10203);
    let frame = encode_message(&long);
    assert_eq!(&frame[..4], &[0, 1, 2, 3]);
    assert_eq!(&frame[4..], long.as_bytes());
    assert_eq!(&encode_message("ä")[..4], &[0, 0, 0, 2]);
}

#[test]
fn every_cut_gives_the_same_payload() {
    let mut stream = encode_message("first");
    stream.extend_from_slice(&encode_message("second"));
    for size in 1..stream.len() {
        let mut records: VecDeque<Vec<u8>> = stream.chunks(size).map(|c| c.to_vec()).collect();
        let mut buf = new_buffer();
        assert_eq!(recv_message(&mut records, &mut buf), Ok(Some(b"first".to_vec())));
        assert_eq!(recv_message(&mut records, &mut buf), Ok(Some(b"second".to_vec())));
        assert_eq!(recv_message(&mut records, &mut buf), Ok(None));
        assert_eq!(buf.len(), 0);
    }
}

#[test]
fn records_are_taken_only_as_needed() {
    let mut records: VecDeque<Vec<u8>> = VecDeque::new();
    records.push_back(encode_message("one"));
    records.push_back(encode_message("two"));
    let mut buf = new_buffer();
    assert_eq!(recv_message(&mut records, &mut buf), Ok(Some(b"one".to_vec())));
    assert_eq!(records.len(), 1);
}

#[test]
fn a_partial_frame_waits() {
    let frame = encode_message("hello");
    for k in 0..frame.len() {
        let mut buf = new_buffer();
        buf.extend_from_slice(&frame[..k]);
        assert_eq!(take_frame(&mut buf), Ok(None));
        assert_eq!(buf.len(), k);
    }
}

#[test]
fn a_length_over_the_limit_is_refused() {
    let n = MAX_FRAME_SIZE as u32 + 1;
    let mut buf = new_buffer();
    buf.extend_from_slice(&n.to_be_bytes());
    assert_eq!(take_frame(&mut buf), Err(FrameError::TooLarge(n)));
    assert_eq!(buf.len(), 4);
    assert_eq!(FrameError::TooLarge(n).message(), "Frame too large: 4194305 bytes");
    let mut at_limit = new_buffer();
    at_limit.extend_from_slice(&(MAX_FRAME_SIZE as u32).to_be_bytes());
    assert_eq!(take_frame(&mut at_limit), Ok(None));
}

#[test]
fn a_record_holds_one_frame() {
    let mut data = encode_message("hello");
    assert_eq!(decode_record(&data), Ok(b"hello".to_vec()));
    data.push(7);
    assert_eq!(decode_record(&data), Ok(b"hello".to_vec()));
    assert_eq!(decode_record(&data[..3]), Err(FrameError::TooShort));
    assert_eq!(decode_record(&data[..8]), Err(FrameError::Incomplete));
    assert_eq!(FrameError::TooShort.message(), "Frame too short");
    assert_eq!(FrameError::Incomplete.message(), "Incomplete frame");
}

#[test]
fn many_frames_come_out_in_order() {
    let texts = ["one", "", "three", "four four four", "5"];
    let mut stream = Vec::new();
    for text in texts {
        stream.extend_from_slice(&encode_message(text));
    }
    for size in 1..=stream.len() {
        let mut records: VecDeque<Vec<u8>> = stream.chunks(size).map(|c| c.to_vec()).collect();
        let mut buf = new_buffer();
        for text in texts {
            assert_eq!(recv_message(&mut records, &mut buf), Ok(Some(text.as_bytes().to_vec())));
        }
        assert_eq!(recv_message(&mut records, &mut buf), Ok(None));
    }
}
