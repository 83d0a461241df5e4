use storage_node::frame::{
    build_frame, chunk_header, error_header, read_frame, FrameAction, FrameEvent, FrameState,
};

fn read_all(stream: &[u8]) -> Result<(Vec<u8>, Vec<u8>), String> {
    let mut at = 0;
    let mut state = FrameState::AwaitLength;
    let mut want = 4;
    loop {
        let event = if at + want > stream.len() {
            FrameEvent::Failed("early eof".to_string())
        } else {
            FrameEvent::Bytes(stream[at..at + want].to_vec())
        };
        at += want;
        let (next, action) = read_frame(state, event);
        state = next;
        match action {
            FrameAction::Read { count } => want = count as usize,
            FrameAction::Done { json, data } => return Ok((json, data)),
            FrameAction::Fail(e) => return Err(e),
            FrameAction::Ignore => panic!("nothing to ignore"),
        }
    }
}

#[test]
fn frames_round_trip() {
    for (json, data) in [(&b"{}"[..], &b""[..]), (b"{\"id\":1}", b"raw"), (b"", b""), (b"", b"x")] {
        let mut stream = build_frame(json, data);
        stream.extend_from_slice(b"next");
        assert_eq!(read_all(&stream), Ok((json.to_vec(), data.to_vec())));
    }
}

#[test]
fn frames_have_big_endian_lengths() {
    assert_eq!(build_frame(b"ab", b"c"), vec![0, 0, 0, 5, 0, 2, b'a', b'b', b'c']);
    let long = vec![1u8; 70_000];
    let frame = build_frame(&long, b"");
    assert_eq!(frame[0..6], [0, 1, 0x11, 0x72, 0x11, 0x70]);
}

#[test]
fn frame_lengths_are_checked() {
    assert_eq!(read_all(&[0, 0, 0, 1, 9]).unwrap_err(), "invalid frame length: 1");
    assert_eq!(read_all(&[0, 0xa0, 0, 1]).unwrap_err(), "invalid frame length: 10485761");
    assert_eq!(read_all(&[255, 255, 255, 255]).unwrap_err(), "invalid frame length: 4294967295");
    assert_eq!(read_all(&[0, 0, 0, 4, 0, 3, 1, 1]).unwrap_err(), "invalid json length: 3");
    assert_eq!(read_all(&[0, 0, 0, 2, 0, 0]), Ok((vec![], vec![])));
}

#[test]
fn broken_streams_are_reported() {
    assert_eq!(read_all(&[0, 0]).unwrap_err(), "read length: early eof");
    assert_eq!(read_all(&[0, 0, 0, 9, 1]).unwrap_err(), "read json length: early eof");
    assert_eq!(read_all(&[0, 0, 0, 9, 0, 3, 1]).unwrap_err(), "read json payload: early eof");
    assert_eq!(
        read_all(&[0, 0, 0, 9, 0, 1, 1, 5]).unwrap_err(),
        "read data payload: early eof"
    );
}

#[test]
fn finished_readers_ignore_what_comes() {
    let (_, action) = read_frame(FrameState::Finished, FrameEvent::Bytes(vec![]));
    assert!(matches!(action, FrameAction::Ignore));
    let (_, action) = read_frame(FrameState::Finished, FrameEvent::Failed(String::new()));
    assert!(matches!(action, FrameAction::Ignore));
}

#[test]
fn headers_say_what_happened() {
    let header = chunk_header("7", "chunk_response", 4);
    assert_eq!(header.id, "7");
    assert_eq!(header.command, "chunk_response");
    assert_eq!(header.status, "success");
    assert_eq!(header.chunk_index, Some(4));
    assert_eq!(header.message, None);
    let header = error_header("7", "c", "no".to_string());
    assert_eq!(header.status, "error");
    assert_eq!(header.chunk_index, None);
    assert_eq!(header.message.as_deref(), Some("no"));
}
