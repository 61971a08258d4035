use bytes::BytesMut;
use nvim_vadre::codec::{refused_value, DAPCodec, State};

fn written(contents: &[&[u8]]) -> BytesMut {
    let mut buffer = BytesMut::new();
    for content in contents {
        DAPCodec::new().encode_frame(content, &mut buffer);
    }
    buffer
}

#[test]
fn a_frame_has_its_length_in_front() {
    assert_eq!(&written(&[b"{\"seq\":1}"])[..], b"Content-Length: 9\r\n\r\n{\"seq\":1}");
    assert_eq!(&written(&[b""])[..], b"Content-Length: 0\r\n\r\n");
}

#[test]
fn what_was_written_is_read_back() {
    let contents: [&[u8]; 4] = [b"one", b"", "○⬤".as_bytes(), &[0, 13, 10, 255]];
    let mut buffer = written(&contents);
    let mut codec = DAPCodec::new();
    for content in contents {
        let frame = codec.decode_frame(&mut buffer).unwrap();
        assert_eq!(&frame[..], content);
        assert_eq!(codec.state, State::ReadingHeaders);
        assert_eq!(codec.content_len, 0);
    }
    assert!(buffer.is_empty());
    assert!(codec.decode_frame(&mut buffer).is_none());
}

#[test]
fn a_frame_may_come_in_pieces() {
    let whole = written(&[b"first", b"second"]);
    for size in 1..whole.len() {
        let mut codec = DAPCodec::new();
        let mut buffer = BytesMut::new();
        let mut frames: Vec<Vec<u8>> = Vec::new();
        for piece in whole.chunks(size) {
            buffer.extend_from_slice(piece);
            while let Some(frame) = codec.decode_frame(&mut buffer) {
                frames.push(frame.to_vec());
            }
        }
        assert_eq!(frames, vec![b"first".to_vec(), b"second".to_vec()]);
    }
}

#[test]
fn headers_are_read_whatever_their_case() {
    let cases: [(&[u8], &[u8]); 7] = [
        (b"content-LENGTH:3\r\n\r\nabc", b"abc"),
        (b"Content-Type: x\r\nContent-Length:   2  \r\n\r\nabc", b"ab"),
        (b"Content-Length: 1\r\nContent-Length: 3\r\n\r\nabc", b"abc"),
        // A length that is none changes nothing.
        (b"Content-Length: 2\r\nContent-Length: x\r\n\r\nabc", b"ab"),
        (b"Content-Length: +3\r\n\r\nabc", b"abc"),
        // Without a length there is nothing in the frame.
        (b"\r\n\r\nabc", b""),
        (b"\xff\xfe\r\nContent-Length: 3\r\n\r\nabc", b"abc"),
    ];
    for (input, content) in cases {
        let mut buffer = BytesMut::from(input);
        assert_eq!(&DAPCodec::new().decode_frame(&mut buffer).unwrap()[..], content);
    }
}

#[test]
fn an_unfinished_frame_is_kept() {
    let mut codec = DAPCodec::new();
    let mut buffer = BytesMut::from(&b"Content-Length: 5\r\n\r\nab"[..]);
    assert!(codec.decode_frame(&mut buffer).is_none());
    assert_eq!(codec.state, State::ReadingBody);
    assert_eq!(codec.content_len, 5);
    assert_eq!(&buffer[..], b"ab");
    buffer.extend_from_slice(b"cdefg");
    assert_eq!(&codec.decode_frame(&mut buffer).unwrap()[..], b"abcde");
    assert_eq!(&buffer[..], b"fg");
}

#[test]
fn it_does_not_matter_where_the_input_is_cut() {
    let input: &[u8] = b"X: y\r\n\r\nContent-Length: 3\r\n\r\na\r\nContent-Length: z\r\n\r\n\r\nrest";
    let read = |pieces: [&[u8]; 2]| {
        let mut codec = DAPCodec::new();
        let mut buffer = BytesMut::new();
        let mut frames: Vec<Vec<u8>> = Vec::new();
        for piece in pieces {
            buffer.extend_from_slice(piece);
            while let Some(frame) = codec.decode_frame(&mut buffer) {
                frames.push(frame.to_vec());
            }
        }
        (frames, codec.state, codec.content_len, buffer.to_vec())
    };
    let whole = read([input, b""]);
    assert_eq!(whole.0, vec![b"".to_vec(), b"a\r\n".to_vec(), b"".to_vec(), b"".to_vec()]);
    assert_eq!(whole.3, b"rest".to_vec());
    for at in 0..input.len() {
        assert_eq!(read([&input[..at], &input[at..]]), whole);
    }
}

#[test]
fn a_frame_that_is_no_message_is_handed_on_as_its_value() {
    assert_eq!(refused_value(b"{\"seq\": 1, \"type\": \"odd\"}").display(), "{\"seq\":1,\"type\":\"odd\"}");
    assert_eq!(refused_value(b"[1]").display(), "[1]");
    assert_eq!(refused_value(b"not json").display(), "null");
    assert_eq!(refused_value(b"").display(), "null");
    assert_eq!(refused_value(b"\"\xff\"").display(), "null");
}

#[test]
fn a_frame_that_is_no_message_disturbs_nothing() {
    for body in ["{}", "garbage"] {
        let mut buffer = written(&[body.as_bytes(), b"next"]);
        let mut codec = DAPCodec::new();
        let frame = codec.decode_frame(&mut buffer).unwrap();
        let expected = if body == "{}" { "{}" } else { "null" };
        assert_eq!(refused_value(&frame).display(), expected);
        assert_eq!(&codec.decode_frame(&mut buffer).unwrap()[..], b"next");
        assert!(buffer.is_empty());
    }
}
