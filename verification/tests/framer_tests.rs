use pumpfeed::framer::{Frame, Framer, ProtoError};

fn b(s: &str) -> Vec<u8> {
    s.as_bytes().to_vec()
}

#[test]
fn fragmented_msg_two_chunks() {
    let mut f = Framer::new();
    let out1 = f.feed(&b("MSG a 1 3\r\nab"));
    assert!(out1.frames.is_empty());
    assert!(out1.error.is_none());
    let out2 = f.feed(&b("c\r\n"));
    assert!(out2.error.is_none());
    assert_eq!(out2.frames.len(), 1);
    match &out2.frames[0] {
        Frame::Delivery(m) => {
            assert_eq!(m.subject, b("a"));
            assert_eq!(m.sid, b("1"));
            assert!(m.reply.is_none());
            assert_eq!(m.header_len, 0);
            assert_eq!(m.payload_len, 3);
            assert!(m.headers.is_none());
            assert_eq!(m.body, b("abc"));
        }
        _ => panic!("expected a delivery"),
    }
}

#[test]
fn hmsg_header_and_body_split() {
    let mut f = Framer::new();
    let out = f.feed(&b("HMSG s 2 10 15\r\nNATS/1.0\r\nhello\r\n"));
    assert!(out.error.is_none());
    assert_eq!(out.frames.len(), 1);
    match &out.frames[0] {
        Frame::Delivery(m) => {
            assert_eq!(m.subject, b("s"));
            assert_eq!(m.header_len, 10);
            assert_eq!(m.payload_len, 15);
            assert_eq!(m.headers.as_ref().unwrap(), &b("NATS/1.0\r\n"));
            assert_eq!(m.body, b("hello"));
        }
        _ => panic!("expected a delivery"),
    }
}

#[test]
fn refragmentation_gives_identical_frames() {
    let stream = "INFO {\"k\":1}\r\nPING\r\nMSG sub 1 5\r\nworld\r\nPONG\r\n-ERR bad\r\n";
    let whole = {
        let mut f = Framer::new();
        f.feed(&b(stream))
    };
    // byte-by-byte refragmentation
    let mut f2 = Framer::new();
    let mut frames2 = Vec::new();
    let mut err2 = None;
    for byte in stream.as_bytes() {
        let out = f2.feed(&vec![*byte]);
        frames2.extend(out.frames);
        if out.error.is_some() {
            err2 = out.error;
        }
    }
    assert_eq!(whole.frames.len(), frames2.len());
    assert_eq!(whole.error.is_some(), err2.is_some());
    for (a, c) in whole.frames.iter().zip(frames2.iter()) {
        match (a, c) {
            (Frame::Ping, Frame::Ping) => {}
            (Frame::Pong, Frame::Pong) => {}
            (Frame::Info(x), Frame::Info(y)) => assert_eq!(x, y),
            (Frame::ServerErr(x), Frame::ServerErr(y)) => assert_eq!(x, y),
            (Frame::Delivery(x), Frame::Delivery(y)) => {
                assert_eq!(x.subject, y.subject);
                assert_eq!(x.body, y.body);
                assert_eq!(x.headers, y.headers);
            }
            _ => panic!("frame sequences differ"),
        }
    }
}

#[test]
fn control_frames_and_unknown_lines() {
    let mut f = Framer::new();
    let out = f.feed(&b("PING\r\nPONG\r\n\r\nWHATEVER else\r\nINFO {\"a\":1}\r\n"));
    assert!(out.error.is_none());
    assert_eq!(out.frames.len(), 3);
    assert!(matches!(out.frames[0], Frame::Ping));
    assert!(matches!(out.frames[1], Frame::Pong));
    match &out.frames[2] {
        Frame::Info(j) => assert_eq!(j, &b("{\"a\":1}")),
        _ => panic!("expected info"),
    }
}

#[test]
fn server_err_line_is_a_frame() {
    let mut f = Framer::new();
    let out = f.feed(&b("-ERR 'Authorization Violation'\r\n"));
    assert_eq!(out.frames.len(), 1);
    match &out.frames[0] {
        Frame::ServerErr(l) => assert_eq!(l, &b("-ERR 'Authorization Violation'")),
        _ => panic!("expected server error frame"),
    }
}

#[test]
fn msg_with_reply_token() {
    let mut f = Framer::new();
    let out = f.feed(&b("MSG subj 9 reply.to 2\r\nhi\r\n"));
    assert!(out.error.is_none());
    assert_eq!(out.frames.len(), 1);
    match &out.frames[0] {
        Frame::Delivery(m) => {
            assert_eq!(m.subject, b("subj"));
            assert_eq!(m.sid, b("9"));
            assert_eq!(m.reply.as_ref().unwrap(), &b("reply.to"));
            assert_eq!(m.body, b("hi"));
        }
        _ => panic!("expected a delivery"),
    }
}

#[test]
fn hmsg_with_reply_token() {
    let mut f = Framer::new();
    let out = f.feed(&b("HMSG s 2 r.to 6 11\r\nNATS\r\nhello\r\n"));
    assert!(out.error.is_none());
    assert_eq!(out.frames.len(), 1);
    match &out.frames[0] {
        Frame::Delivery(m) => {
            assert_eq!(m.reply.as_ref().unwrap(), &b("r.to"));
            assert_eq!(m.headers.as_ref().unwrap(), &b("NATS\r\n"));
            assert_eq!(m.body, b("hello"));
        }
        _ => panic!("expected a delivery"),
    }
}

#[test]
fn bad_msg_length_is_fatal() {
    let mut f = Framer::new();
    let out = f.feed(&b("MSG a 1 nope\r\nPING\r\n"));
    assert!(out.frames.is_empty());
    assert!(matches!(out.error, Some(ProtoError::BadMsgLength(_))));
    // the framer stays failed afterwards
    let out2 = f.feed(&b("PING\r\n"));
    assert!(out2.frames.is_empty());
    assert!(out2.error.is_none());
}

#[test]
fn bad_msg_header_too_few_tokens() {
    let mut f = Framer::new();
    let out = f.feed(&b("MSG a 1\r\n"));
    assert!(matches!(out.error, Some(ProtoError::BadMsgHeader(_))));
}

#[test]
fn bad_hmsg_lengths() {
    let mut f = Framer::new();
    let out = f.feed(&b("HMSG a 1 x 5\r\n"));
    assert!(matches!(out.error, Some(ProtoError::BadHMsgHeaderLength(_))));
    let mut g = Framer::new();
    let out2 = g.feed(&b("HMSG a 1 2 y\r\n"));
    assert!(matches!(out2.error, Some(ProtoError::BadHMsgTotalLength(_))));
    let mut h = Framer::new();
    let out3 = h.feed(&b("HMSG a 1 6 5\r\n"));
    assert!(matches!(out3.error, Some(ProtoError::HeaderLongerThanPayload(_))));
}

#[test]
fn payload_without_trailing_crlf_is_tolerated() {
    let mut f = Framer::new();
    // the two bytes after the payload are not CRLF: only the payload is
    // consumed, and the following line is then read from the remainder
    let out = f.feed(&b("MSG a 1 2\r\nhiPING\r\n"));
    assert!(out.error.is_none());
    assert_eq!(out.frames.len(), 2);
    assert!(matches!(out.frames[0], Frame::Delivery(_)));
    assert!(matches!(out.frames[1], Frame::Ping));
}

#[test]
fn zero_length_payload() {
    let mut f = Framer::new();
    let out = f.feed(&b("MSG a 1 0\r\n\r\n"));
    assert!(out.error.is_none());
    assert_eq!(out.frames.len(), 1);
    match &out.frames[0] {
        Frame::Delivery(m) => assert_eq!(m.body.len(), 0),
        _ => panic!("expected a delivery"),
    }
}

#[test]
fn bad_hmsg_header_too_few_tokens() {
    let mut f = Framer::new();
    let out = f.feed(&b("HMSG a 1 2\r\n"));
    assert!(matches!(out.error, Some(ProtoError::BadHMsgHeader(_))));
}

#[test]
fn refragmentation_is_identical_even_across_a_fault() {
    let stream = "PING\r\nMSG bad 1 x\r\nPONG\r\n";
    let whole = {
        let mut f = Framer::new();
        f.feed(&b(stream))
    };
    let mut f2 = Framer::new();
    let mut frames2 = 0;
    let mut errs2 = 0;
    for byte in stream.as_bytes() {
        let out = f2.feed(&vec![*byte]);
        frames2 += out.frames.len();
        if out.error.is_some() {
            errs2 += 1;
        }
    }
    assert_eq!(whole.frames.len(), frames2);
    assert!(matches!(whole.error, Some(ProtoError::BadMsgLength(_))));
    assert_eq!(errs2, 1);
    // the PONG after the fault is never delivered, however the bytes came in
    assert_eq!(whole.frames.len(), 1);
}

#[test]
fn msg_length_with_leading_plus() {
    let mut f = Framer::new();
    let out = f.feed(&b("MSG a 1 +2\r\nhi\r\n"));
    assert!(out.error.is_none());
    assert_eq!(out.frames.len(), 1);
    match &out.frames[0] {
        Frame::Delivery(m) => assert_eq!(m.body, b("hi")),
        _ => panic!("expected a delivery"),
    }
}
