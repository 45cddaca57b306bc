use pumpfeed::config::{RawValidateEnv, ValidateConfig};
use pumpfeed::connect::{Credentials, RawConnectEnv};
use pumpfeed::framer::{Frame, Framer};
use pumpfeed::records::LogRecord;
use pumpfeed::session::{Action, Session};

fn b(s: &str) -> Vec<u8> {
    s.as_bytes().to_vec()
}

fn default_vcfg() -> ValidateConfig {
    ValidateConfig::from_env(&RawValidateEnv {
        enabled: None,
        allowed_subjects: None,
        require_mint: None,
        require_image: None,
        info_keys: None,
    })
}

fn default_creds() -> Credentials {
    Credentials::from_env(&RawConnectEnv {
        user: None,
        pass: None,
        password: None,
        token: None,
        jwt: None,
        sig: None,
    })
}

#[test]
fn handshake_after_first_info() {
    let mut framer = Framer::new();
    let out = framer.feed(&b("INFO {}\r\n"));
    assert_eq!(out.frames.len(), 1);
    let mut session = Session::new(default_creds(), default_vcfg());
    let mut frames = out.frames;
    let step = session.on_frame(frames.remove(0));
    assert!(step.fatal.is_none());
    // a server_info record, then CONNECT, SUB, SUB, PING in that order
    assert_eq!(step.actions.len(), 5);
    match &step.actions[0] {
        Action::Emit(LogRecord::ServerInfo { info_keys }) => assert!(info_keys.is_empty()),
        _ => panic!("expected the server_info record first"),
    }
    let sends: Vec<&Vec<u8>> = step.actions[1..]
        .iter()
        .map(|a| match a {
            Action::Send(bytes) => bytes,
            _ => panic!("expected a send"),
        })
        .collect();
    let connect = String::from_utf8(sends[0].clone()).unwrap();
    assert!(connect.starts_with("CONNECT {"));
    assert!(connect.ends_with("}\r\n"));
    assert_eq!(
        connect,
        "CONNECT {\"headers\":true,\"lang\":\"nats.ws\",\"no_responders\":true,\
         \"pass\":\"OktDhmZ2D3CtYUiM\",\"pedantic\":false,\"protocol\":1,\
         \"user\":\"subscriber\",\"verbose\":false,\"version\":\"1.30.3\"}\r\n"
    );
    assert_eq!(sends[1], &b("SUB advancedNewCoinCreated 4\r\n"));
    assert_eq!(sends[2], &b("SUB coinImageUpdated.> 2\r\n"));
    assert_eq!(sends[3], &b("PING\r\n"));
    assert!(session.connected);
}

#[test]
fn second_info_is_a_no_op() {
    let mut session = Session::new(default_creds(), default_vcfg());
    let first = session.on_frame(Frame::Info(b("{}")));
    assert_eq!(first.actions.len(), 5);
    let second = session.on_frame(Frame::Info(b("{\"x\":2}")));
    assert!(second.actions.is_empty());
    assert!(second.fatal.is_none());
}

#[test]
fn info_keys_are_reported_sorted() {
    let mut session = Session::new(default_creds(), default_vcfg());
    let step = session.on_frame(Frame::Info(b("{\"zeta\":1,\"alpha\":2,\"mid\":3}")));
    match &step.actions[0] {
        Action::Emit(LogRecord::ServerInfo { info_keys }) => {
            let keys: Vec<String> = info_keys
                .iter()
                .map(|k| String::from_utf8(k.clone()).unwrap())
                .collect();
            assert_eq!(keys, vec!["alpha", "mid", "zeta"]);
        }
        _ => panic!("expected the server_info record"),
    }
}

#[test]
fn info_with_missing_required_keys() {
    let vcfg = ValidateConfig::from_env(&RawValidateEnv {
        enabled: Some(b("true")),
        allowed_subjects: None,
        require_mint: None,
        require_image: None,
        info_keys: Some(b("server_id,version")),
    });
    let mut session = Session::new(default_creds(), vcfg);
    let step = session.on_frame(Frame::Info(b("{\"version\":\"2\"}")));
    // server_info, one missing-key record, then the four sends
    assert_eq!(step.actions.len(), 6);
    match &step.actions[1] {
        Action::Emit(LogRecord::ValidationInfoKeyMissing { key }) => {
            assert_eq!(key, &b("server_id"))
        }
        _ => panic!("expected info_key_missing"),
    }
}

#[test]
fn ping_is_answered_with_pong() {
    let mut session = Session::new(default_creds(), default_vcfg());
    let step = session.on_frame(Frame::Ping);
    assert_eq!(step.actions.len(), 1);
    match &step.actions[0] {
        Action::Send(bytes) => assert_eq!(bytes, &b("PONG\r\n")),
        _ => panic!("expected a send"),
    }
    assert!(step.fatal.is_none());
}

#[test]
fn pong_is_ignored() {
    let mut session = Session::new(default_creds(), default_vcfg());
    let step = session.on_frame(Frame::Pong);
    assert!(step.actions.is_empty());
    assert!(step.fatal.is_none());
}

#[test]
fn server_error_is_fatal() {
    let mut session = Session::new(default_creds(), default_vcfg());
    let step = session.on_frame(Frame::ServerErr(b("-ERR bad")));
    assert!(step.actions.is_empty());
    assert_eq!(step.fatal.unwrap(), b("-ERR bad"));
}

#[test]
fn delivery_is_handed_on() {
    let mut framer = Framer::new();
    let out = framer.feed(&b("MSG t 1 2\r\nok\r\n"));
    let mut session = Session::new(default_creds(), default_vcfg());
    let mut frames = out.frames;
    let step = session.on_frame(frames.remove(0));
    assert_eq!(step.actions.len(), 1);
    match &step.actions[0] {
        Action::Deliver(m) => {
            assert_eq!(m.subject, b("t"));
            assert_eq!(m.body, b("ok"));
        }
        _ => panic!("expected a delivery"),
    }
}
