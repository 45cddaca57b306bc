use pumpfeed::connect::{connect_line, Credentials, RawConnectEnv};

fn b(s: &str) -> Vec<u8> {
    s.as_bytes().to_vec()
}

fn raw(
    user: Option<&str>,
    pass: Option<&str>,
    password: Option<&str>,
    token: Option<&str>,
    jwt: Option<&str>,
    sig: Option<&str>,
) -> RawConnectEnv {
    RawConnectEnv {
        user: user.map(b),
        pass: pass.map(b),
        password: password.map(b),
        token: token.map(b),
        jwt: jwt.map(b),
        sig: sig.map(b),
    }
}

fn connect_json(creds: &Credentials) -> serde_json::Value {
    let line = connect_line(creds);
    let line = String::from_utf8(line).unwrap();
    assert!(line.starts_with("CONNECT "));
    assert!(line.ends_with("\r\n"));
    serde_json::from_str(&line["CONNECT ".len()..line.len() - 2]).unwrap()
}

#[test]
fn jwt_beats_token_and_user_pass() {
    let creds = Credentials::from_env(&raw(
        Some("u"),
        Some("p"),
        None,
        Some("tok"),
        Some("JWTVALUE"),
        None,
    ));
    let v = connect_json(&creds);
    assert_eq!(v.get("jwt").and_then(|x| x.as_str()), Some("JWTVALUE"));
    assert!(v.get("user").is_none());
    assert!(v.get("pass").is_none());
    assert!(v.get("auth_token").is_none());
}

#[test]
fn jwt_with_signature() {
    let creds = Credentials::from_env(&raw(None, None, None, None, Some("J"), Some("S")));
    let v = connect_json(&creds);
    assert_eq!(v.get("jwt").and_then(|x| x.as_str()), Some("J"));
    assert_eq!(v.get("sig").and_then(|x| x.as_str()), Some("S"));
}

#[test]
fn token_beats_user_pass() {
    let creds = Credentials::from_env(&raw(Some("u"), Some("p"), None, Some("tok"), None, None));
    let v = connect_json(&creds);
    assert_eq!(v.get("auth_token").and_then(|x| x.as_str()), Some("tok"));
    assert!(v.get("user").is_none());
    assert!(v.get("pass").is_none());
    assert!(v.get("jwt").is_none());
}

#[test]
fn user_pass_defaults_apply() {
    let creds = Credentials::from_env(&raw(None, None, None, None, None, None));
    let v = connect_json(&creds);
    assert_eq!(v.get("user").and_then(|x| x.as_str()), Some("subscriber"));
    assert_eq!(v.get("pass").and_then(|x| x.as_str()), Some("OktDhmZ2D3CtYUiM"));
}

#[test]
fn long_form_password_variable_is_honoured() {
    let creds = Credentials::from_env(&raw(Some("me"), None, Some("secret"), None, None, None));
    let v = connect_json(&creds);
    assert_eq!(v.get("user").and_then(|x| x.as_str()), Some("me"));
    assert_eq!(v.get("pass").and_then(|x| x.as_str()), Some("secret"));
}

#[test]
fn fixed_connect_options_are_present() {
    let creds = Credentials::from_env(&raw(None, None, None, None, None, None));
    let v = connect_json(&creds);
    assert_eq!(v.get("no_responders"), Some(&serde_json::Value::Bool(true)));
    assert_eq!(v.get("protocol").and_then(|x| x.as_i64()), Some(1));
    assert_eq!(v.get("verbose"), Some(&serde_json::Value::Bool(false)));
    assert_eq!(v.get("pedantic"), Some(&serde_json::Value::Bool(false)));
    assert_eq!(v.get("headers"), Some(&serde_json::Value::Bool(true)));
    assert_eq!(v.get("lang").and_then(|x| x.as_str()), Some("nats.ws"));
    assert_eq!(v.get("version").and_then(|x| x.as_str()), Some("1.30.3"));
}

#[test]
fn credentials_are_json_escaped() {
    let creds = Credentials::from_env(&raw(
        Some("a\"b\\c"),
        Some("tab\there\nnl\u{1}ctl"),
        None,
        None,
        None,
        None,
    ));
    let v = connect_json(&creds);
    assert_eq!(v.get("user").and_then(|x| x.as_str()), Some("a\"b\\c"));
    assert_eq!(
        v.get("pass").and_then(|x| x.as_str()),
        Some("tab\there\nnl\u{1}ctl")
    );
}
