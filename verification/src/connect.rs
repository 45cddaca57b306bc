//! The CONNECT handshake line: credential selection by precedence, minimal
//! JSON string escaping, and the exact bytes sent after the first INFO.
use vstd::prelude::*;
use vstd::string::StrSliceExecFns;
use vstd::string::StringSliceAdditionalSpecFns;

use crate::bytes::append_bytes;
use crate::bytes::clone_bytes;

verus! {

// ---------------------------------------------------------------------------
// JSON string escaping, byte for byte as the CONNECT payload carries it
// ---------------------------------------------------------------------------
/// The lowercase hex digit for `n < 16`.
pub open spec fn hex_digit(n: u8) -> u8 {
    if n < 10 {
        (48 + n) as u8
    } else {
        (87 + n) as u8
    }
}

/// The escape of one byte inside a JSON string: quote and backslash get a
/// backslash, the named control bytes their short forms, other control
/// bytes `\u00XX` with lowercase hex, and everything else passes through.
pub open spec fn json_escape_byte(b: u8) -> Seq<u8> {
    if b == 34 {
        seq![92u8, 34u8]
    } else if b == 92 {
        seq![92u8, 92u8]
    } else if b == 8 {
        seq![92u8, 98u8]
    } else if b == 9 {
        seq![92u8, 116u8]
    } else if b == 10 {
        seq![92u8, 110u8]
    } else if b == 12 {
        seq![92u8, 102u8]
    } else if b == 13 {
        seq![92u8, 114u8]
    } else if b < 32 {
        seq![92u8, 117u8, 48u8, 48u8, hex_digit(b >> 4), hex_digit(b & 15)]
    } else {
        seq![b]
    }
}

pub open spec fn json_escape(s: Seq<u8>) -> Seq<u8>
    decreases s.len(),
{
    if s.len() == 0 {
        Seq::empty()
    } else {
        json_escape_byte(s[0]) + json_escape(s.skip(1))
    }
}

pub proof fn lemma_json_escape_snoc(s: Seq<u8>, x: u8)
    ensures
        json_escape(s.push(x)) == json_escape(s) + json_escape_byte(x),
    decreases s.len(),
{
    if s.len() == 0 {
        assert(s.push(x)[0] == x);
        assert(s.push(x).skip(1) =~= Seq::<u8>::empty());
        assert(json_escape(s.push(x)) == json_escape_byte(x) + json_escape(s.push(x).skip(1)));
        assert(json_escape_byte(x) + Seq::<u8>::empty() =~= json_escape_byte(x));
        assert(json_escape(s) + json_escape_byte(x) =~= json_escape_byte(x));
    } else {
        assert(s.push(x).skip(1) =~= s.skip(1).push(x));
        lemma_json_escape_snoc(s.skip(1), x);
        assert(json_escape(s.push(x)) == json_escape_byte(s[0]) + (json_escape(s.skip(1))
            + json_escape_byte(x)));
        assert(json_escape_byte(s[0]) + (json_escape(s.skip(1)) + json_escape_byte(x))
            =~= (json_escape_byte(s[0]) + json_escape(s.skip(1))) + json_escape_byte(x));
    }
}

/// Appends the JSON escape of `s` to `out`.
pub fn append_json_escaped(out: &mut Vec<u8>, s: &Vec<u8>)
    ensures
        final(out)@ == old(out)@ + json_escape(s@),
{
    let mut i: usize = 0;
    proof {
        assert(s@.take(0) =~= Seq::<u8>::empty());
        assert(old(out)@ + json_escape(s@.take(0)) =~= old(out)@);
    }
    while i < s.len()
        invariant
            0 <= i <= s@.len(),
            out@ == old(out)@ + json_escape(s@.take(i as int)),
        decreases s@.len() - i,
    {
        let b = s[i];
        if b == 34 {
            out.push(92);
            out.push(34);
        } else if b == 92 {
            out.push(92);
            out.push(92);
        } else if b == 8 {
            out.push(92);
            out.push(98);
        } else if b == 9 {
            out.push(92);
            out.push(116);
        } else if b == 10 {
            out.push(92);
            out.push(110);
        } else if b == 12 {
            out.push(92);
            out.push(102);
        } else if b == 13 {
            out.push(92);
            out.push(114);
        } else if b < 32 {
            out.push(92);
            out.push(117);
            out.push(48);
            out.push(48);
            let hi = b >> 4;
            let lo = b & 15;
            proof {
                assert(b >> 4 < 16 && b & 15 < 16) by (bit_vector);
            }
            out.push(if hi < 10 {
                48 + hi
            } else {
                87 + hi
            });
            out.push(if lo < 10 {
                48 + lo
            } else {
                87 + lo
            });
        } else {
            out.push(b);
        }
        proof {
            lemma_json_escape_snoc(s@.take(i as int), s@[i as int]);
            assert(s@.take(i + 1) =~= s@.take(i as int).push(s@[i as int]));
            assert(out@ =~= old(out)@ + json_escape(s@.take(i + 1)));
        }
        i = i + 1;
    }
    proof {
        assert(s@.take(s@.len() as int) =~= s@);
    }
}

// ---------------------------------------------------------------------------
// Credentials
// ---------------------------------------------------------------------------
/// The credential triple sent in CONNECT, selected by precedence:
/// a JWT (with optional signature) beats a token, which beats user/pass.
pub enum Credentials {
    UserPass { user: Vec<u8>, pass: Vec<u8> },
    Token { token: Vec<u8> },
    Jwt { jwt: Vec<u8>, sig: Option<Vec<u8>> },
}

pub open spec fn s_default_user() -> Seq<u8> {
    "subscriber".spec_bytes()
}

pub open spec fn s_default_pass() -> Seq<u8> {
    "OktDhmZ2D3CtYUiM".spec_bytes()
}

/// The raw environment values credentials are drawn from; `password` is the
/// long-form alternative to `pass`.
pub struct RawConnectEnv {
    pub user: Option<Vec<u8>>,
    pub pass: Option<Vec<u8>>,
    pub password: Option<Vec<u8>>,
    pub token: Option<Vec<u8>>,
    pub jwt: Option<Vec<u8>>,
    pub sig: Option<Vec<u8>>,
}

pub open spec fn spec_resolved_user(raw: RawConnectEnv) -> Seq<u8> {
    match raw.user {
        Some(u) => u@,
        None => s_default_user(),
    }
}

pub open spec fn spec_resolved_pass(raw: RawConnectEnv) -> Seq<u8> {
    match raw.pass {
        Some(p) => p@,
        None => match raw.password {
            Some(p) => p@,
            None => s_default_pass(),
        },
    }
}

impl Credentials {
    /// Selects credentials from the raw environment values: a set JWT wins
    /// (carrying the signature only if it is set too), else a set token,
    /// else user/pass with their defaults.
    pub fn from_env(raw: &RawConnectEnv) -> (r: Self)
        ensures
            raw.jwt matches Some(j) ==> (r matches Credentials::Jwt { jwt, sig } && jwt@ == j@
                && (match (sig, raw.sig) {
                (Some(a), Some(b)) => a@ == b@,
                (None, None) => true,
                _ => false,
            })),
            raw.jwt is None && raw.token is Some ==> (r matches Credentials::Token { token }
                && token@ == raw.token->0@),
            raw.jwt is None && raw.token is None ==> (r matches Credentials::UserPass { user, pass }
                && user@ == spec_resolved_user(*raw) && pass@ == spec_resolved_pass(*raw)),
    {
        match &raw.jwt {
            Some(j) => Credentials::Jwt {
                jwt: clone_bytes(j),
                sig: crate::bytes::clone_opt_bytes(&raw.sig),
            },
            None => match &raw.token {
                Some(t) => Credentials::Token { token: clone_bytes(t) },
                None => {
                    let user = match &raw.user {
                        Some(u) => clone_bytes(u),
                        None => "subscriber".as_bytes_vec(),
                    };
                    let pass = match &raw.pass {
                        Some(p) => clone_bytes(p),
                        None => match &raw.password {
                            Some(p) => clone_bytes(p),
                            None => "OktDhmZ2D3CtYUiM".as_bytes_vec(),
                        },
                    };
                    Credentials::UserPass { user, pass }
                },
            },
        }
    }
}

// ---------------------------------------------------------------------------
// The CONNECT line
// ---------------------------------------------------------------------------
pub open spec fn s_cn_up1() -> Seq<u8> {
    "CONNECT {\"headers\":true,\"lang\":\"nats.ws\",\"no_responders\":true,\"pass\":\"".spec_bytes()
}

pub open spec fn s_cn_up2() -> Seq<u8> {
    "\",\"pedantic\":false,\"protocol\":1,\"user\":\"".spec_bytes()
}

pub open spec fn s_cn_up3() -> Seq<u8> {
    "\",\"verbose\":false,\"version\":\"1.30.3\"}\r\n".spec_bytes()
}

pub open spec fn s_cn_tk1() -> Seq<u8> {
    "CONNECT {\"auth_token\":\"".spec_bytes()
}

pub open spec fn s_cn_tk2() -> Seq<u8> {
    "\",\"headers\":true,\"lang\":\"nats.ws\",\"no_responders\":true,\"pedantic\":false,\"protocol\":1,\"verbose\":false,\"version\":\"1.30.3\"}\r\n".spec_bytes()
}

pub open spec fn s_cn_jw1() -> Seq<u8> {
    "CONNECT {\"headers\":true,\"jwt\":\"".spec_bytes()
}

pub open spec fn s_cn_jw2() -> Seq<u8> {
    "\",\"lang\":\"nats.ws\",\"no_responders\":true,\"pedantic\":false,\"protocol\":1,\"verbose\":false,\"version\":\"1.30.3\"}\r\n".spec_bytes()
}

pub open spec fn s_cn_js2() -> Seq<u8> {
    "\",\"lang\":\"nats.ws\",\"no_responders\":true,\"pedantic\":false,\"protocol\":1,\"sig\":\"".spec_bytes()
}

pub open spec fn s_cn_js3() -> Seq<u8> {
    "\",\"verbose\":false,\"version\":\"1.30.3\"}\r\n".spec_bytes()
}

/// The exact bytes of the CONNECT command for the selected credentials:
/// fixed options (`no_responders`, `protocol` 1, `verbose` and `pedantic`
/// off, `headers` on, the client language and version), the credential
/// fields JSON-escaped, keys in sorted order, CRLF-terminated.
pub open spec fn connect_line_spec(c: Credentials) -> Seq<u8> {
    match c {
        Credentials::UserPass { user, pass } => s_cn_up1() + json_escape(pass@) + s_cn_up2()
            + json_escape(user@) + s_cn_up3(),
        Credentials::Token { token } => s_cn_tk1() + json_escape(token@) + s_cn_tk2(),
        Credentials::Jwt { jwt, sig: None } => s_cn_jw1() + json_escape(jwt@) + s_cn_jw2(),
        Credentials::Jwt { jwt, sig: Some(s) } => s_cn_jw1() + json_escape(jwt@) + s_cn_js2()
            + json_escape(s@) + s_cn_js3(),
    }
}

/// Builds the CONNECT command, byte for byte as `connect_line_spec` says.
pub fn connect_line(c: &Credentials) -> (r: Vec<u8>)
    ensures
        r@ == connect_line_spec(*c),
{
    match c {
        Credentials::UserPass { user, pass } => {
            let mut out =
                "CONNECT {\"headers\":true,\"lang\":\"nats.ws\",\"no_responders\":true,\"pass\":\"".as_bytes_vec();
            append_json_escaped(&mut out, pass);
            let mid = "\",\"pedantic\":false,\"protocol\":1,\"user\":\"".as_bytes_vec();
            append_bytes(&mut out, &mid);
            append_json_escaped(&mut out, user);
            let tail = "\",\"verbose\":false,\"version\":\"1.30.3\"}\r\n".as_bytes_vec();
            append_bytes(&mut out, &tail);
            proof {
                assert(out@ =~= connect_line_spec(*c));
            }
            out
        },
        Credentials::Token { token } => {
            let mut out = "CONNECT {\"auth_token\":\"".as_bytes_vec();
            append_json_escaped(&mut out, token);
            let tail =
                "\",\"headers\":true,\"lang\":\"nats.ws\",\"no_responders\":true,\"pedantic\":false,\"protocol\":1,\"verbose\":false,\"version\":\"1.30.3\"}\r\n".as_bytes_vec();
            append_bytes(&mut out, &tail);
            proof {
                assert(out@ =~= connect_line_spec(*c));
            }
            out
        },
        Credentials::Jwt { jwt, sig } => {
            let mut out = "CONNECT {\"headers\":true,\"jwt\":\"".as_bytes_vec();
            append_json_escaped(&mut out, jwt);
            match sig {
                None => {
                    let tail =
                        "\",\"lang\":\"nats.ws\",\"no_responders\":true,\"pedantic\":false,\"protocol\":1,\"verbose\":false,\"version\":\"1.30.3\"}\r\n".as_bytes_vec();
                    append_bytes(&mut out, &tail);
                },
                Some(s) => {
                    let mid =
                        "\",\"lang\":\"nats.ws\",\"no_responders\":true,\"pedantic\":false,\"protocol\":1,\"sig\":\"".as_bytes_vec();
                    append_bytes(&mut out, &mid);
                    append_json_escaped(&mut out, s);
                    let tail = "\",\"verbose\":false,\"version\":\"1.30.3\"}\r\n".as_bytes_vec();
                    append_bytes(&mut out, &tail);
                },
            }
            proof {
                assert(out@ =~= connect_line_spec(*c));
            }
            out
        },
    }
}

} // verus!
