//! The session: consumes frames, answers heartbeats, performs the
//! handshake on the first INFO frame — CONNECT, the two subscriptions, an
//! initial PING, in that order — and hands deliveries on. A server error
//! frame is fatal and ends the connection.
use vstd::prelude::*;
use vstd::string::StrSliceExecFns;
use vstd::string::StringSliceAdditionalSpecFns;

use crate::bytes::bytes_eq;
use crate::bytes::clone_bytes;
use crate::bytes::lex_leq;
use crate::bytes::sort_byte_vecs;
use crate::bytes::views2;
use crate::config::ValidateConfig;
use crate::connect::Credentials;
use crate::connect::connect_line;
use crate::connect::connect_line_spec;
use crate::framer::Frame;
use crate::framer::FrameModel;
use crate::framer::Message;
use crate::framer::MessageModel;
use crate::jsonio::json_info_keys_of;
use crate::records::InfoJson;
use crate::records::InfoJsonModel;
use crate::records::LogRecord;
use crate::records::RecordModel;

verus! {

// ---------------------------------------------------------------------------
// Outbound command lines
// ---------------------------------------------------------------------------
pub open spec fn s_pong_line() -> Seq<u8> {
    "PONG\r\n".spec_bytes()
}

pub open spec fn s_sub_coin_created() -> Seq<u8> {
    "SUB advancedNewCoinCreated 4\r\n".spec_bytes()
}

pub open spec fn s_sub_image_updated() -> Seq<u8> {
    "SUB coinImageUpdated.> 2\r\n".spec_bytes()
}

pub open spec fn s_ping_line() -> Seq<u8> {
    "PING\r\n".spec_bytes()
}

pub fn tok_pong_line() -> (r: Vec<u8>)
    ensures
        r@ == s_pong_line(),
{
    "PONG\r\n".as_bytes_vec()
}

// ---------------------------------------------------------------------------
// Actions
// ---------------------------------------------------------------------------
/// What the session asks its caller to do: write bytes to the transport,
/// emit a log record, or hand a delivered message to the dispatcher.
pub enum Action {
    Send(Vec<u8>),
    Emit(LogRecord),
    Deliver(Message),
}

pub ghost enum ActionModel {
    Send(Seq<u8>),
    Emit(RecordModel),
    Deliver(MessageModel),
}

impl View for Action {
    type V = ActionModel;

    open spec fn view(&self) -> ActionModel {
        match self {
            Action::Send(b) => ActionModel::Send(b@),
            Action::Emit(r) => ActionModel::Emit(r@),
            Action::Deliver(m) => ActionModel::Deliver(m@),
        }
    }
}

pub open spec fn actions_view(v: Vec<Action>) -> Seq<ActionModel> {
    Seq::new(v@.len(), |i: int| v@[i]@)
}

/// What one frame led to: actions in order, and the fatal error text if
/// the connection must end.
pub struct SessionStep {
    pub actions: Vec<Action>,
    pub fatal: Option<Vec<u8>>,
}

// ---------------------------------------------------------------------------
// The INFO handshake
// ---------------------------------------------------------------------------
/// The four commands of the handshake, in the order they are sent.
pub open spec fn handshake_sends(creds: Credentials) -> Seq<ActionModel> {
    seq![
        ActionModel::Send(connect_line_spec(creds)),
        ActionModel::Send(s_sub_coin_created()),
        ActionModel::Send(s_sub_image_updated()),
        ActionModel::Send(s_ping_line()),
    ]
}

/// One `info_key_missing` record per required key not among the server's.
pub open spec fn missing_key_records(req: Seq<Seq<u8>>, keys: Seq<Seq<u8>>) -> Seq<RecordModel>
    decreases req.len(),
{
    if req.len() == 0 {
        Seq::empty()
    } else {
        let head = if !keys.contains(req[0]) {
            seq![RecordModel::ValidationInfoKeyMissing { key: req[0] }]
        } else {
            Seq::<RecordModel>::empty()
        };
        head + missing_key_records(req.skip(1), keys)
    }
}

/// The actions of the first INFO frame: a `server_info` record when the
/// payload is JSON — for an object the keys sorted into byte-lexicographic
/// order, else no keys — the missing-key validation records for an object
/// when validation is on, then the four handshake commands.
pub open spec fn info_actions(
    outcome: InfoJsonModel,
    vcfg: ValidateConfig,
    creds: Credentials,
) -> Seq<ActionModel> {
    match outcome {
        InfoJsonModel::Invalid => handshake_sends(creds),
        InfoJsonModel::NotObject => seq![
            ActionModel::Emit(RecordModel::ServerInfo { info_keys: Seq::empty() }),
        ] + handshake_sends(creds),
        InfoJsonModel::Object(keys) => {
            let sorted = keys.sort_by(lex_leq());
            let validations = if vcfg.enabled {
                missing_key_records(views2(vcfg.require_info_keys), sorted)
            } else {
                Seq::<RecordModel>::empty()
            };
            seq![ActionModel::Emit(RecordModel::ServerInfo { info_keys: sorted })] + validations.map_values(
                |r: RecordModel| ActionModel::Emit(r),
            ) + handshake_sends(creds)
        },
    }
}

// ---------------------------------------------------------------------------
// The session
// ---------------------------------------------------------------------------
pub struct Session {
    pub connected: bool,
    pub creds: Credentials,
    pub vcfg: ValidateConfig,
}

impl Session {
    pub fn new(creds: Credentials, vcfg: ValidateConfig) -> (r: Self)
        ensures
            !r.connected,
            r.creds == creds,
            r.vcfg == vcfg,
    {
        Session { connected: false, creds, vcfg }
    }

    /// Consumes one frame. A PING is answered with PONG; a PONG is
    /// ignored; a server error is fatal, carrying the error line; the
    /// first INFO triggers the handshake and marks the session connected,
    /// later INFO frames are ignored; a delivery is handed on.
    pub fn on_frame(&mut self, frame: Frame) -> (r: SessionStep)
        ensures
            final(self).creds == old(self).creds,
            final(self).vcfg == old(self).vcfg,
            final(self).connected == (old(self).connected || frame@ is Info),
            frame@ is Ping ==> actions_view(r.actions) == seq![ActionModel::Send(s_pong_line())]
                && r.fatal is None,
            frame@ is Pong ==> actions_view(r.actions) == Seq::<ActionModel>::empty()
                && r.fatal is None,
            frame@ matches FrameModel::ServerErr(line) ==> actions_view(r.actions)
                == Seq::<ActionModel>::empty() && (r.fatal matches Some(e) && e@ == line),
            frame@ matches FrameModel::Delivery(m) ==> actions_view(r.actions) == seq![
                ActionModel::Deliver(m),
            ] && r.fatal is None,
            frame@ matches FrameModel::Info(j) ==> r.fatal is None && (if old(self).connected {
                actions_view(r.actions) == Seq::<ActionModel>::empty()
            } else {
                actions_view(r.actions) == info_actions(
                    json_info_keys_of(j),
                    old(self).vcfg,
                    old(self).creds,
                )
            }),
    {
        match frame {
            Frame::Ping => {
                let mut actions: Vec<Action> = Vec::new();
                actions.push(Action::Send(tok_pong_line()));
                proof {
                    assert(actions_view(actions) =~= seq![ActionModel::Send(s_pong_line())]);
                }
                SessionStep { actions, fatal: None }
            },
            Frame::Pong => {
                let actions: Vec<Action> = Vec::new();
                proof {
                    assert(actions_view(actions) =~= Seq::<ActionModel>::empty());
                }
                SessionStep { actions, fatal: None }
            },
            Frame::ServerErr(line) => {
                let actions: Vec<Action> = Vec::new();
                proof {
                    assert(actions_view(actions) =~= Seq::<ActionModel>::empty());
                }
                SessionStep { actions, fatal: Some(line) }
            },
            Frame::Delivery(m) => {
                let ghost mm = m@;
                let mut actions: Vec<Action> = Vec::new();
                actions.push(Action::Deliver(m));
                proof {
                    assert(actions_view(actions) =~= seq![ActionModel::Deliver(mm)]);
                }
                SessionStep { actions, fatal: None }
            },
            Frame::Info(j) => {
                if self.connected {
                    let actions: Vec<Action> = Vec::new();
                    proof {
                        assert(actions_view(actions) =~= Seq::<ActionModel>::empty());
                    }
                    return SessionStep { actions, fatal: None };
                }
                let r = self.handshake(&j);
                self.connected = true;
                r
            },
        }
    }

    /// The first-INFO handshake: reads the server metadata — sorting an
    /// object's keys for the snapshot — then sends the CONNECT line, both
    /// subscriptions and the initial PING.
    fn handshake(&self, j: &Vec<u8>) -> (r: SessionStep)
        ensures
            r.fatal is None,
            actions_view(r.actions) == info_actions(json_info_keys_of(j@), self.vcfg, self.creds),
    {
        let mut actions: Vec<Action> = Vec::new();
        let ghost outcome = json_info_keys_of(j@);
        match crate::jsonio::json_info_keys(j) {
            InfoJson::Invalid => {},
            InfoJson::NotObject => {
                let empty_keys: Vec<Vec<u8>> = Vec::new();
                proof {
                    assert(views2(empty_keys) =~= Seq::<Seq<u8>>::empty());
                }
                actions.push(Action::Emit(LogRecord::ServerInfo { info_keys: empty_keys }));
            },
            InfoJson::Object(keys) => {
                let sorted = sort_byte_vecs(&keys);
                let ghost sortedviews = views2(sorted);
                proof {
                    assert(views2(keys) =~= outcome->Object_0);
                }
                let record_keys = clone_keys(&sorted);
                actions.push(Action::Emit(LogRecord::ServerInfo { info_keys: record_keys }));
                proof {
                    assert(actions_view(actions) =~= seq![
                        ActionModel::Emit(RecordModel::ServerInfo { info_keys: sortedviews }),
                    ]);
                }
                if self.vcfg.enabled {
                    push_missing_key_records(&mut actions, &self.vcfg.require_info_keys, &sorted);
                }
            },
        }
        push_handshake_sends(&mut actions, &self.creds);
        proof {
            match outcome {
                InfoJsonModel::Invalid => {
                    assert(actions_view(actions) =~= info_actions(
                        outcome,
                        self.vcfg,
                        self.creds,
                    ));
                },
                InfoJsonModel::NotObject => {
                    assert(actions_view(actions) =~= info_actions(
                        outcome,
                        self.vcfg,
                        self.creds,
                    ));
                },
                InfoJsonModel::Object(keys) => {
                    assert(actions_view(actions) =~~= info_actions(
                        outcome,
                        self.vcfg,
                        self.creds,
                    ));
                },
            }
        }
        SessionStep { actions, fatal: None }
    }
}

/// A copy of a key list.
fn clone_keys(keys: &Vec<Vec<u8>>) -> (r: Vec<Vec<u8>>)
    ensures
        views2(r) == views2(*keys),
{
    let mut r: Vec<Vec<u8>> = Vec::new();
    let mut i: usize = 0;
    while i < keys.len()
        invariant
            0 <= i <= keys@.len(),
            r@.len() == i,
            forall|k: int| 0 <= k < i ==> r@[k]@ == keys@[k]@,
        decreases keys@.len() - i,
    {
        r.push(clone_bytes(&keys[i]));
        i = i + 1;
    }
    proof {
        assert(views2(r) =~= views2(*keys));
    }
    r
}

/// Whether `x` is among `keys`, by contents.
fn keys_contain(keys: &Vec<Vec<u8>>, x: &Vec<u8>) -> (r: bool)
    ensures
        r == views2(*keys).contains(x@),
{
    let mut i: usize = 0;
    while i < keys.len()
        invariant
            0 <= i <= keys@.len(),
            forall|k: int| 0 <= k < i ==> views2(*keys)[k] != x@,
        decreases keys@.len() - i,
    {
        if bytes_eq(&keys[i], x) {
            proof {
                assert(views2(*keys)[i as int] == x@);
            }
            return true;
        }
        proof {
            assert(views2(*keys)[i as int] == keys@[i as int]@);
        }
        i = i + 1;
    }
    proof {
        if views2(*keys).contains(x@) {
            let k = choose|k: int| 0 <= k < views2(*keys).len() && views2(*keys)[k] == x@;
            assert(false);
        }
    }
    false
}

/// Appends one `info_key_missing` record per required key the server did
/// not announce.
fn push_missing_key_records(actions: &mut Vec<Action>, req: &Vec<Vec<u8>>, keys: &Vec<Vec<u8>>)
    ensures
        actions_view(*final(actions)) == actions_view(*old(actions)) + missing_key_records(
            views2(*req),
            views2(*keys),
        ).map_values(|r: RecordModel| ActionModel::Emit(r)),
{
    let mut i: usize = 0;
    proof {
        assert(views2(*req).skip(0) =~= views2(*req));
        assert(actions_view(*actions) =~= actions_view(*old(actions)) + missing_key_records(
            views2(*req),
            views2(*keys),
        ).take(0).map_values(|r: RecordModel| ActionModel::Emit(r)));
    }
    while i < req.len()
        invariant
            0 <= i <= req@.len(),
            actions_view(*actions) + missing_key_records(
                views2(*req).skip(i as int),
                views2(*keys),
            ).map_values(|r: RecordModel| ActionModel::Emit(r)) == actions_view(*old(actions))
                + missing_key_records(views2(*req), views2(*keys)).map_values(
                |r: RecordModel| ActionModel::Emit(r),
            ),
        decreases req@.len() - i,
    {
        let ghost before = actions_view(*actions);
        let ghost reqs = views2(*req);
        let ghost keyset = views2(*keys);
        proof {
            assert(reqs.skip(i as int)[0] == reqs[i as int]);
            assert(reqs.skip(i as int).skip(1) =~= reqs.skip(i + 1));
            assert(reqs[i as int] == req@[i as int]@);
        }
        if !keys_contain(keys, &req[i]) {
            actions.push(
                Action::Emit(LogRecord::ValidationInfoKeyMissing { key: clone_bytes(&req[i]) }),
            );
            proof {
                assert(actions_view(*actions) =~= before.push(
                    ActionModel::Emit(RecordModel::ValidationInfoKeyMissing { key: reqs[i as int] }),
                ));
                assert(missing_key_records(reqs.skip(i as int), keyset) == seq![
                    RecordModel::ValidationInfoKeyMissing { key: reqs[i as int] },
                ] + missing_key_records(reqs.skip(i + 1), keyset));
                assert(actions_view(*actions) + missing_key_records(
                    reqs.skip(i + 1),
                    keyset,
                ).map_values(|r: RecordModel| ActionModel::Emit(r)) =~= before
                    + missing_key_records(reqs.skip(i as int), keyset).map_values(
                    |r: RecordModel| ActionModel::Emit(r),
                ));
            }
        } else {
            proof {
                assert(missing_key_records(reqs.skip(i as int), keyset) == Seq::<
                    RecordModel,
                >::empty() + missing_key_records(reqs.skip(i + 1), keyset));
                assert(Seq::<RecordModel>::empty() + missing_key_records(reqs.skip(i + 1), keyset)
                    =~= missing_key_records(reqs.skip(i + 1), keyset));
            }
        }
        i = i + 1;
    }
    proof {
        assert(missing_key_records(views2(*req).skip(req@.len() as int), views2(*keys))
            =~= Seq::<RecordModel>::empty());
        assert(missing_key_records(
            views2(*req).skip(req@.len() as int),
            views2(*keys),
        ).map_values(|r: RecordModel| ActionModel::Emit(r)) =~= Seq::<ActionModel>::empty());
        assert(actions_view(*actions) + Seq::<ActionModel>::empty() =~= actions_view(*actions));
    }
}

/// Appends the four handshake commands, in order.
fn push_handshake_sends(actions: &mut Vec<Action>, creds: &Credentials)
    ensures
        actions_view(*final(actions)) == actions_view(*old(actions)) + handshake_sends(*creds),
{
    let line = connect_line(creds);
    actions.push(Action::Send(line));
    actions.push(Action::Send("SUB advancedNewCoinCreated 4\r\n".as_bytes_vec()));
    actions.push(Action::Send("SUB coinImageUpdated.> 2\r\n".as_bytes_vec()));
    actions.push(Action::Send("PING\r\n".as_bytes_vec()));
    proof {
        assert(actions_view(*actions) =~= actions_view(*old(actions)) + handshake_sends(*creds));
    }
}

} // verus!
