//! The framer: turns an arbitrarily fragmented byte stream from the
//! transport into discrete broker-protocol frames.
//!
//! Control lines end in CRLF; `MSG` and `HMSG` lines announce a payload of
//! declared length, itself followed by CRLF. The framer buffers partial
//! input, never emits a frame before its payload is complete, and the frames
//! it emits depend only on the concatenation of the bytes fed to it, not on
//! how they were fragmented.
use vstd::prelude::*;
use vstd::string::StrSliceExecFns;
use vstd::string::StringSliceAdditionalSpecFns;

use crate::bytes::clone_bytes;
use crate::bytes::find_crlf;
use crate::bytes::find_crlf_vec;
use crate::bytes::lemma_find_crlf_at_bounds;
use crate::bytes::numeral_body;
use crate::bytes::numeral_val;
use crate::bytes::parse_usize;
use crate::bytes::valid_numeral;
use crate::bytes::seq_starts_with;
use crate::bytes::split_ws;
use crate::bytes::starts_with_bytes;
use crate::bytes::tokenize;
use crate::bytes::vec_sub;
use crate::bytes::views2;

verus! {

// ---------------------------------------------------------------------------
// Wire tokens
// ---------------------------------------------------------------------------
pub open spec fn s_ping() -> Seq<u8> {
    "PING".spec_bytes()
}

pub open spec fn s_pong() -> Seq<u8> {
    "PONG".spec_bytes()
}

pub open spec fn s_err() -> Seq<u8> {
    "-ERR".spec_bytes()
}

pub open spec fn s_info() -> Seq<u8> {
    "INFO ".spec_bytes()
}

pub open spec fn s_msg() -> Seq<u8> {
    "MSG ".spec_bytes()
}

pub open spec fn s_hmsg() -> Seq<u8> {
    "HMSG ".spec_bytes()
}

pub fn tok_ping() -> (r: Vec<u8>)
    ensures
        r@ == s_ping(),
{
    "PING".as_bytes_vec()
}

pub fn tok_pong() -> (r: Vec<u8>)
    ensures
        r@ == s_pong(),
{
    "PONG".as_bytes_vec()
}

pub fn tok_err() -> (r: Vec<u8>)
    ensures
        r@ == s_err(),
{
    "-ERR".as_bytes_vec()
}

pub fn tok_info() -> (r: Vec<u8>)
    ensures
        r@ == s_info(),
{
    "INFO ".as_bytes_vec()
}

pub fn tok_msg() -> (r: Vec<u8>)
    ensures
        r@ == s_msg(),
{
    "MSG ".as_bytes_vec()
}

pub fn tok_hmsg() -> (r: Vec<u8>)
    ensures
        r@ == s_hmsg(),
{
    "HMSG ".as_bytes_vec()
}

// ---------------------------------------------------------------------------
// Data model
// ---------------------------------------------------------------------------
/// One delivered message: subject, optional header block, body.
pub struct Message {
    pub subject: Vec<u8>,
    pub sid: Vec<u8>,
    pub reply: Option<Vec<u8>>,
    /// Header length declared on the control line; zero for `MSG`.
    pub header_len: usize,
    /// Payload length declared on the control line (the total for `HMSG`).
    pub payload_len: usize,
    pub headers: Option<Vec<u8>>,
    pub body: Vec<u8>,
}

pub ghost struct MessageModel {
    pub subject: Seq<u8>,
    pub sid: Seq<u8>,
    pub reply: Option<Seq<u8>>,
    pub header_len: int,
    pub payload_len: int,
    pub headers: Option<Seq<u8>>,
    pub body: Seq<u8>,
}

impl View for Message {
    type V = MessageModel;

    open spec fn view(&self) -> MessageModel {
        MessageModel {
            subject: self.subject@,
            sid: self.sid@,
            reply: match self.reply {
                Some(r) => Some(r@),
                None => None,
            },
            header_len: self.header_len as int,
            payload_len: self.payload_len as int,
            headers: match self.headers {
                Some(h) => Some(h@),
                None => None,
            },
            body: self.body@,
        }
    }
}

/// One frame of the broker protocol, as the session consumes it.
pub enum Frame {
    Info(Vec<u8>),
    Ping,
    Pong,
    ServerErr(Vec<u8>),
    Delivery(Message),
}

pub ghost enum FrameModel {
    Info(Seq<u8>),
    Ping,
    Pong,
    ServerErr(Seq<u8>),
    Delivery(MessageModel),
}

impl View for Frame {
    type V = FrameModel;

    open spec fn view(&self) -> FrameModel {
        match self {
            Frame::Info(j) => FrameModel::Info(j@),
            Frame::Ping => FrameModel::Ping,
            Frame::Pong => FrameModel::Pong,
            Frame::ServerErr(l) => FrameModel::ServerErr(l@),
            Frame::Delivery(m) => FrameModel::Delivery(m@),
        }
    }
}

/// A fatal framing fault; each variant carries the offending control line.
pub enum ProtoError {
    BadMsgHeader(Vec<u8>),
    BadMsgLength(Vec<u8>),
    BadHMsgHeader(Vec<u8>),
    BadHMsgHeaderLength(Vec<u8>),
    BadHMsgTotalLength(Vec<u8>),
    HeaderLongerThanPayload(Vec<u8>),
}

pub ghost enum ProtoErrorModel {
    BadMsgHeader(Seq<u8>),
    BadMsgLength(Seq<u8>),
    BadHMsgHeader(Seq<u8>),
    BadHMsgHeaderLength(Seq<u8>),
    BadHMsgTotalLength(Seq<u8>),
    HeaderLongerThanPayload(Seq<u8>),
}

impl View for ProtoError {
    type V = ProtoErrorModel;

    open spec fn view(&self) -> ProtoErrorModel {
        match self {
            ProtoError::BadMsgHeader(l) => ProtoErrorModel::BadMsgHeader(l@),
            ProtoError::BadMsgLength(l) => ProtoErrorModel::BadMsgLength(l@),
            ProtoError::BadHMsgHeader(l) => ProtoErrorModel::BadHMsgHeader(l@),
            ProtoError::BadHMsgHeaderLength(l) => ProtoErrorModel::BadHMsgHeaderLength(l@),
            ProtoError::BadHMsgTotalLength(l) => ProtoErrorModel::BadHMsgTotalLength(l@),
            ProtoError::HeaderLongerThanPayload(l) => ProtoErrorModel::HeaderLongerThanPayload(l@),
        }
    }
}

/// A pending `MSG`/`HMSG` whose payload is not yet buffered.
pub struct Pending {
    pub subject: Vec<u8>,
    pub sid: Vec<u8>,
    pub reply: Option<Vec<u8>>,
    pub header_len: usize,
    pub payload_len: usize,
    pub with_headers: bool,
}

pub ghost struct PendingModel {
    pub subject: Seq<u8>,
    pub sid: Seq<u8>,
    pub reply: Option<Seq<u8>>,
    pub header_len: int,
    pub payload_len: int,
    pub with_headers: bool,
}

impl View for Pending {
    type V = PendingModel;

    open spec fn view(&self) -> PendingModel {
        PendingModel {
            subject: self.subject@,
            sid: self.sid@,
            reply: match self.reply {
                Some(r) => Some(r@),
                None => None,
            },
            header_len: self.header_len as int,
            payload_len: self.payload_len as int,
            with_headers: self.with_headers,
        }
    }
}

pub open spec fn pending_wf(p: PendingModel) -> bool {
    &&& 0 <= p.header_len <= p.payload_len <= usize::MAX
    &&& (!p.with_headers ==> p.header_len == 0)
}

// ---------------------------------------------------------------------------
// Control-line classification
// ---------------------------------------------------------------------------
pub ghost enum LineStep {
    SkipLine,
    Emit(FrameModel),
    Begin(PendingModel),
    Fail(ProtoErrorModel),
}

/// Reading of a `MSG` control line: subject, sid, optional reply, then the
/// payload length (a decimal numeral, one leading plus sign allowed); the
/// reply token is present exactly when five or more tokens are.
pub open spec fn parse_msg_args(line: Seq<u8>) -> LineStep {
    let toks = tokenize(line);
    if toks.len() < 4 {
        LineStep::Fail(ProtoErrorModel::BadMsgHeader(line))
    } else {
        let reply = if toks.len() >= 5 {
            Some(toks[3])
        } else {
            None
        };
        let len_tok = if toks.len() >= 5 {
            toks[4]
        } else {
            toks[3]
        };
        if valid_numeral(len_tok) && numeral_val(len_tok) <= usize::MAX {
            LineStep::Begin(
                PendingModel {
                    subject: toks[1],
                    sid: toks[2],
                    reply,
                    header_len: 0,
                    payload_len: numeral_val(len_tok),
                    with_headers: false,
                },
            )
        } else {
            LineStep::Fail(ProtoErrorModel::BadMsgLength(line))
        }
    }
}

/// Reading of an `HMSG` control line: as `MSG`, with a header length before
/// the total length; the reply token is present exactly when six or more
/// tokens are. A header length above the total is fatal.
pub open spec fn parse_hmsg_args(line: Seq<u8>) -> LineStep {
    let toks = tokenize(line);
    if toks.len() < 5 {
        LineStep::Fail(ProtoErrorModel::BadHMsgHeader(line))
    } else {
        let reply = if toks.len() >= 6 {
            Some(toks[3])
        } else {
            None
        };
        let hdr_tok = if toks.len() >= 6 {
            toks[4]
        } else {
            toks[3]
        };
        let total_tok = if toks.len() >= 6 {
            toks[5]
        } else {
            toks[4]
        };
        if !(valid_numeral(hdr_tok) && numeral_val(hdr_tok) <= usize::MAX) {
            LineStep::Fail(ProtoErrorModel::BadHMsgHeaderLength(line))
        } else if !(valid_numeral(total_tok) && numeral_val(total_tok) <= usize::MAX) {
            LineStep::Fail(ProtoErrorModel::BadHMsgTotalLength(line))
        } else if numeral_val(hdr_tok) > numeral_val(total_tok) {
            LineStep::Fail(ProtoErrorModel::HeaderLongerThanPayload(line))
        } else {
            LineStep::Begin(
                PendingModel {
                    subject: toks[1],
                    sid: toks[2],
                    reply,
                    header_len: numeral_val(hdr_tok),
                    payload_len: numeral_val(total_tok),
                    with_headers: true,
                },
            )
        }
    }
}

/// Classification of one complete control line, in the order the tokens are
/// tried on the wire: empty and unknown lines are skipped.
pub open spec fn parse_line(line: Seq<u8>) -> LineStep {
    if line.len() == 0 {
        LineStep::SkipLine
    } else if seq_starts_with(line, s_ping()) {
        LineStep::Emit(FrameModel::Ping)
    } else if seq_starts_with(line, s_pong()) {
        LineStep::Emit(FrameModel::Pong)
    } else if seq_starts_with(line, s_err()) {
        LineStep::Emit(FrameModel::ServerErr(line))
    } else if seq_starts_with(line, s_info()) {
        LineStep::Emit(FrameModel::Info(line.skip(s_info().len() as int)))
    } else if seq_starts_with(line, s_msg()) {
        parse_msg_args(line)
    } else if seq_starts_with(line, s_hmsg()) {
        parse_hmsg_args(line)
    } else {
        LineStep::SkipLine
    }
}

pub enum LineAction {
    SkipLine,
    Emit(Frame),
    Begin(Pending),
    Fail(ProtoError),
}

pub open spec fn line_action_view(a: LineAction) -> LineStep {
    match a {
        LineAction::SkipLine => LineStep::SkipLine,
        LineAction::Emit(f) => LineStep::Emit(f@),
        LineAction::Begin(p) => LineStep::Begin(p@),
        LineAction::Fail(e) => LineStep::Fail(e@),
    }
}

/// Classifies one control line, as `parse_line` describes.
pub fn classify_line(line: &Vec<u8>) -> (r: LineAction)
    ensures
        line_action_view(r) == parse_line(line@),
        r matches LineAction::Begin(p) ==> pending_wf(p@),
{
    if line.len() == 0 {
        return LineAction::SkipLine;
    }
    let ping = tok_ping();
    if starts_with_bytes(line, &ping) {
        return LineAction::Emit(Frame::Ping);
    }
    let pong = tok_pong();
    if starts_with_bytes(line, &pong) {
        return LineAction::Emit(Frame::Pong);
    }
    let err = tok_err();
    if starts_with_bytes(line, &err) {
        return LineAction::Emit(Frame::ServerErr(clone_bytes(line)));
    }
    let info = tok_info();
    if starts_with_bytes(line, &info) {
        let suffix = vec_sub(line, info.len(), line.len());
        proof {
            assert(line@.subrange(s_info().len() as int, line@.len() as int) =~= line@.skip(
                s_info().len() as int,
            ));
        }
        return LineAction::Emit(Frame::Info(suffix));
    }
    let msg = tok_msg();
    if starts_with_bytes(line, &msg) {
        return classify_msg_line(line);
    }
    let hmsg = tok_hmsg();
    if starts_with_bytes(line, &hmsg) {
        return classify_hmsg_line(line);
    }
    LineAction::SkipLine
}

fn classify_msg_line(line: &Vec<u8>) -> (r: LineAction)
    ensures
        line_action_view(r) == parse_msg_args(line@),
        r matches LineAction::Begin(p) ==> pending_wf(p@),
{
    let toks = split_ws(line);
    proof {
        assert(views2(toks) == tokenize(line@));
    }
    if toks.len() < 4 {
        return LineAction::Fail(ProtoError::BadMsgHeader(clone_bytes(line)));
    }
    let reply: Option<Vec<u8>> = if toks.len() >= 5 {
        Some(clone_bytes(&toks[3]))
    } else {
        None
    };
    let len_idx: usize = if toks.len() >= 5 {
        4
    } else {
        3
    };
    proof {
        assert(views2(toks)[len_idx as int] == toks@[len_idx as int]@);
        assert(views2(toks)[1] == toks@[1]@);
        assert(views2(toks)[2] == toks@[2]@);
        if toks@.len() >= 5 {
            assert(views2(toks)[3] == toks@[3]@);
        }
    }
    match parse_usize(&toks[len_idx]) {
        Some(n) => LineAction::Begin(
            Pending {
                subject: clone_bytes(&toks[1]),
                sid: clone_bytes(&toks[2]),
                reply,
                header_len: 0,
                payload_len: n,
                with_headers: false,
            },
        ),
        None => LineAction::Fail(ProtoError::BadMsgLength(clone_bytes(line))),
    }
}

fn classify_hmsg_line(line: &Vec<u8>) -> (r: LineAction)
    ensures
        line_action_view(r) == parse_hmsg_args(line@),
        r matches LineAction::Begin(p) ==> pending_wf(p@),
{
    let toks = split_ws(line);
    proof {
        assert(views2(toks) == tokenize(line@));
    }
    if toks.len() < 5 {
        return LineAction::Fail(ProtoError::BadHMsgHeader(clone_bytes(line)));
    }
    let reply: Option<Vec<u8>> = if toks.len() >= 6 {
        Some(clone_bytes(&toks[3]))
    } else {
        None
    };
    let hdr_idx: usize = if toks.len() >= 6 {
        4
    } else {
        3
    };
    let total_idx: usize = if toks.len() >= 6 {
        5
    } else {
        4
    };
    proof {
        assert(views2(toks)[hdr_idx as int] == toks@[hdr_idx as int]@);
        assert(views2(toks)[total_idx as int] == toks@[total_idx as int]@);
        assert(views2(toks)[1] == toks@[1]@);
        assert(views2(toks)[2] == toks@[2]@);
        if toks@.len() >= 6 {
            assert(views2(toks)[3] == toks@[3]@);
        }
    }
    let hdr_len = match parse_usize(&toks[hdr_idx]) {
        Some(n) => n,
        None => {
            return LineAction::Fail(ProtoError::BadHMsgHeaderLength(clone_bytes(line)));
        },
    };
    let total_len = match parse_usize(&toks[total_idx]) {
        Some(n) => n,
        None => {
            return LineAction::Fail(ProtoError::BadHMsgTotalLength(clone_bytes(line)));
        },
    };
    if hdr_len > total_len {
        return LineAction::Fail(ProtoError::HeaderLongerThanPayload(clone_bytes(line)));
    }
    LineAction::Begin(
        Pending {
            subject: clone_bytes(&toks[1]),
            sid: clone_bytes(&toks[2]),
            reply,
            header_len: hdr_len,
            payload_len: total_len,
            with_headers: true,
        },
    )
}

} // verus!

verus! {

// ---------------------------------------------------------------------------
// The framer's abstract state and its small-step semantics
// ---------------------------------------------------------------------------
pub ghost struct FramerModel {
    pub buf: Seq<u8>,
    pub pending: Option<PendingModel>,
    pub failed: bool,
}

pub open spec fn framer_wf(m: FramerModel) -> bool {
    match m.pending {
        Some(p) => pending_wf(p),
        None => true,
    }
}

pub open spec fn framer_init() -> FramerModel {
    FramerModel { buf: Seq::empty(), pending: None, failed: false }
}

/// The message delivered for pending header `p` once `payload` is buffered:
/// the first `header_len` bytes are the header block, the rest the body.
pub open spec fn msg_of(p: PendingModel, payload: Seq<u8>) -> MessageModel {
    MessageModel {
        subject: p.subject,
        sid: p.sid,
        reply: p.reply,
        header_len: p.header_len,
        payload_len: p.payload_len,
        headers: if p.with_headers {
            Some(payload.take(p.header_len))
        } else {
            None
        },
        body: payload.skip(p.header_len),
    }
}

pub ghost enum StepRes {
    Stuck,
    Next(Option<FrameModel>, FramerModel, Option<ProtoErrorModel>),
}

/// One step of the framer: completes the pending payload if fully buffered
/// (tolerating a missing trailing CRLF by consuming only the payload), else
/// consumes one CRLF-terminated control line; stuck while input is missing.
pub open spec fn step(m: FramerModel) -> StepRes {
    if m.failed {
        StepRes::Stuck
    } else {
        match m.pending {
            Some(p) => {
                if m.buf.len() >= p.payload_len + 2 {
                    let payload = m.buf.take(p.payload_len);
                    let consumed = if m.buf[p.payload_len] == 13 && m.buf[p.payload_len + 1]
                        == 10 {
                        p.payload_len + 2
                    } else {
                        p.payload_len
                    };
                    StepRes::Next(
                        Some(FrameModel::Delivery(msg_of(p, payload))),
                        FramerModel { buf: m.buf.skip(consumed), pending: None, failed: false },
                        None,
                    )
                } else {
                    StepRes::Stuck
                }
            },
            None => {
                match find_crlf(m.buf) {
                    None => StepRes::Stuck,
                    Some(i) => {
                        let line = m.buf.take(i);
                        let rest = m.buf.skip(i + 2);
                        match parse_line(line) {
                            LineStep::SkipLine => StepRes::Next(
                                None,
                                FramerModel { buf: rest, pending: None, failed: false },
                                None,
                            ),
                            LineStep::Emit(f) => StepRes::Next(
                                Some(f),
                                FramerModel { buf: rest, pending: None, failed: false },
                                None,
                            ),
                            LineStep::Begin(p) => StepRes::Next(
                                None,
                                FramerModel { buf: rest, pending: Some(p), failed: false },
                                None,
                            ),
                            LineStep::Fail(e) => StepRes::Next(
                                None,
                                FramerModel { buf: rest, pending: None, failed: true },
                                Some(e),
                            ),
                        }
                    },
                }
            },
        }
    }
}

/// `Begin` steps hand out well-formed pendings: the declared lengths parsed
/// as decimal numerals that fit, and the header never exceeds the payload.
pub proof fn lemma_parse_line_wf(line: Seq<u8>)
    ensures
        parse_line(line) matches LineStep::Begin(p) ==> pending_wf(p),
{
    if parse_line(line) matches LineStep::Begin(p) {
        if seq_starts_with(line, s_msg()) && !seq_starts_with(line, s_ping())
            && !seq_starts_with(line, s_pong()) && !seq_starts_with(line, s_err())
            && !seq_starts_with(line, s_info()) {
            let toks = tokenize(line);
            let len_tok = if toks.len() >= 5 {
                toks[4]
            } else {
                toks[3]
            };
            crate::bytes::lemma_dec_val_nonneg(numeral_body(len_tok));
        } else {
            let toks = tokenize(line);
            let hdr_tok = if toks.len() >= 6 {
                toks[4]
            } else {
                toks[3]
            };
            crate::bytes::lemma_dec_val_nonneg(numeral_body(hdr_tok));
        }
    }
}

pub proof fn lemma_step_wf(m: FramerModel)
    requires
        framer_wf(m),
    ensures
        step(m) matches StepRes::Next(ev, m2, err) ==> framer_wf(m2),
{
    if step(m) matches StepRes::Next(ev, m2, err) {
        match m.pending {
            Some(p) => {},
            None => {
                match find_crlf(m.buf) {
                    None => {},
                    Some(i) => {
                        lemma_parse_line_wf(m.buf.take(i));
                    },
                }
            },
        }
    }
}

pub ghost struct DrainRes {
    pub events: Seq<FrameModel>,
    pub state: FramerModel,
    pub error: Option<ProtoErrorModel>,
}

pub open spec fn opt_frame_seq(ev: Option<FrameModel>) -> Seq<FrameModel> {
    match ev {
        Some(f) => seq![f],
        None => Seq::empty(),
    }
}

pub open spec fn pending_rank(m: FramerModel) -> int {
    if m.pending is Some {
        1
    } else {
        0
    }
}

/// Runs the framer until it is stuck or fails: all frames whose bytes are
/// fully buffered come out, in order; partial input stays in the buffer.
pub open spec fn drain(m: FramerModel) -> DrainRes
    decreases m.buf.len(), pending_rank(m) when framer_wf(m)
{
    match step(m) {
        StepRes::Stuck => DrainRes { events: Seq::empty(), state: m, error: None },
        StepRes::Next(ev, m2, err) => {
            if err is Some {
                DrainRes { events: opt_frame_seq(ev), state: m2, error: err }
            } else {
                proof {
                    lemma_step_wf(m);
                    if m.pending matches Some(p) {
                    } else {
                        crate::bytes::lemma_find_crlf_at_bounds(m.buf, 0);
                    }
                }
                let rec = drain(m2);
                DrainRes {
                    events: opt_frame_seq(ev) + rec.events,
                    state: rec.state,
                    error: rec.error,
                }
            }
        },
    }
}

pub open spec fn with_bytes(m: FramerModel, c: Seq<u8>) -> FramerModel {
    FramerModel { buf: m.buf + c, pending: m.pending, failed: m.failed }
}

/// What one `feed` call does: append the chunk, then drain.
pub open spec fn feed_spec(m: FramerModel, c: Seq<u8>) -> DrainRes {
    drain(with_bytes(m, c))
}

} // verus!

verus! {

// ---------------------------------------------------------------------------
// The executable framer
// ---------------------------------------------------------------------------
pub struct Framer {
    pub buf: Vec<u8>,
    pub pending: Option<Pending>,
    pub failed: bool,
}

impl View for Framer {
    type V = FramerModel;

    open spec fn view(&self) -> FramerModel {
        FramerModel {
            buf: self.buf@,
            pending: match self.pending {
                Some(p) => Some(p@),
                None => None,
            },
            failed: self.failed,
        }
    }
}

pub open spec fn frames_view(v: Vec<Frame>) -> Seq<FrameModel> {
    Seq::new(v@.len(), |i: int| v@[i]@)
}

pub open spec fn opt_err_view(e: Option<ProtoError>) -> Option<ProtoErrorModel> {
    match e {
        Some(x) => Some(x@),
        None => None,
    }
}

/// What one call to `Framer::feed` produced: the completed frames, and the
/// fatal framing fault if one was hit (the framer then stays failed).
pub struct FeedResult {
    pub frames: Vec<Frame>,
    pub error: Option<ProtoError>,
}

impl Framer {
    pub fn new() -> (r: Self)
        ensures
            r@ == framer_init(),
            framer_wf(r@),
    {
        Framer { buf: Vec::new(), pending: None, failed: false }
    }

    /// Feeds one chunk of transport bytes and drains every frame that is now
    /// complete, exactly as `feed_spec` describes.
    pub fn feed(&mut self, chunk: &Vec<u8>) -> (out: FeedResult)
        requires
            framer_wf(old(self)@),
        ensures
            framer_wf(final(self)@),
            frames_view(out.frames) == feed_spec(old(self)@, chunk@).events,
            final(self)@ == feed_spec(old(self)@, chunk@).state,
            opt_err_view(out.error) == feed_spec(old(self)@, chunk@).error,
    {
        crate::bytes::append_bytes(&mut self.buf, chunk);
        let ghost m0 = self@;
        proof {
            assert(m0 == with_bytes(old(self)@, chunk@));
        }
        let mut frames: Vec<Frame> = Vec::new();
        let mut error: Option<ProtoError> = None;
        proof {
            assert(frames_view(frames) =~= Seq::<FrameModel>::empty());
            assert(Seq::<FrameModel>::empty() + drain(m0).events =~= drain(m0).events);
        }
        loop
            invariant_except_break
                framer_wf(self@),
                error is None,
                drain(m0) == (DrainRes {
                    events: frames_view(frames) + drain(self@).events,
                    state: drain(self@).state,
                    error: drain(self@).error,
                }),
            ensures
                framer_wf(self@),
                drain(m0) == (DrainRes {
                    events: frames_view(frames),
                    state: self@,
                    error: opt_err_view(error),
                }),
            decreases self@.buf.len(), pending_rank(self@),
        {
            let ghost cur = self@;
            if self.failed {
                proof {
                    assert(step(cur) is Stuck);
                    assert(drain(cur) == (DrainRes {
                        events: Seq::<FrameModel>::empty(),
                        state: cur,
                        error: None,
                    }));
                    assert(frames_view(frames) + Seq::<FrameModel>::empty() =~= frames_view(
                        frames,
                    ));
                }
                break ;
            }
            let is_pending = self.pending.is_some();
            if is_pending {
                let plen = match &self.pending {
                    Some(p) => p.payload_len,
                    None => 0,
                };
                if !(self.buf.len() >= plen && self.buf.len() - plen >= 2) {
                    proof {
                        assert(step(cur) is Stuck);
                        assert(drain(cur) == (DrainRes {
                            events: Seq::<FrameModel>::empty(),
                            state: cur,
                            error: None,
                        }));
                        assert(frames_view(frames) + Seq::<FrameModel>::empty() =~= frames_view(
                            frames,
                        ));
                    }
                    break ;
                }
                let p = self.pending.take().unwrap();
                let ghost pm = p@;
                let payload = vec_sub(&self.buf, 0, plen);
                let crlf_follows = self.buf[plen] == 13 && self.buf[plen + 1] == 10;
                let consumed = if crlf_follows {
                    plen + 2
                } else {
                    plen
                };
                let newbuf = vec_sub(&self.buf, consumed, self.buf.len());
                self.buf = newbuf;
                let headers = if p.with_headers {
                    Some(vec_sub(&payload, 0, p.header_len))
                } else {
                    None
                };
                let body = vec_sub(&payload, p.header_len, payload.len());
                let msg = Message {
                    subject: p.subject,
                    sid: p.sid,
                    reply: p.reply,
                    header_len: p.header_len,
                    payload_len: p.payload_len,
                    headers,
                    body,
                };
                proof {
                    assert(payload@ == cur.buf.take(pm.payload_len));
                    assert(msg@ == msg_of(pm, payload@));
                    assert(self@ == (FramerModel {
                        buf: cur.buf.skip(
                            if cur.buf[pm.payload_len] == 13 && cur.buf[pm.payload_len + 1]
                                == 10 {
                                pm.payload_len + 2
                            } else {
                                pm.payload_len
                            },
                        ),
                        pending: None,
                        failed: false,
                    }));
                    assert(step(cur) == StepRes::Next(
                        Some(FrameModel::Delivery(msg@)),
                        self@,
                        None::<ProtoErrorModel>,
                    ));
                    assert(drain(cur) == (DrainRes {
                        events: opt_frame_seq(Some(FrameModel::Delivery(msg@))) + drain(
                            self@,
                        ).events,
                        state: drain(self@).state,
                        error: drain(self@).error,
                    }));
                }
                let ghost frames_before = frames;
                frames.push(Frame::Delivery(msg));
                proof {
                    assert(frames_view(frames) =~= frames_view(frames_before).push(
                        FrameModel::Delivery(msg@),
                    ));
                    assert(frames_view(frames) + drain(self@).events =~= frames_view(frames_before)
                        + (opt_frame_seq(Some(FrameModel::Delivery(msg@))) + drain(self@).events));
                }
            } else {
                match find_crlf_vec(&self.buf) {
                    None => {
                        proof {
                            assert(step(cur) is Stuck);
                            assert(drain(cur) == (DrainRes {
                                events: Seq::<FrameModel>::empty(),
                                state: cur,
                                error: None,
                            }));
                            assert(frames_view(frames) + Seq::<FrameModel>::empty()
                                =~= frames_view(frames));
                        }
                        break ;
                    },
                    Some(i) => {
                        let blen = self.buf.len();
                        proof {
                            lemma_find_crlf_at_bounds(self@.buf, 0);
                            assert(i + 2 <= blen);
                        }
                        let line = vec_sub(&self.buf, 0, i);
                        let newbuf = vec_sub(&self.buf, i + 2, blen);
                        self.buf = newbuf;
                        proof {
                            assert(line@ == cur.buf.take(i as int));
                            assert(self@.buf == cur.buf.skip(i + 2));
                        }
                        match classify_line(&line) {
                            LineAction::SkipLine => {
                                proof {
                                    assert(step(cur) == StepRes::Next(
                                        None::<FrameModel>,
                                        self@,
                                        None::<ProtoErrorModel>,
                                    ));
                                    assert(drain(cur) == (DrainRes {
                                        events: opt_frame_seq(None) + drain(self@).events,
                                        state: drain(self@).state,
                                        error: drain(self@).error,
                                    }));
                                    assert(opt_frame_seq(None) + drain(self@).events =~= drain(
                                        self@,
                                    ).events);
                                }
                            },
                            LineAction::Emit(f) => {
                                let ghost fm = f@;
                                proof {
                                    assert(step(cur) == StepRes::Next(
                                        Some(fm),
                                        self@,
                                        None::<ProtoErrorModel>,
                                    ));
                                    assert(drain(cur) == (DrainRes {
                                        events: opt_frame_seq(Some(fm)) + drain(self@).events,
                                        state: drain(self@).state,
                                        error: drain(self@).error,
                                    }));
                                }
                                let ghost frames_before = frames;
                                frames.push(f);
                                proof {
                                    assert(frames_view(frames) =~= frames_view(
                                        frames_before,
                                    ).push(fm));
                                    assert(frames_view(frames) + drain(self@).events
                                        =~= frames_view(frames_before) + (opt_frame_seq(Some(fm))
                                        + drain(self@).events));
                                }
                            },
                            LineAction::Begin(p) => {
                                let ghost pm = p@;
                                self.pending = Some(p);
                                proof {
                                    assert(step(cur) == StepRes::Next(
                                        None::<FrameModel>,
                                        self@,
                                        None::<ProtoErrorModel>,
                                    ));
                                    assert(drain(cur) == (DrainRes {
                                        events: opt_frame_seq(None) + drain(self@).events,
                                        state: drain(self@).state,
                                        error: drain(self@).error,
                                    }));
                                    assert(opt_frame_seq(None) + drain(self@).events =~= drain(
                                        self@,
                                    ).events);
                                }
                            },
                            LineAction::Fail(e) => {
                                self.failed = true;
                                let ghost em = e@;
                                proof {
                                    assert(step(cur) == StepRes::Next(
                                        None::<FrameModel>,
                                        self@,
                                        Some(em),
                                    ));
                                    assert(drain(cur) == (DrainRes {
                                        events: opt_frame_seq(None),
                                        state: self@,
                                        error: Some(em),
                                    }));
                                    assert(frames_view(frames) + opt_frame_seq(None)
                                        =~= frames_view(frames));
                                }
                                error = Some(e);
                                break ;
                            },
                        }
                    },
                }
            }
        }
        FeedResult { frames, error }
    }
}

} // verus!

verus! {

// ---------------------------------------------------------------------------
// Fragmentation-independence
// ---------------------------------------------------------------------------
/// A step that makes progress makes the same progress after more bytes are
/// appended to the buffer: every decision reads only a prefix of the buffer.
pub proof fn lemma_step_extend(m: FramerModel, extra: Seq<u8>)
    requires
        framer_wf(m),
        step(m) is Next,
    ensures
        step(m) matches StepRes::Next(ev, m2, err) ==> step(with_bytes(m, extra))
            == StepRes::Next(ev, with_bytes(m2, extra), err),
{
    let bx = m.buf + extra;
    match m.pending {
        Some(p) => {
            assert(m.buf.len() >= p.payload_len + 2);
            assert(bx.take(p.payload_len) =~= m.buf.take(p.payload_len));
            assert(bx[p.payload_len] == m.buf[p.payload_len]);
            assert(bx[p.payload_len + 1] == m.buf[p.payload_len + 1]);
            let consumed = if m.buf[p.payload_len] == 13 && m.buf[p.payload_len + 1] == 10 {
                p.payload_len + 2
            } else {
                p.payload_len
            };
            assert(bx.skip(consumed) =~= m.buf.skip(consumed) + extra);
        },
        None => {
            match find_crlf(m.buf) {
                None => {},
                Some(i) => {
                    lemma_find_crlf_at_bounds(m.buf, 0);
                    crate::bytes::lemma_find_crlf_at_append(m.buf, extra, 0);
                    assert(bx.take(i) =~= m.buf.take(i));
                    assert(bx.skip(i + 2) =~= m.buf.skip(i + 2) + extra);
                },
            }
        },
    }
}

/// Draining preserves well-formedness of the framer state.
pub proof fn lemma_drain_wf(m: FramerModel)
    requires
        framer_wf(m),
    ensures
        framer_wf(drain(m).state),
    decreases m.buf.len(), pending_rank(m),
{
    match step(m) {
        StepRes::Stuck => {},
        StepRes::Next(ev, m2, err) => {
            lemma_step_wf(m);
            if err is Some {
            } else {
                if m.pending is None {
                    lemma_find_crlf_at_bounds(m.buf, 0);
                }
                lemma_drain_wf(m2);
            }
        },
    }
}

/// Draining a buffer, then appending more bytes and draining again, equals
/// draining the combined buffer: the events concatenate, the final state and
/// the first fault (if any) agree.
pub proof fn lemma_drain_extend(m: FramerModel, extra: Seq<u8>)
    requires
        framer_wf(m),
    ensures
        ({
            let d = drain(m);
            let d2 = drain(with_bytes(d.state, extra));
            drain(with_bytes(m, extra)) == (DrainRes {
                events: d.events + d2.events,
                state: d2.state,
                error: if d.error is Some {
                    d.error
                } else {
                    d2.error
                },
            })
        }),
    decreases m.buf.len(), pending_rank(m),
{
    let mx = with_bytes(m, extra);
    match step(m) {
        StepRes::Stuck => {
            let d2 = drain(mx);
            assert(drain(m) == (DrainRes {
                events: Seq::<FrameModel>::empty(),
                state: m,
                error: None,
            }));
            assert(Seq::<FrameModel>::empty() + d2.events =~= d2.events);
        },
        StepRes::Next(ev, m2, err) => {
            lemma_step_wf(m);
            lemma_step_extend(m, extra);
            if err is Some {
                assert(m2.failed);
                assert(step(with_bytes(m2, extra)) is Stuck);
                assert(drain(with_bytes(m2, extra)) == (DrainRes {
                    events: Seq::<FrameModel>::empty(),
                    state: with_bytes(m2, extra),
                    error: None,
                }));
                assert(drain(m) == (DrainRes { events: opt_frame_seq(ev), state: m2, error: err }));
                assert(drain(mx) == (DrainRes {
                    events: opt_frame_seq(ev),
                    state: with_bytes(m2, extra),
                    error: err,
                }));
                assert(opt_frame_seq(ev) + Seq::<FrameModel>::empty() =~= opt_frame_seq(ev));
            } else {
                if m.pending is None {
                    lemma_find_crlf_at_bounds(m.buf, 0);
                }
                lemma_drain_extend(m2, extra);
                let r = drain(m2);
                let r2 = drain(with_bytes(r.state, extra));
                assert(drain(m) == (DrainRes {
                    events: opt_frame_seq(ev) + r.events,
                    state: r.state,
                    error: r.error,
                }));
                assert(drain(with_bytes(m2, extra)) == (DrainRes {
                    events: r.events + r2.events,
                    state: r2.state,
                    error: if r.error is Some {
                        r.error
                    } else {
                        r2.error
                    },
                }));
                assert(drain(mx) == (DrainRes {
                    events: opt_frame_seq(ev) + (r.events + r2.events),
                    state: r2.state,
                    error: if r.error is Some {
                        r.error
                    } else {
                        r2.error
                    },
                }));
                assert(opt_frame_seq(ev) + (r.events + r2.events) =~= (opt_frame_seq(ev)
                    + r.events) + r2.events);
            }
        },
    }
}

/// The concatenation of a list of chunks.
pub open spec fn concat_chunks(cs: Seq<Seq<u8>>) -> Seq<u8>
    decreases cs.len(),
{
    if cs.len() == 0 {
        Seq::empty()
    } else {
        cs[0] + concat_chunks(cs.skip(1))
    }
}

/// The cumulative result of feeding the chunks one after another: all events
/// in order, the final state, and the first fault hit, if any.
pub open spec fn feed_all(m: FramerModel, cs: Seq<Seq<u8>>) -> DrainRes
    decreases cs.len(),
{
    if cs.len() == 0 {
        DrainRes { events: Seq::empty(), state: m, error: None }
    } else {
        let f = feed_spec(m, cs[0]);
        let r = feed_all(f.state, cs.skip(1));
        DrainRes {
            events: f.events + r.events,
            state: r.state,
            error: if f.error is Some {
                f.error
            } else {
                r.error
            },
        }
    }
}

/// Feeding a list of chunks one by one equals feeding their concatenation in
/// one piece.
pub proof fn lemma_feed_all_concat(m: FramerModel, cs: Seq<Seq<u8>>)
    requires
        framer_wf(m),
        cs.len() >= 1,
    ensures
        feed_all(m, cs) == feed_spec(m, concat_chunks(cs)),
    decreases cs.len(),
{
    let f = feed_spec(m, cs[0]);
    if cs.len() == 1 {
        assert(concat_chunks(cs.skip(1)) =~= Seq::<u8>::empty());
        assert(cs[0] + Seq::<u8>::empty() =~= cs[0]);
        assert(concat_chunks(cs) == cs[0]);
        assert(feed_all(f.state, cs.skip(1)) == (DrainRes {
            events: Seq::<FrameModel>::empty(),
            state: f.state,
            error: None,
        }));
        assert(f.events + Seq::<FrameModel>::empty() =~= f.events);
    } else {
        let m1 = with_bytes(m, cs[0]);
        lemma_drain_wf(m1);
        lemma_drain_extend(m1, concat_chunks(cs.skip(1)));
        assert(with_bytes(m1, concat_chunks(cs.skip(1))).buf =~= with_bytes(
            m,
            concat_chunks(cs),
        ).buf);
        assert(with_bytes(m1, concat_chunks(cs.skip(1))) == with_bytes(m, concat_chunks(cs)));
        lemma_feed_all_concat(f.state, cs.skip(1));
    }
}

/// Fragmentation-independence: two chunk lists carrying the same bytes give
/// the same frames, the same final state, and the same fault.
pub proof fn lemma_fragmentation_independence(
    m: FramerModel,
    ca: Seq<Seq<u8>>,
    cb: Seq<Seq<u8>>,
)
    requires
        framer_wf(m),
        ca.len() >= 1,
        cb.len() >= 1,
        concat_chunks(ca) == concat_chunks(cb),
    ensures
        feed_all(m, ca) == feed_all(m, cb),
{
    lemma_feed_all_concat(m, ca);
    lemma_feed_all_concat(m, cb);
}

// ---------------------------------------------------------------------------
// Message sizing
// ---------------------------------------------------------------------------
/// The sizing law for delivered messages: the body is exactly the declared
/// payload length minus the declared header length, and the header block's
/// length is the declared header length — zero for `MSG`, which has none.
pub open spec fn message_well_sized(msg: MessageModel) -> bool {
    &&& msg.body.len() == msg.payload_len - msg.header_len
    &&& (match msg.headers {
        Some(h) => h.len() == msg.header_len,
        None => msg.header_len == 0,
    })
}

/// Every message the framer delivers is well sized.
pub proof fn lemma_messages_well_sized(m: FramerModel)
    requires
        framer_wf(m),
    ensures
        forall|k: int|
            0 <= k < drain(m).events.len() ==> ((#[trigger] drain(m).events[k])
                matches FrameModel::Delivery(msg) ==> message_well_sized(msg)),
    decreases m.buf.len(), pending_rank(m),
{
    match step(m) {
        StepRes::Stuck => {},
        StepRes::Next(ev, m2, err) => {
            lemma_step_wf(m);
            if err is Some {
                assert(opt_frame_seq(ev) =~= Seq::<FrameModel>::empty());
            } else {
                if m.pending is None {
                    lemma_find_crlf_at_bounds(m.buf, 0);
                }
                lemma_drain_wf(m2);
                lemma_messages_well_sized(m2);
                let evs = opt_frame_seq(ev);
                let rec = drain(m2).events;
                assert(drain(m).events == evs + rec);
                match m.pending {
                    Some(p) => {
                        let payload = m.buf.take(p.payload_len);
                        assert(payload.len() == p.payload_len);
                        assert(msg_of(p, payload).body.len() == p.payload_len - p.header_len);
                        if p.with_headers {
                            assert(msg_of(p, payload).headers == Some(payload.take(p.header_len)));
                            assert(payload.take(p.header_len).len() == p.header_len);
                        }
                        assert(message_well_sized(msg_of(p, payload)));
                    },
                    None => {},
                }
                assert forall|k: int|
                    0 <= k < drain(m).events.len() implies ((#[trigger] drain(m).events[k])
                    matches FrameModel::Delivery(msg) ==> message_well_sized(msg)) by {
                    if k < evs.len() {
                        assert(drain(m).events[k] == evs[k]);
                    } else {
                        assert(drain(m).events[k] == rec[k - evs.len()]);
                    }
                }
            }
        },
    }
}

} // verus!
