//! The payload dispatcher: undoes the broker's occasional double-encoding,
//! classifies the body as JSON, emits the per-message record and the
//! validation records, and decides whether an image-update message starts a
//! hedged fetch.
use vstd::prelude::*;
use vstd::string::StrSliceExecFns;
use vstd::string::StringSliceAdditionalSpecFns;

use crate::bytes::clone_bytes;
use crate::bytes::preview_bytes;
use crate::bytes::preview_end;
use crate::bytes::seq_starts_with;
use crate::bytes::starts_with_bytes;
use crate::bytes::views2;
use crate::cid::extract_cid_from_url;
use crate::cid::spec_extract_cid;
use crate::cid::url_parse_of;
use crate::config::ValidateConfig;
use crate::jsonio::json_text_decode;
use crate::jsonio::json_wf;
use crate::records::JsonField;
use crate::records::JsonFieldModel;
use crate::records::LogRecord;
use crate::records::PayloadJson;
use crate::records::PayloadModel;
use crate::records::RecordModel;
use crate::records::records_view;

verus! {

/// How long a preview of a payload or image string is, in characters.
pub const PREVIEW_CHARS: usize = 200;

/// A body shaped like a quoted JSON string: first and last byte are both a
/// double quote.
pub open spec fn quoted_shape(s: Seq<u8>) -> bool {
    s.len() >= 1 && s[0] == 34 && s[s.len() - 1] == 34
}

/// The body after the compatibility unwrap: a quote-delimited body that
/// decodes as one JSON string literal is replaced by its contents.
pub open spec fn spec_unwrap_quoted(s: Seq<u8>) -> Seq<u8> {
    if quoted_shape(s) {
        match json_text_decode(s) {
            Some(t) => t,
            None => s,
        }
    } else {
        s
    }
}

/// Undoes one level of JSON string quoting, as `spec_unwrap_quoted` says —
/// the broker occasionally double-encodes payloads.
pub fn unwrap_quoted(body: &Vec<u8>) -> (r: Vec<u8>)
    ensures
        r@ == spec_unwrap_quoted(body@),
{
    if body.len() >= 1 && body[0] == 34 && body[body.len() - 1] == 34 {
        match crate::jsonio::json_decode_string(body) {
            Some(t) => t,
            None => clone_bytes(body),
        }
    } else {
        clone_bytes(body)
    }
}

/// Parses an unwrapped body as JSON and reads the `mint` and `image`
/// fields, exactly as the boundary's reading `json_payload_of` says; the
/// result is `Invalid` exactly when the bytes are not a well-formed JSON
/// document.
pub fn classify_payload(text: &Vec<u8>) -> (r: PayloadJson)
    ensures
        r@ == crate::jsonio::json_payload_of(text@),
        r@ is Invalid <==> !json_wf(text@),
{
    crate::jsonio::json_classify(text)
}

/// A field counts as missing when it is absent, null, not a string, or an
/// empty string; only a non-empty string counts as present.
pub open spec fn field_missing(f: JsonFieldModel) -> bool {
    match f {
        JsonFieldModel::Absent => true,
        JsonFieldModel::Null => true,
        JsonFieldModel::Text(t) => t.len() == 0,
        JsonFieldModel::Other(_) => true,
    }
}

fn json_field_missing(f: &JsonField) -> (r: bool)
    ensures
        r == field_missing(f@),
{
    match f {
        JsonField::Absent => true,
        JsonField::Null => true,
        JsonField::Text(t) => t.len() == 0,
        JsonField::Other(_) => true,
    }
}

fn clone_json_field(f: &JsonField) -> (r: JsonField)
    ensures
        r@ == f@,
{
    match f {
        JsonField::Absent => JsonField::Absent,
        JsonField::Null => JsonField::Null,
        JsonField::Text(t) => JsonField::Text(clone_bytes(t)),
        JsonField::Other(t) => JsonField::Other(clone_bytes(t)),
    }
}

/// Whether the subject begins with one of the allowed prefixes.
pub open spec fn subject_allowed(subject: Seq<u8>, prefixes: Seq<Seq<u8>>) -> bool {
    exists|i: int| 0 <= i < prefixes.len() && seq_starts_with(subject, #[trigger] prefixes[i])
}

fn subject_has_allowed_prefix(subject: &Vec<u8>, prefixes: &Vec<Vec<u8>>) -> (r: bool)
    ensures
        r == subject_allowed(subject@, views2(*prefixes)),
{
    let mut i: usize = 0;
    while i < prefixes.len()
        invariant
            0 <= i <= prefixes@.len(),
            forall|j: int|
                0 <= j < i ==> !seq_starts_with(subject@, #[trigger] views2(*prefixes)[j]),
        decreases prefixes@.len() - i,
    {
        if starts_with_bytes(subject, &prefixes[i]) {
            proof {
                assert(views2(*prefixes)[i as int] == prefixes@[i as int]@);
            }
            return true;
        }
        proof {
            assert(views2(*prefixes)[i as int] == prefixes@[i as int]@);
        }
        i = i + 1;
    }
    false
}

/// The preview of a text: its first `PREVIEW_CHARS` characters.
pub open spec fn spec_preview(s: Seq<u8>) -> Seq<u8> {
    s.take(preview_end(s, 0, PREVIEW_CHARS as nat))
}

/// The records for one delivered message: the parsed line (or the
/// non-object or parse-error line), then, when validation is enabled, one
/// `validation_error` record per broken rule — a subject outside the
/// allowed prefixes, a missing `mint`, a missing `image`. Validation never
/// suppresses the parsed line.
pub open spec fn spec_message_records(
    subject: Seq<u8>,
    p: PayloadModel,
    text: Seq<u8>,
    vcfg: ValidateConfig,
) -> Seq<RecordModel> {
    match p {
        PayloadModel::Invalid { error } => seq![
            RecordModel::ParseError { subject, error, payload_preview: spec_preview(text) },
        ],
        PayloadModel::NonObject => seq![RecordModel::NonObject { subject }],
        PayloadModel::Object { mint, image } => {
            let base = seq![RecordModel::Parsed { subject, mint, image }];
            if vcfg.enabled {
                let v1 = if views2(vcfg.allowed_subject_prefixes).len() > 0 && !subject_allowed(
                    subject,
                    views2(vcfg.allowed_subject_prefixes),
                ) {
                    seq![RecordModel::ValidationSubjectDisallowed { subject }]
                } else {
                    Seq::<RecordModel>::empty()
                };
                let v2 = if vcfg.require_mint && field_missing(mint) {
                    seq![RecordModel::ValidationMissingMint { subject }]
                } else {
                    Seq::<RecordModel>::empty()
                };
                let v3 = if vcfg.require_image && field_missing(image) {
                    seq![RecordModel::ValidationMissingImage { subject }]
                } else {
                    Seq::<RecordModel>::empty()
                };
                base + v1 + v2 + v3
            } else {
                base
            }
        },
    }
}

/// Emits the records for one message, as `spec_message_records` says;
/// `text` is the unwrapped body the payload was parsed from.
pub fn message_records(
    subject: &Vec<u8>,
    payload: &PayloadJson,
    text: &Vec<u8>,
    vcfg: &ValidateConfig,
) -> (r: Vec<LogRecord>)
    ensures
        records_view(r) == spec_message_records(subject@, payload@, text@, *vcfg),
{
    let mut out: Vec<LogRecord> = Vec::new();
    match payload {
        PayloadJson::Invalid { error } => {
            out.push(
                LogRecord::ParseError {
                    subject: clone_bytes(subject),
                    error: clone_bytes(error),
                    payload_preview: preview_bytes(text, PREVIEW_CHARS),
                },
            );
            proof {
                assert(records_view(out) =~= spec_message_records(
                    subject@,
                    payload@,
                    text@,
                    *vcfg,
                ));
            }
        },
        PayloadJson::NonObject => {
            out.push(LogRecord::NonObject { subject: clone_bytes(subject) });
            proof {
                assert(records_view(out) =~= spec_message_records(
                    subject@,
                    payload@,
                    text@,
                    *vcfg,
                ));
            }
        },
        PayloadJson::Object { mint, image } => {
            out.push(
                LogRecord::Parsed {
                    subject: clone_bytes(subject),
                    mint: clone_json_field(mint),
                    image: clone_json_field(image),
                },
            );
            if vcfg.enabled {
                if vcfg.allowed_subject_prefixes.len() > 0 && !subject_has_allowed_prefix(
                    subject,
                    &vcfg.allowed_subject_prefixes,
                ) {
                    out.push(
                        LogRecord::ValidationSubjectDisallowed { subject: clone_bytes(subject) },
                    );
                }
                if vcfg.require_mint && json_field_missing(mint) {
                    out.push(LogRecord::ValidationMissingMint { subject: clone_bytes(subject) });
                }
                if vcfg.require_image && json_field_missing(image) {
                    out.push(LogRecord::ValidationMissingImage { subject: clone_bytes(subject) });
                }
            }
            proof {
                assert(records_view(out) =~= spec_message_records(
                    subject@,
                    payload@,
                    text@,
                    *vcfg,
                ));
            }
        },
    }
    out
}

// ---------------------------------------------------------------------------
// Fetch planning
// ---------------------------------------------------------------------------
pub open spec fn s_image_subject_prefix() -> Seq<u8> {
    "coinImageUpdated".spec_bytes()
}

pub fn tok_image_subject_prefix() -> (r: Vec<u8>)
    ensures
        r@ == s_image_subject_prefix(),
{
    "coinImageUpdated".as_bytes_vec()
}

/// The string contents of a field, or empty when it is not a string.
pub open spec fn text_or_empty(f: JsonFieldModel) -> Seq<u8> {
    match f {
        JsonFieldModel::Text(t) => t,
        _ => Seq::empty(),
    }
}

pub ghost enum IntentModel {
    No,
    SkipRec(RecordModel),
    TryImage { mint: Seq<u8>, image: Seq<u8> },
}

/// What the planner does with one message before the CID is extracted: an
/// image-update subject with the engine on either skips with a record —
/// body not JSON, not an object, or no image string — or goes on to read
/// the image URL; anything else is not applicable.
pub open spec fn spec_fetch_intent(subject: Seq<u8>, p: PayloadModel, enabled: bool) -> IntentModel {
    if !enabled {
        IntentModel::No
    } else if !seq_starts_with(subject, s_image_subject_prefix()) {
        IntentModel::No
    } else {
        match p {
            PayloadModel::Invalid { error } => IntentModel::SkipRec(
                RecordModel::SkipParseError { subject, error },
            ),
            PayloadModel::NonObject => IntentModel::SkipRec(
                RecordModel::SkipNonObject { subject },
            ),
            PayloadModel::Object { mint, image } => {
                let m = text_or_empty(mint);
                let im = text_or_empty(image);
                if im.len() == 0 {
                    IntentModel::SkipRec(RecordModel::SkipNoImage { subject, mint: m })
                } else {
                    IntentModel::TryImage { mint: m, image: im }
                }
            },
        }
    }
}

/// What the fetch planner decided for one message.
pub enum FetchDecision {
    NotApplicable,
    Skip(LogRecord),
    Launch { subject: Vec<u8>, mint: Vec<u8>, cid: Vec<u8> },
}

/// Decides whether a message starts a hedged fetch. An applicable message
/// with an image string launches exactly when the extractor finds a CID in
/// it — under that CID — and is otherwise skipped with a `no_cid` record.
pub fn plan_fetch(subject: &Vec<u8>, payload: &PayloadJson, enabled: bool) -> (r: FetchDecision)
    ensures
        spec_fetch_intent(subject@, payload@, enabled) is No ==> r is NotApplicable,
        spec_fetch_intent(subject@, payload@, enabled) matches IntentModel::SkipRec(m) ==> (
        r matches FetchDecision::Skip(rec) && rec@ == m),
        spec_fetch_intent(subject@, payload@, enabled) matches IntentModel::TryImage {
            mint,
            image,
        } ==> (match spec_extract_cid(image, url_parse_of(image)) {
            Some(c) => r matches FetchDecision::Launch { subject: s2, mint: m2, cid } && s2@
                == subject@ && m2@ == mint && cid@ == c && cid@.len() > 0,
            None => r matches FetchDecision::Skip(rec) && rec@ == (RecordModel::SkipNoCid {
                subject: subject@,
                mint,
                image_preview: spec_preview(image),
            }),
        }),
{
    if !enabled {
        return FetchDecision::NotApplicable;
    }
    let prefix = tok_image_subject_prefix();
    if !starts_with_bytes(subject, &prefix) {
        return FetchDecision::NotApplicable;
    }
    match payload {
        PayloadJson::Invalid { error } => FetchDecision::Skip(
            LogRecord::SkipParseError {
                subject: clone_bytes(subject),
                error: clone_bytes(error),
            },
        ),
        PayloadJson::NonObject => FetchDecision::Skip(
            LogRecord::SkipNonObject { subject: clone_bytes(subject) },
        ),
        PayloadJson::Object { mint, image } => {
            let m: Vec<u8> = match mint {
                JsonField::Text(t) => clone_bytes(t),
                _ => Vec::new(),
            };
            let im: Vec<u8> = match image {
                JsonField::Text(t) => clone_bytes(t),
                _ => Vec::new(),
            };
            if im.len() == 0 {
                return FetchDecision::Skip(
                    LogRecord::SkipNoImage { subject: clone_bytes(subject), mint: m },
                );
            }
            match extract_cid_from_url(&im) {
                Some(cid) => FetchDecision::Launch { subject: clone_bytes(subject), mint: m, cid },
                None => FetchDecision::Skip(
                    LogRecord::SkipNoCid {
                        subject: clone_bytes(subject),
                        mint: m,
                        image_preview: preview_bytes(&im, PREVIEW_CHARS),
                    },
                ),
            }
        },
    }
}

} // verus!
