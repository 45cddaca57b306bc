//! The structured log records the engine emits, and the outcome types of
//! gateway fetches. Rendering them as timestamped JSON lines is the caller's
//! business; the variants and their fields are the library's vocabulary.
use vstd::prelude::*;

verus! {

/// A JSON field as the payload dispatcher reads it from a message body:
/// absent from the object, JSON null, a string (its UTF-8 bytes), or any
/// other JSON value (its serialised text).
pub enum JsonField {
    Absent,
    Null,
    Text(Vec<u8>),
    Other(Vec<u8>),
}

/// A message body read as JSON, after the optional quoted unwrap: not a
/// well-formed document, a document that is no object, or an object with
/// its `mint` and `image` fields.
pub enum PayloadJson {
    Invalid { error: Vec<u8> },
    NonObject,
    Object { mint: JsonField, image: JsonField },
}

/// An INFO payload read as JSON: not a well-formed document, a document
/// that is no object, or an object with its top-level keys.
pub enum InfoJson {
    Invalid,
    NotObject,
    Object(Vec<Vec<u8>>),
}

/// Outcome counters of one finished gateway download.
pub struct FetchStats {
    pub bytes: u64,
    pub elapsed_ms: u64,
}

/// Why one gateway download failed.
pub enum FetchError {
    ClientBuild(Vec<u8>),
    RequestFailed(Vec<u8>),
    HttpStatus(u16),
    StreamError(Vec<u8>),
}

impl FetchError {
    /// The label of this failure kind in log records.
    pub fn kind_label(&self) -> (r: &'static str)
        ensures
            r@ == self.spec_kind_label(),
    {
        match self {
            FetchError::ClientBuild(_) => "client_build",
            FetchError::RequestFailed(_) => "request_failed",
            FetchError::HttpStatus(_) => "http_status",
            FetchError::StreamError(_) => "stream_error",
        }
    }

    pub open spec fn spec_kind_label(&self) -> Seq<char> {
        match self {
            FetchError::ClientBuild(_) => "client_build"@,
            FetchError::RequestFailed(_) => "request_failed"@,
            FetchError::HttpStatus(_) => "http_status"@,
            FetchError::StreamError(_) => "stream_error"@,
        }
    }
}

/// Which gateway won the hedged race.
pub enum Strategy {
    LocalOnly,
    LocalAfterThreshold,
    FallbackToPublic,
}

impl Strategy {
    pub fn name(&self) -> (r: &'static str)
        ensures
            r@ == self.spec_name(),
    {
        match self {
            Strategy::LocalOnly => "local_only",
            Strategy::LocalAfterThreshold => "local_after_threshold",
            Strategy::FallbackToPublic => "fallback_to_public",
        }
    }

    pub open spec fn spec_name(&self) -> Seq<char> {
        match self {
            Strategy::LocalOnly => "local_only"@,
            Strategy::LocalAfterThreshold => "local_after_threshold"@,
            Strategy::FallbackToPublic => "fallback_to_public"@,
        }
    }
}

/// One structured log record.
///
/// `Parsed`, `NonObject` and `ParseError` are the per-message records and
/// carry no event label; every other variant carries the label that
/// `event_name` gives.
pub enum LogRecord {
    Parsed { subject: Vec<u8>, mint: JsonField, image: JsonField },
    NonObject { subject: Vec<u8> },
    ParseError { subject: Vec<u8>, error: Vec<u8>, payload_preview: Vec<u8> },
    ServerInfo { info_keys: Vec<Vec<u8>> },
    ValidationSubjectDisallowed { subject: Vec<u8> },
    ValidationMissingMint { subject: Vec<u8> },
    ValidationMissingImage { subject: Vec<u8> },
    ValidationInfoKeyMissing { key: Vec<u8> },
    SkipNoImage { subject: Vec<u8>, mint: Vec<u8> },
    SkipNoCid { subject: Vec<u8>, mint: Vec<u8>, image_preview: Vec<u8> },
    SkipNonObject { subject: Vec<u8> },
    SkipParseError { subject: Vec<u8>, error: Vec<u8> },
    Reconnect { error: Vec<u8>, backoff_s: u64 },
    FetchStart {
        subject: Vec<u8>,
        mint: Vec<u8>,
        cid: Vec<u8>,
        local_gateway: Vec<u8>,
        fallback_threshold_ms: u64,
    },
    LocalFailedEarly {
        subject: Vec<u8>,
        mint: Vec<u8>,
        cid: Vec<u8>,
        gateway: Vec<u8>,
        error: FetchError,
        elapsed_ms: u64,
    },
    ThresholdExceeded {
        subject: Vec<u8>,
        mint: Vec<u8>,
        cid: Vec<u8>,
        gateway: Vec<u8>,
        threshold_ms: u64,
    },
    FallbackStart { subject: Vec<u8>, mint: Vec<u8>, cid: Vec<u8>, public_gateways_count: u64 },
    GatewaySuccess { local: bool, gateway: Vec<u8>, cid: Vec<u8>, bytes: u64, elapsed_ms: u64 },
    GatewayFailed { local: bool, gateway: Vec<u8>, cid: Vec<u8>, error: FetchError },
    TaskAbort { cid: Vec<u8>, error: Vec<u8> },
    FetchSuccess {
        strategy: Strategy,
        subject: Vec<u8>,
        mint: Vec<u8>,
        cid: Vec<u8>,
        gateway: Vec<u8>,
        bytes: u64,
        fetch_elapsed_ms: u64,
        fallback_elapsed_ms: Option<u64>,
        total_elapsed_ms: u64,
        speed_kbps: u64,
        failed_count: Option<u64>,
    },
    FetchFailed { subject: Vec<u8>, mint: Vec<u8>, cid: Vec<u8>, total_elapsed_ms: u64, failed_count: u64 },
}

pub open spec fn spec_event_name(r: &LogRecord) -> Option<Seq<char>> {
    match r {
        LogRecord::Parsed { .. } => None,
        LogRecord::NonObject { .. } => None,
        LogRecord::ParseError { .. } => None,
        LogRecord::ServerInfo { .. } => Some("server_info"@),
        LogRecord::ValidationSubjectDisallowed { .. } => Some("validation_error"@),
        LogRecord::ValidationMissingMint { .. } => Some("validation_error"@),
        LogRecord::ValidationMissingImage { .. } => Some("validation_error"@),
        LogRecord::ValidationInfoKeyMissing { .. } => Some("validation_error"@),
        LogRecord::SkipNoImage { .. } => Some("smart_ipfs_skip"@),
        LogRecord::SkipNoCid { .. } => Some("smart_ipfs_skip"@),
        LogRecord::SkipNonObject { .. } => Some("smart_ipfs_skip"@),
        LogRecord::SkipParseError { .. } => Some("smart_ipfs_skip"@),
        LogRecord::Reconnect { .. } => Some("reconnect"@),
        LogRecord::FetchStart { .. } => Some("smart_ipfs_fetch_start"@),
        LogRecord::LocalFailedEarly { .. } => Some("smart_ipfs_local_failed"@),
        LogRecord::ThresholdExceeded { .. } => Some("smart_ipfs_local_threshold_exceeded"@),
        LogRecord::FallbackStart { .. } => Some("smart_ipfs_fallback_start"@),
        LogRecord::GatewaySuccess { local, .. } => if *local {
            Some("smart_ipfs_local_late_success"@)
        } else {
            Some("smart_ipfs_public_success"@)
        },
        LogRecord::GatewayFailed { local, .. } => if *local {
            Some("smart_ipfs_local_failed"@)
        } else {
            Some("smart_ipfs_public_failed"@)
        },
        LogRecord::TaskAbort { .. } => Some("smart_ipfs_task_error"@),
        LogRecord::FetchSuccess { .. } => Some("smart_ipfs_fetch_success"@),
        LogRecord::FetchFailed { .. } => Some("smart_ipfs_fetch_failed"@),
    }
}

pub open spec fn spec_reason_name(r: &LogRecord) -> Option<Seq<char>> {
    match r {
        LogRecord::ValidationSubjectDisallowed { .. } => Some("subject_disallowed"@),
        LogRecord::ValidationMissingMint { .. } => Some("missing_mint"@),
        LogRecord::ValidationMissingImage { .. } => Some("missing_image"@),
        LogRecord::ValidationInfoKeyMissing { .. } => Some("info_key_missing"@),
        LogRecord::SkipNoImage { .. } => Some("no_image"@),
        LogRecord::SkipNoCid { .. } => Some("no_cid"@),
        LogRecord::SkipNonObject { .. } => Some("json_not_object"@),
        LogRecord::SkipParseError { .. } => Some("json_parse_error"@),
        _ => None,
    }
}

impl LogRecord {
    /// The value of the record's `event` field, for the variants that carry
    /// one; the three per-message records print no event field.
    pub fn event_name(&self) -> (r: Option<&'static str>)
        ensures
            match r {
                Some(n) => spec_event_name(self) == Some(n@),
                None => spec_event_name(self) is None,
            },
    {
        match self {
            LogRecord::Parsed { .. } => None,
            LogRecord::NonObject { .. } => None,
            LogRecord::ParseError { .. } => None,
            LogRecord::ServerInfo { .. } => Some("server_info"),
            LogRecord::ValidationSubjectDisallowed { .. } => Some("validation_error"),
            LogRecord::ValidationMissingMint { .. } => Some("validation_error"),
            LogRecord::ValidationMissingImage { .. } => Some("validation_error"),
            LogRecord::ValidationInfoKeyMissing { .. } => Some("validation_error"),
            LogRecord::SkipNoImage { .. } => Some("smart_ipfs_skip"),
            LogRecord::SkipNoCid { .. } => Some("smart_ipfs_skip"),
            LogRecord::SkipNonObject { .. } => Some("smart_ipfs_skip"),
            LogRecord::SkipParseError { .. } => Some("smart_ipfs_skip"),
            LogRecord::Reconnect { .. } => Some("reconnect"),
            LogRecord::FetchStart { .. } => Some("smart_ipfs_fetch_start"),
            LogRecord::LocalFailedEarly { .. } => Some("smart_ipfs_local_failed"),
            LogRecord::ThresholdExceeded { .. } => Some("smart_ipfs_local_threshold_exceeded"),
            LogRecord::FallbackStart { .. } => Some("smart_ipfs_fallback_start"),
            LogRecord::GatewaySuccess { local, .. } => if *local {
                Some("smart_ipfs_local_late_success")
            } else {
                Some("smart_ipfs_public_success")
            },
            LogRecord::GatewayFailed { local, .. } => if *local {
                Some("smart_ipfs_local_failed")
            } else {
                Some("smart_ipfs_public_failed")
            },
            LogRecord::TaskAbort { .. } => Some("smart_ipfs_task_error"),
            LogRecord::FetchSuccess { .. } => Some("smart_ipfs_fetch_success"),
            LogRecord::FetchFailed { .. } => Some("smart_ipfs_fetch_failed"),
        }
    }

    /// The value of the record's `reason` field, for validation and skip
    /// records.
    pub fn reason_name(&self) -> (r: Option<&'static str>)
        ensures
            match r {
                Some(n) => spec_reason_name(self) == Some(n@),
                None => spec_reason_name(self) is None,
            },
    {
        match self {
            LogRecord::ValidationSubjectDisallowed { .. } => Some("subject_disallowed"),
            LogRecord::ValidationMissingMint { .. } => Some("missing_mint"),
            LogRecord::ValidationMissingImage { .. } => Some("missing_image"),
            LogRecord::ValidationInfoKeyMissing { .. } => Some("info_key_missing"),
            LogRecord::SkipNoImage { .. } => Some("no_image"),
            LogRecord::SkipNoCid { .. } => Some("no_cid"),
            LogRecord::SkipNonObject { .. } => Some("json_not_object"),
            LogRecord::SkipParseError { .. } => Some("json_parse_error"),
            _ => None,
        }
    }
}

/// The two terminal records of a hedged fetch, for stating that exactly one
/// of them is emitted per run.
pub open spec fn is_fetch_success_record(r: LogRecord) -> bool {
    r is FetchSuccess
}

pub open spec fn is_fetch_failed_record(r: LogRecord) -> bool {
    r is FetchFailed
}

} // verus!

verus! {

// ---------------------------------------------------------------------------
// Abstract views of the record types, for contracts
// ---------------------------------------------------------------------------
pub ghost enum JsonFieldModel {
    Absent,
    Null,
    Text(Seq<u8>),
    Other(Seq<u8>),
}

impl View for JsonField {
    type V = JsonFieldModel;

    open spec fn view(&self) -> JsonFieldModel {
        match self {
            JsonField::Absent => JsonFieldModel::Absent,
            JsonField::Null => JsonFieldModel::Null,
            JsonField::Text(t) => JsonFieldModel::Text(t@),
            JsonField::Other(t) => JsonFieldModel::Other(t@),
        }
    }
}

pub ghost enum PayloadModel {
    Invalid { error: Seq<u8> },
    NonObject,
    Object { mint: JsonFieldModel, image: JsonFieldModel },
}

impl View for PayloadJson {
    type V = PayloadModel;

    open spec fn view(&self) -> PayloadModel {
        match self {
            PayloadJson::Invalid { error } => PayloadModel::Invalid { error: error@ },
            PayloadJson::NonObject => PayloadModel::NonObject,
            PayloadJson::Object { mint, image } => PayloadModel::Object {
                mint: mint@,
                image: image@,
            },
        }
    }
}

pub ghost enum InfoJsonModel {
    Invalid,
    NotObject,
    Object(Seq<Seq<u8>>),
}

impl View for InfoJson {
    type V = InfoJsonModel;

    open spec fn view(&self) -> InfoJsonModel {
        match self {
            InfoJson::Invalid => InfoJsonModel::Invalid,
            InfoJson::NotObject => InfoJsonModel::NotObject,
            InfoJson::Object(keys) => InfoJsonModel::Object(
                Seq::new(keys@.len(), |i: int| keys@[i]@),
            ),
        }
    }
}

pub ghost struct FetchStatsModel {
    pub bytes: u64,
    pub elapsed_ms: u64,
}

impl View for FetchStats {
    type V = FetchStatsModel;

    open spec fn view(&self) -> FetchStatsModel {
        FetchStatsModel { bytes: self.bytes, elapsed_ms: self.elapsed_ms }
    }
}

pub ghost enum FetchErrorModel {
    ClientBuild(Seq<u8>),
    RequestFailed(Seq<u8>),
    HttpStatus(u16),
    StreamError(Seq<u8>),
}

impl View for FetchError {
    type V = FetchErrorModel;

    open spec fn view(&self) -> FetchErrorModel {
        match self {
            FetchError::ClientBuild(t) => FetchErrorModel::ClientBuild(t@),
            FetchError::RequestFailed(t) => FetchErrorModel::RequestFailed(t@),
            FetchError::HttpStatus(c) => FetchErrorModel::HttpStatus(*c),
            FetchError::StreamError(t) => FetchErrorModel::StreamError(t@),
        }
    }
}

pub ghost enum RecordModel {
    Parsed { subject: Seq<u8>, mint: JsonFieldModel, image: JsonFieldModel },
    NonObject { subject: Seq<u8> },
    ParseError { subject: Seq<u8>, error: Seq<u8>, payload_preview: Seq<u8> },
    ServerInfo { info_keys: Seq<Seq<u8>> },
    ValidationSubjectDisallowed { subject: Seq<u8> },
    ValidationMissingMint { subject: Seq<u8> },
    ValidationMissingImage { subject: Seq<u8> },
    ValidationInfoKeyMissing { key: Seq<u8> },
    SkipNoImage { subject: Seq<u8>, mint: Seq<u8> },
    SkipNoCid { subject: Seq<u8>, mint: Seq<u8>, image_preview: Seq<u8> },
    SkipNonObject { subject: Seq<u8> },
    SkipParseError { subject: Seq<u8>, error: Seq<u8> },
    Reconnect { error: Seq<u8>, backoff_s: u64 },
    FetchStart {
        subject: Seq<u8>,
        mint: Seq<u8>,
        cid: Seq<u8>,
        local_gateway: Seq<u8>,
        fallback_threshold_ms: u64,
    },
    LocalFailedEarly {
        subject: Seq<u8>,
        mint: Seq<u8>,
        cid: Seq<u8>,
        gateway: Seq<u8>,
        error: FetchErrorModel,
        elapsed_ms: u64,
    },
    ThresholdExceeded {
        subject: Seq<u8>,
        mint: Seq<u8>,
        cid: Seq<u8>,
        gateway: Seq<u8>,
        threshold_ms: u64,
    },
    FallbackStart { subject: Seq<u8>, mint: Seq<u8>, cid: Seq<u8>, public_gateways_count: u64 },
    GatewaySuccess { local: bool, gateway: Seq<u8>, cid: Seq<u8>, bytes: u64, elapsed_ms: u64 },
    GatewayFailed { local: bool, gateway: Seq<u8>, cid: Seq<u8>, error: FetchErrorModel },
    TaskAbort { cid: Seq<u8>, error: Seq<u8> },
    FetchSuccess {
        strategy: Strategy,
        subject: Seq<u8>,
        mint: Seq<u8>,
        cid: Seq<u8>,
        gateway: Seq<u8>,
        bytes: u64,
        fetch_elapsed_ms: u64,
        fallback_elapsed_ms: Option<u64>,
        total_elapsed_ms: u64,
        speed_kbps: u64,
        failed_count: Option<u64>,
    },
    FetchFailed {
        subject: Seq<u8>,
        mint: Seq<u8>,
        cid: Seq<u8>,
        total_elapsed_ms: u64,
        failed_count: u64,
    },
}

impl View for LogRecord {
    type V = RecordModel;

    open spec fn view(&self) -> RecordModel {
        match self {
            LogRecord::Parsed { subject, mint, image } => RecordModel::Parsed {
                subject: subject@,
                mint: mint@,
                image: image@,
            },
            LogRecord::NonObject { subject } => RecordModel::NonObject { subject: subject@ },
            LogRecord::ParseError { subject, error, payload_preview } => RecordModel::ParseError {
                subject: subject@,
                error: error@,
                payload_preview: payload_preview@,
            },
            LogRecord::ServerInfo { info_keys } => RecordModel::ServerInfo {
                info_keys: Seq::new(info_keys@.len(), |i: int| info_keys@[i]@),
            },
            LogRecord::ValidationSubjectDisallowed { subject } => {
                RecordModel::ValidationSubjectDisallowed { subject: subject@ }
            },
            LogRecord::ValidationMissingMint { subject } => RecordModel::ValidationMissingMint {
                subject: subject@,
            },
            LogRecord::ValidationMissingImage { subject } => RecordModel::ValidationMissingImage {
                subject: subject@,
            },
            LogRecord::ValidationInfoKeyMissing { key } => RecordModel::ValidationInfoKeyMissing {
                key: key@,
            },
            LogRecord::SkipNoImage { subject, mint } => RecordModel::SkipNoImage {
                subject: subject@,
                mint: mint@,
            },
            LogRecord::SkipNoCid { subject, mint, image_preview } => RecordModel::SkipNoCid {
                subject: subject@,
                mint: mint@,
                image_preview: image_preview@,
            },
            LogRecord::SkipNonObject { subject } => RecordModel::SkipNonObject {
                subject: subject@,
            },
            LogRecord::SkipParseError { subject, error } => RecordModel::SkipParseError {
                subject: subject@,
                error: error@,
            },
            LogRecord::Reconnect { error, backoff_s } => RecordModel::Reconnect {
                error: error@,
                backoff_s: *backoff_s,
            },
            LogRecord::FetchStart { subject, mint, cid, local_gateway, fallback_threshold_ms } => {
                RecordModel::FetchStart {
                    subject: subject@,
                    mint: mint@,
                    cid: cid@,
                    local_gateway: local_gateway@,
                    fallback_threshold_ms: *fallback_threshold_ms,
                }
            },
            LogRecord::LocalFailedEarly { subject, mint, cid, gateway, error, elapsed_ms } => {
                RecordModel::LocalFailedEarly {
                    subject: subject@,
                    mint: mint@,
                    cid: cid@,
                    gateway: gateway@,
                    error: error@,
                    elapsed_ms: *elapsed_ms,
                }
            },
            LogRecord::ThresholdExceeded { subject, mint, cid, gateway, threshold_ms } => {
                RecordModel::ThresholdExceeded {
                    subject: subject@,
                    mint: mint@,
                    cid: cid@,
                    gateway: gateway@,
                    threshold_ms: *threshold_ms,
                }
            },
            LogRecord::FallbackStart { subject, mint, cid, public_gateways_count } => {
                RecordModel::FallbackStart {
                    subject: subject@,
                    mint: mint@,
                    cid: cid@,
                    public_gateways_count: *public_gateways_count,
                }
            },
            LogRecord::GatewaySuccess { local, gateway, cid, bytes, elapsed_ms } => {
                RecordModel::GatewaySuccess {
                    local: *local,
                    gateway: gateway@,
                    cid: cid@,
                    bytes: *bytes,
                    elapsed_ms: *elapsed_ms,
                }
            },
            LogRecord::GatewayFailed { local, gateway, cid, error } => {
                RecordModel::GatewayFailed {
                    local: *local,
                    gateway: gateway@,
                    cid: cid@,
                    error: error@,
                }
            },
            LogRecord::TaskAbort { cid, error } => RecordModel::TaskAbort {
                cid: cid@,
                error: error@,
            },
            LogRecord::FetchSuccess {
                strategy,
                subject,
                mint,
                cid,
                gateway,
                bytes,
                fetch_elapsed_ms,
                fallback_elapsed_ms,
                total_elapsed_ms,
                speed_kbps,
                failed_count,
            } => RecordModel::FetchSuccess {
                strategy: *strategy,
                subject: subject@,
                mint: mint@,
                cid: cid@,
                gateway: gateway@,
                bytes: *bytes,
                fetch_elapsed_ms: *fetch_elapsed_ms,
                fallback_elapsed_ms: *fallback_elapsed_ms,
                total_elapsed_ms: *total_elapsed_ms,
                speed_kbps: *speed_kbps,
                failed_count: *failed_count,
            },
            LogRecord::FetchFailed { subject, mint, cid, total_elapsed_ms, failed_count } => {
                RecordModel::FetchFailed {
                    subject: subject@,
                    mint: mint@,
                    cid: cid@,
                    total_elapsed_ms: *total_elapsed_ms,
                    failed_count: *failed_count,
                }
            },
        }
    }
}

/// The contents of a vector of records, as a sequence of record views.
pub open spec fn records_view(v: Vec<LogRecord>) -> Seq<RecordModel> {
    Seq::new(v@.len(), |i: int| v@[i]@)
}

/// The two terminal record views of a hedged fetch.
pub open spec fn is_success_model(r: RecordModel) -> bool {
    r is FetchSuccess
}

pub open spec fn is_failed_model(r: RecordModel) -> bool {
    r is FetchFailed
}

} // verus!
