//! Configuration parsing. The process environment is read at the edge; the
//! raw variable values come in here as optional byte strings, and every rule
//! — truthiness, comma-separated lists, numeric fallback to defaults — is
//! applied by verified code.
use vstd::prelude::*;
use vstd::string::StrSliceExecFns;
use vstd::string::StringSliceAdditionalSpecFns;

use crate::bytes::ascii_lower;
use crate::bytes::bytes_eq;
use crate::bytes::csv_fields;
use crate::bytes::lower_byte;
use crate::bytes::numeral_val;
use crate::bytes::parse_u64;
use crate::bytes::split_csv;
use crate::bytes::views2;

verus! {

pub open spec fn opt_bytes_view(v: Option<Vec<u8>>) -> Option<Seq<u8>> {
    match v {
        Some(s) => Some(s@),
        None => None,
    }
}

/// A set value counts as true exactly when it spells `1`, `true`, `yes` or
/// `on`, ASCII case ignored.
pub open spec fn truthy(s: Seq<u8>) -> bool {
    let l = s.map_values(|b: u8| lower_byte(b));
    ||| l == "1".spec_bytes()
    ||| l == "true".spec_bytes()
    ||| l == "yes".spec_bytes()
    ||| l == "on".spec_bytes()
}

pub open spec fn spec_env_bool(v: Option<Seq<u8>>, default: bool) -> bool {
    match v {
        None => default,
        Some(s) => truthy(s),
    }
}

/// Reads a boolean environment value; an unset variable gives the default.
pub fn env_bool_value(v: &Option<Vec<u8>>, default: bool) -> (r: bool)
    ensures
        r == spec_env_bool(opt_bytes_view(*v), default),
{
    match v {
        None => default,
        Some(s) => {
            let l = ascii_lower(s);
            let one = "1".as_bytes_vec();
            let tru = "true".as_bytes_vec();
            let yes = "yes".as_bytes_vec();
            let on = "on".as_bytes_vec();
            bytes_eq(&l, &one) || bytes_eq(&l, &tru) || bytes_eq(&l, &yes) || bytes_eq(&l, &on)
        },
    }
}

pub open spec fn spec_env_csv(v: Option<Seq<u8>>) -> Seq<Seq<u8>> {
    match v {
        None => Seq::empty(),
        Some(s) => csv_fields(s),
    }
}

/// Reads a comma-separated environment value; an unset variable gives the
/// empty list.
pub fn env_csv_value(v: &Option<Vec<u8>>) -> (r: Vec<Vec<u8>>)
    ensures
        views2(r) == spec_env_csv(opt_bytes_view(*v)),
{
    match v {
        None => {
            let r: Vec<Vec<u8>> = Vec::new();
            proof {
                assert(views2(r) =~= Seq::<Seq<u8>>::empty());
            }
            r
        },
        Some(s) => split_csv(s),
    }
}

pub open spec fn valid_u64_numeral(s: Seq<u8>) -> bool {
    crate::bytes::valid_numeral(s) && numeral_val(s) <= u64::MAX as int
}

pub open spec fn spec_env_u64(v: Option<Seq<u8>>, default: u64) -> u64 {
    match v {
        None => default,
        Some(s) => if valid_u64_numeral(s) {
            numeral_val(s) as u64
        } else {
            default
        },
    }
}

/// Reads a numeric environment value; an unset or invalid variable silently
/// gives the default.
pub fn env_u64_value(v: &Option<Vec<u8>>, default: u64) -> (r: u64)
    ensures
        r == spec_env_u64(opt_bytes_view(*v), default),
{
    match v {
        None => default,
        Some(s) => match parse_u64(s) {
            Some(n) => n,
            None => default,
        },
    }
}

// ---------------------------------------------------------------------------
// Validation policy
// ---------------------------------------------------------------------------
/// The raw environment values the validation policy is drawn from.
pub struct RawValidateEnv {
    pub enabled: Option<Vec<u8>>,
    pub allowed_subjects: Option<Vec<u8>>,
    pub require_mint: Option<Vec<u8>>,
    pub require_image: Option<Vec<u8>>,
    pub info_keys: Option<Vec<u8>>,
}

#[derive(Clone)]
pub struct ValidateConfig {
    pub enabled: bool,
    pub allowed_subject_prefixes: Vec<Vec<u8>>,
    pub require_mint: bool,
    pub require_image: bool,
    pub require_info_keys: Vec<Vec<u8>>,
}

impl ValidateConfig {
    /// Builds the validation policy from the raw environment values;
    /// everything is off by default.
    pub fn from_env(raw: &RawValidateEnv) -> (r: Self)
        ensures
            r.enabled == spec_env_bool(opt_bytes_view(raw.enabled), false),
            views2(r.allowed_subject_prefixes) == spec_env_csv(
                opt_bytes_view(raw.allowed_subjects),
            ),
            r.require_mint == spec_env_bool(opt_bytes_view(raw.require_mint), false),
            r.require_image == spec_env_bool(opt_bytes_view(raw.require_image), false),
            views2(r.require_info_keys) == spec_env_csv(opt_bytes_view(raw.info_keys)),
    {
        ValidateConfig {
            enabled: env_bool_value(&raw.enabled, false),
            allowed_subject_prefixes: env_csv_value(&raw.allowed_subjects),
            require_mint: env_bool_value(&raw.require_mint, false),
            require_image: env_bool_value(&raw.require_image, false),
            require_info_keys: env_csv_value(&raw.info_keys),
        }
    }
}

// ---------------------------------------------------------------------------
// Plain (single-pool) fetch configuration
// ---------------------------------------------------------------------------
pub open spec fn s_default_gateway() -> Seq<u8> {
    "https://ipfs.io/ipfs".spec_bytes()
}

pub const DEFAULT_IPFS_TIMEOUT_MS: u64 = 20000;

pub const DEFAULT_MAX_BYTES: u64 = 20971520;

/// The raw environment values the plain fetch configuration is drawn from.
pub struct RawIpfsEnv {
    pub enabled: Option<Vec<u8>>,
    pub gateways: Option<Vec<u8>>,
    pub gateway: Option<Vec<u8>>,
    pub timeout_ms: Option<Vec<u8>>,
    pub max_bytes: Option<Vec<u8>>,
}

#[derive(Clone)]
pub struct IpfsConfig {
    pub enabled: bool,
    pub gateway: Vec<u8>,
    pub gateways: Vec<Vec<u8>>,
    pub timeout_ms: u64,
    pub max_bytes: u64,
}

/// The gateway pool: the comma-separated list if any entries survive
/// trimming, else the single gateway variable, else the public default.
pub open spec fn spec_ipfs_gateways(raw_list: Option<Seq<u8>>, raw_single: Option<Seq<u8>>) -> Seq<
    Seq<u8>,
> {
    let listed = spec_env_csv(raw_list);
    if listed.len() > 0 {
        listed
    } else {
        match raw_single {
            Some(g) => seq![g],
            None => seq![s_default_gateway()],
        }
    }
}

impl IpfsConfig {
    /// Builds the plain fetch configuration from the raw environment values.
    pub fn from_env(raw: &RawIpfsEnv) -> (r: Self)
        ensures
            r.enabled == spec_env_bool(opt_bytes_view(raw.enabled), false),
            views2(r.gateways) == spec_ipfs_gateways(
                opt_bytes_view(raw.gateways),
                opt_bytes_view(raw.gateway),
            ),
            views2(r.gateways).len() >= 1,
            r.gateway@ == views2(r.gateways)[0],
            r.timeout_ms == spec_env_u64(opt_bytes_view(raw.timeout_ms), DEFAULT_IPFS_TIMEOUT_MS),
            r.max_bytes == spec_env_u64(opt_bytes_view(raw.max_bytes), DEFAULT_MAX_BYTES),
    {
        let listed = env_csv_value(&raw.gateways);
        let gateways: Vec<Vec<u8>> = if listed.len() > 0 {
            listed
        } else {
            let mut single: Vec<Vec<u8>> = Vec::new();
            match &raw.gateway {
                Some(g) => single.push(crate::bytes::clone_bytes(g)),
                None => single.push("https://ipfs.io/ipfs".as_bytes_vec()),
            }
            proof {
                assert(views2(single) =~= spec_ipfs_gateways(
                    opt_bytes_view(raw.gateways),
                    opt_bytes_view(raw.gateway),
                ));
            }
            single
        };
        let gateway = crate::bytes::clone_bytes(&gateways[0]);
        proof {
            assert(views2(gateways)[0] == gateways@[0]@);
        }
        IpfsConfig {
            enabled: env_bool_value(&raw.enabled, false),
            gateway,
            gateways,
            timeout_ms: env_u64_value(&raw.timeout_ms, DEFAULT_IPFS_TIMEOUT_MS),
            max_bytes: env_u64_value(&raw.max_bytes, DEFAULT_MAX_BYTES),
        }
    }
}

// ---------------------------------------------------------------------------
// Hedged fetch configuration
// ---------------------------------------------------------------------------
pub open spec fn s_default_local_gateway() -> Seq<u8> {
    "http://localhost:8080/ipfs".spec_bytes()
}

pub open spec fn spec_default_public_gateways() -> Seq<Seq<u8>> {
    seq![
        "https://ipfs.io/ipfs".spec_bytes(),
        "https://gateway.pinata.cloud/ipfs".spec_bytes(),
        "https://cloudflare-ipfs.com/ipfs".spec_bytes(),
        "https://dweb.link/ipfs".spec_bytes(),
    ]
}

pub const DEFAULT_LOCAL_TIMEOUT_MS: u64 = 5000;

pub const DEFAULT_PUBLIC_TIMEOUT_MS: u64 = 30000;

pub const DEFAULT_FALLBACK_THRESHOLD_MS: u64 = 200;

/// The raw environment values the hedged fetch configuration is drawn from.
pub struct RawSmartIpfsEnv {
    pub enabled: Option<Vec<u8>>,
    pub local_gateway: Option<Vec<u8>>,
    pub public_gateways: Option<Vec<u8>>,
    pub local_timeout_ms: Option<Vec<u8>>,
    pub public_timeout_ms: Option<Vec<u8>>,
    pub max_bytes: Option<Vec<u8>>,
    pub fallback_threshold_ms: Option<Vec<u8>>,
}

#[derive(Clone)]
pub struct SmartIpfsConfig {
    pub enabled: bool,
    pub local_gateway: Vec<u8>,
    pub public_gateways: Vec<Vec<u8>>,
    pub local_timeout_ms: u64,
    pub public_timeout_ms: u64,
    pub max_bytes: u64,
    pub fallback_threshold_ms: u64,
}

/// The public pool: the comma-separated list when the variable is set (even
/// if nothing survives trimming), else the four well-known defaults.
pub open spec fn spec_public_gateways(raw: Option<Seq<u8>>) -> Seq<Seq<u8>> {
    match raw {
        Some(s) => csv_fields(s),
        None => spec_default_public_gateways(),
    }
}

impl SmartIpfsConfig {
    /// Builds the hedged fetch configuration from the raw environment
    /// values; the engine is on by default.
    pub fn from_env(raw: &RawSmartIpfsEnv) -> (r: Self)
        ensures
            r.enabled == spec_env_bool(opt_bytes_view(raw.enabled), true),
            r.local_gateway@ == match opt_bytes_view(raw.local_gateway) {
                Some(g) => g,
                None => s_default_local_gateway(),
            },
            views2(r.public_gateways) == spec_public_gateways(opt_bytes_view(raw.public_gateways)),
            r.local_timeout_ms == spec_env_u64(
                opt_bytes_view(raw.local_timeout_ms),
                DEFAULT_LOCAL_TIMEOUT_MS,
            ),
            r.public_timeout_ms == spec_env_u64(
                opt_bytes_view(raw.public_timeout_ms),
                DEFAULT_PUBLIC_TIMEOUT_MS,
            ),
            r.max_bytes == spec_env_u64(opt_bytes_view(raw.max_bytes), DEFAULT_MAX_BYTES),
            r.fallback_threshold_ms == spec_env_u64(
                opt_bytes_view(raw.fallback_threshold_ms),
                DEFAULT_FALLBACK_THRESHOLD_MS,
            ),
    {
        let local_gateway = match &raw.local_gateway {
            Some(g) => crate::bytes::clone_bytes(g),
            None => "http://localhost:8080/ipfs".as_bytes_vec(),
        };
        let public_gateways = match &raw.public_gateways {
            Some(s) => split_csv(s),
            None => {
                let mut d: Vec<Vec<u8>> = Vec::new();
                d.push("https://ipfs.io/ipfs".as_bytes_vec());
                d.push("https://gateway.pinata.cloud/ipfs".as_bytes_vec());
                d.push("https://cloudflare-ipfs.com/ipfs".as_bytes_vec());
                d.push("https://dweb.link/ipfs".as_bytes_vec());
                proof {
                    assert(views2(d) =~= spec_default_public_gateways());
                }
                d
            },
        };
        SmartIpfsConfig {
            enabled: env_bool_value(&raw.enabled, true),
            local_gateway,
            public_gateways,
            local_timeout_ms: env_u64_value(&raw.local_timeout_ms, DEFAULT_LOCAL_TIMEOUT_MS),
            public_timeout_ms: env_u64_value(&raw.public_timeout_ms, DEFAULT_PUBLIC_TIMEOUT_MS),
            max_bytes: env_u64_value(&raw.max_bytes, DEFAULT_MAX_BYTES),
            fallback_threshold_ms: env_u64_value(
                &raw.fallback_threshold_ms,
                DEFAULT_FALLBACK_THRESHOLD_MS,
            ),
        }
    }
}

} // verus!
