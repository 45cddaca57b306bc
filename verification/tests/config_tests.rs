use pumpfeed::backoff::Backoff;
use pumpfeed::config::{
    env_bool_value, env_csv_value, env_u64_value, IpfsConfig, RawIpfsEnv, RawSmartIpfsEnv,
    RawValidateEnv, SmartIpfsConfig, ValidateConfig,
};

fn b(s: &str) -> Vec<u8> {
    s.as_bytes().to_vec()
}

#[test]
fn boolean_values_accept_the_four_truthy_spellings() {
    for v in ["1", "true", "yes", "on", "TRUE", "Yes", "ON"] {
        assert!(env_bool_value(&Some(b(v)), false), "{v} should be true");
    }
    for v in ["0", "false", "no", "off", "2", "", "tru"] {
        assert!(!env_bool_value(&Some(b(v)), true), "{v} should be false");
    }
    assert!(env_bool_value(&None, true));
    assert!(!env_bool_value(&None, false));
}

#[test]
fn csv_values_are_trimmed_and_empties_dropped() {
    let got = env_csv_value(&Some(b(" a , b ,, c,")));
    assert_eq!(got, vec![b("a"), b("b"), b("c")]);
    assert!(env_csv_value(&None).is_empty());
    assert!(env_csv_value(&Some(b("  ,  "))).is_empty());
}

#[test]
fn numeric_values_fall_back_to_defaults() {
    assert_eq!(env_u64_value(&Some(b("123")), 7), 123);
    assert_eq!(env_u64_value(&Some(b("+123")), 7), 123);
    assert_eq!(env_u64_value(&Some(b("++123")), 7), 7);
    assert_eq!(env_u64_value(&Some(b("+")), 7), 7);
    assert_eq!(env_u64_value(&Some(b("nope")), 7), 7);
    assert_eq!(env_u64_value(&Some(b("")), 7), 7);
    assert_eq!(env_u64_value(&Some(b("99999999999999999999999")), 7), 7);
    assert_eq!(env_u64_value(&None, 7), 7);
}

#[test]
fn validate_config_defaults_are_off() {
    let v = ValidateConfig::from_env(&RawValidateEnv {
        enabled: None,
        allowed_subjects: None,
        require_mint: None,
        require_image: None,
        info_keys: None,
    });
    assert!(!v.enabled);
    assert!(!v.require_mint);
    assert!(!v.require_image);
    assert!(v.allowed_subject_prefixes.is_empty());
    assert!(v.require_info_keys.is_empty());
}

#[test]
fn plain_fetch_config_gateway_fallbacks() {
    let with_list = IpfsConfig::from_env(&RawIpfsEnv {
        enabled: Some(b("1")),
        gateways: Some(b("https://a/ipfs, https://b/ipfs")),
        gateway: Some(b("https://single/ipfs")),
        timeout_ms: None,
        max_bytes: None,
    });
    assert_eq!(with_list.gateways, vec![b("https://a/ipfs"), b("https://b/ipfs")]);
    assert_eq!(with_list.gateway, b("https://a/ipfs"));
    assert_eq!(with_list.timeout_ms, 20000);
    assert_eq!(with_list.max_bytes, 20971520);

    let with_single = IpfsConfig::from_env(&RawIpfsEnv {
        enabled: None,
        gateways: None,
        gateway: Some(b("https://single/ipfs")),
        timeout_ms: None,
        max_bytes: None,
    });
    assert_eq!(with_single.gateways, vec![b("https://single/ipfs")]);

    let bare = IpfsConfig::from_env(&RawIpfsEnv {
        enabled: None,
        gateways: None,
        gateway: None,
        timeout_ms: None,
        max_bytes: None,
    });
    assert_eq!(bare.gateways, vec![b("https://ipfs.io/ipfs")]);
    assert!(!bare.enabled);
}

#[test]
fn hedged_config_defaults() {
    let c = SmartIpfsConfig::from_env(&RawSmartIpfsEnv {
        enabled: None,
        local_gateway: None,
        public_gateways: None,
        local_timeout_ms: None,
        public_timeout_ms: None,
        max_bytes: None,
        fallback_threshold_ms: None,
    });
    assert!(c.enabled);
    assert_eq!(c.local_gateway, b("http://localhost:8080/ipfs"));
    assert_eq!(
        c.public_gateways,
        vec![
            b("https://ipfs.io/ipfs"),
            b("https://gateway.pinata.cloud/ipfs"),
            b("https://cloudflare-ipfs.com/ipfs"),
            b("https://dweb.link/ipfs"),
        ]
    );
    assert_eq!(c.local_timeout_ms, 5000);
    assert_eq!(c.public_timeout_ms, 30000);
    assert_eq!(c.max_bytes, 20971520);
    assert_eq!(c.fallback_threshold_ms, 200);
}

#[test]
fn hedged_config_honours_overrides() {
    let c = SmartIpfsConfig::from_env(&RawSmartIpfsEnv {
        enabled: Some(b("off")),
        local_gateway: Some(b("http://box:1234/ipfs")),
        public_gateways: Some(b("https://one/ipfs")),
        local_timeout_ms: Some(b("900")),
        public_timeout_ms: Some(b("1800")),
        max_bytes: Some(b("4096")),
        fallback_threshold_ms: Some(b("50")),
    });
    assert!(!c.enabled);
    assert_eq!(c.local_gateway, b("http://box:1234/ipfs"));
    assert_eq!(c.public_gateways, vec![b("https://one/ipfs")]);
    assert_eq!(c.local_timeout_ms, 900);
    assert_eq!(c.public_timeout_ms, 1800);
    assert_eq!(c.max_bytes, 4096);
    assert_eq!(c.fallback_threshold_ms, 50);
}

#[test]
fn backoff_sequence_doubles_to_the_cap() {
    let mut backoff = Backoff::new();
    let mut observed = Vec::new();
    for _ in 0..7 {
        let (sleep_s, record) = backoff.on_error(&b("connection refused"));
        match record {
            pumpfeed::records::LogRecord::Reconnect { backoff_s, .. } => {
                assert_eq!(backoff_s, sleep_s)
            }
            _ => panic!("expected the reconnect record"),
        }
        observed.push(sleep_s);
    }
    assert_eq!(observed, vec![1, 2, 4, 8, 16, 30, 30]);
}

#[test]
fn backoff_resets_after_a_clean_session() {
    let mut backoff = Backoff::new();
    backoff.on_error(&b("x"));
    backoff.on_error(&b("x"));
    assert_eq!(backoff.delay_s, 4);
    backoff.on_clean_end();
    assert_eq!(backoff.delay_s, 1);
    let (sleep_s, _) = backoff.on_error(&b("x"));
    assert_eq!(sleep_s, 1);
}

#[test]
fn key_sorting_is_byte_lexicographic() {
    let unsorted = vec![b("zeta"), b("alpha"), b("alpha"), b("Zeta"), b("alp"), b("")];
    let sorted = pumpfeed::bytes::sort_byte_vecs(&unsorted);
    assert_eq!(
        sorted,
        vec![b(""), b("Zeta"), b("alp"), b("alpha"), b("alpha"), b("zeta")]
    );
}
