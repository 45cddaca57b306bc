use pumpfeed::fetch::{build_gateway_url, classify_status, speed_kbps, DownloadMeter};
use pumpfeed::records::FetchError;

fn b(s: &str) -> Vec<u8> {
    s.as_bytes().to_vec()
}

#[test]
fn gateway_url_strips_trailing_slashes() {
    assert_eq!(build_gateway_url(&b("https://g/ipfs"), &b("Qm")), b("https://g/ipfs/Qm"));
    assert_eq!(build_gateway_url(&b("https://g/ipfs/"), &b("Qm")), b("https://g/ipfs/Qm"));
    assert_eq!(build_gateway_url(&b("https://g/ipfs///"), &b("Qm")), b("https://g/ipfs/Qm"));
}

#[test]
fn status_classification() {
    assert!(classify_status(200).is_none());
    assert!(classify_status(204).is_none());
    assert!(classify_status(299).is_none());
    match classify_status(404) {
        Some(FetchError::HttpStatus(c)) => assert_eq!(c, 404),
        _ => panic!("expected an http_status failure"),
    }
    assert!(classify_status(301).is_some());
    assert!(classify_status(500).is_some());
    assert!(classify_status(199).is_some());
}

#[test]
fn meter_stops_at_the_cap() {
    let mut meter = DownloadMeter::new(10);
    assert!(meter.on_chunk(4));
    assert!(meter.on_chunk(5));
    assert_eq!(meter.received, 9);
    assert!(!meter.on_chunk(1));
    assert_eq!(meter.received, 10);
}

#[test]
fn meter_overshoot_is_graceful() {
    let mut meter = DownloadMeter::new(10);
    assert!(!meter.on_chunk(1000));
    assert_eq!(meter.received, 1000);
}

#[test]
fn meter_saturates_instead_of_wrapping() {
    let mut meter = DownloadMeter::new(u64::MAX);
    meter.on_chunk(u64::MAX - 1);
    meter.on_chunk(5000);
    assert_eq!(meter.received, u64::MAX);
}

#[test]
fn speed_figures() {
    // 1 MiB in one second is 1024 KiB/s
    assert_eq!(speed_kbps(1048576, 1000), 1024);
    // no measured time gives zero
    assert_eq!(speed_kbps(123456, 0), 0);
    // 2048 bytes in 2 s: 1024 bytes/s = 1 KiB/s
    assert_eq!(speed_kbps(2048, 2000), 1);
    assert_eq!(speed_kbps(0, 5), 0);
}

#[test]
fn error_kind_labels() {
    assert_eq!(FetchError::ClientBuild(b("x")).kind_label(), "client_build");
    assert_eq!(FetchError::RequestFailed(b("x")).kind_label(), "request_failed");
    assert_eq!(FetchError::HttpStatus(503).kind_label(), "http_status");
    assert_eq!(FetchError::StreamError(b("x")).kind_label(), "stream_error");
}
