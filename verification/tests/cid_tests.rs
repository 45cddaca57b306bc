use pumpfeed::cid::extract_cid_from_url;

fn b(s: &str) -> Vec<u8> {
    s.as_bytes().to_vec()
}

fn cid_of(s: &str) -> Option<String> {
    extract_cid_from_url(&b(s)).map(|c| String::from_utf8(c).unwrap())
}

#[test]
fn ipfs_scheme_host_is_the_cid() {
    assert_eq!(cid_of("ipfs://bafybeigdyr/some/path.png").as_deref(), Some("bafybeigdyr"));
    assert_eq!(cid_of("ipfs://bafy/").as_deref(), Some("bafy"));
    assert_eq!(cid_of("ipfs://bafy").as_deref(), Some("bafy"));
}

#[test]
fn subdomain_host_form() {
    assert_eq!(
        cid_of("https://bafybeibxyz.ipfs.w3s.link/cat.png").as_deref(),
        Some("bafybeibxyz")
    );
}

#[test]
fn legacy_dweb_host_form() {
    assert_eq!(
        cid_of("https://bafyexample.ipfs.dweb.link/img.png").as_deref(),
        Some("bafyexample")
    );
}

#[test]
fn path_form() {
    assert_eq!(
        cid_of("https://ipfs.io/ipfs/QmHashHere/file.png").as_deref(),
        Some("QmHashHere")
    );
    assert_eq!(cid_of("https://gateway.example/ipfs/QmX").as_deref(), Some("QmX"));
}

#[test]
fn bare_cid_is_trimmed() {
    assert_eq!(cid_of("  QmBareCid  ").as_deref(), Some("QmBareCid"));
}

#[test]
fn empty_and_blank_inputs_give_nothing() {
    assert_eq!(cid_of(""), None);
    assert_eq!(cid_of("   "), None);
}

#[test]
fn url_without_any_cid_form_gives_nothing() {
    assert_eq!(cid_of("https://example.com/picture.png"), None);
}

#[test]
fn path_form_with_empty_cid_segment_gives_nothing() {
    assert_eq!(cid_of("https://example.com/ipfs//x"), None);
}
