//! Content-identifier extraction: reads a URL meant to address content on
//! an IPFS-like network and returns the CID, recognising the `ipfs://`
//! scheme, the `<cid>.ipfs.<domain>` subdomain form, the legacy
//! `.ipfs.dweb.link` host, and the `/ipfs/<cid>` path form, in that order;
//! input that is no URL at all counts as a bare CID once trimmed.
use vstd::prelude::*;
use vstd::string::StrSliceExecFns;
use vstd::string::StringSliceAdditionalSpecFns;

use crate::bytes::bytes_eq;
use crate::bytes::clone_bytes;
use crate::bytes::find_sub;
use crate::bytes::find_sub_at;
use crate::bytes::lemma_find_sub_at_bounds;
use crate::bytes::lemma_find_sub_clean_prefix;
use crate::bytes::lemma_next_byte;
use crate::bytes::lemma_next_byte_clean_window;
use crate::bytes::next_byte;
use crate::bytes::seq_ends_with;
use crate::bytes::split_byte;
use crate::bytes::split_byte_vec;
use crate::bytes::trim_spec;
use crate::bytes::trim_ws;
use crate::bytes::vec_sub;
use crate::bytes::views2;

verus! {

/// The plain components of a parsed absolute URL that the extractor reads.
pub struct UrlParts {
    pub scheme: Vec<u8>,
    pub host: Option<Vec<u8>>,
    pub path: Vec<u8>,
}

pub ghost struct UrlPartsModel {
    pub scheme: Seq<u8>,
    pub host: Option<Seq<u8>>,
    pub path: Seq<u8>,
}

impl View for UrlParts {
    type V = UrlPartsModel;

    open spec fn view(&self) -> UrlPartsModel {
        UrlPartsModel {
            scheme: self.scheme@,
            host: match self.host {
                Some(h) => Some(h@),
                None => None,
            },
            path: self.path@,
        }
    }
}

/// How the URL parser reads a byte string: the scheme, host and path of
/// the absolute URL it accepts, or nothing when it rejects the bytes
/// (bytes that are not UTF-8 count as rejected). The reading depends on
/// the bytes alone.
pub uninterp spec fn url_parse_of(s: Seq<u8>) -> Option<UrlPartsModel>;

/// Relies on `url::Url::parse` and its accessors `scheme`, `host_str` and
/// `path`: splits an absolute URL into plain components; bytes that are not
/// UTF-8 or not a well-formed absolute URL give `None`. The reading is a
/// function of the bytes alone, named `url_parse_of`.
#[verifier::external_body]
pub(crate) fn parse_url_parts(s: &Vec<u8>) -> (r: Option<UrlParts>)
    ensures
        r is Some <==> url_parse_of(s@) is Some,
        r matches Some(p) ==> url_parse_of(s@) == Some(p@),
{
    let text = match core::str::from_utf8(s.as_slice()) {
        Ok(t) => t,
        Err(_) => return None,
    };
    match url::Url::parse(text) {
        Ok(u) => Some(
            UrlParts {
                scheme: u.scheme().as_bytes().to_vec(),
                host: u.host_str().map(|h| h.as_bytes().to_vec()),
                path: u.path().as_bytes().to_vec(),
            },
        ),
        Err(_) => None,
    }
}

pub open spec fn s_ipfs() -> Seq<u8> {
    "ipfs".spec_bytes()
}

pub open spec fn s_ipfs_infix() -> Seq<u8> {
    ".ipfs.".spec_bytes()
}

pub open spec fn s_dweb_suffix() -> Seq<u8> {
    ".ipfs.dweb.link".spec_bytes()
}

/// The byte values of the recognition tokens.
pub proof fn lemma_cid_literals()
    ensures
        s_ipfs() == seq![105u8, 112, 102, 115],
        s_ipfs_infix() == seq![46u8, 105, 112, 102, 115, 46],
        s_dweb_suffix() == seq![
            46u8,
            105,
            112,
            102,
            115,
            46,
            100,
            119,
            101,
            98,
            46,
            108,
            105,
            110,
            107,
        ],
{
    reveal_strlit("ipfs");
    reveal_strlit(".ipfs.");
    reveal_strlit(".ipfs.dweb.link");
    vstd::string::is_ascii_spec_bytes("ipfs");
    vstd::string::is_ascii_spec_bytes(".ipfs.");
    vstd::string::is_ascii_spec_bytes(".ipfs.dweb.link");
    assert(vstd::string::is_ascii("ipfs"));
    assert(vstd::string::is_ascii(".ipfs."));
    assert(vstd::string::is_ascii(".ipfs.dweb.link"));
    assert(s_ipfs() =~= seq![105u8, 112, 102, 115]);
    assert(s_ipfs_infix() =~= seq![46u8, 105, 112, 102, 115, 46]);
    assert(s_dweb_suffix() =~= seq![
        46u8,
        105,
        112,
        102,
        115,
        46,
        100,
        119,
        101,
        98,
        46,
        108,
        105,
        110,
        107,
    ]);
}

/// The path's slash-separated segments: defined only when the path starts
/// with a slash, as a parsed URL with an authority has it.
pub open spec fn path_segments_of(path: Seq<u8>) -> Option<Seq<Seq<u8>>> {
    if path.len() >= 1 && path[0] == 47 {
        Some(split_byte(path.skip(1), 47))
    } else {
        None
    }
}

/// The host's label before the first dot.
pub open spec fn first_label(h: Seq<u8>) -> Seq<u8> {
    h.take(next_byte(h, 46, 0))
}

/// The CID drawn from a host: the part before the first `.ipfs.` if it is
/// non-empty, else the first label of a legacy `.ipfs.dweb.link` host if it
/// is non-empty.
pub open spec fn cid_from_host(h: Seq<u8>) -> Option<Seq<u8>> {
    let found = find_sub_at(h, s_ipfs_infix(), 0);
    if found is Some && found->0 > 0 {
        Some(h.take(found->0))
    } else if seq_ends_with(h, s_dweb_suffix()) && first_label(h).len() > 0 {
        Some(first_label(h))
    } else {
        None
    }
}

/// The CID drawn from a path of the form `/ipfs/<cid>[/...]`.
pub open spec fn cid_from_path(path: Seq<u8>) -> Option<Seq<u8>> {
    match path_segments_of(path) {
        Some(segs) => if segs.len() >= 2 && segs[0] == s_ipfs() && segs[1].len() > 0 {
            Some(segs[1])
        } else {
            None
        },
        None => None,
    }
}

/// The extractor's reading of a parsed URL, the recognition rules in order:
/// for the `ipfs` scheme the host is the CID, or else the first path
/// segment; otherwise the host rules, then the path rule. Only a non-empty
/// candidate counts.
pub open spec fn cid_from_url_parts(u: UrlPartsModel) -> Option<Seq<u8>> {
    if u.scheme == s_ipfs() {
        if u.host is Some && u.host->0.len() > 0 {
            Some(u.host->0)
        } else {
            match path_segments_of(u.path) {
                Some(segs) => if segs.len() >= 1 && segs[0].len() > 0 {
                    Some(segs[0])
                } else {
                    None
                },
                None => None,
            }
        }
    } else {
        let by_host = match u.host {
            Some(h) => cid_from_host(h),
            None => None,
        };
        match by_host {
            Some(c) => Some(c),
            None => cid_from_path(u.path),
        }
    }
}

/// What the extractor returns for the whole input: the URL reading when the
/// input parses, else the trimmed input as a bare CID if non-empty.
pub open spec fn spec_extract_cid(s: Seq<u8>, parsed: Option<UrlPartsModel>) -> Option<Seq<u8>> {
    match parsed {
        Some(u) => cid_from_url_parts(u),
        None => if trim_spec(s).len() > 0 {
            Some(trim_spec(s))
        } else {
            None
        },
    }
}

/// Applies the recognition rules to parsed URL components, exactly as
/// `cid_from_url_parts` says.
pub fn cid_from_parts(parts: &UrlParts) -> (r: Option<Vec<u8>>)
    ensures
        match r {
            Some(c) => cid_from_url_parts(parts@) == Some(c@),
            None => cid_from_url_parts(parts@) is None,
        },
{
    let ipfs = "ipfs".as_bytes_vec();
    if bytes_eq(&parts.scheme, &ipfs) {
        match &parts.host {
            Some(h) => {
                if h.len() > 0 {
                    return Some(clone_bytes(h));
                }
            },
            None => {},
        }
        if parts.path.len() >= 1 && parts.path[0] == 47 {
            let rest = vec_sub(&parts.path, 1, parts.path.len());
            proof {
                assert(rest@ == parts@.path.skip(1));
            }
            let segs = split_byte_vec(&rest, 47);
            if segs.len() >= 1 && segs[0].len() > 0 {
                proof {
                    assert(views2(segs)[0] == segs@[0]@);
                }
                return Some(clone_bytes(&segs[0]));
            }
            proof {
                if views2(segs).len() >= 1 {
                    assert(views2(segs)[0] == segs@[0]@);
                }
            }
            return None;
        }
        return None;
    }
    match &parts.host {
        Some(h) => {
            let infix = ".ipfs.".as_bytes_vec();
            proof {
                lemma_cid_literals();
            }
            match find_sub(h, &infix) {
                Some(pos) => {
                    if pos > 0 {
                        proof {
                            lemma_find_sub_at_bounds(h@, s_ipfs_infix(), 0);
                        }
                        return Some(vec_sub(h, 0, pos));
                    }
                    cid_from_dweb_host(h, parts)
                },
                None => cid_from_dweb_host(h, parts),
            }
        },
        None => cid_from_path_vec(&parts.path, parts),
    }
}

/// The legacy host rule, tried when the subdomain rule gave nothing.
fn cid_from_dweb_host(h: &Vec<u8>, parts: &UrlParts) -> (r: Option<Vec<u8>>)
    requires
        parts@.scheme != s_ipfs(),
        parts@.host == Some(h@),
        ({
            let found = find_sub_at(h@, s_ipfs_infix(), 0);
            !(found is Some && found->0 > 0)
        }),
    ensures
        match r {
            Some(c) => cid_from_url_parts(parts@) == Some(c@),
            None => cid_from_url_parts(parts@) is None,
        },
{
    let suffix = ".ipfs.dweb.link".as_bytes_vec();
    proof {
        lemma_cid_literals();
    }
    if crate::bytes::ends_with_bytes(h, &suffix) {
        proof {
            lemma_next_byte(h@, 46, 0);
        }
        let mut dot: usize = 0;
        let hlen = h.len();
        while dot < hlen && h[dot] != 46
            invariant
                0 <= dot <= h@.len(),
                hlen == h@.len(),
                next_byte(h@, 46, 0) == next_byte(h@, 46, dot as int),
            decreases h@.len() - dot,
        {
            proof {
                assert(next_byte(h@, 46, dot as int) == next_byte(h@, 46, dot + 1));
            }
            dot = dot + 1;
        }
        proof {
            assert(next_byte(h@, 46, dot as int) == dot);
        }
        if dot > 0 {
            return Some(vec_sub(h, 0, dot));
        }
        cid_from_path_vec(&parts.path, parts)
    } else {
        cid_from_path_vec(&parts.path, parts)
    }
}

/// The `/ipfs/<cid>` path rule, tried last.
fn cid_from_path_vec(path: &Vec<u8>, parts: &UrlParts) -> (r: Option<Vec<u8>>)
    requires
        parts@.scheme != s_ipfs(),
        parts@.path == path@,
        (match parts@.host {
            Some(h) => cid_from_host(h) is None,
            None => true,
        }),
    ensures
        match r {
            Some(c) => cid_from_url_parts(parts@) == Some(c@),
            None => cid_from_url_parts(parts@) is None,
        },
{
    if path.len() >= 1 && path[0] == 47 {
        let rest = vec_sub(path, 1, path.len());
        proof {
            assert(rest@ == parts@.path.skip(1));
        }
        let segs = split_byte_vec(&rest, 47);
        let ipfs = "ipfs".as_bytes_vec();
        if segs.len() >= 2 {
            proof {
                assert(views2(segs)[0] == segs@[0]@);
                assert(views2(segs)[1] == segs@[1]@);
            }
            if bytes_eq(&segs[0], &ipfs) && segs[1].len() > 0 {
                return Some(clone_bytes(&segs[1]));
            }
            return None;
        }
        proof {
            if views2(segs).len() >= 2 {
                assert(views2(segs)[0] == segs@[0]@);
            }
        }
        None
    } else {
        None
    }
}

/// Extracts the CID from a URL or bare-CID string, exactly as
/// `spec_extract_cid` reads the parser's outcome: when the input parses as
/// a URL the rules of `cid_from_url_parts` apply to its components, else
/// the trimmed input itself is the candidate. Any returned CID is
/// non-empty, and `None` comes back exactly when no rule yields a
/// non-empty candidate.
pub fn extract_cid_from_url(s: &Vec<u8>) -> (r: Option<Vec<u8>>)
    ensures
        r matches Some(c) ==> c@.len() > 0,
        match r {
            Some(c) => spec_extract_cid(s@, url_parse_of(s@)) == Some(c@),
            None => spec_extract_cid(s@, url_parse_of(s@)) is None,
        },
{
    match parse_url_parts(s) {
        Some(parts) => {
            let r = cid_from_parts(&parts);
            proof {
                lemma_cid_nonempty(parts@);
                assert(spec_extract_cid(s@, url_parse_of(s@)) == cid_from_url_parts(parts@));
            }
            r
        },
        None => {
            let t = trim_ws(s);
            proof {
                assert(spec_extract_cid(s@, url_parse_of(s@)) == (if trim_spec(s@).len() > 0 {
                    Some(trim_spec(s@))
                } else {
                    None::<Seq<u8>>
                }));
            }
            if t.len() > 0 {
                Some(t)
            } else {
                None
            }
        },
    }
}

/// A CID the rules return is never empty.
pub proof fn lemma_cid_nonempty(u: UrlPartsModel)
    ensures
        cid_from_url_parts(u) matches Some(c) ==> c.len() > 0,
{
    lemma_cid_literals();
    if u.scheme == s_ipfs() {
    } else {
        match u.host {
            Some(h) => {
                let found = find_sub_at(h, s_ipfs_infix(), 0);
                if found is Some && found->0 > 0 {
                    lemma_find_sub_at_bounds(h, s_ipfs_infix(), 0);
                }
            },
            None => {},
        }
    }
}

} // verus!

verus! {

// ---------------------------------------------------------------------------
// The four recognised URL forms each yield exactly the CID they carry.
// ---------------------------------------------------------------------------
/// `ipfs://<cid>[/...]`: the host component is the CID.
pub proof fn lemma_cid_scheme_form(cid: Seq<u8>, path: Seq<u8>)
    requires
        cid.len() > 0,
    ensures
        cid_from_url_parts(UrlPartsModel { scheme: s_ipfs(), host: Some(cid), path }) == Some(cid),
{
}

/// `<scheme>://<cid>.ipfs.<domain>/...` for any other scheme: the part of
/// the host before `.ipfs.` is the CID, provided the CID holds no dot.
pub proof fn lemma_cid_subdomain_form(
    scheme: Seq<u8>,
    cid: Seq<u8>,
    domain: Seq<u8>,
    path: Seq<u8>,
)
    requires
        scheme != s_ipfs(),
        cid.len() > 0,
        forall|j: int| 0 <= j < cid.len() ==> cid[j] != 46,
    ensures
        cid_from_url_parts(
            UrlPartsModel { scheme, host: Some(cid + s_ipfs_infix() + domain), path },
        ) == Some(cid),
{
    lemma_cid_literals();
    let h = cid + s_ipfs_infix() + domain;
    assert(h.subrange(cid.len() as int, cid.len() + s_ipfs_infix().len() as int)
        =~= s_ipfs_infix());
    assert forall|j: int| 0 <= j < cid.len() implies h[j] != s_ipfs_infix()[0] by {
        assert(h[j] == cid[j]);
    }
    lemma_find_sub_clean_prefix(h, s_ipfs_infix(), 0, cid.len() as int);
    assert(h.take(cid.len() as int) =~= cid);
}

/// Legacy `<cid>.ipfs.dweb.link` hosts are a case of the subdomain form.
pub proof fn lemma_cid_dweb_form(scheme: Seq<u8>, cid: Seq<u8>, path: Seq<u8>)
    requires
        scheme != s_ipfs(),
        cid.len() > 0,
        forall|j: int| 0 <= j < cid.len() ==> cid[j] != 46,
    ensures
        cid_from_url_parts(UrlPartsModel { scheme, host: Some(cid + s_dweb_suffix()), path })
            == Some(cid),
{
    lemma_cid_literals();
    let tail = s_dweb_suffix().skip(6);
    assert(cid + s_dweb_suffix() =~= cid + s_ipfs_infix() + tail);
    lemma_cid_subdomain_form(scheme, cid, tail, path);
}

/// `/ipfs/<cid>[/...]` paths, when the host rules gave nothing: the second
/// path segment is the CID, provided the CID holds no slash.
pub proof fn lemma_cid_path_form(
    scheme: Seq<u8>,
    host: Option<Seq<u8>>,
    cid: Seq<u8>,
    rest: Seq<u8>,
)
    requires
        scheme != s_ipfs(),
        match host {
            Some(h) => cid_from_host(h) is None,
            None => true,
        },
        cid.len() > 0,
        forall|j: int| 0 <= j < cid.len() ==> cid[j] != 47,
        rest.len() == 0 || rest[0] == 47,
    ensures
        cid_from_url_parts(
            UrlPartsModel {
                scheme,
                host,
                path: seq![47u8] + s_ipfs() + seq![47u8] + cid + rest,
            },
        ) == Some(cid),
{
    lemma_cid_literals();
    let path = seq![47u8] + s_ipfs() + seq![47u8] + cid + rest;
    assert(path[0] == 47);
    let t = path.skip(1);
    assert(t =~= s_ipfs() + seq![47u8] + cid + rest);
    assert(t[4] == 47);
    assert forall|j: int| 0 <= j < 4 implies t[j] != 47 by {
        assert(t[j] == s_ipfs()[j]);
    }
    lemma_next_byte_clean_window(t, 47, 0, 4);
    let k2 = 5 + cid.len() as int;
    assert forall|j: int| 5 <= j < k2 implies t[j] != 47 by {
        assert(t[j] == cid[j - 5]);
    }
    if rest.len() == 0 {
        assert(k2 == t.len());
    } else {
        assert(t[k2] == rest[0]);
    }
    lemma_next_byte_clean_window(t, 47, 5, k2);
    assert(t.subrange(0, 4) =~= s_ipfs());
    assert(t.subrange(5, k2) =~= cid);
    let segs = split_byte(t, 47);
    assert(segs == seq![t.subrange(0, 4)] + crate::bytes::split_byte_from(t, 47, 5));
    if k2 >= t.len() {
        assert(crate::bytes::split_byte_from(t, 47, 5) == seq![t.subrange(5, t.len() as int)]);
        assert(segs[1] == cid);
    } else {
        assert(crate::bytes::split_byte_from(t, 47, 5) == seq![t.subrange(5, k2)]
            + crate::bytes::split_byte_from(t, 47, k2 + 1));
        assert(segs[1] == cid);
    }
    assert(segs.len() >= 2 && segs[0] == s_ipfs());
    assert(path_segments_of(path) == Some(segs));
}

} // verus!
