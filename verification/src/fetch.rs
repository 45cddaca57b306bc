//! The per-gateway download rules: composing the request URL, reading the
//! response status, capping the streamed byte count, and the speed figure
//! for the success record. The HTTP client itself runs at the caller's
//! edge and feeds these functions plain values.
use vstd::prelude::*;

use crate::bytes::append_bytes;
use crate::bytes::vec_sub;
use crate::records::FetchError;

verus! {

/// The base with every trailing slash removed.
pub open spec fn trim_end_slashes(s: Seq<u8>) -> Seq<u8>
    decreases s.len(),
{
    if s.len() > 0 && s[s.len() - 1] == 47 {
        trim_end_slashes(s.take(s.len() - 1))
    } else {
        s
    }
}

/// Composes `<gateway-base>/<cid>`, stripping trailing slashes from the
/// base first.
pub fn build_gateway_url(gateway: &Vec<u8>, cid: &Vec<u8>) -> (r: Vec<u8>)
    ensures
        r@ == trim_end_slashes(gateway@) + seq![47u8] + cid@,
{
    let mut b: usize = gateway.len();
    proof {
        assert(gateway@.take(gateway@.len() as int) =~= gateway@);
    }
    while b > 0 && gateway[b - 1] == 47
        invariant
            0 <= b <= gateway@.len(),
            trim_end_slashes(gateway@) == trim_end_slashes(gateway@.take(b as int)),
        decreases b,
    {
        proof {
            let t = gateway@.take(b as int);
            assert(t[t.len() - 1] == 47);
            assert(t.take(t.len() - 1) =~= gateway@.take(b - 1));
        }
        b = b - 1;
    }
    proof {
        let t = gateway@.take(b as int);
        assert(!(t.len() > 0 && t[t.len() - 1] == 47));
        assert(trim_end_slashes(t) == t);
    }
    let mut out = vec_sub(gateway, 0, b);
    out.push(47);
    append_bytes(&mut out, cid);
    proof {
        assert(out@ =~= trim_end_slashes(gateway@) + seq![47u8] + cid@);
    }
    out
}

/// Whether an HTTP status code counts as success: the 2xx range, as the
/// HTTP client's own success test counts it.
pub fn status_is_success(code: u16) -> (r: bool)
    ensures
        r == (200 <= code && code < 300),
{
    200 <= code && code < 300
}

/// The failure for a response status, if it is no success.
pub fn classify_status(code: u16) -> (r: Option<FetchError>)
    ensures
        200 <= code && code < 300 ==> r is None,
        !(200 <= code && code < 300) ==> (r matches Some(e) && e@ matches
            crate::records::FetchErrorModel::HttpStatus(c) && c == code),
{
    if status_is_success(code) {
        None
    } else {
        Some(FetchError::HttpStatus(code))
    }
}

/// Counts the bytes of a streamed download against the configured cap.
pub struct DownloadMeter {
    pub received: u64,
    pub cap: u64,
}

impl DownloadMeter {
    pub fn new(cap: u64) -> (r: Self)
        ensures
            r.received == 0,
            r.cap == cap,
    {
        DownloadMeter { received: 0, cap }
    }

    /// Accounts one chunk of `n` bytes (saturating at the counter's limit)
    /// and says whether to keep reading: the download stops, gracefully,
    /// once the received bytes reach the cap.
    pub fn on_chunk(&mut self, n: u64) -> (cont: bool)
        ensures
            final(self).cap == old(self).cap,
            final(self).received == if old(self).received + n <= u64::MAX {
                old(self).received + n
            } else {
                u64::MAX as int
            },
            cont == (final(self).received < final(self).cap),
    {
        self.received = if n <= u64::MAX - self.received {
            self.received + n
        } else {
            u64::MAX
        };
        self.received < self.cap
    }
}

/// The success record's speed figure: kibibytes per second from bytes and
/// elapsed milliseconds, zero when no time was measured.
pub open spec fn spec_speed_kbps(bytes: u64, elapsed_ms: u64) -> u64 {
    if elapsed_ms == 0 {
        0
    } else {
        ((bytes * 1000 / elapsed_ms as int) / 1024) as u64
    }
}

/// Computes the speed figure, as `spec_speed_kbps` says.
pub fn speed_kbps(bytes: u64, elapsed_ms: u64) -> (r: u64)
    ensures
        r == spec_speed_kbps(bytes, elapsed_ms),
{
    if elapsed_ms == 0 {
        return 0;
    }
    let wide = (bytes as u128) * 1000 / (elapsed_ms as u128) / 1024;
    proof {
        assert((bytes as int) * 1000 / (elapsed_ms as int) / 1024 <= bytes) by (nonlinear_arith)
            requires
                elapsed_ms >= 1,
                bytes >= 0,
        ;
    }
    wide as u64
}

} // verus!
