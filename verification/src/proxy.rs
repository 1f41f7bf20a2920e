//! PROXY-protocol configuration: which header versions a listener accepts on
//! the downstream socket and which, if any, it passes to the upstream dial.

use vstd::prelude::*;
use vstd::string::StringSliceAdditionalSpecFns;

verus! {

/// Compares two byte strings.
pub fn slice_eq(a: &[u8], b: &[u8]) -> (r: bool)
    ensures
        r == (a@ == b@),
{
    let n = a.len();
    if n != b.len() {
        proof {
            assert(a@.len() != b@.len());
        }
        return false;
    }
    let mut k: usize = 0;
    while k < n
        invariant
            k <= n,
            n == a@.len() == b@.len(),
            forall|i: int| 0 <= i < k ==> a@[i] == b@[i],
        decreases n - k,
    {
        if a[k] != b[k] {
            return false;
        }
        k = k + 1;
    }
    proof {
        assert(a@ =~= b@);
    }
    true
}

/// Accepted PROXY protocol header versions.
#[derive(Debug, Clone, Copy, PartialEq, Eq, Structural)]
pub enum ProxyProtocolVersion {
    V1,
    V2,
    Both,
}

impl ProxyProtocolVersion {
    /// Parses the configuration words "v1", "v2" and "both"; anything else is
    /// rejected.
    pub fn parse(s: &str) -> (r: Option<ProxyProtocolVersion>)
        ensures
            (r == Some(ProxyProtocolVersion::V1)) == (s.spec_bytes() == seq![118u8, 49u8]),
            (r == Some(ProxyProtocolVersion::V2)) == (s.spec_bytes() == seq![118u8, 50u8]),
            (r == Some(ProxyProtocolVersion::Both)) == (s.spec_bytes() == seq![98u8, 111u8, 116u8, 104u8]),
            (r == None::<ProxyProtocolVersion>) == (s.spec_bytes() != seq![118u8, 49u8]
                && s.spec_bytes() != seq![118u8, 50u8] && s.spec_bytes() != seq![98u8, 111u8, 116u8, 104u8]),
    {
        let b = s.as_bytes();
        let v1 = vec![118u8, 49u8];
        let v2 = vec![118u8, 50u8];
        let both = vec![98u8, 111u8, 116u8, 104u8];
        proof {
            assert(v1@ =~= seq![118u8, 49u8]);
            assert(v2@ =~= seq![118u8, 50u8]);
            assert(both@ =~= seq![98u8, 111u8, 116u8, 104u8]);
        }
        if slice_eq(b, v1.as_slice()) {
            Some(ProxyProtocolVersion::V1)
        } else if slice_eq(b, v2.as_slice()) {
            Some(ProxyProtocolVersion::V2)
        } else if slice_eq(b, both.as_slice()) {
            Some(ProxyProtocolVersion::Both)
        } else {
            None
        }
    }

    /// Which header versions the downstream acceptor must support: PROXY v1
    /// and v2 respectively.
    pub fn support(&self) -> (r: (bool, bool))
        ensures
            r.0 == (*self == ProxyProtocolVersion::V1 || *self == ProxyProtocolVersion::Both),
            r.1 == (*self == ProxyProtocolVersion::V2 || *self == ProxyProtocolVersion::Both),
    {
        match self {
            ProxyProtocolVersion::V1 => (true, false),
            ProxyProtocolVersion::V2 => (false, true),
            ProxyProtocolVersion::Both => (true, true),
        }
    }
}

impl core::str::FromStr for ProxyProtocolVersion {
    type Err = ();

    /// The same parse, through the std trait.
    fn from_str(s: &str) -> Result<ProxyProtocolVersion, ()> {
        match ProxyProtocolVersion::parse(s) {
            Some(v) => Ok(v),
            None => Err(()),
        }
    }
}

/// PROXY-protocol behaviour of one listener.
#[derive(Debug, Clone, Copy, PartialEq, Eq, Structural)]
pub struct ProxyConfig {
    /// Accept a PROXY header on the downstream connection.
    pub accept_proxy_protocol: bool,
    /// Treat a missing header as a plain TCP connection instead of an error.
    pub proxy_protocol_optional: bool,
    /// Which header versions the downstream acceptor recognizes.
    pub accepted_proxy_protocol_versions: ProxyProtocolVersion,
    /// Pass the original addresses upstream with this header version.
    pub pass_proxy_protocol: Option<ProxyProtocolVersion>,
}

impl Default for ProxyConfig {
    /// Plain TCP on both sides: nothing accepted, nothing passed on.
    fn default() -> (r: ProxyConfig)
        ensures
            !r.accept_proxy_protocol,
            !r.proxy_protocol_optional,
            r.accepted_proxy_protocol_versions == ProxyProtocolVersion::Both,
            r.pass_proxy_protocol == None::<ProxyProtocolVersion>,
    {
        ProxyConfig {
            accept_proxy_protocol: false,
            proxy_protocol_optional: false,
            accepted_proxy_protocol_versions: ProxyProtocolVersion::Both,
            pass_proxy_protocol: None,
        }
    }
}

/// The 6-byte text signature "PROXY ".
pub open spec fn proxy_v1_sig() -> Seq<u8> {
    seq![80u8, 82u8, 79u8, 88u8, 89u8, 32u8]
}

/// The 12-byte binary signature of a PROXY v2 header.
pub open spec fn proxy_v2_sig() -> Seq<u8> {
    seq![13u8, 10u8, 13u8, 10u8, 0u8, 13u8, 10u8, 81u8, 85u8, 73u8, 84u8, 10u8]
}

/// Longest admitted v1 line, terminator included.
pub const PROXY_V1_MAX_LINE: usize = 107;

/// Index of the first CRLF at or after `i`.
pub open spec fn find_crlf(s: Seq<u8>, i: int) -> Option<int>
    decreases s.len() - i,
{
    if i + 2 > s.len() {
        None
    } else if s[i] == 13 && s[i + 1] == 10 {
        Some(i)
    } else {
        find_crlf(s, i + 1)
    }
}

/// How the front of a downstream stream relates to a PROXY header.
#[derive(Debug, Clone, Copy, PartialEq, Eq, Structural)]
pub enum ProxyHeaderOutcome {
    /// A complete v1 text line; strip `consumed` bytes (or replay them
    /// upstream for pass-through).
    V1Line { consumed: usize },
    /// A complete v2 binary header; strip `consumed` bytes.
    V2Header { consumed: usize },
    /// What is there so far could still become a header; read more bytes.
    NeedMore,
    /// The stream does not start with an accepted PROXY signature.
    NoHeader,
    /// A signature matched but the header breaks its own rules (an overlong
    /// v1 line).
    Malformed,
}

/// The first `n` bytes of `s` agree with `sig` (as far as both reach).
pub open spec fn sig_prefix_matches(s: Seq<u8>, sig: Seq<u8>, n: int) -> bool {
    forall|i: int| 0 <= i < n ==> s[i] == sig[i]
}

/// What inspecting `s` must yield: v1 and v2 signatures are told apart by
/// their first byte, a partial signature asks for more, and a v1 line must
/// close with CRLF within the 107-byte bound.
pub open spec fn proxy_header_model(s: Seq<u8>, accept_v1: bool, accept_v2: bool)
    -> ProxyHeaderOutcome {
    if s.len() == 0 {
        ProxyHeaderOutcome::NeedMore
    } else if s[0] == 80 && accept_v1 {
        if !sig_prefix_matches(s, proxy_v1_sig(), if s.len() < 6 { s.len() as int } else { 6 }) {
            ProxyHeaderOutcome::NoHeader
        } else if s.len() < 6 {
            ProxyHeaderOutcome::NeedMore
        } else {
            match find_crlf(s, 0) {
                Some(i) => if i + 2 <= PROXY_V1_MAX_LINE {
                    ProxyHeaderOutcome::V1Line { consumed: (i + 2) as usize }
                } else {
                    ProxyHeaderOutcome::Malformed
                },
                None => if s.len() >= PROXY_V1_MAX_LINE {
                    ProxyHeaderOutcome::Malformed
                } else {
                    ProxyHeaderOutcome::NeedMore
                },
            }
        }
    } else if s[0] == 13 && accept_v2 {
        if !sig_prefix_matches(s, proxy_v2_sig(), if s.len() < 12 { s.len() as int } else { 12 }) {
            ProxyHeaderOutcome::NoHeader
        } else if s.len() < 16 {
            ProxyHeaderOutcome::NeedMore
        } else {
            let n = 256 * s[14] + s[15];
            if s.len() < 16 + n {
                ProxyHeaderOutcome::NeedMore
            } else {
                ProxyHeaderOutcome::V2Header { consumed: (16 + n) as usize }
            }
        }
    } else {
        ProxyHeaderOutcome::NoHeader
    }
}

/// Checks `buf` against `sig` up to `n`; reports the first disagreement.
fn sig_scan(buf: &[u8], sig: &Vec<u8>, n: usize) -> (r: bool)
    requires
        n <= buf@.len(),
        n <= sig@.len(),
    ensures
        r == sig_prefix_matches(buf@, sig@, n as int),
{
    let mut k: usize = 0;
    while k < n
        invariant
            k <= n <= buf@.len(),
            n <= sig@.len(),
            forall|i: int| 0 <= i < k ==> buf@[i] == sig@[i],
        decreases n - k,
    {
        if buf[k] != sig[k] {
            return false;
        }
        k = k + 1;
    }
    true
}

/// Inspects the front of a freshly accepted stream for a PROXY header,
/// honouring which versions the listener accepts.  Exactly
/// [`proxy_header_model`]: the caller strips `consumed` bytes on a complete
/// header, reads more on `NeedMore`, and treats the stream as raw TCP on
/// `NoHeader` when the header is optional.
pub fn inspect_proxy_header(buf: &[u8], accept_v1: bool, accept_v2: bool)
    -> (r: ProxyHeaderOutcome)
    ensures
        r == proxy_header_model(buf@, accept_v1, accept_v2),
{
    let len = buf.len();
    if len == 0 {
        return ProxyHeaderOutcome::NeedMore;
    }
    if buf[0] == 80 && accept_v1 {
        let sig = vec![80u8, 82u8, 79u8, 88u8, 89u8, 32u8];
        proof {
            assert(sig@ =~= proxy_v1_sig());
        }
        let n = if len < 6 {
            len
        } else {
            6
        };
        if !sig_scan(buf, &sig, n) {
            return ProxyHeaderOutcome::NoHeader;
        }
        if len < 6 {
            return ProxyHeaderOutcome::NeedMore;
        }
        let mut i: usize = 0;
        while len - i >= 2
            invariant
                i <= len,
                len == buf@.len(),
                len >= 6,
                accept_v1,
                buf@[0] == 80,
                sig_prefix_matches(buf@, proxy_v1_sig(), 6),
                find_crlf(buf@, 0) == find_crlf(buf@, i as int),
            decreases len - i,
        {
            if buf[i] == 13 && buf[i + 1] == 10 {
                if i + 2 <= PROXY_V1_MAX_LINE {
                    return ProxyHeaderOutcome::V1Line { consumed: i + 2 };
                } else {
                    return ProxyHeaderOutcome::Malformed;
                }
            }
            i = i + 1;
        }
        if len >= PROXY_V1_MAX_LINE {
            return ProxyHeaderOutcome::Malformed;
        }
        return ProxyHeaderOutcome::NeedMore;
    }
    if buf[0] == 13 && accept_v2 {
        let sig = vec![13u8, 10u8, 13u8, 10u8, 0u8, 13u8, 10u8, 81u8, 85u8, 73u8, 84u8, 10u8];
        proof {
            assert(sig@ =~= proxy_v2_sig());
        }
        let n = if len < 12 {
            len
        } else {
            12
        };
        if !sig_scan(buf, &sig, n) {
            return ProxyHeaderOutcome::NoHeader;
        }
        if len < 16 {
            return ProxyHeaderOutcome::NeedMore;
        }
        let n2: usize = 256 * (buf[14] as usize) + (buf[15] as usize);
        if len < 16 + n2 {
            return ProxyHeaderOutcome::NeedMore;
        }
        return ProxyHeaderOutcome::V2Header { consumed: 16 + n2 };
    }
    ProxyHeaderOutcome::NoHeader
}

} // verus!

