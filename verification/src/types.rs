//! Primitive V2 wire types: length-prefixed strings and byte blobs, the fixed
//! 256-bit integer, short sequences, and the device-info tuple.
//!
//! A string on the wire is a 1-byte length prefix followed by that many UTF-8
//! bytes; the library stores the body bytes and carries UTF-8 validity in the
//! type's well-formedness predicate, checked by a verified validator.

use vstd::prelude::*;

verus! {

/// A UTF-8 continuation byte (10xxxxxx).
pub open spec fn utf8_tail(b: u8) -> bool {
    0x80 <= b && b <= 0xBF
}

/// Well-formed UTF-8 per RFC 3629: one to four byte sequences, no surrogates,
/// no overlong forms, nothing above U+10FFFF.
pub open spec fn is_utf8(s: Seq<u8>) -> bool
    decreases s.len(),
{
    if s.len() == 0 {
        true
    } else {
        let b0 = s[0];
        if b0 < 0x80 {
            is_utf8(s.skip(1))
        } else if 0xC2 <= b0 && b0 <= 0xDF {
            s.len() >= 2 && utf8_tail(s[1]) && is_utf8(s.skip(2))
        } else if b0 == 0xE0 {
            s.len() >= 3 && 0xA0 <= s[1] && s[1] <= 0xBF && utf8_tail(s[2]) && is_utf8(s.skip(3))
        } else if 0xE1 <= b0 && b0 <= 0xEC {
            s.len() >= 3 && utf8_tail(s[1]) && utf8_tail(s[2]) && is_utf8(s.skip(3))
        } else if b0 == 0xED {
            s.len() >= 3 && 0x80 <= s[1] && s[1] <= 0x9F && utf8_tail(s[2]) && is_utf8(s.skip(3))
        } else if 0xEE <= b0 && b0 <= 0xEF {
            s.len() >= 3 && utf8_tail(s[1]) && utf8_tail(s[2]) && is_utf8(s.skip(3))
        } else if b0 == 0xF0 {
            s.len() >= 4 && 0x90 <= s[1] && s[1] <= 0xBF && utf8_tail(s[2]) && utf8_tail(s[3])
                && is_utf8(s.skip(4))
        } else if 0xF1 <= b0 && b0 <= 0xF3 {
            s.len() >= 4 && utf8_tail(s[1]) && utf8_tail(s[2]) && utf8_tail(s[3])
                && is_utf8(s.skip(4))
        } else if b0 == 0xF4 {
            s.len() >= 4 && 0x80 <= s[1] && s[1] <= 0x8F && utf8_tail(s[2]) && utf8_tail(s[3])
                && is_utf8(s.skip(4))
        } else {
            false
        }
    }
}

/// Dropping `k` leading bytes twice is dropping their sum once.
proof fn lemma_skip_skip(s: Seq<u8>, i: int, k: int)
    requires
        0 <= i,
        0 <= k,
        i + k <= s.len(),
    ensures
        s.skip(i).skip(k) == s.skip(i + k),
{
    assert(s.skip(i).skip(k) =~= s.skip(i + k));
}

/// Checks whether a byte slice is well-formed UTF-8.
pub fn check_utf8(s: &[u8]) -> (r: bool)
    ensures
        r == is_utf8(s@),
{
    let n = s.len();
    let mut i: usize = 0;
    proof {
        assert(s@.skip(0) =~= s@);
    }
    while i < n
        invariant
            i <= n == s@.len(),
            is_utf8(s@) == is_utf8(s@.skip(i as int)),
        decreases n - i,
    {
        let b0 = s[i];
        let step: usize;
        if b0 < 0x80 {
            step = 1;
        } else if 0xC2 <= b0 && b0 <= 0xDF {
            if !(n - i >= 2 && 0x80 <= s[i + 1] && s[i + 1] <= 0xBF) {
                return false;
            }
            step = 2;
        } else if b0 == 0xE0 {
            if !(n - i >= 3 && 0xA0 <= s[i + 1] && s[i + 1] <= 0xBF && 0x80 <= s[i + 2]
                && s[i + 2] <= 0xBF) {
                return false;
            }
            step = 3;
        } else if (0xE1 <= b0 && b0 <= 0xEC) || (0xEE <= b0 && b0 <= 0xEF) {
            if !(n - i >= 3 && 0x80 <= s[i + 1] && s[i + 1] <= 0xBF && 0x80 <= s[i + 2]
                && s[i + 2] <= 0xBF) {
                return false;
            }
            step = 3;
        } else if b0 == 0xED {
            if !(n - i >= 3 && 0x80 <= s[i + 1] && s[i + 1] <= 0x9F && 0x80 <= s[i + 2]
                && s[i + 2] <= 0xBF) {
                return false;
            }
            step = 3;
        } else if b0 == 0xF0 {
            if !(n - i >= 4 && 0x90 <= s[i + 1] && s[i + 1] <= 0xBF && 0x80 <= s[i + 2]
                && s[i + 2] <= 0xBF && 0x80 <= s[i + 3] && s[i + 3] <= 0xBF) {
                return false;
            }
            step = 4;
        } else if 0xF1 <= b0 && b0 <= 0xF3 {
            if !(n - i >= 4 && 0x80 <= s[i + 1] && s[i + 1] <= 0xBF && 0x80 <= s[i + 2]
                && s[i + 2] <= 0xBF && 0x80 <= s[i + 3] && s[i + 3] <= 0xBF) {
                return false;
            }
            step = 4;
        } else if b0 == 0xF4 {
            if !(n - i >= 4 && 0x80 <= s[i + 1] && s[i + 1] <= 0x8F && 0x80 <= s[i + 2]
                && s[i + 2] <= 0xBF && 0x80 <= s[i + 3] && s[i + 3] <= 0xBF) {
                return false;
            }
            step = 4;
        } else {
            return false;
        }
        proof {
            lemma_skip_skip(s@, i as int, step as int);
        }
        i = i + step;
    }
    proof {
        assert(s@.skip(n as int) =~= Seq::<u8>::empty());
    }
    true
}

/// Pure-ASCII byte strings are well-formed UTF-8.
pub proof fn lemma_ascii_is_utf8(s: Seq<u8>)
    requires
        forall|i: int| 0 <= i < s.len() ==> s[i] < 0x80,
    ensures
        is_utf8(s),
    decreases s.len(),
{
    if s.len() > 0 {
        assert(s.skip(1).len() == s.len() - 1);
        assert(forall|i: int| 0 <= i < s.skip(1).len() ==> s.skip(1)[i] == s[i + 1]);
        lemma_ascii_is_utf8(s.skip(1));
    }
}

/// A string of at most 32 UTF-8 bytes, stored without its length prefix.
#[derive(Clone, Debug, PartialEq, Eq)]
pub struct Str0_32 {
    pub data: Vec<u8>,
}

impl View for Str0_32 {
    type V = Seq<u8>;

    open spec fn view(&self) -> Seq<u8> {
        self.data@
    }
}

impl Str0_32 {
    /// Runtime test of `wf`, for callers outside the verified crate.
    pub fn check_wf(&self) -> (r: bool)
        ensures
            r == self.wf(),
    {
        self.data.len() <= 32 && check_utf8(self.data.as_slice())
    }

    /// Body length within bound and valid UTF-8.
    pub open spec fn wf(&self) -> bool {
        self@.len() <= 32 && is_utf8(self@)
    }

    /// Accepts exactly the well-formed values.
    pub fn from_bytes(data: Vec<u8>) -> (r: Option<Str0_32>)
        ensures
            match r {
                Some(s) => s.wf() && s@ == data@,
                None => !(data@.len() <= 32 && is_utf8(data@)),
            },
    {
        if data.len() <= 32 && check_utf8(data.as_slice()) {
            Some(Str0_32 { data })
        } else {
            None
        }
    }
}

/// A string of at most 255 UTF-8 bytes, stored without its length prefix.
#[derive(Clone, Debug, PartialEq, Eq)]
pub struct Str0_255 {
    pub data: Vec<u8>,
}

impl View for Str0_255 {
    type V = Seq<u8>;

    open spec fn view(&self) -> Seq<u8> {
        self.data@
    }
}

impl Str0_255 {
    /// Runtime test of `wf`, for callers outside the verified crate.
    pub fn check_wf(&self) -> (r: bool)
        ensures
            r == self.wf(),
    {
        self.data.len() <= 255 && check_utf8(self.data.as_slice())
    }

    /// Body length within bound and valid UTF-8.
    pub open spec fn wf(&self) -> bool {
        self@.len() <= 255 && is_utf8(self@)
    }

    /// Accepts exactly the well-formed values.
    pub fn from_bytes(data: Vec<u8>) -> (r: Option<Str0_255>)
        ensures
            match r {
                Some(s) => s.wf() && s@ == data@,
                None => !(data@.len() <= 255 && is_utf8(data@)),
            },
    {
        if data.len() <= 255 && check_utf8(data.as_slice()) {
            Some(Str0_255 { data })
        } else {
            None
        }
    }
}

/// Opaque bytes, at most 32 of them, 1-byte length prefix on the wire.
#[derive(Clone, Debug, PartialEq, Eq)]
pub struct Bytes0_32 {
    pub data: Vec<u8>,
}

impl View for Bytes0_32 {
    type V = Seq<u8>;

    open spec fn view(&self) -> Seq<u8> {
        self.data@
    }
}

impl Bytes0_32 {
    /// Runtime test of `wf`, for callers outside the verified crate.
    pub fn check_wf(&self) -> (r: bool)
        ensures
            r == self.wf(),
    {
        self.data.len() <= 32
    }

    pub open spec fn wf(&self) -> bool {
        self@.len() <= 32
    }

    /// Accepts exactly the vectors that fit the bound.
    pub fn from_bytes(data: Vec<u8>) -> (r: Option<Bytes0_32>)
        ensures
            match r {
                Some(b) => b.wf() && b@ == data@,
                None => data@.len() > 32,
            },
    {
        if data.len() <= 32 {
            Some(Bytes0_32 { data })
        } else {
            None
        }
    }
}

/// Opaque bytes, at most 65535 of them, 2-byte length prefix on the wire.
#[derive(Clone, Debug, PartialEq, Eq)]
pub struct Bytes0_64k {
    pub data: Vec<u8>,
}

impl View for Bytes0_64k {
    type V = Seq<u8>;

    open spec fn view(&self) -> Seq<u8> {
        self.data@
    }
}

impl Bytes0_64k {
    /// Runtime test of `wf`, for callers outside the verified crate.
    pub fn check_wf(&self) -> (r: bool)
        ensures
            r == self.wf(),
    {
        self.data.len() <= 65535
    }

    pub open spec fn wf(&self) -> bool {
        self@.len() <= 65535
    }

    /// Accepts exactly the vectors that fit the bound.
    pub fn from_bytes(data: Vec<u8>) -> (r: Option<Bytes0_64k>)
        ensures
            match r {
                Some(b) => b.wf() && b@ == data@,
                None => data@.len() > 65535,
            },
    {
        if data.len() <= 65535 {
            Some(Bytes0_64k { data })
        } else {
            None
        }
    }
}

/// A fixed 256-bit integer carried as 32 little-endian bytes.
#[derive(Clone, Debug, PartialEq, Eq)]
pub struct Uint256Bytes {
    pub bytes: Vec<u8>,
}

impl View for Uint256Bytes {
    type V = Seq<u8>;

    open spec fn view(&self) -> Seq<u8> {
        self.bytes@
    }
}

impl Uint256Bytes {
    /// Exactly 32 bytes.
    pub open spec fn wf(&self) -> bool {
        self@.len() == 32
    }

    /// Runtime test of `wf`, for callers outside the verified crate.
    pub fn check_wf(&self) -> (r: bool)
        ensures
            r == self.wf(),
    {
        self.bytes.len() == 32
    }

    /// Accepts exactly the 32-byte vectors.
    pub fn from_bytes(bytes: Vec<u8>) -> (r: Option<Uint256Bytes>)
        ensures
            match r {
                Some(u) => u.wf() && u@ == bytes@,
                None => bytes@.len() != 32,
            },
    {
        if bytes.len() == 32 {
            Some(Uint256Bytes { bytes })
        } else {
            None
        }
    }
}

/// A sequence of at most 255 elements, 1-byte count prefix on the wire.
#[derive(Clone, Debug, PartialEq, Eq)]
pub struct Seq0_255<T> {
    pub items: Vec<T>,
}

impl View for Seq0_255<Uint256Bytes> {
    type V = Seq<Seq<u8>>;

    open spec fn view(&self) -> Seq<Seq<u8>> {
        self.items@.map(|k: int, v: Uint256Bytes| v@)
    }
}

impl Seq0_255<Uint256Bytes> {
    pub open spec fn wf(&self) -> bool {
        self@.len() <= 255
    }

    /// Runtime test of `wf` plus the 32-byte shape of every entry.
    pub fn check_entries(&self) -> (r: bool)
        ensures
            r == (self.wf() && (forall|k: int|
                0 <= k < self@.len() ==> (#[trigger] self@[k]).len() == 32)),
    {
        if self.items.len() > 255 {
            return false;
        }
        let n = self.items.len();
        let mut k: usize = 0;
        while k < n
            invariant
                k <= n == self.items@.len(),
                self@.len() == n,
                forall|i: int| 0 <= i < k ==> (#[trigger] self@[i]).len() == 32,
            decreases n - k,
        {
            if self.items[k].bytes.len() != 32 {
                proof {
                    assert(self@[k as int] == self.items@[k as int]@);
                }
                return false;
            }
            proof {
                assert(self@[k as int] == self.items@[k as int]@);
            }
            k = k + 1;
        }
        true
    }

    /// Accepts exactly the vectors that fit the count prefix.
    pub fn from_items(items: Vec<Uint256Bytes>) -> (r: Option<Seq0_255<Uint256Bytes>>)
        ensures
            match r {
                Some(v) => v.wf() && v@ == items@.map(|k: int, u: Uint256Bytes| u@),
                None => items@.len() > 255,
            },
    {
        if items.len() <= 255 {
            Some(Seq0_255 { items })
        } else {
            None
        }
    }
}

/// Spec-level mirror of [`DeviceInfo`].
pub ghost struct DeviceInfoV {
    pub vendor: Seq<u8>,
    pub hw_rev: Seq<u8>,
    pub fw_ver: Seq<u8>,
    pub dev_id: Seq<u8>,
}

/// Device identification carried in SetupConnection: vendor, hardware
/// revision, firmware version and device id, each a string of at most 255
/// UTF-8 bytes.
#[derive(Clone, Debug, PartialEq, Eq)]
pub struct DeviceInfo {
    pub vendor: Str0_255,
    pub hw_rev: Str0_255,
    pub fw_ver: Str0_255,
    pub dev_id: Str0_255,
}

impl View for DeviceInfo {
    type V = DeviceInfoV;

    open spec fn view(&self) -> DeviceInfoV {
        DeviceInfoV {
            vendor: self.vendor@,
            hw_rev: self.hw_rev@,
            fw_ver: self.fw_ver@,
            dev_id: self.dev_id@,
        }
    }
}

impl DeviceInfo {
    pub open spec fn wf(&self) -> bool {
        self.vendor.wf() && self.hw_rev.wf() && self.fw_ver.wf() && self.dev_id.wf()
    }

    /// Runtime test of `wf`, for callers outside the verified crate.
    pub fn check_wf(&self) -> (r: bool)
        ensures
            r == self.wf(),
    {
        self.vendor.check_wf() && self.hw_rev.check_wf() && self.fw_ver.check_wf()
            && self.dev_id.check_wf()
    }
}

} // verus!
