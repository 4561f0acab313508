//! Probe result records: the [`Check`] type, its flag word, and the
//! content hash used for integrity diagnostics.

use vstd::prelude::*;
use vstd::string::*;

use crate::text::{dec_u64, rfc3339_of, rfc3339_seconds, spec_dec, RFC3339_MAX};

verus! {

/// Bit set when the probe succeeded; clear means the probe failed.
pub const FLAG_SUCCESS: u16 = 0x01;
/// Bit set when the probe was an HTTP request.
pub const FLAG_TYPE_HTTP: u16 = 0x02;
/// Bit set when the probe was an ICMP echo over IPv4.
pub const FLAG_TYPE_ICMP4: u16 = 0x04;
/// Bit set when the probe was an ICMP echo over IPv6.
pub const FLAG_TYPE_ICMP6: u16 = 0x08;
/// Bit set when the target address was IPv4.
pub const FLAG_IPV4: u16 = 0x10;
/// Bit set when the target address was IPv6.
pub const FLAG_IPV6: u16 = 0x20;

/// The probe category a check belongs to.
#[derive(Clone, Copy, Debug, PartialEq, Eq, Structural)]
pub enum CheckType {
    Http,
    IcmpV4,
    IcmpV6,
    Unknown,
}

/// The IP family a check unambiguously reports.
#[derive(Clone, Copy, Debug, PartialEq, Eq, Structural)]
pub enum IpFamily {
    V4,
    V6,
}

/// Why a check's family flags do not name one IP family.
#[derive(Clone, Copy, Debug, PartialEq, Eq, Structural)]
pub enum FlagAnomaly {
    /// Both the IPv4 and the IPv6 bit are set.
    BothFamilies,
    /// Neither family bit is set.
    NeitherFamily,
}

/// One completed reachability probe. Immutable once created.
#[derive(Debug)]
pub struct Check {
    timestamp: u64,
    flags: u16,
    latency: Option<u16>,
    target: String,
}

/// The ghost value of a [`Check`]: its fields as plain mathematical data.
pub struct CheckData {
    /// Seconds since the UNIX epoch at which the probe completed.
    pub timestamp: u64,
    /// The flag word; see the `FLAG_*` constants.
    pub flags: u16,
    /// Round-trip latency in milliseconds, when the probe measured one.
    pub latency: Option<u16>,
    /// The probed address, as text.
    pub target: Seq<char>,
}

/// Whether the flag word marks a successful probe.
pub open spec fn spec_is_success(flags: u16) -> bool {
    flags & FLAG_SUCCESS != 0
}

/// The probe category encoded in the flag word. A word that names no
/// category, or more than one, is `Unknown`.
pub open spec fn spec_check_type(flags: u16) -> CheckType {
    let http = flags & FLAG_TYPE_HTTP != 0;
    let icmp4 = flags & FLAG_TYPE_ICMP4 != 0;
    let icmp6 = flags & FLAG_TYPE_ICMP6 != 0;
    if http && !icmp4 && !icmp6 {
        CheckType::Http
    } else if !http && icmp4 && !icmp6 {
        CheckType::IcmpV4
    } else if !http && !icmp4 && icmp6 {
        CheckType::IcmpV6
    } else {
        CheckType::Unknown
    }
}

/// The IP family named by the flag word, or the anomaly that keeps the
/// word from naming exactly one.
pub open spec fn spec_ip_type(flags: u16) -> Result<IpFamily, FlagAnomaly> {
    let v4 = flags & FLAG_IPV4 != 0;
    let v6 = flags & FLAG_IPV6 != 0;
    if v4 && v6 {
        Err(FlagAnomaly::BothFamilies)
    } else if v4 {
        Ok(IpFamily::V4)
    } else if v6 {
        Ok(IpFamily::V6)
    } else {
        Err(FlagAnomaly::NeitherFamily)
    }
}

/// The multiply constant of the content hash (the FNV-1a prime).
pub const HASH_PRIME: u64 = 0x100000001b3;
/// The starting value of the content hash (the FNV-1a offset basis).
pub const HASH_SEED: u64 = 0xcbf29ce484222325;

/// One step of the content hash: fold a 64-bit word into the state.
pub open spec fn spec_hash_mix(h: u64, v: u64) -> u64 {
    vstd::wrapping::u64_specs::wrapping_mul(h ^ v, HASH_PRIME)
}

/// Folds every character of `s` into the hash state, left to right.
pub open spec fn spec_hash_chars(h: u64, s: Seq<char>) -> u64
    decreases s.len(),
{
    if s.len() == 0 {
        h
    } else {
        spec_hash_mix(spec_hash_chars(h, s.drop_last()), s.last() as u64)
    }
}

/// Folds every byte of `b` into the hash state, left to right.
pub open spec fn spec_hash_bytes(h: u64, b: Seq<u8>) -> u64
    decreases b.len(),
{
    if b.len() == 0 {
        h
    } else {
        spec_hash_mix(spec_hash_bytes(h, b.drop_last()), b.last() as u64)
    }
}

/// The content hash of one check: every field folded into the state.
pub open spec fn spec_check_hash(c: CheckData) -> u64 {
    let h0 = spec_hash_mix(HASH_SEED, c.timestamp);
    let h1 = spec_hash_mix(h0, c.flags as u64);
    let h2 = match c.latency {
        Some(l) => spec_hash_mix(h1, l as u64),
        None => spec_hash_mix(h1, 0xffff_ffff),
    };
    spec_hash_mix(spec_hash_chars(h2, c.target), c.target.len() as u64)
}

impl View for Check {
    type V = CheckData;

    closed spec fn view(&self) -> CheckData {
        CheckData {
            timestamp: self.timestamp,
            flags: self.flags,
            latency: self.latency,
            target: self.target@,
        }
    }
}

impl Check {
    /// Builds a check from its parts.
    pub fn new(timestamp: u64, flags: u16, latency: Option<u16>, target: String) -> (c: Check)
        ensures
            c@ == (CheckData { timestamp, flags, latency, target: target@ }),
    {
        Check { timestamp, flags, latency, target }
    }

    /// Seconds since the UNIX epoch at which the probe completed.
    pub fn timestamp(&self) -> (t: u64)
        ensures
            t == self@.timestamp,
    {
        self.timestamp
    }

    /// The raw flag word.
    pub fn flags(&self) -> (f: u16)
        ensures
            f == self@.flags,
    {
        self.flags
    }

    /// Round-trip latency in milliseconds, when one was measured.
    pub fn latency(&self) -> (l: Option<u16>)
        ensures
            l == self@.latency,
    {
        self.latency
    }

    /// The probed address, as text.
    pub fn target(&self) -> (t: &String)
        ensures
            t@ == self@.target,
    {
        &self.target
    }

    /// Whether the probe succeeded.
    pub fn is_success(&self) -> (r: bool)
        ensures
            r == spec_is_success(self@.flags),
    {
        self.flags & FLAG_SUCCESS != 0
    }

    /// The probe category of this check.
    pub fn calc_type(&self) -> (r: CheckType)
        ensures
            r == spec_check_type(self@.flags),
    {
        let http = self.flags & FLAG_TYPE_HTTP != 0;
        let icmp4 = self.flags & FLAG_TYPE_ICMP4 != 0;
        let icmp6 = self.flags & FLAG_TYPE_ICMP6 != 0;
        if http && !icmp4 && !icmp6 {
            CheckType::Http
        } else if !http && icmp4 && !icmp6 {
            CheckType::IcmpV4
        } else if !http && !icmp4 && icmp6 {
            CheckType::IcmpV6
        } else {
            CheckType::Unknown
        }
    }

    /// The IP family this check unambiguously reports, or the anomaly in
    /// its family flags.
    pub fn ip_type(&self) -> (r: Result<IpFamily, FlagAnomaly>)
        ensures
            r == spec_ip_type(self@.flags),
    {
        let v4 = self.flags & FLAG_IPV4 != 0;
        let v6 = self.flags & FLAG_IPV6 != 0;
        if v4 && v6 {
            Err(FlagAnomaly::BothFamilies)
        } else if v4 {
            Ok(IpFamily::V4)
        } else if v6 {
            Ok(IpFamily::V6)
        } else {
            Err(FlagAnomaly::NeitherFamily)
        }
    }

    /// The content hash of this check.
    pub fn get_hash(&self) -> (h: u64)
        ensures
            h == spec_check_hash(self@),
    {
        let h0 = hash_mix(HASH_SEED, self.timestamp);
        let h1 = hash_mix(h0, self.flags as u64);
        let h2 = match self.latency {
            Some(l) => hash_mix(h1, l as u64),
            None => hash_mix(h1, 0xffff_ffff),
        };
        let h3 = hash_chars(h2, &self.target);
        let len = self.target.as_str().unicode_len();
        hash_mix(h3, len as u64)
    }

    /// Renders this check on one line, or nothing when its timestamp lies
    /// past the rendering bound.
    pub fn display(&self) -> (r: Option<String>)
        ensures
            self@.timestamp < RFC3339_MAX ==> (r matches Some(s) && s@ == spec_check_line(self@)),
            self@.timestamp >= RFC3339_MAX ==> r is None,
    {
        if self.timestamp >= RFC3339_MAX {
            return None;
        }
        let mut s = rfc3339_seconds(self.timestamp);
        s.append(" ");
        s.append(category_name(self.calc_type()));
        s.append(" ");
        s.append(self.target.as_str());
        s.append(" ");
        if self.is_success() {
            s.append("ok");
        } else {
            s.append("FAILED");
        }
        match self.latency {
            Some(l) => {
                s.append(" ");
                let d = dec_u64(l as u64);
                s.append(d.as_str());
                s.append("ms");
            },
            None => {},
        }
        proof {
            assert(s@ =~= spec_check_line(self@));
        }
        Some(s)
    }
}

/// The display name of a probe category.
pub open spec fn spec_category_name(t: CheckType) -> Seq<char> {
    match t {
        CheckType::Http => "HTTP"@,
        CheckType::IcmpV4 => "ICMPv4"@,
        CheckType::IcmpV6 => "ICMPv6"@,
        CheckType::Unknown => "Unknown"@,
    }
}

/// The display name of a probe category.
pub fn category_name(t: CheckType) -> (r: &'static str)
    ensures
        r@ == spec_category_name(t),
{
    match t {
        CheckType::Http => "HTTP",
        CheckType::IcmpV4 => "ICMPv4",
        CheckType::IcmpV6 => "ICMPv6",
        CheckType::Unknown => "Unknown",
    }
}

/// The one-line rendering of a check: timestamp, category, target,
/// outcome, and the latency when one was measured.
pub open spec fn spec_check_line(c: CheckData) -> Seq<char> {
    rfc3339_of(c.timestamp) + " "@ + spec_category_name(spec_check_type(c.flags)) + " "@ + c.target
        + " "@ + (if spec_is_success(c.flags) {
        "ok"@
    } else {
        "FAILED"@
    }) + (match c.latency {
        Some(l) => " "@ + spec_dec(l as nat) + "ms"@,
        None => Seq::<char>::empty(),
    })
}

/// The ghost values of a vector of checks.
pub open spec fn checks_deep(v: Seq<Check>) -> Seq<CheckData> {
    v.map_values(|c: Check| c@)
}

/// One step of the content hash.
pub fn hash_mix(h: u64, v: u64) -> (r: u64)
    ensures
        r == spec_hash_mix(h, v),
{
    (h ^ v).wrapping_mul(HASH_PRIME)
}

/// Folds every character of `s` into the hash state.
pub fn hash_chars(h: u64, s: &String) -> (r: u64)
    ensures
        r == spec_hash_chars(h, s@),
{
    let n = s.as_str().unicode_len();
    let mut acc = h;
    let mut i: usize = 0;
    while i < n
        invariant
            n == s@.len(),
            0 <= i <= n,
            acc == spec_hash_chars(h, s@.take(i as int)),
        decreases n - i,
    {
        let c = s.as_str().get_char(i);
        acc = hash_mix(acc, c as u64);
        proof {
            assert(s@.take(i + 1).drop_last() =~= s@.take(i as int));
            assert(s@.take(i + 1).last() == s@[i as int]);
        }
        i = i + 1;
    }
    proof {
        assert(s@.take(n as int) =~= s@);
    }
    acc
}

/// The hash of a raw byte string, as used for the on-disk snapshot.
pub fn hash_bytes(bytes: &Vec<u8>) -> (r: u64)
    ensures
        r == spec_hash_bytes(HASH_SEED, bytes@),
{
    let mut acc = HASH_SEED;
    let mut i: usize = 0;
    while i < bytes.len()
        invariant
            0 <= i <= bytes@.len(),
            acc == spec_hash_bytes(HASH_SEED, bytes@.take(i as int)),
        decreases bytes@.len() - i,
    {
        acc = hash_mix(acc, bytes[i] as u64);
        proof {
            assert(bytes@.take(i + 1).drop_last() =~= bytes@.take(i as int));
            assert(bytes@.take(i + 1).last() == bytes@[i as int]);
        }
        i = i + 1;
    }
    proof {
        assert(bytes@.take(bytes@.len() as int) =~= bytes@);
    }
    acc
}

} // verus!
