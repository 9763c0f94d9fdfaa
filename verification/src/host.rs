//! Splitting a host string into its parts.
//!
//! The engine's domain parser reports where a domain's middle, public suffix
//! and fully-qualified-domain-name period sit, as byte offsets into the host
//! text. Everything from there on — turning offsets into part bounds and
//! checked slices — is verified arithmetic on plain values.

use vstd::prelude::*;
use vstd::string::StringSliceAdditionalSpecFns;
use vstd::utf8::is_char_boundary;

use url_cleaner_engine::types::HostDetails;

verus! {

/// The error returned when asked for the parts of an invalid host.
pub struct CouldntParseHost;

/// Various parts of a host.
pub enum HostParts<'a> {
    /// Various parts of a domain.
    Domain(DomainParts<'a>),
    /// Various parts of an IPv4 host.
    Ipv4(Ipv4Parts<'a>),
    /// Various parts of an IPv6 host.
    Ipv6(Ipv6Parts<'a>),
}

/// Various parts of a domain.
pub struct DomainParts<'a> {
    /// The entire domain.
    pub whole: &'a str,
    /// The subdomain: everything before the registrable domain.
    pub subdomain: Option<&'a str>,
    /// Everything before the public suffix.
    pub not_suffix: Option<&'a str>,
    /// The domain middle: between subdomain and public suffix.
    pub middle: Option<&'a str>,
    /// The registrable domain: middle and public suffix.
    pub reg_domain: Option<&'a str>,
    /// The public suffix.
    pub suffix: Option<&'a str>,
}

/// Various parts of an IPv4 host.
pub struct Ipv4Parts<'a> {
    /// The whole IPv4 host.
    pub whole: &'a str,
}

/// Various parts of an IPv6 host.
pub struct Ipv6Parts<'a> {
    /// The whole IPv6 host.
    pub whole: &'a str,
}

/// The byte offsets that locate a domain's parts within its text, as the
/// engine's domain parser reports them.
pub struct DomainOffsets {
    /// Where the domain middle starts, when the domain has a middle.
    pub middle_start: Option<usize>,
    /// Where the public suffix starts, when one was recognized.
    pub suffix_start: Option<usize>,
    /// The position of the fully-qualified-domain-name period, when the
    /// domain ends with one.
    pub fqdn_period: Option<usize>,
}

/// What kind of host a string is, with the domain offsets when it is one.
pub enum HostKind {
    /// A domain host, with the offsets of its parts.
    Domain(DomainOffsets),
    /// An IPv4 host.
    Ipv4,
    /// An IPv6 host.
    Ipv6,
}

/// The subdomain's byte bounds: everything before the period that separates
/// the subdomain from the domain middle, when there is a subdomain.
pub open spec fn subdomain_bounds(o: DomainOffsets) -> Option<(usize, usize)> {
    match o.middle_start {
        Some(m) => if m >= 1 {
            Some((0usize, (m - 1) as usize))
        } else {
            None
        },
        None => None,
    }
}

/// The bounds of everything before the period that precedes the public
/// suffix.
pub open spec fn not_suffix_bounds(o: DomainOffsets) -> Option<(usize, usize)> {
    match o.suffix_start {
        Some(s) => if s >= 1 {
            Some((0usize, (s - 1) as usize))
        } else {
            None
        },
        None => None,
    }
}

/// The domain middle's bounds: from its start to the period that precedes
/// the public suffix.
pub open spec fn middle_bounds(o: DomainOffsets) -> Option<(usize, usize)> {
    match (o.middle_start, o.suffix_start) {
        (Some(m), Some(s)) => if s >= 1 {
            Some((m, (s - 1) as usize))
        } else {
            None
        },
        _ => None,
    }
}

/// The registrable domain's bounds: from the middle's start to the
/// fully-qualified-domain-name period, or to the end of the text.
pub open spec fn reg_domain_bounds(o: DomainOffsets, len: usize) -> Option<(usize, usize)> {
    match o.middle_start {
        Some(m) => Some(
            (
                m,
                match o.fqdn_period {
                    Some(f) => f,
                    None => len,
                },
            ),
        ),
        None => None,
    }
}

/// The public suffix's bounds: from its start to the
/// fully-qualified-domain-name period, or to the end of the text.
pub open spec fn suffix_bounds(o: DomainOffsets, len: usize) -> Option<(usize, usize)> {
    match o.suffix_start {
        Some(s) => Some(
            (
                s,
                match o.fqdn_period {
                    Some(f) => f,
                    None => len,
                },
            ),
        ),
        None => None,
    }
}

/// What checked slicing of `bytes` by the optional byte bounds yields: the
/// byte range when the bounds are ordered, within the text, and on
/// character boundaries; nothing otherwise, and nothing when there are no
/// bounds.
pub open spec fn sliced(bytes: Seq<u8>, bounds: Option<(usize, usize)>) -> Option<Seq<u8>> {
    match bounds {
        Some((start, end)) => if start <= end <= bytes.len() && is_char_boundary(
            bytes,
            start as int,
        ) && is_char_boundary(bytes, end as int) {
            Some(bytes.subrange(start as int, end as int))
        } else {
            None
        },
        None => None,
    }
}

/// The bytes behind an optional string slice.
pub open spec fn opt_bytes(part: Option<&str>) -> Option<Seq<u8>> {
    match part {
        Some(t) => Some(t.spec_bytes()),
        None => None,
    }
}

/// Relies on str::get over a byte range: the substring exactly when the
/// bounds are ordered, within the string, and on character boundaries, and
/// nothing otherwise.
#[verifier::external_body]
fn slice_str<'a>(s: &'a str, start: usize, end: usize) -> (r: Option<&'a str>)
    ensures
        (r is Some) <==> (start <= end <= s.spec_bytes().len() && is_char_boundary(
            s.spec_bytes(),
            start as int,
        ) && is_char_boundary(s.spec_bytes(), end as int)),
        r matches Some(t) ==> t.spec_bytes() == s.spec_bytes().subrange(
            start as int,
            end as int,
        ),
{
    s.get(start..end)
}

/// Slice `host` by the optional byte bounds; nothing when the bounds are
/// absent or do not describe a substring.
fn slice_part<'a>(host: &'a str, bounds: Option<(usize, usize)>) -> (r: Option<&'a str>)
    ensures
        opt_bytes(r) == sliced(host.spec_bytes(), bounds),
{
    match bounds {
        Some((start, end)) => slice_str(host, start, end),
        None => None,
    }
}

/// All the domain parts of `host`, as the checked slices of its text at the
/// reported offsets. Each part is exactly the slice its bounds describe, or
/// absent where the bounds are absent or invalid for this text.
pub fn domain_parts<'a>(host: &'a str, o: &DomainOffsets) -> (r: DomainParts<'a>)
    ensures
        r.whole == host,
        opt_bytes(r.subdomain) == sliced(host.spec_bytes(), subdomain_bounds(*o)),
        opt_bytes(r.not_suffix) == sliced(host.spec_bytes(), not_suffix_bounds(*o)),
        opt_bytes(r.middle) == sliced(host.spec_bytes(), middle_bounds(*o)),
        opt_bytes(r.reg_domain) == sliced(
            host.spec_bytes(),
            reg_domain_bounds(*o, host.spec_bytes().len() as usize),
        ),
        opt_bytes(r.suffix) == sliced(
            host.spec_bytes(),
            suffix_bounds(*o, host.spec_bytes().len() as usize),
        ),
{
    let len: usize = host.len();
    let sub_bounds: Option<(usize, usize)> = match o.middle_start {
        Some(m) => if m >= 1 {
            Some((0usize, m - 1))
        } else {
            None
        },
        None => None,
    };
    let not_suffix_b: Option<(usize, usize)> = match o.suffix_start {
        Some(s) => if s >= 1 {
            Some((0usize, s - 1))
        } else {
            None
        },
        None => None,
    };
    let middle_b: Option<(usize, usize)> = match (o.middle_start, o.suffix_start) {
        (Some(m), Some(s)) => if s >= 1 {
            Some((m, s - 1))
        } else {
            None
        },
        _ => None,
    };
    let reg_domain_b: Option<(usize, usize)> = match o.middle_start {
        Some(m) => Some(
            (
                m,
                match o.fqdn_period {
                    Some(f) => f,
                    None => len,
                },
            ),
        ),
        None => None,
    };
    let suffix_b: Option<(usize, usize)> = match o.suffix_start {
        Some(s) => Some(
            (
                s,
                match o.fqdn_period {
                    Some(f) => f,
                    None => len,
                },
            ),
        ),
        None => None,
    };
    DomainParts {
        whole: host,
        subdomain: slice_part(host, sub_bounds),
        not_suffix: slice_part(host, not_suffix_b),
        middle: slice_part(host, middle_b),
        reg_domain: slice_part(host, reg_domain_b),
        suffix: slice_part(host, suffix_b),
    }
}

/// What the host parser answers for a host text: its kind, with the
/// domain-part byte offsets when it is a domain, or nothing when the text
/// is not a valid host. The answer is a function of the text alone.
pub uninterp spec fn host_kind_of(host: Seq<u8>) -> Option<HostKind>;

/// Relies on better_url's HostDetails::parse (url::Host::parse plus the
/// public suffix list): classifies a host string as domain, IPv4 or IPv6,
/// reporting the domain-part byte offsets the engine computed; nothing when
/// the string is not a valid host. The answer depends on the text alone.
#[verifier::external_body]
fn parse_host_details(host: &str) -> (r: Option<HostKind>)
    ensures
        r == host_kind_of(host.spec_bytes()),
{
    match HostDetails::parse(host) {
        Ok(HostDetails::Domain(d)) => Some(
            HostKind::Domain(
                DomainOffsets {
                    middle_start: d.middle_start,
                    suffix_start: d.suffix_start,
                    fqdn_period: d.fqdn_period,
                },
            ),
        ),
        Ok(HostDetails::Ipv4(_)) => Some(HostKind::Ipv4),
        Ok(HostDetails::Ipv6(_)) => Some(HostKind::Ipv6),
        Err(_) => None,
    }
}

/// Split a host string into its parts: exactly when the parser recognizes
/// the text as a host. A domain host yields the checked slices of its text
/// at the offsets the parser reports; an IP host is returned whole; a text
/// that is no valid host yields the error.
pub fn host_parts<'a>(host: &'a str) -> (r: Result<HostParts<'a>, CouldntParseHost>)
    ensures
        r is Ok <==> host_kind_of(host.spec_bytes()) is Some,
        host_kind_of(host.spec_bytes()) matches Some(HostKind::Domain(o)) ==> (r matches Ok(
            HostParts::Domain(d),
        ) && d.whole == host && opt_bytes(d.subdomain) == sliced(
            host.spec_bytes(),
            subdomain_bounds(o),
        ) && opt_bytes(d.not_suffix) == sliced(host.spec_bytes(), not_suffix_bounds(o))
            && opt_bytes(d.middle) == sliced(host.spec_bytes(), middle_bounds(o)) && opt_bytes(
            d.reg_domain,
        ) == sliced(host.spec_bytes(), reg_domain_bounds(o, host.spec_bytes().len() as usize))
            && opt_bytes(d.suffix) == sliced(
            host.spec_bytes(),
            suffix_bounds(o, host.spec_bytes().len() as usize),
        )),
        host_kind_of(host.spec_bytes()) matches Some(HostKind::Ipv4) ==> r matches Ok(
            HostParts::Ipv4(p),
        ) && p.whole == host,
        host_kind_of(host.spec_bytes()) matches Some(HostKind::Ipv6) ==> r matches Ok(
            HostParts::Ipv6(p),
        ) && p.whole == host,
{
    match parse_host_details(host) {
        Some(HostKind::Domain(o)) => Ok(HostParts::Domain(domain_parts(host, &o))),
        Some(HostKind::Ipv4) => Ok(HostParts::Ipv4(Ipv4Parts { whole: host })),
        Some(HostKind::Ipv6) => Ok(HostParts::Ipv6(Ipv6Parts { whole: host })),
        None => Err(CouldntParseHost),
    }
}

} // verus!
