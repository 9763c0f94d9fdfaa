//! Tests of splitting host strings into their parts.

use url_cleaner_site::host::{domain_parts, host_parts, DomainOffsets, HostParts};

fn expect_domain<'a>(r: Result<HostParts<'a>, url_cleaner_site::host::CouldntParseHost>) -> url_cleaner_site::host::DomainParts<'a> {
    match r {
        Ok(HostParts::Domain(d)) => d,
        _ => panic!("expected a domain host"),
    }
}

#[test]
fn bare_domain_has_no_subdomain() {
    let d = expect_domain(host_parts("example.com"));
    assert_eq!(d.whole, "example.com");
    assert_eq!(d.subdomain, None);
    assert_eq!(d.not_suffix, Some("example"));
    assert_eq!(d.middle, Some("example"));
    assert_eq!(d.reg_domain, Some("example.com"));
    assert_eq!(d.suffix, Some("com"));
}

#[test]
fn www_domain_has_every_part() {
    let d = expect_domain(host_parts("www.example.co.uk"));
    assert_eq!(d.whole, "www.example.co.uk");
    assert_eq!(d.subdomain, Some("www"));
    assert_eq!(d.not_suffix, Some("www.example"));
    assert_eq!(d.middle, Some("example"));
    assert_eq!(d.reg_domain, Some("example.co.uk"));
    assert_eq!(d.suffix, Some("co.uk"));
}

#[test]
fn fully_qualified_domain_keeps_the_period_out_of_its_parts() {
    let d = expect_domain(host_parts("www.example.com."));
    assert_eq!(d.whole, "www.example.com.");
    assert_eq!(d.subdomain, Some("www"));
    assert_eq!(d.not_suffix, Some("www.example"));
    assert_eq!(d.middle, Some("example"));
    assert_eq!(d.reg_domain, Some("example.com"));
    assert_eq!(d.suffix, Some("com"));
}

#[test]
fn ip_hosts_are_returned_whole() {
    match host_parts("127.0.0.1") {
        Ok(HostParts::Ipv4(p)) => assert_eq!(p.whole, "127.0.0.1"),
        _ => panic!("expected an IPv4 host"),
    }
    match host_parts("[::1]") {
        Ok(HostParts::Ipv6(p)) => assert_eq!(p.whole, "[::1]"),
        _ => panic!("expected an IPv6 host"),
    }
}

#[test]
fn an_invalid_host_is_rejected() {
    assert!(host_parts("exa mple.com").is_err());
}

#[test]
fn domain_parts_slices_exactly_at_the_offsets() {
    let offsets = DomainOffsets {
        middle_start: Some(4),
        suffix_start: Some(12),
        fqdn_period: None,
    };
    let d = domain_parts("www.example.com", &offsets);
    assert_eq!(d.subdomain, Some("www"));
    assert_eq!(d.not_suffix, Some("www.example"));
    assert_eq!(d.middle, Some("example"));
    assert_eq!(d.reg_domain, Some("example.com"));
    assert_eq!(d.suffix, Some("com"));
}

#[test]
fn out_of_range_offsets_give_no_parts() {
    let offsets = DomainOffsets {
        middle_start: Some(50),
        suffix_start: Some(60),
        fqdn_period: None,
    };
    let d = domain_parts("tiny.example", &offsets);
    assert_eq!(d.whole, "tiny.example");
    assert_eq!(d.subdomain, None);
    assert_eq!(d.middle, None);
    assert_eq!(d.reg_domain, None);
    assert_eq!(d.suffix, None);
}
