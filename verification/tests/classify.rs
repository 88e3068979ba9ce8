use nsprobe::ip::IpAddress;
use nsprobe::name::{contains_bare_blank, DomainName};
use nsprobe::target::{classify, Target, TargetKind};

fn wire(labels: &[&str], absolute: bool) -> DomainName {
    let mut octets = Vec::new();
    for label in labels {
        octets.push(label.len() as u8);
        octets.extend_from_slice(label.as_bytes());
    }
    if absolute {
        octets.push(0);
    }
    DomainName { octets }
}

#[test]
fn ipv4_literal_is_an_address() {
    assert_eq!(classify("8.8.8.8"), TargetKind::IPAddress(IpAddress::V4(0x0808_0808)));
    assert_eq!(classify("127.0.0.1"), TargetKind::IPAddress(IpAddress::V4(0x7f00_0001)));
    assert_eq!(classify("255.255.255.255"), TargetKind::IPAddress(IpAddress::V4(u32::MAX)));
}

#[test]
fn ipv6_literal_is_an_address() {
    assert_eq!(classify("::1"), TargetKind::IPAddress(IpAddress::V6(1)));
    assert_eq!(
        classify("2001:db8::1"),
        TargetKind::IPAddress(IpAddress::V6(0x2001_0db8_0000_0000_0000_0000_0000_0001))
    );
    assert_eq!(classify("::"), TargetKind::IPAddress(IpAddress::V6(0)));
}

#[test]
fn address_parse_agrees_with_classify() {
    for text in ["8.8.8.8", "::1", "example.com", "1.2.3", "256.1.1.1", "1.2.3.4.5", "", "not a domain!!"] {
        let is_address = matches!(classify(text), TargetKind::IPAddress(_));
        assert_eq!(is_address, IpAddress::parse(text).is_some(), "{}", text);
    }
}

#[test]
fn near_addresses_are_names() {
    assert_eq!(classify("1.2.3"), TargetKind::RelativeName(wire(&["1", "2", "3"], false)));
    assert_eq!(classify("256.1.1.1"), TargetKind::RelativeName(wire(&["256", "1", "1", "1"], false)));
    assert_eq!(classify("1.2.3.4."), TargetKind::AbsoluteName(wire(&["1", "2", "3", "4"], true)));
}

#[test]
fn trailing_dot_makes_a_name_absolute() {
    assert_eq!(classify("example.com."), TargetKind::AbsoluteName(wire(&["example", "com"], true)));
    assert_eq!(classify("."), TargetKind::Unparseable);
}

#[test]
fn name_without_trailing_dot_is_relative() {
    assert_eq!(classify("example.com"), TargetKind::RelativeName(wire(&["example", "com"], false)));
    assert_eq!(classify("www"), TargetKind::RelativeName(wire(&["www"], false)));
}

#[test]
fn empty_text_is_the_empty_relative_name() {
    assert_eq!(classify(""), TargetKind::RelativeName(DomainName { octets: Vec::new() }));
}

#[test]
fn text_with_spaces_is_unparseable() {
    assert_eq!(classify("not a domain!!"), TargetKind::Unparseable);
    assert_eq!(classify("exa mple.com"), TargetKind::Unparseable);
    assert_eq!(classify(" example.com"), TargetKind::Unparseable);
    assert_eq!(classify("example.com\t"), TargetKind::Unparseable);
}

#[test]
fn escaped_space_is_part_of_a_label() {
    assert_eq!(classify("exa\\ mple.com"), TargetKind::RelativeName(wire(&["exa mple", "com"], false)));
}

#[test]
fn bad_name_syntax_is_unparseable_not_fatal() {
    assert_eq!(classify("a..b"), TargetKind::Unparseable);
    assert_eq!(classify(".example"), TargetKind::Unparseable);
    let long_label = "a".repeat(64);
    assert_eq!(classify(&long_label), TargetKind::Unparseable);
    let ok_label = "a".repeat(63);
    assert!(matches!(classify(&ok_label), TargetKind::RelativeName(_)));
    let long_name = vec!["abcdefgh"; 40].join(".");
    assert_eq!(classify(&long_name), TargetKind::Unparseable);
    assert_eq!(classify("caf\u{e9}.example"), TargetKind::Unparseable);
    assert_eq!(classify("bad\\"), TargetKind::Unparseable);
}

#[test]
fn bare_blank_scan() {
    assert!(!contains_bare_blank(""));
    assert!(!contains_bare_blank("example.com"));
    assert!(contains_bare_blank("a b"));
    assert!(!contains_bare_blank("a\\ b"));
    assert!(contains_bare_blank("a\\\\ b"));
    assert!(!contains_bare_blank("a\\\\\\ b"));
    assert!(contains_bare_blank("a\\ b c"));
    assert!(contains_bare_blank("tab\there"));
    assert!(contains_bare_blank("line\n"));
    assert!(contains_bare_blank("\r"));
}

#[test]
fn name_parse_reports_absoluteness() {
    assert_eq!(DomainName::parse("example.com."), Some((true, wire(&["example", "com"], true))));
    assert_eq!(DomainName::parse("example.com"), Some((false, wire(&["example", "com"], false))));
    assert_eq!(DomainName::parse("not a domain!!"), None);
    assert_eq!(DomainName::parse("\\065bc."), Some((true, wire(&["Abc"], true))));
}

#[test]
fn names_compare_without_case() {
    let a = wire(&["Example", "COM"], true);
    let b = wire(&["example", "com"], true);
    let c = wire(&["example", "org"], true);
    let d = wire(&["example", "com"], false);
    assert!(a.same_as(&b));
    assert!(b.same_as(&a));
    assert!(a.same_as(&a));
    assert!(!a.same_as(&c));
    assert!(!b.same_as(&d));
    let at = DomainName { octets: vec![1, b'@'] };
    let backtick = DomainName { octets: vec![1, b'`'] };
    assert!(!at.same_as(&backtick));
    let open = DomainName { octets: vec![1, b'['] };
    let brace = DomainName { octets: vec![1, b'{'] };
    assert!(!open.same_as(&brace));
}

#[test]
fn address_text_round_trip() {
    assert_eq!(IpAddress::V4(0x7f00_0001).to_text(), "127.0.0.1");
    assert_eq!(IpAddress::V4(0x0808_0404).to_text(), "8.8.4.4");
    assert_eq!(IpAddress::V6(1).to_text(), "::1");
    assert_eq!(IpAddress::V6(0x2001_0db8_0000_0000_0000_0000_0000_0001).to_text(), "2001:db8::1");
    assert_eq!(IpAddress::parse("8.8.4.4"), Some(IpAddress::V4(0x0808_0404)));
    assert_eq!(IpAddress::parse("08.8.4.4"), None);
    assert_eq!(IpAddress::parse("example"), None);
}

#[test]
fn target_keeps_text_and_kind() {
    let t = Target::new("example.com.".to_string());
    assert_eq!(t.raw(), "example.com.");
    assert_eq!(*t.kind(), TargetKind::AbsoluteName(wire(&["example", "com"], true)));
    let copy = t.clone();
    assert_eq!(copy.raw(), t.raw());
    assert_eq!(copy.kind(), t.kind());
    let bad = Target::new("not a domain!!".to_string());
    assert_eq!(*bad.kind(), TargetKind::Unparseable);
    assert_eq!(bad.raw(), "not a domain!!");
}
