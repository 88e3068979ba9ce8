use nsprobe::ip::IpAddress;
use nsprobe::nameserver::{ConfigurationError, NameserverSession, NameserverSet, ServerAddr, SessionOptions, Transport};

fn server(ip: IpAddress, port: u16, transport: Transport) -> ServerAddr {
    ServerAddr { ip, port, transport }
}

#[test]
fn empty_configuration_is_an_error() {
    let r = NameserverSet::build(&Vec::new());
    assert_eq!(r.err(), Some(ConfigurationError::NoNameservers));
}

#[test]
fn same_address_with_other_transport_is_kept_once() {
    let first = server(IpAddress::V4(0x0808_0808), 53, Transport::UdpTcp);
    let second = server(IpAddress::V4(0x0808_0808), 53, Transport::Tcp);
    let set = NameserverSet::build(&vec![first, second]).unwrap();
    assert_eq!(set.len(), 1);
    assert_eq!(set.get(0).unwrap().address(), first);
    assert_eq!(set.get(0).unwrap().address().transport, Transport::UdpTcp);
}

#[test]
fn first_occurrence_wins_and_order_is_kept() {
    let a = server(IpAddress::V4(0x0101_0101), 53, Transport::Tcp);
    let b = server(IpAddress::V6(1), 5353, Transport::UdpTcp);
    let a_again = server(IpAddress::V4(0x0101_0101), 853, Transport::UdpTcp);
    let c = server(IpAddress::V4(0x0909_0909), 53, Transport::UdpTcp);
    let b_again = server(IpAddress::V6(1), 53, Transport::Tcp);
    let set = NameserverSet::build(&vec![a, b, a_again, c, b_again]).unwrap();
    assert_eq!(set.len(), 3);
    assert_eq!(set.get(0).unwrap().address(), a);
    assert_eq!(set.get(1).unwrap().address(), b);
    assert_eq!(set.get(2).unwrap().address(), c);
    assert_eq!(set.get(0).unwrap().display_name(), "1.1.1.1");
    assert_eq!(set.get(1).unwrap().display_name(), "::1");
    assert_eq!(set.get(2).unwrap().display_name(), "9.9.9.9");
}

#[test]
fn single_server_gives_single_session() {
    let a = server(IpAddress::V4(0x7f00_0001), 53, Transport::UdpTcp);
    let set = NameserverSet::build(&vec![a]).unwrap();
    assert_eq!(set.len(), 1);
    assert_eq!(set.get(0).unwrap().display_name(), "127.0.0.1");
    assert!(set.get(1).is_none());
}

#[test]
fn session_has_default_options() {
    let s = NameserverSession::open(server(IpAddress::V4(0x0808_0404), 53, Transport::Tcp));
    let expected = SessionOptions {
        recurse: true,
        use_tcp: false,
        use_edns0: false,
        authoritative_only: false,
        attempts: 2,
        timeout_secs: 5,
        ndots: 1,
    };
    assert_eq!(s.options(), expected);
    assert_eq!(s.display_name(), "8.8.4.4");
    assert_eq!(s.address().port, 53);
    let o = s.resolver().options();
    assert!(o.recurse);
    assert_eq!(o.attempts, 2);
    assert_eq!(o.ndots, 1);
    assert_eq!(o.timeout.as_secs(), 5);
}

#[test]
fn resolver_asks_only_its_own_nameserver() {
    let s = NameserverSession::open(server(IpAddress::V4(0x0808_0404), 5353, Transport::Tcp));
    let shown = format!("{:?}", s.resolver());
    assert!(shown.contains("8.8.4.4:5353"), "{}", shown);
    assert!(shown.contains("Tcp"), "{}", shown);
    assert!(!shown.contains("127.0.0.1"), "{}", shown);
    let v6 = NameserverSession::open(server(IpAddress::V6(1), 53, Transport::UdpTcp));
    let shown = format!("{:?}", v6.resolver());
    assert!(shown.contains("[::1]:53"), "{}", shown);
    assert!(shown.contains("UdpTcp"), "{}", shown);
}
