use nsprobe::dispatch::{
    classification_failure, classify_answer, dispatch, operation_for_kind, select_operation, Alias, FailureStage,
    LookupOutcome, Operation, QueryResult,
};
use nsprobe::ip::IpAddress;
use nsprobe::name::DomainName;
use nsprobe::target::{Target, TargetKind};

fn name(text: &str) -> DomainName {
    DomainName::parse(text).unwrap().1
}

#[test]
fn address_is_looked_up_in_reverse() {
    let t = Target::new("8.8.8.8".to_string());
    assert_eq!(select_operation(&t), Some(Operation::ReverseLookup(IpAddress::V4(0x0808_0808))));
}

#[test]
fn absolute_name_is_looked_up_as_it_stands() {
    let t = Target::new("example.com.".to_string());
    assert_eq!(select_operation(&t), Some(Operation::ForwardAbsolute(name("example.com."))));
}

#[test]
fn relative_name_is_looked_up_along_the_search_path() {
    let t = Target::new("example".to_string());
    assert_eq!(select_operation(&t), Some(Operation::ForwardSearch(name("example"))));
}

#[test]
fn unparseable_target_issues_no_query() {
    let t = Target::new("not a domain!!".to_string());
    assert_eq!(select_operation(&t), None);
    assert_eq!(operation_for_kind(&TargetKind::Unparseable), None);
    assert_eq!(
        classification_failure(),
        QueryResult::Failure { stage: FailureStage::Classify, message: "not a domain name".to_string() }
    );
}

#[test]
fn address_answer_keeps_order_and_names_alias() {
    let op = Operation::ForwardAbsolute(name("www.example.com."));
    let outcome = LookupOutcome::Hosts {
        qname: name("www.example.com."),
        canonical: name("host.example.net."),
        addresses: vec![IpAddress::V4(3), IpAddress::V6(7), IpAddress::V4(1)],
    };
    let expected = QueryResult::Addresses {
        canonical_name: name("host.example.net."),
        entries: vec![
            (name("host.example.net."), IpAddress::V4(3)),
            (name("host.example.net."), IpAddress::V6(7)),
            (name("host.example.net."), IpAddress::V4(1)),
        ],
        alias: Some(Alias { from: name("www.example.com."), to: name("host.example.net.") }),
    };
    assert_eq!(classify_answer(&op, outcome), expected);
}

#[test]
fn address_answer_without_alias() {
    let op = Operation::ForwardSearch(name("example"));
    let outcome = LookupOutcome::Hosts {
        qname: name("Example.COM."),
        canonical: name("example.com."),
        addresses: vec![IpAddress::V4(0x5db8_d822)],
    };
    let expected = QueryResult::Addresses {
        canonical_name: name("example.com."),
        entries: vec![(name("example.com."), IpAddress::V4(0x5db8_d822))],
        alias: None,
    };
    assert_eq!(classify_answer(&op, outcome), expected);
}

#[test]
fn address_answer_may_be_empty() {
    let op = Operation::ForwardAbsolute(name("example.com."));
    let outcome =
        LookupOutcome::Hosts { qname: name("example.com."), canonical: name("example.com."), addresses: vec![] };
    let expected = QueryResult::Addresses { canonical_name: name("example.com."), entries: vec![], alias: None };
    assert_eq!(classify_answer(&op, outcome), expected);
}

#[test]
fn ptr_answer_lists_all_names() {
    let op = Operation::ReverseLookup(IpAddress::V4(0x0808_0808));
    let outcome = LookupOutcome::Names { names: vec![name("dns.google."), name("other.example.")] };
    let expected = QueryResult::HostNames {
        queried_addr: IpAddress::V4(0x0808_0808),
        names: vec![name("dns.google."), name("other.example.")],
    };
    assert_eq!(classify_answer(&op, outcome), expected);
    let none = classify_answer(&op, LookupOutcome::Names { names: vec![] });
    assert_eq!(none, QueryResult::HostNames { queried_addr: IpAddress::V4(0x0808_0808), names: vec![] });
}

#[test]
fn failed_query_becomes_a_failure_value() {
    let op = Operation::ReverseLookup(IpAddress::V6(1));
    let r = classify_answer(&op, LookupOutcome::Failed { message: "all timed out".to_string() });
    assert_eq!(r, QueryResult::Failure { stage: FailureStage::Query, message: "all timed out".to_string() });
}

#[test]
fn answer_of_another_kind_is_a_failure() {
    let reverse = Operation::ReverseLookup(IpAddress::V6(1));
    let hosts = LookupOutcome::Hosts { qname: name("a."), canonical: name("a."), addresses: vec![] };
    let expected =
        QueryResult::Failure { stage: FailureStage::Query, message: "answer of another kind".to_string() };
    assert_eq!(classify_answer(&reverse, hosts), expected);
    let forward = Operation::ForwardAbsolute(name("a."));
    assert_eq!(classify_answer(&forward, LookupOutcome::Names { names: vec![name("b.")] }), expected);
}

#[test]
fn operation_clone_is_equal() {
    let op = Operation::ForwardSearch(name("www"));
    assert_eq!(op.clone(), op);
}

#[test]
fn dispatch_routes_by_kind() {
    let ip = Target::new("8.8.8.8".to_string());
    assert_eq!(
        dispatch(&ip, LookupOutcome::Names { names: vec![name("dns.google.")] }),
        QueryResult::HostNames { queried_addr: IpAddress::V4(0x0808_0808), names: vec![name("dns.google.")] }
    );
    let bad = Target::new("not a domain!!".to_string());
    assert_eq!(dispatch(&bad, LookupOutcome::Names { names: vec![] }), classification_failure());
    let rel = Target::new("www".to_string());
    assert_eq!(
        dispatch(&rel, LookupOutcome::Failed { message: "no such name".to_string() }),
        QueryResult::Failure { stage: FailureStage::Query, message: "no such name".to_string() }
    );
    let abs = Target::new("example.com.".to_string());
    let hosts = LookupOutcome::Hosts {
        qname: name("example.com."),
        canonical: name("example.com."),
        addresses: vec![IpAddress::V6(5)],
    };
    assert_eq!(
        dispatch(&abs, hosts),
        QueryResult::Addresses {
            canonical_name: name("example.com."),
            entries: vec![(name("example.com."), IpAddress::V6(5))],
            alias: None,
        }
    );
}
