use nsprobe::answer::{
    any_edns_opt, any_of_type, classify_diagnostics, collect_anomalies, collect_answer_records, DiagnosticOutcome,
    DiagnosticRecordSet, RecordItem, ReportedRecord, Section, RTYPE_OPT, RTYPE_RRSIG, RTYPE_SOA, RTYPE_SVCB,
};
use nsprobe::name::DomainName;
use nsprobe::wire::{outcome_from_items, read_answer};

fn root() -> DomainName {
    DomainName { octets: vec![0] }
}

fn parsed(section: Section, rtype: u16, data: Option<&str>) -> RecordItem {
    RecordItem::Parsed { section, rtype, owner: root(), data: data.map(|d| d.to_string()) }
}

fn malformed(message: &str) -> RecordItem {
    RecordItem::Malformed { message: message.to_string() }
}

fn reported(rtype: u16, data: Option<&str>) -> ReportedRecord {
    ReportedRecord { rtype, owner: root(), data: data.map(|d| d.to_string()) }
}

fn soa_message(ancount: u8) -> Vec<u8> {
    let mut m = vec![0x12, 0x34, 0x81, 0x80, 0, 1, 0, ancount, 0, 0, 0, 0];
    m.extend_from_slice(&[0, 0, 6, 0, 1]);
    m.extend_from_slice(&[0, 0, 6, 0, 1, 0, 0, 0, 60, 0, 26]);
    m.extend_from_slice(&[1, b'a', 0, 1, b'b', 0]);
    m.extend_from_slice(&[0, 0, 0, 1, 0, 0, 0, 2, 0, 0, 0, 3, 0, 0, 0, 4, 0, 0, 0, 5]);
    m
}

#[test]
fn record_type_numbers() {
    assert_eq!(RTYPE_SOA, 6);
    assert_eq!(RTYPE_OPT, 41);
    assert_eq!(RTYPE_RRSIG, 46);
    assert_eq!(RTYPE_SVCB, 64);
}

#[test]
fn flags_are_set_by_any_match() {
    let items = vec![
        parsed(Section::Answer, RTYPE_SOA, Some("soa")),
        parsed(Section::Answer, RTYPE_RRSIG, None),
        parsed(Section::Answer, RTYPE_SOA, Some("soa again")),
        parsed(Section::Additional, RTYPE_OPT, None),
    ];
    assert!(any_of_type(&items, RTYPE_SOA));
    assert!(any_of_type(&items, RTYPE_RRSIG));
    assert!(!any_of_type(&items, RTYPE_SVCB));
    assert!(any_edns_opt(&items));
    assert!(!any_of_type(&Vec::new(), RTYPE_SOA));
    assert!(!any_edns_opt(&Vec::new()));
}

#[test]
fn opt_counts_only_in_the_additional_section() {
    let items = vec![parsed(Section::Answer, RTYPE_OPT, None), parsed(Section::Authority, RTYPE_OPT, None)];
    assert!(!any_edns_opt(&items));
    assert!(any_of_type(&items, RTYPE_OPT));
}

#[test]
fn malformed_item_has_no_type() {
    let items = vec![malformed("short input")];
    assert!(!any_of_type(&items, RTYPE_SOA));
    assert!(!any_edns_opt(&items));
    assert_eq!(collect_anomalies(&items), vec!["short input".to_string()]);
    assert_eq!(collect_answer_records(&items), vec![]);
}

#[test]
fn one_malformed_record_among_good_ones() {
    let good = vec![
        parsed(Section::Answer, RTYPE_SVCB, Some("1 one.example. alpn=dot")),
        parsed(Section::Answer, RTYPE_SVCB, Some("2 two.example. alpn=h2")),
        parsed(Section::Answer, RTYPE_SVCB, None),
    ];
    let with_bad = vec![
        parsed(Section::Answer, RTYPE_SVCB, Some("1 one.example. alpn=dot")),
        malformed("unexpected end of buffer"),
        parsed(Section::Answer, RTYPE_SVCB, Some("2 two.example. alpn=h2")),
        parsed(Section::Answer, RTYPE_SVCB, None),
    ];
    let expected = vec![
        reported(RTYPE_SVCB, Some("1 one.example. alpn=dot")),
        reported(RTYPE_SVCB, Some("2 two.example. alpn=h2")),
        reported(RTYPE_SVCB, None),
    ];
    assert_eq!(collect_answer_records(&with_bad), expected);
    assert_eq!(collect_answer_records(&good), expected);
    assert_eq!(collect_anomalies(&with_bad), vec!["unexpected end of buffer".to_string()]);
    assert_eq!(collect_anomalies(&good), Vec::<String>::new());
    assert_eq!(any_of_type(&with_bad, RTYPE_SVCB), any_of_type(&good, RTYPE_SVCB));
}

#[test]
fn only_answer_section_records_are_reported() {
    let items = vec![
        parsed(Section::Authority, RTYPE_SOA, Some("soa")),
        parsed(Section::Answer, 5, Some("alias.example.")),
        parsed(Section::Additional, RTYPE_OPT, None),
        parsed(Section::Answer, RTYPE_SVCB, None),
    ];
    assert_eq!(collect_answer_records(&items), vec![reported(5, Some("alias.example.")), reported(RTYPE_SVCB, None)]);
}

#[test]
fn diagnostics_from_both_answers() {
    let soa = DiagnosticOutcome::Answered {
        items: vec![
            parsed(Section::Answer, RTYPE_SOA, Some("soa")),
            malformed("first"),
            parsed(Section::Additional, RTYPE_OPT, None),
        ],
    };
    let svcb = DiagnosticOutcome::Answered {
        items: vec![malformed("second"), parsed(Section::Answer, RTYPE_SVCB, Some("1 . alpn=dot"))],
    };
    let expected = DiagnosticRecordSet {
        has_edns_opt: true,
        seen_rrsig: false,
        seen_soa: true,
        svcb_records: vec![reported(RTYPE_SVCB, Some("1 . alpn=dot"))],
        anomalies: vec!["first".to_string(), "second".to_string()],
        soa_failure: None,
        svcb_failure: None,
    };
    assert_eq!(classify_diagnostics(soa, svcb), expected);
}

#[test]
fn failed_diagnostic_queries_are_kept_as_values() {
    let soa = DiagnosticOutcome::Failed { message: "timed out".to_string() };
    let svcb = DiagnosticOutcome::Answered { items: vec![parsed(Section::Answer, RTYPE_RRSIG, None)] };
    let expected = DiagnosticRecordSet {
        has_edns_opt: false,
        seen_rrsig: false,
        seen_soa: false,
        svcb_records: vec![reported(RTYPE_RRSIG, None)],
        anomalies: vec![],
        soa_failure: Some("timed out".to_string()),
        svcb_failure: None,
    };
    assert_eq!(classify_diagnostics(soa, svcb), expected);
    let both = classify_diagnostics(
        DiagnosticOutcome::Failed { message: "a".to_string() },
        DiagnosticOutcome::Failed { message: "b".to_string() },
    );
    assert_eq!(both.soa_failure, Some("a".to_string()));
    assert_eq!(both.svcb_failure, Some("b".to_string()));
    assert!(both.svcb_records.is_empty());
}

#[test]
fn outcome_from_missing_items_is_a_failure() {
    assert_eq!(outcome_from_items(None), DiagnosticOutcome::Failed { message: "message too short".to_string() });
    assert_eq!(outcome_from_items(Some(vec![])), DiagnosticOutcome::Answered { items: vec![] });
}

#[test]
fn wire_answer_with_root_soa() {
    let outcome = read_answer(&soa_message(1));
    match &outcome {
        DiagnosticOutcome::Answered { items } => {
            assert_eq!(items.len(), 1);
            match &items[0] {
                RecordItem::Parsed { section, rtype, owner, data } => {
                    assert_eq!(*section, Section::Answer);
                    assert_eq!(*rtype, RTYPE_SOA);
                    assert_eq!(*owner, root());
                    assert_eq!(data.as_deref(), Some("a. b. 1 2 3 4 5"));
                }
                other => panic!("unexpected item {:?}", other),
            }
        }
        other => panic!("unexpected outcome {:?}", other),
    }
    let facts = classify_diagnostics(outcome, DiagnosticOutcome::Answered { items: vec![] });
    assert!(facts.seen_soa);
    assert!(!facts.seen_rrsig);
    assert!(!facts.has_edns_opt);
    assert!(facts.anomalies.is_empty());
}

#[test]
fn wire_answer_too_short_for_a_header() {
    assert_eq!(read_answer(&[0, 1, 2]), DiagnosticOutcome::Failed { message: "message too short".to_string() });
    assert_eq!(read_answer(&[]), DiagnosticOutcome::Failed { message: "message too short".to_string() });
}

#[test]
fn wire_answer_with_a_missing_record_keeps_the_good_one() {
    let outcome = read_answer(&soa_message(2));
    let facts = classify_diagnostics(outcome, DiagnosticOutcome::Answered { items: vec![] });
    assert!(facts.seen_soa);
    assert!(!facts.anomalies.is_empty());
}

#[test]
fn wire_answer_without_records() {
    let header_only = vec![0, 0, 0x81, 0x80, 0, 0, 0, 0, 0, 0, 0, 0];
    assert_eq!(read_answer(&header_only), DiagnosticOutcome::Answered { items: vec![] });
}
