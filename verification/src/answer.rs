//! Classification of the records of a diagnostic answer. Every record is
//! looked at on its own: one that cannot be read becomes an anomaly and the
//! others are reported as if it had not been there.

use crate::name::DomainName;
use vstd::prelude::*;

verus! {

/// The record type of a zone's start of authority.
pub const RTYPE_SOA: u16 = 6;

/// The record type of the EDNS pseudo record.
pub const RTYPE_OPT: u16 = 41;

/// The record type of a signature.
pub const RTYPE_RRSIG: u16 = 46;

/// The record type of a service binding.
pub const RTYPE_SVCB: u16 = 64;

/// The section of a message a record stands in.
#[derive(Clone, Copy, Debug, PartialEq, Eq, Structural)]
pub enum Section {
    Answer,
    Authority,
    Additional,
}

/// One record of an answer, as far as it could be read.
#[derive(Debug, PartialEq, Eq)]
pub enum RecordItem {
    /// The record was read. `data` holds its decoded content, or nothing
    /// where the content could not be decoded.
    Parsed { section: Section, rtype: u16, owner: DomainName, data: Option<String> },
    /// The record could not be read at all.
    Malformed { message: String },
}

/// The mathematical value of a [`RecordItem`].
pub enum RecordItemView {
    Parsed { section: Section, rtype: u16, owner: Seq<u8>, data: Option<Seq<char>> },
    Malformed { message: Seq<char> },
}

/// The value of an optional text.
pub open spec fn text_view(text: Option<String>) -> Option<Seq<char>> {
    match text {
        Some(t) => Some(t@),
        None => None,
    }
}

impl View for RecordItem {
    type V = RecordItemView;

    open spec fn view(&self) -> RecordItemView {
        match *self {
            RecordItem::Parsed { section, rtype, owner, data } => RecordItemView::Parsed {
                section,
                rtype,
                owner: owner@,
                data: text_view(data),
            },
            RecordItem::Malformed { message } => RecordItemView::Malformed { message: message@ },
        }
    }
}

/// The values of a sequence of record items.
pub open spec fn items_view(items: Seq<RecordItem>) -> Seq<RecordItemView> {
    items.map_values(|i: RecordItem| i@)
}

/// The values of a sequence of texts.
pub open spec fn texts_view(texts: Seq<String>) -> Seq<Seq<char>> {
    texts.map_values(|t: String| t@)
}

/// A record as it is reported: with its decoded content, or by type and
/// owner alone where there is none.
#[derive(Debug, PartialEq, Eq)]
pub struct ReportedRecord {
    pub rtype: u16,
    pub owner: DomainName,
    pub data: Option<String>,
}

/// The mathematical value of a [`ReportedRecord`].
pub struct ReportedRecordView {
    pub rtype: u16,
    pub owner: Seq<u8>,
    pub data: Option<Seq<char>>,
}

impl View for ReportedRecord {
    type V = ReportedRecordView;

    open spec fn view(&self) -> ReportedRecordView {
        ReportedRecordView { rtype: self.rtype, owner: self.owner@, data: text_view(self.data) }
    }
}

/// The values of a sequence of reported records.
pub open spec fn records_view(records: Seq<ReportedRecord>) -> Seq<ReportedRecordView> {
    records.map_values(|r: ReportedRecord| r@)
}

/// The anomaly an item stands for, if it is one.
pub open spec fn anomaly_of(item: RecordItemView) -> Option<Seq<char>> {
    match item {
        RecordItemView::Malformed { message } => Some(message),
        _ => None,
    }
}

/// The report of an item, if it is a record of the answer section.
pub open spec fn answer_record_of(item: RecordItemView) -> Option<ReportedRecordView> {
    match item {
        RecordItemView::Parsed { section: Section::Answer, rtype, owner, data } => Some(
            ReportedRecordView { rtype, owner, data },
        ),
        _ => None,
    }
}

/// The item is a record of the given type, whether or not its content
/// could be decoded.
pub open spec fn is_of_type(item: RecordItemView, wanted: u16) -> bool {
    match item {
        RecordItemView::Parsed { rtype, .. } => rtype == wanted,
        _ => false,
    }
}

/// The item is the EDNS pseudo record: a record of that type in the
/// additional section.
pub open spec fn is_edns_opt(item: RecordItemView) -> bool {
    match item {
        RecordItemView::Parsed { section: Section::Additional, rtype, .. } => rtype == RTYPE_OPT,
        _ => false,
    }
}

/// Some record among the items has the given type.
pub open spec fn seen_type(items: Seq<RecordItemView>, wanted: u16) -> bool {
    exists|i: int| 0 <= i < items.len() && is_of_type(#[trigger] items[i], wanted)
}

/// Some record among the items is the EDNS pseudo record.
pub open spec fn seen_edns_opt(items: Seq<RecordItemView>) -> bool {
    exists|i: int| 0 <= i < items.len() && is_edns_opt(#[trigger] items[i])
}

/// The anomalies among the items, in their order.
pub open spec fn anomalies_of(items: Seq<RecordItemView>) -> Seq<Seq<char>> {
    items.filter_map(|i: RecordItemView| anomaly_of(i))
}

/// The records of the answer section among the items, in their order.
pub open spec fn answer_records_of(items: Seq<RecordItemView>) -> Seq<ReportedRecordView> {
    items.filter_map(|i: RecordItemView| answer_record_of(i))
}

/// Whether some record among the items has the given type.
pub fn any_of_type(items: &Vec<RecordItem>, wanted: u16) -> (r: bool)
    ensures
        r == seen_type(items_view(items@), wanted),
{
    let mut i: usize = 0;
    while i < items.len()
        invariant
            i <= items.len(),
            forall|j: int| 0 <= j < i ==> !is_of_type(#[trigger] items_view(items@)[j], wanted),
        decreases items.len() - i,
    {
        match &items[i] {
            RecordItem::Parsed { rtype, .. } => {
                if *rtype == wanted {
                    assert(is_of_type(items_view(items@)[i as int], wanted));
                    return true;
                }
            },
            RecordItem::Malformed { .. } => {},
        }
        i += 1;
    }
    false
}

/// Whether some record among the items is the EDNS pseudo record.
pub fn any_edns_opt(items: &Vec<RecordItem>) -> (r: bool)
    ensures
        r == seen_edns_opt(items_view(items@)),
{
    let mut i: usize = 0;
    while i < items.len()
        invariant
            i <= items.len(),
            forall|j: int| 0 <= j < i ==> !is_edns_opt(#[trigger] items_view(items@)[j]),
        decreases items.len() - i,
    {
        match &items[i] {
            RecordItem::Parsed { section: Section::Additional, rtype, .. } => {
                if *rtype == RTYPE_OPT {
                    assert(is_edns_opt(items_view(items@)[i as int]));
                    return true;
                }
            },
            _ => {},
        }
        i += 1;
    }
    false
}

fn copy_text(text: &Option<String>) -> (r: Option<String>)
    ensures
        text_view(r) == text_view(*text),
{
    match text {
        Some(t) => Some(t.clone()),
        None => None,
    }
}

/// The anomalies among the items, in their order.
pub fn collect_anomalies(items: &Vec<RecordItem>) -> (r: Vec<String>)
    ensures
        texts_view(r@) == anomalies_of(items_view(items@)),
{
    let ghost all = items_view(items@);
    let ghost f = |i: RecordItemView| anomaly_of(i);
    let mut out: Vec<String> = Vec::new();
    let mut i: usize = 0;
    assert(all.take(0).filter_map(f) =~= Seq::<Seq<char>>::empty());
    assert(texts_view(out@) =~= Seq::<Seq<char>>::empty());
    while i < items.len()
        invariant
            i <= items.len(),
            all == items_view(items@),
            f == |i: RecordItemView| anomaly_of(i),
            texts_view(out@) == all.take(i as int).filter_map(f),
        decreases items.len() - i,
    {
        proof {
            all.lemma_filter_map_take_succ(f, i as int);
        }
        let ghost before = out@;
        match &items[i] {
            RecordItem::Malformed { message } => {
                out.push(message.clone());
                assert(texts_view(out@) =~= texts_view(before).push(message@));
            },
            _ => {},
        }
        i += 1;
    }
    assert(all.take(i as int) =~= all);
    out
}

/// The records of the answer section among the items, in their order.
pub fn collect_answer_records(items: &Vec<RecordItem>) -> (r: Vec<ReportedRecord>)
    ensures
        records_view(r@) == answer_records_of(items_view(items@)),
{
    let ghost all = items_view(items@);
    let ghost f = |i: RecordItemView| answer_record_of(i);
    let mut out: Vec<ReportedRecord> = Vec::new();
    let mut i: usize = 0;
    assert(all.take(0).filter_map(f) =~= Seq::<ReportedRecordView>::empty());
    assert(records_view(out@) =~= Seq::<ReportedRecordView>::empty());
    while i < items.len()
        invariant
            i <= items.len(),
            all == items_view(items@),
            f == |i: RecordItemView| answer_record_of(i),
            records_view(out@) == all.take(i as int).filter_map(f),
        decreases items.len() - i,
    {
        proof {
            all.lemma_filter_map_take_succ(f, i as int);
        }
        let ghost before = out@;
        match &items[i] {
            RecordItem::Parsed { section: Section::Answer, rtype, owner, data } => {
                let record = ReportedRecord { rtype: *rtype, owner: owner.clone(), data: copy_text(data) };
                out.push(record);
                assert(records_view(out@) =~= records_view(before).push(record@));
            },
            _ => {},
        }
        i += 1;
    }
    assert(all.take(i as int) =~= all);
    out
}

/// What a diagnostic query came back with.
#[derive(Debug, PartialEq, Eq)]
pub enum DiagnosticOutcome {
    /// An answer, with the items that reading its records gave.
    Answered { items: Vec<RecordItem> },
    /// The query failed; the resolver's own words.
    Failed { message: String },
}

/// The mathematical value of a [`DiagnosticOutcome`].
pub enum DiagnosticOutcomeView {
    Answered { items: Seq<RecordItemView> },
    Failed { message: Seq<char> },
}

impl View for DiagnosticOutcome {
    type V = DiagnosticOutcomeView;

    open spec fn view(&self) -> DiagnosticOutcomeView {
        match *self {
            DiagnosticOutcome::Answered { items } => DiagnosticOutcomeView::Answered { items: items_view(items@) },
            DiagnosticOutcome::Failed { message } => DiagnosticOutcomeView::Failed { message: message@ },
        }
    }
}

impl DiagnosticOutcomeView {
    /// The items of the answer; none where the query failed.
    pub open spec fn items(self) -> Seq<RecordItemView> {
        match self {
            DiagnosticOutcomeView::Answered { items } => items,
            DiagnosticOutcomeView::Failed { .. } => Seq::empty(),
        }
    }

    /// The failure of the query, if it failed.
    pub open spec fn failure(self) -> Option<Seq<char>> {
        match self {
            DiagnosticOutcomeView::Answered { .. } => None,
            DiagnosticOutcomeView::Failed { message } => Some(message),
        }
    }
}

/// The diagnostic facts about one nameserver.
#[derive(Debug, PartialEq, Eq)]
pub struct DiagnosticRecordSet {
    /// The answer to the root SOA query carried the EDNS pseudo record.
    pub has_edns_opt: bool,
    /// The answer to the root SOA query held a signature.
    pub seen_rrsig: bool,
    /// The answer to the root SOA query held a start of authority.
    pub seen_soa: bool,
    /// The records in the answer section of the service binding query.
    pub svcb_records: Vec<ReportedRecord>,
    /// The records of either answer that could not be read.
    pub anomalies: Vec<String>,
    /// Why the root SOA query failed, if it did.
    pub soa_failure: Option<String>,
    /// Why the service binding query failed, if it did.
    pub svcb_failure: Option<String>,
}

/// The mathematical value of a [`DiagnosticRecordSet`].
pub struct DiagnosticRecordSetView {
    pub has_edns_opt: bool,
    pub seen_rrsig: bool,
    pub seen_soa: bool,
    pub svcb_records: Seq<ReportedRecordView>,
    pub anomalies: Seq<Seq<char>>,
    pub soa_failure: Option<Seq<char>>,
    pub svcb_failure: Option<Seq<char>>,
}

impl View for DiagnosticRecordSet {
    type V = DiagnosticRecordSetView;

    open spec fn view(&self) -> DiagnosticRecordSetView {
        DiagnosticRecordSetView {
            has_edns_opt: self.has_edns_opt,
            seen_rrsig: self.seen_rrsig,
            seen_soa: self.seen_soa,
            svcb_records: records_view(self.svcb_records@),
            anomalies: texts_view(self.anomalies@),
            soa_failure: text_view(self.soa_failure),
            svcb_failure: text_view(self.svcb_failure),
        }
    }
}

/// The facts that the outcomes of the two diagnostic queries amount to. A
/// flag is set as soon as one record matches; the anomalies of the root SOA
/// answer come before those of the service binding answer.
pub open spec fn diagnostics_spec(soa: DiagnosticOutcomeView, svcb: DiagnosticOutcomeView) -> DiagnosticRecordSetView {
    DiagnosticRecordSetView {
        has_edns_opt: seen_edns_opt(soa.items()),
        seen_rrsig: seen_type(soa.items(), RTYPE_RRSIG),
        seen_soa: seen_type(soa.items(), RTYPE_SOA),
        svcb_records: answer_records_of(svcb.items()),
        anomalies: anomalies_of(soa.items()) + anomalies_of(svcb.items()),
        soa_failure: soa.failure(),
        svcb_failure: svcb.failure(),
    }
}

fn split_outcome(outcome: DiagnosticOutcome) -> (r: (Vec<RecordItem>, Option<String>))
    ensures
        items_view(r.0@) == outcome@.items(),
        text_view(r.1) == outcome@.failure(),
{
    match outcome {
        DiagnosticOutcome::Answered { items } => (items, None),
        DiagnosticOutcome::Failed { message } => {
            let items: Vec<RecordItem> = Vec::new();
            assert(items_view(items@) =~= Seq::<RecordItemView>::empty());
            (items, Some(message))
        },
    }
}

/// Assembles the diagnostic facts about one nameserver from the outcomes
/// of the root SOA query and of the service binding query.
pub fn classify_diagnostics(soa: DiagnosticOutcome, svcb: DiagnosticOutcome) -> (r: DiagnosticRecordSet)
    ensures
        r@ == diagnostics_spec(soa@, svcb@),
{
    let (soa_items, soa_failure) = split_outcome(soa);
    let (svcb_items, svcb_failure) = split_outcome(svcb);
    let mut anomalies = collect_anomalies(&soa_items);
    let mut more = collect_anomalies(&svcb_items);
    let ghost first = anomalies@;
    let ghost second = more@;
    anomalies.append(&mut more);
    assert(texts_view(anomalies@) =~= texts_view(first) + texts_view(second));
    DiagnosticRecordSet {
        has_edns_opt: any_edns_opt(&soa_items),
        seen_rrsig: any_of_type(&soa_items, RTYPE_RRSIG),
        seen_soa: any_of_type(&soa_items, RTYPE_SOA),
        svcb_records: collect_answer_records(&svcb_items),
        anomalies,
        soa_failure,
        svcb_failure,
    }
}

proof fn lemma_filter_map_concat<A, B>(a: Seq<A>, b: Seq<A>, f: spec_fn(A) -> Option<B>)
    ensures
        (a + b).filter_map(f) == a.filter_map(f) + b.filter_map(f),
    decreases b.len(),
{
    if b.len() == 0 {
        assert(a + b =~= a);
        assert(a.filter_map(f) + b.filter_map(f) =~= a.filter_map(f));
    } else {
        lemma_filter_map_concat(a, b.drop_last(), f);
        assert((a + b).drop_last() =~= a + b.drop_last());
        assert((a + b).last() == b.last());
        match f(b.last()) {
            Some(x) => {
                assert((a.filter_map(f) + b.drop_last().filter_map(f)) + seq![x] =~= a.filter_map(f) + (
                b.drop_last().filter_map(f) + seq![x]));
            },
            None => {},
        }
    }
}

proof fn lemma_no_anomaly(items: Seq<RecordItemView>)
    requires
        forall|i: int| 0 <= i < items.len() ==> !(#[trigger] items[i] is Malformed),
    ensures
        anomalies_of(items) == Seq::<Seq<char>>::empty(),
    decreases items.len(),
{
    if items.len() > 0 {
        assert(!(items[items.len() - 1] is Malformed));
        lemma_no_anomaly(items.drop_last());
    }
}

/// Records are read one by one: what two runs of items amount to is what
/// each amounts to by itself, joined in order.
pub proof fn lemma_items_read_one_by_one(a: Seq<RecordItemView>, b: Seq<RecordItemView>, wanted: u16)
    ensures
        anomalies_of(a + b) == anomalies_of(a) + anomalies_of(b),
        answer_records_of(a + b) == answer_records_of(a) + answer_records_of(b),
        seen_type(a + b, wanted) == (seen_type(a, wanted) || seen_type(b, wanted)),
        seen_edns_opt(a + b) == (seen_edns_opt(a) || seen_edns_opt(b)),
{
    lemma_filter_map_concat(a, b, |i: RecordItemView| anomaly_of(i));
    lemma_filter_map_concat(a, b, |i: RecordItemView| answer_record_of(i));
    let ab = a + b;
    if seen_type(a, wanted) {
        let i = choose|i: int| 0 <= i < a.len() && is_of_type(#[trigger] a[i], wanted);
        assert(is_of_type(ab[i], wanted));
    }
    if seen_type(b, wanted) {
        let i = choose|i: int| 0 <= i < b.len() && is_of_type(#[trigger] b[i], wanted);
        assert(is_of_type(ab[a.len() + i], wanted));
    }
    if seen_type(ab, wanted) {
        let i = choose|i: int| 0 <= i < ab.len() && is_of_type(#[trigger] ab[i], wanted);
        if i < a.len() {
            assert(is_of_type(a[i], wanted));
        } else {
            assert(is_of_type(b[i - a.len()], wanted));
        }
    }
    if seen_edns_opt(a) {
        let i = choose|i: int| 0 <= i < a.len() && is_edns_opt(#[trigger] a[i]);
        assert(is_edns_opt(ab[i]));
    }
    if seen_edns_opt(b) {
        let i = choose|i: int| 0 <= i < b.len() && is_edns_opt(#[trigger] b[i]);
        assert(is_edns_opt(ab[a.len() + i]));
    }
    if seen_edns_opt(ab) {
        let i = choose|i: int| 0 <= i < ab.len() && is_edns_opt(#[trigger] ab[i]);
        if i < a.len() {
            assert(is_edns_opt(a[i]));
        } else {
            assert(is_edns_opt(b[i - a.len()]));
        }
    }
}

/// One malformed record among otherwise readable ones gives exactly one
/// anomaly, and everything else is reported as if the malformed record had
/// not been there.
pub proof fn lemma_one_malformed_record(items: Seq<RecordItemView>, k: int, wanted: u16)
    requires
        0 <= k < items.len(),
        items[k] is Malformed,
        forall|i: int| 0 <= i < items.len() && i != k ==> !(#[trigger] items[i] is Malformed),
    ensures
        anomalies_of(items) == seq![items[k]->message],
        answer_records_of(items) == answer_records_of(items.remove(k)),
        seen_type(items, wanted) == seen_type(items.remove(k), wanted),
        seen_edns_opt(items) == seen_edns_opt(items.remove(k)),
{
    let head = items.take(k);
    let bad = seq![items[k]];
    let rest = items.skip(k + 1);
    assert(items =~= (head + bad) + rest);
    assert(items.remove(k) =~= head + rest);
    lemma_items_read_one_by_one(head, bad, wanted);
    lemma_items_read_one_by_one(head + bad, rest, wanted);
    lemma_items_read_one_by_one(head, rest, wanted);
    lemma_no_anomaly(head);
    lemma_no_anomaly(rest);
    Seq::lemma_filter_map_singleton(items[k], |i: RecordItemView| anomaly_of(i));
    Seq::lemma_filter_map_singleton(items[k], |i: RecordItemView| answer_record_of(i));
    assert(!seen_type(bad, wanted));
    assert(!seen_edns_opt(bad));
    assert(anomalies_of(items) =~= seq![items[k]->message]);
    assert(answer_records_of(items) =~= answer_records_of(items.remove(k)));
}

} // verus!
