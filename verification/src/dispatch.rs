//! Routing of a classified target to one resolver operation, and the
//! result that the operation's outcome amounts to.

use crate::ip::IpAddress;
use crate::name::{same_name, DomainName};
use crate::target::{classify_spec, Target, TargetKind, TargetKindView};
use vstd::prelude::*;

verus! {

/// The one resolver operation that a target calls for.
#[derive(Debug, PartialEq, Eq)]
pub enum Operation {
    /// A PTR query for the address.
    ReverseLookup(IpAddress),
    /// An address query for exactly this name.
    ForwardAbsolute(DomainName),
    /// An address query in which the resolver completes the name along its
    /// search path.
    ForwardSearch(DomainName),
}

/// The mathematical value of an [`Operation`].
pub enum OperationView {
    ReverseLookup(IpAddress),
    ForwardAbsolute(Seq<u8>),
    ForwardSearch(Seq<u8>),
}

impl View for Operation {
    type V = OperationView;

    open spec fn view(&self) -> OperationView {
        match *self {
            Operation::ReverseLookup(ip) => OperationView::ReverseLookup(ip),
            Operation::ForwardAbsolute(name) => OperationView::ForwardAbsolute(name@),
            Operation::ForwardSearch(name) => OperationView::ForwardSearch(name@),
        }
    }
}

impl Clone for Operation {
    fn clone(&self) -> (r: Self)
        ensures
            r@ == self@,
    {
        match self {
            Operation::ReverseLookup(ip) => Operation::ReverseLookup(*ip),
            Operation::ForwardAbsolute(name) => Operation::ForwardAbsolute(name.clone()),
            Operation::ForwardSearch(name) => Operation::ForwardSearch(name.clone()),
        }
    }
}

/// The operation for each kind of target; none for an unparseable one.
pub open spec fn operation_for(kind: TargetKindView) -> Option<OperationView> {
    match kind {
        TargetKindView::IPAddress(ip) => Some(OperationView::ReverseLookup(ip)),
        TargetKindView::AbsoluteName(name) => Some(OperationView::ForwardAbsolute(name)),
        TargetKindView::RelativeName(name) => Some(OperationView::ForwardSearch(name)),
        TargetKindView::Unparseable => None,
    }
}

/// Selects the operation for a kind of target.
pub fn operation_for_kind(kind: &TargetKind) -> (r: Option<Operation>)
    ensures
        match r {
            Some(op) => operation_for(kind@) == Some(op@),
            None => operation_for(kind@) is None,
        },
{
    match kind {
        TargetKind::IPAddress(ip) => Some(Operation::ReverseLookup(*ip)),
        TargetKind::AbsoluteName(name) => Some(Operation::ForwardAbsolute(name.clone())),
        TargetKind::RelativeName(name) => Some(Operation::ForwardSearch(name.clone())),
        TargetKind::Unparseable => None,
    }
}

/// Selects the operation for a target: at most one, fixed by its kind.
pub fn select_operation(target: &Target) -> (r: Option<Operation>)
    ensures
        match r {
            Some(op) => operation_for(target@.kind) == Some(op@),
            None => operation_for(target@.kind) is None,
        },
        r is None <==> target@.kind is Unparseable,
{
    operation_for_kind(target.kind())
}

/// A relative name is only ever looked up along the search path, an
/// absolute name only ever as it stands, an address only ever in reverse,
/// and nothing is looked up for text that is none of these.
pub proof fn lemma_routing_by_kind(text: Seq<char>)
    ensures
        classify_spec(text) is RelativeName ==> operation_for(classify_spec(text)) == Some(
            OperationView::ForwardSearch(classify_spec(text)->RelativeName_0),
        ),
        classify_spec(text) is AbsoluteName ==> operation_for(classify_spec(text)) == Some(
            OperationView::ForwardAbsolute(classify_spec(text)->AbsoluteName_0),
        ),
        classify_spec(text) is IPAddress ==> operation_for(classify_spec(text)) == Some(
            OperationView::ReverseLookup(classify_spec(text)->IPAddress_0),
        ),
        classify_spec(text) is Unparseable ==> operation_for(classify_spec(text)) is None,
{
}

/// What the resolver handed back for one operation, as plain values.
#[derive(Debug, PartialEq, Eq)]
pub enum LookupOutcome {
    /// An address answer: the name that was queried in the end, the owner
    /// name after aliases, and the addresses in the order of the response.
    Hosts { qname: DomainName, canonical: DomainName, addresses: Vec<IpAddress> },
    /// A PTR answer: the host names in the order of the response.
    Names { names: Vec<DomainName> },
    /// The query failed; the resolver's own words.
    Failed { message: String },
}

/// The mathematical value of a [`LookupOutcome`].
pub enum LookupOutcomeView {
    Hosts { qname: Seq<u8>, canonical: Seq<u8>, addresses: Seq<IpAddress> },
    Names { names: Seq<Seq<u8>> },
    Failed { message: Seq<char> },
}

/// The values of a sequence of names.
pub open spec fn names_view(names: Seq<DomainName>) -> Seq<Seq<u8>> {
    names.map_values(|n: DomainName| n@)
}

impl View for LookupOutcome {
    type V = LookupOutcomeView;

    open spec fn view(&self) -> LookupOutcomeView {
        match *self {
            LookupOutcome::Hosts { qname, canonical, addresses } => LookupOutcomeView::Hosts {
                qname: qname@,
                canonical: canonical@,
                addresses: addresses@,
            },
            LookupOutcome::Names { names } => LookupOutcomeView::Names { names: names_view(names@) },
            LookupOutcome::Failed { message } => LookupOutcomeView::Failed { message: message@ },
        }
    }
}

/// Where a failure arose.
#[derive(Clone, Copy, Debug, PartialEq, Eq, Structural)]
pub enum FailureStage {
    /// The target string could not be classified.
    Classify,
    /// The query was issued and did not give a usable answer.
    Query,
    /// The lookup through the operating system failed.
    OsLookup,
}

/// The queried name is an alias for another.
#[derive(Debug, PartialEq, Eq)]
pub struct Alias {
    pub from: DomainName,
    pub to: DomainName,
}

/// The mathematical value of an [`Alias`].
pub struct AliasView {
    pub from: Seq<u8>,
    pub to: Seq<u8>,
}

impl View for Alias {
    type V = AliasView;

    open spec fn view(&self) -> AliasView {
        AliasView { from: self.from@, to: self.to@ }
    }
}

/// The outcome of one operation against one session.
#[derive(Debug, PartialEq, Eq)]
pub enum QueryResult {
    Addresses { canonical_name: DomainName, entries: Vec<(DomainName, IpAddress)>, alias: Option<Alias> },
    HostNames { queried_addr: IpAddress, names: Vec<DomainName> },
    Failure { stage: FailureStage, message: String },
}

/// The mathematical value of a [`QueryResult`].
pub enum QueryResultView {
    Addresses { canonical_name: Seq<u8>, entries: Seq<(Seq<u8>, IpAddress)>, alias: Option<AliasView> },
    HostNames { queried_addr: IpAddress, names: Seq<Seq<u8>> },
    Failure { stage: FailureStage, message: Seq<char> },
}

/// The values of a sequence of address entries.
pub open spec fn entries_view(entries: Seq<(DomainName, IpAddress)>) -> Seq<(Seq<u8>, IpAddress)> {
    entries.map_values(|e: (DomainName, IpAddress)| (e.0@, e.1))
}

/// The value of an optional alias.
pub open spec fn alias_view(alias: Option<Alias>) -> Option<AliasView> {
    match alias {
        Some(a) => Some(a@),
        None => None,
    }
}

impl View for QueryResult {
    type V = QueryResultView;

    open spec fn view(&self) -> QueryResultView {
        match *self {
            QueryResult::Addresses { canonical_name, entries, alias } => QueryResultView::Addresses {
                canonical_name: canonical_name@,
                entries: entries_view(entries@),
                alias: alias_view(alias),
            },
            QueryResult::HostNames { queried_addr, names } => QueryResultView::HostNames {
                queried_addr,
                names: names_view(names@),
            },
            QueryResult::Failure { stage, message } => QueryResultView::Failure { stage, message: message@ },
        }
    }
}

/// The failure reported for a target that is no address and no name.
pub open spec fn unparseable_failure() -> QueryResultView {
    QueryResultView::Failure { stage: FailureStage::Classify, message: "not a domain name"@ }
}

/// The failure reported where the resolver answered an address query with
/// host names, or a PTR query with addresses.
pub open spec fn mismatch_failure() -> QueryResultView {
    QueryResultView::Failure { stage: FailureStage::Query, message: "answer of another kind"@ }
}

/// The alias note of an address answer: present exactly when the canonical
/// name is another name than the one queried.
pub open spec fn alias_note(qname: Seq<u8>, canonical: Seq<u8>) -> Option<AliasView> {
    if same_name(canonical, qname) {
        None
    } else {
        Some(AliasView { from: qname, to: canonical })
    }
}

/// The result that an outcome amounts to for the operation that was issued.
pub open spec fn answer_spec(op: OperationView, outcome: LookupOutcomeView) -> QueryResultView {
    match outcome {
        LookupOutcomeView::Failed { message } => QueryResultView::Failure {
            stage: FailureStage::Query,
            message,
        },
        LookupOutcomeView::Hosts { qname, canonical, addresses } => match op {
            OperationView::ReverseLookup(_) => mismatch_failure(),
            _ => QueryResultView::Addresses {
                canonical_name: canonical,
                entries: addresses.map_values(|a: IpAddress| (canonical, a)),
                alias: alias_note(qname, canonical),
            },
        },
        LookupOutcomeView::Names { names } => match op {
            OperationView::ReverseLookup(ip) => QueryResultView::HostNames { queried_addr: ip, names },
            _ => mismatch_failure(),
        },
    }
}

/// The result for a target: the classification failure where no operation
/// exists for it, else what the outcome of its operation amounts to.
pub open spec fn dispatch_spec(kind: TargetKindView, outcome: LookupOutcomeView) -> QueryResultView {
    match operation_for(kind) {
        Some(op) => answer_spec(op, outcome),
        None => unparseable_failure(),
    }
}

/// The result for a target that no operation exists for.
pub fn classification_failure() -> (r: QueryResult)
    ensures
        r@ == unparseable_failure(),
{
    QueryResult::Failure { stage: FailureStage::Classify, message: "not a domain name".to_owned() }
}

fn answer_mismatch() -> (r: QueryResult)
    ensures
        r@ == mismatch_failure(),
{
    QueryResult::Failure { stage: FailureStage::Query, message: "answer of another kind".to_owned() }
}

fn address_answer(qname: DomainName, canonical: DomainName, addresses: Vec<IpAddress>) -> (r: QueryResult)
    ensures
        r@ == (QueryResultView::Addresses {
            canonical_name: canonical@,
            entries: addresses@.map_values(|a: IpAddress| (canonical@, a)),
            alias: alias_note(qname@, canonical@),
        }),
{
    let mut entries: Vec<(DomainName, IpAddress)> = Vec::new();
    let mut i: usize = 0;
    while i < addresses.len()
        invariant
            i <= addresses.len(),
            entries.len() == i,
            forall|j: int| 0 <= j < i ==> (#[trigger] entries@[j]).0@ == canonical@ && entries@[j].1 == addresses@[j],
        decreases addresses.len() - i,
    {
        entries.push((canonical.clone(), addresses[i]));
        i += 1;
    }
    assert(entries_view(entries@) =~= addresses@.map_values(|a: IpAddress| (canonical@, a)));
    let alias = if canonical.same_as(&qname) {
        None
    } else {
        Some(Alias { from: qname, to: canonical.clone() })
    };
    QueryResult::Addresses { canonical_name: canonical, entries, alias }
}

/// Turns the outcome of an operation into its result. Addresses and host
/// names keep the order of the response; an address answer names the alias
/// where the canonical name is not the queried one; a failed query becomes
/// a failure value.
pub fn classify_answer(op: &Operation, outcome: LookupOutcome) -> (r: QueryResult)
    ensures
        r@ == answer_spec(op@, outcome@),
{
    match outcome {
        LookupOutcome::Failed { message } => QueryResult::Failure { stage: FailureStage::Query, message },
        LookupOutcome::Hosts { qname, canonical, addresses } => match op {
            Operation::ReverseLookup(_) => answer_mismatch(),
            _ => address_answer(qname, canonical, addresses),
        },
        LookupOutcome::Names { names } => match op {
            Operation::ReverseLookup(ip) => QueryResult::HostNames { queried_addr: *ip, names },
            _ => answer_mismatch(),
        },
    }
}

/// Dispatches a target: routes it to its one operation and turns the
/// outcome of that operation into the result. For a target that nothing is
/// asked for, the result is the classification failure whatever the
/// outcome holds.
pub fn dispatch(target: &Target, outcome: LookupOutcome) -> (r: QueryResult)
    ensures
        r@ == dispatch_spec(target@.kind, outcome@),
{
    match select_operation(target) {
        Some(op) => classify_answer(&op, outcome),
        None => classification_failure(),
    }
}

} // verus!
