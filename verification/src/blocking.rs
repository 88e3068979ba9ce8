//! The blocking pass: one lookup through the operating system per target,
//! in input order.

use crate::dispatch::FailureStage;
use crate::ip::IpAddress;
use crate::order::reversed;
use crate::target::{Target, TargetKind, TargetKindView};
use vstd::prelude::*;

verus! {

/// The lookup that the operating system is asked for.
#[derive(Clone, Copy, Debug, PartialEq, Eq, Structural)]
pub enum OsLookup {
    /// The host name of an address.
    AddrToName(IpAddress),
    /// The addresses of the target string, taken as a host name.
    NameToAddrs,
}

/// The lookup for each kind of target; none for an unparseable one.
pub open spec fn os_lookup_spec(kind: TargetKindView) -> Option<OsLookup> {
    match kind {
        TargetKindView::IPAddress(ip) => Some(OsLookup::AddrToName(ip)),
        TargetKindView::AbsoluteName(_) => Some(OsLookup::NameToAddrs),
        TargetKindView::RelativeName(_) => Some(OsLookup::NameToAddrs),
        TargetKindView::Unparseable => None,
    }
}

/// Selects the lookup for a target: at most one, fixed by its kind.
pub fn os_lookup_for(target: &Target) -> (r: Option<OsLookup>)
    ensures
        r == os_lookup_spec(target@.kind),
{
    match target.kind() {
        TargetKind::IPAddress(ip) => Some(OsLookup::AddrToName(*ip)),
        TargetKind::AbsoluteName(_) => Some(OsLookup::NameToAddrs),
        TargetKind::RelativeName(_) => Some(OsLookup::NameToAddrs),
        TargetKind::Unparseable => None,
    }
}

/// What the operating system handed back.
#[derive(Debug, PartialEq, Eq)]
pub enum OsOutcome {
    HostName(String),
    Addresses(Vec<IpAddress>),
    Failed(String),
}

/// The mathematical value of an [`OsOutcome`].
pub enum OsOutcomeView {
    HostName(Seq<char>),
    Addresses(Seq<IpAddress>),
    Failed(Seq<char>),
}

impl View for OsOutcome {
    type V = OsOutcomeView;

    open spec fn view(&self) -> OsOutcomeView {
        match *self {
            OsOutcome::HostName(host) => OsOutcomeView::HostName(host@),
            OsOutcome::Addresses(addresses) => OsOutcomeView::Addresses(addresses@),
            OsOutcome::Failed(message) => OsOutcomeView::Failed(message@),
        }
    }
}

/// The result of the blocking pass for one target.
#[derive(Debug, PartialEq, Eq)]
pub enum BlockingResult {
    HostName { addr: IpAddress, host: String },
    Addresses { addresses: Vec<IpAddress> },
    Failure { stage: FailureStage, message: String },
}

/// The mathematical value of a [`BlockingResult`].
pub enum BlockingResultView {
    HostName { addr: IpAddress, host: Seq<char> },
    Addresses { addresses: Seq<IpAddress> },
    Failure { stage: FailureStage, message: Seq<char> },
}

impl View for BlockingResult {
    type V = BlockingResultView;

    open spec fn view(&self) -> BlockingResultView {
        match *self {
            BlockingResult::HostName { addr, host } => BlockingResultView::HostName { addr, host: host@ },
            BlockingResult::Addresses { addresses } => BlockingResultView::Addresses { addresses: addresses@ },
            BlockingResult::Failure { stage, message } => BlockingResultView::Failure { stage, message: message@ },
        }
    }
}

/// The failure reported where a host name came back for a name, or
/// addresses for an address.
pub open spec fn os_mismatch() -> BlockingResultView {
    BlockingResultView::Failure { stage: FailureStage::OsLookup, message: "answer of another kind"@ }
}

/// The result that an outcome amounts to for the lookup that was made.
pub open spec fn os_result_spec(lookup: OsLookup, outcome: OsOutcomeView) -> BlockingResultView {
    match outcome {
        OsOutcomeView::Failed(message) => BlockingResultView::Failure { stage: FailureStage::OsLookup, message },
        OsOutcomeView::HostName(host) => match lookup {
            OsLookup::AddrToName(addr) => BlockingResultView::HostName { addr, host },
            OsLookup::NameToAddrs => os_mismatch(),
        },
        OsOutcomeView::Addresses(addresses) => match lookup {
            OsLookup::AddrToName(_) => os_mismatch(),
            OsLookup::NameToAddrs => BlockingResultView::Addresses { addresses },
        },
    }
}

/// The failure reported for a target that is no address and no name.
pub open spec fn os_unparseable() -> BlockingResultView {
    BlockingResultView::Failure { stage: FailureStage::Classify, message: "not a domain name"@ }
}

/// The result for a target that no lookup exists for.
pub fn blocking_classification_failure() -> (r: BlockingResult)
    ensures
        r@ == os_unparseable(),
{
    BlockingResult::Failure { stage: FailureStage::Classify, message: "not a domain name".to_owned() }
}

/// Turns the outcome of a lookup into its result; a failed lookup becomes
/// a failure value.
pub fn classify_os_outcome(lookup: OsLookup, outcome: OsOutcome) -> (r: BlockingResult)
    ensures
        r@ == os_result_spec(lookup, outcome@),
{
    match outcome {
        OsOutcome::Failed(message) => BlockingResult::Failure { stage: FailureStage::OsLookup, message },
        OsOutcome::HostName(host) => match lookup {
            OsLookup::AddrToName(addr) => BlockingResult::HostName { addr, host },
            OsLookup::NameToAddrs => BlockingResult::Failure {
                stage: FailureStage::OsLookup,
                message: "answer of another kind".to_owned(),
            },
        },
        OsOutcome::Addresses(addresses) => match lookup {
            OsLookup::AddrToName(_) => BlockingResult::Failure {
                stage: FailureStage::OsLookup,
                message: "answer of another kind".to_owned(),
            },
            OsLookup::NameToAddrs => BlockingResult::Addresses { addresses },
        },
    }
}


/// The value of an optional outcome.
pub open spec fn os_outcome_view(outcome: Option<OsOutcome>) -> Option<OsOutcomeView> {
    match outcome {
        Some(o) => Some(o@),
        None => None,
    }
}

/// The values of a sequence of optional outcomes.
pub open spec fn os_outcomes_view(outcomes: Seq<Option<OsOutcome>>) -> Seq<Option<OsOutcomeView>> {
    outcomes.map_values(|o: Option<OsOutcome>| os_outcome_view(o))
}

/// The values of a sequence of blocking results.
pub open spec fn blocking_results_view(results: Seq<BlockingResult>) -> Seq<BlockingResultView> {
    results.map_values(|r: BlockingResult| r@)
}

/// The failure reported for a target whose lookup was not made.
pub open spec fn lookup_not_made() -> BlockingResultView {
    BlockingResultView::Failure { stage: FailureStage::OsLookup, message: "lookup not made"@ }
}

/// The result for one target of the pass, given the outcome of its lookup
/// if one was made: the classification failure where no lookup exists for
/// the target, else what the outcome amounts to.
pub open spec fn blocking_slot(kind: TargetKindView, outcome: Option<OsOutcomeView>) -> BlockingResultView {
    match os_lookup_spec(kind) {
        Some(lookup) => match outcome {
            Some(o) => os_result_spec(lookup, o),
            None => lookup_not_made(),
        },
        None => os_unparseable(),
    }
}

/// The outcome for the target at `i`; none where the outcomes end before.
pub open spec fn outcome_at(outcomes: Seq<Option<OsOutcomeView>>, i: int) -> Option<OsOutcomeView> {
    if 0 <= i < outcomes.len() {
        outcomes[i]
    } else {
        None
    }
}

/// The results of the blocking pass: one for each target, in the order of
/// the targets, each fixed by its own target and its own outcome.
pub open spec fn blocking_report_spec(kinds: Seq<TargetKindView>, outcomes: Seq<Option<OsOutcomeView>>) -> Seq<
    BlockingResultView,
> {
    Seq::new(kinds.len(), |i: int| blocking_slot(kinds[i], outcome_at(outcomes, i)))
}

fn blocking_result(target: &Target, outcome: Option<OsOutcome>) -> (r: BlockingResult)
    ensures
        r@ == blocking_slot(target@.kind, os_outcome_view(outcome)),
{
    match os_lookup_for(target) {
        Some(lookup) => match outcome {
            Some(o) => classify_os_outcome(lookup, o),
            None => BlockingResult::Failure { stage: FailureStage::OsLookup, message: "lookup not made".to_owned() },
        },
        None => blocking_classification_failure(),
    }
}

/// The blocking pass as a function of its inputs: the targets, and for
/// each target the outcome of its lookup. A failed lookup is the result of
/// its own target and of no other.
pub fn blocking_report(targets: &Vec<Target>, outcomes: Vec<Option<OsOutcome>>) -> (r: Vec<BlockingResult>)
    ensures
        blocking_results_view(r@) == blocking_report_spec(
            targets@.map_values(|t: Target| t@.kind),
            os_outcomes_view(outcomes@),
        ),
{
    let ghost kinds = targets@.map_values(|t: Target| t@.kind);
    let ghost given = os_outcomes_view(outcomes@);
    let ghost n = outcomes@.len() as int;
    let mut stack = reversed(outcomes);
    let mut results: Vec<BlockingResult> = Vec::new();
    let mut i: usize = 0;
    while i < targets.len()
        invariant
            i <= targets.len(),
            n == outcomes@.len(),
            kinds == targets@.map_values(|t: Target| t@.kind),
            given == os_outcomes_view(outcomes@),
            results@.len() == i,
            stack@.len() == if i <= n { n - i } else { 0 },
            forall|j: int| 0 <= j < stack@.len() ==> (#[trigger] stack@[j]) == outcomes@[n - 1 - j],
            forall|j: int| 0 <= j < i ==> (#[trigger] results@[j])@ == blocking_slot(kinds[j], outcome_at(given, j)),
        decreases targets.len() - i,
    {
        let outcome = match stack.pop() {
            Some(o) => o,
            None => None,
        };
        assert(os_outcome_view(outcome) == outcome_at(given, i as int));
        let result = blocking_result(&targets[i], outcome);
        results.push(result);
        i += 1;
    }
    assert(blocking_results_view(results@) =~= blocking_report_spec(kinds, given));
    results
}

} // verus!
