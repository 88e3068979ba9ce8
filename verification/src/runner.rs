//! The concurrent pass against one session. The queries for the targets
//! and the two diagnostic queries are issued together and complete in any
//! order; each completion is filed under the slot of what it answers, so
//! that the report lists the results in the order of the targets.

use crate::answer::{classify_diagnostics, diagnostics_spec, DiagnosticOutcome, DiagnosticOutcomeView, DiagnosticRecordSet, DiagnosticRecordSetView};
use crate::dispatch::{answer_spec, classification_failure, classify_answer, dispatch_spec, operation_for, select_operation, unparseable_failure, LookupOutcome, LookupOutcomeView, Operation, OperationView, QueryResult, QueryResultView};
use crate::order::reversed;
use crate::target::{Target, TargetKindView};
use vstd::prelude::*;

verus! {

/// One query of the pass has come back.
#[derive(Debug, PartialEq, Eq)]
pub enum Completion {
    /// The query for the target at `index`.
    Lookup { index: usize, outcome: LookupOutcome },
    /// The root SOA query.
    RootSoa { answer: DiagnosticOutcome },
    /// The service binding query.
    Svcb { answer: DiagnosticOutcome },
}

/// The mathematical value of a [`Completion`].
pub enum CompletionView {
    Lookup { index: int, outcome: LookupOutcomeView },
    RootSoa { answer: DiagnosticOutcomeView },
    Svcb { answer: DiagnosticOutcomeView },
}

impl View for Completion {
    type V = CompletionView;

    open spec fn view(&self) -> CompletionView {
        match *self {
            Completion::Lookup { index, outcome } => CompletionView::Lookup { index: index as int, outcome: outcome@ },
            Completion::RootSoa { answer } => CompletionView::RootSoa { answer: answer@ },
            Completion::Svcb { answer } => CompletionView::Svcb { answer: answer@ },
        }
    }
}

/// The state of a pass: the operation of each target, the result of each
/// target as far as it is known, and the outcomes of the two diagnostic
/// queries as far as they are known.
pub struct SessionRunView {
    pub operations: Seq<Option<OperationView>>,
    pub results: Seq<Option<QueryResultView>>,
    pub soa: Option<DiagnosticOutcomeView>,
    pub svcb: Option<DiagnosticOutcomeView>,
}

/// The report of a pass.
pub struct SessionReportView {
    pub results: Seq<QueryResultView>,
    pub diagnostics: DiagnosticRecordSetView,
}

/// The result a target has before any query came back: the classification
/// failure where nothing is asked for it, else none yet.
pub open spec fn initial_result(kind: TargetKindView) -> Option<QueryResultView> {
    match operation_for(kind) {
        Some(_) => None,
        None => Some(unparseable_failure()),
    }
}

/// The state at the start of a pass over targets of the given kinds.
pub open spec fn initial_run(kinds: Seq<TargetKindView>) -> SessionRunView {
    SessionRunView {
        operations: kinds.map_values(|k: TargetKindView| operation_for(k)),
        results: kinds.map_values(|k: TargetKindView| initial_result(k)),
        soa: None,
        svcb: None,
    }
}

impl SessionRunView {
    /// A target without an operation has its result from the start, and
    /// every target has a slot.
    pub open spec fn wf(self) -> bool {
        &&& self.operations.len() == self.results.len()
        &&& forall|i: int|
            0 <= i < self.operations.len() && (#[trigger] self.operations[i]) is None ==> self.results[i] is Some
    }

    /// The completion answers a query that is still open.
    pub open spec fn accepts(self, completion: CompletionView) -> bool {
        match completion {
            CompletionView::Lookup { index, .. } => {
                &&& 0 <= index < self.results.len()
                &&& index < self.operations.len()
                &&& self.results[index] is None
                &&& self.operations[index] is Some
            },
            CompletionView::RootSoa { .. } => self.soa is None,
            CompletionView::Svcb { .. } => self.svcb is None,
        }
    }

    /// The state after a completion: an accepted one is filed under its
    /// slot, any other changes nothing.
    pub open spec fn record(self, completion: CompletionView) -> SessionRunView {
        if !self.accepts(completion) {
            self
        } else {
            match completion {
                CompletionView::Lookup { index, outcome } => SessionRunView {
                    results: self.results.update(index, Some(answer_spec(self.operations[index]->0, outcome))),
                    ..self
                },
                CompletionView::RootSoa { answer } => SessionRunView { soa: Some(answer), ..self },
                CompletionView::Svcb { answer } => SessionRunView { svcb: Some(answer), ..self },
            }
        }
    }

    /// Every query has come back.
    pub open spec fn is_done(self) -> bool {
        &&& forall|i: int| 0 <= i < self.results.len() ==> (#[trigger] self.results[i]) is Some
        &&& self.soa is Some
        &&& self.svcb is Some
    }

    /// The report of a pass that is done: the results in the order of the
    /// targets, and the diagnostic facts.
    pub open spec fn report(self) -> SessionReportView {
        SessionReportView {
            results: self.results.map_values(|r: Option<QueryResultView>| r->0),
            diagnostics: diagnostics_spec(self.soa->0, self.svcb->0),
        }
    }
}

/// The state after the completions `done`, in the order they came in.
pub open spec fn run_spec(kinds: Seq<TargetKindView>, done: Seq<CompletionView>) -> SessionRunView
    decreases done.len(),
{
    if done.len() == 0 {
        initial_run(kinds)
    } else {
        run_spec(kinds, done.drop_last()).record(done.last())
    }
}

/// Two completions answer the same query.
pub open spec fn same_slot(a: CompletionView, b: CompletionView) -> bool {
    match (a, b) {
        (CompletionView::Lookup { index: i, .. }, CompletionView::Lookup { index: j, .. }) => i == j,
        (CompletionView::RootSoa { .. }, CompletionView::RootSoa { .. }) => true,
        (CompletionView::Svcb { .. }, CompletionView::Svcb { .. }) => true,
        _ => false,
    }
}

/// No two of the completions answer the same query.
pub open spec fn one_per_slot(done: Seq<CompletionView>) -> bool {
    forall|i: int, j: int| 0 <= i < j < done.len() ==> !same_slot(#[trigger] done[i], #[trigger] done[j])
}

/// Completions of different queries can come in either order: the state
/// after both is the same.
pub proof fn lemma_record_commutes(state: SessionRunView, a: CompletionView, b: CompletionView)
    requires
        !same_slot(a, b),
    ensures
        state.record(a).record(b) == state.record(b).record(a),
{
    let ab = state.record(a).record(b);
    let ba = state.record(b).record(a);
    assert(ab.results =~= ba.results);
}

proof fn lemma_run_shape(kinds: Seq<TargetKindView>, done: Seq<CompletionView>)
    ensures
        run_spec(kinds, done).operations == initial_run(kinds).operations,
        run_spec(kinds, done).results.len() == kinds.len(),
        run_spec(kinds, done).wf(),
    decreases done.len(),
{
    if done.len() > 0 {
        lemma_run_shape(kinds, done.drop_last());
    }
}

proof fn lemma_slot_untouched(kinds: Seq<TargetKindView>, done: Seq<CompletionView>, index: int)
    requires
        0 <= index < kinds.len(),
        forall|i: int| 0 <= i < done.len() ==> !((#[trigger] done[i]) matches CompletionView::Lookup { index: j, .. } && j == index),
    ensures
        run_spec(kinds, done).results[index] == initial_result(kinds[index]),
    decreases done.len(),
{
    lemma_run_shape(kinds, done);
    if done.len() > 0 {
        let front = done.drop_last();
        assert forall|i: int| 0 <= i < front.len() implies !((#[trigger] front[i]) matches CompletionView::Lookup { index: j, .. } && j == index) by {
            assert(front[i] == done[i]);
        }
        lemma_slot_untouched(kinds, front, index);
        lemma_run_shape(kinds, front);
        assert(!(done[done.len() - 1] matches CompletionView::Lookup { index: j, .. } && j == index));
    }
}

/// In whatever order the queries come back, as long as each comes back
/// once, the slot of a target holds the result for that target: what the
/// outcome of its own query amounts to.
pub proof fn lemma_results_in_target_order(kinds: Seq<TargetKindView>, done: Seq<CompletionView>, k: int)
    requires
        one_per_slot(done),
        0 <= k < done.len(),
        done[k] is Lookup,
        0 <= done[k]->Lookup_index < kinds.len(),
    ensures
        run_spec(kinds, done).results.len() == kinds.len(),
        run_spec(kinds, done).results[done[k]->Lookup_index] == Some(
            dispatch_spec(kinds[done[k]->Lookup_index], done[k]->Lookup_outcome),
        ),
    decreases done.len(),
{
    let index = done[k]->Lookup_index;
    let front = done.drop_last();
    let last = done.len() - 1;
    lemma_run_shape(kinds, done);
    lemma_run_shape(kinds, front);
    assert forall|i: int, j: int| 0 <= i < j < front.len() implies !same_slot(#[trigger] front[i], #[trigger] front[j]) by {
        assert(front[i] == done[i] && front[j] == done[j]);
    }
    if k == last {
        assert forall|i: int| 0 <= i < front.len() implies !((#[trigger] front[i]) matches CompletionView::Lookup { index: j, .. } && j == index) by {
            assert(front[i] == done[i]);
            assert(!same_slot(done[i], done[k]));
        }
        lemma_slot_untouched(kinds, front, index);
    } else {
        assert(front[k] == done[k]);
        lemma_results_in_target_order(kinds, front, k);
        assert(!same_slot(done[k], done[last]));
    }
}

/// The values of a sequence of targets' kinds.
pub open spec fn kinds_of(targets: Seq<Target>) -> Seq<TargetKindView> {
    targets.map_values(|t: Target| t@.kind)
}

/// The value of an optional operation.
pub open spec fn operation_view(op: Option<Operation>) -> Option<OperationView> {
    match op {
        Some(o) => Some(o@),
        None => None,
    }
}

/// The value of an optional result.
pub open spec fn result_view(result: Option<QueryResult>) -> Option<QueryResultView> {
    match result {
        Some(r) => Some(r@),
        None => None,
    }
}

/// The value of an optional diagnostic outcome.
pub open spec fn outcome_view(outcome: Option<DiagnosticOutcome>) -> Option<DiagnosticOutcomeView> {
    match outcome {
        Some(o) => Some(o@),
        None => None,
    }
}

/// The results of a pass against one session, in the order of the
/// targets, and the diagnostic facts about its nameserver.
#[derive(Debug, PartialEq, Eq)]
pub struct SessionReport {
    pub results: Vec<QueryResult>,
    pub diagnostics: DiagnosticRecordSet,
}

impl View for SessionReport {
    type V = SessionReportView;

    open spec fn view(&self) -> SessionReportView {
        SessionReportView {
            results: self.results@.map_values(|r: QueryResult| r@),
            diagnostics: self.diagnostics@,
        }
    }
}

/// A pass against one session while its queries are under way.
#[derive(Debug)]
pub struct SessionRun {
    operations: Vec<Option<Operation>>,
    slots: Vec<Option<QueryResult>>,
    soa: Option<DiagnosticOutcome>,
    svcb: Option<DiagnosticOutcome>,
}

impl View for SessionRun {
    type V = SessionRunView;

    closed spec fn view(&self) -> SessionRunView {
        SessionRunView {
            operations: self.operations@.map_values(|o: Option<Operation>| operation_view(o)),
            results: self.slots@.map_values(|r: Option<QueryResult>| result_view(r)),
            soa: outcome_view(self.soa),
            svcb: outcome_view(self.svcb),
        }
    }
}

fn take_results(slots: Vec<Option<QueryResult>>) -> (r: Vec<QueryResult>)
    requires
        forall|i: int| 0 <= i < slots@.len() ==> (#[trigger] slots@[i]) is Some,
    ensures
        r@.len() == slots@.len(),
        forall|i: int| 0 <= i < r@.len() ==> Some(#[trigger] r@[i]) == slots@[i],
{
    let ghost all = slots@;
    let mut stack = reversed(slots);
    let mut out: Vec<QueryResult> = Vec::new();
    while stack.len() > 0
        invariant
            stack@.len() + out@.len() == all.len(),
            forall|i: int| 0 <= i < stack@.len() ==> (#[trigger] stack@[i]) == all[all.len() - 1 - i],
            forall|i: int| 0 <= i < all.len() ==> (#[trigger] all[i]) is Some,
            forall|i: int| 0 <= i < out@.len() ==> Some(#[trigger] out@[i]) == all[i],
        decreases stack.len(),
    {
        let ghost k = out@.len() as int;
        let slot = stack.pop();
        match slot {
            Some(Some(result)) => {
                assert(Some(result) == all[k]);
                out.push(result);
            },
            _ => {
                assert(all[k] is Some);
                assert(false);
            },
        }
    }
    out
}

impl SessionRun {
    /// Starts a pass over the targets: every target gets its slot, and a
    /// target that nothing is asked for has its result at once.
    pub fn start(targets: &Vec<Target>) -> (run: SessionRun)
        ensures
            run@ == initial_run(kinds_of(targets@)),
            run@.wf(),
    {
        let ghost kinds = kinds_of(targets@);
        let mut operations: Vec<Option<Operation>> = Vec::new();
        let mut slots: Vec<Option<QueryResult>> = Vec::new();
        let mut i: usize = 0;
        while i < targets.len()
            invariant
                i <= targets.len(),
                kinds == kinds_of(targets@),
                operations@.len() == i,
                slots@.len() == i,
                forall|j: int| 0 <= j < i ==> operation_view(#[trigger] operations@[j]) == operation_for(kinds[j]),
                forall|j: int| 0 <= j < i ==> result_view(#[trigger] slots@[j]) == initial_result(kinds[j]),
            decreases targets.len() - i,
        {
            let op = select_operation(&targets[i]);
            assert(kinds[i as int] == targets@[i as int]@.kind);
            let slot = match op {
                Some(_) => None,
                None => Some(classification_failure()),
            };
            operations.push(op);
            slots.push(slot);
            i += 1;
        }
        let run = SessionRun { operations, slots, soa: None, svcb: None };
        assert(run@.operations =~= initial_run(kinds).operations);
        assert(run@.results =~= initial_run(kinds).results);
        run
    }

    /// The number of targets.
    pub fn target_count(&self) -> (n: usize)
        ensures
            n == self@.results.len(),
    {
        self.slots.len()
    }

    /// The operation to issue for the target at `index`; none where
    /// nothing is asked for it.
    pub fn operation_at(&self, index: usize) -> (r: Option<&Operation>)
        ensures
            match r {
                Some(op) => index < self@.operations.len() && self@.operations[index as int] == Some(op@),
                None => index >= self@.operations.len() || self@.operations[index as int] is None,
            },
    {
        if index >= self.operations.len() {
            return None;
        }
        match &self.operations[index] {
            Some(op) => Some(op),
            None => None,
        }
    }

    /// Files a completion under its slot. A completion for a query that is
    /// not open (no such target, nothing asked, or already answered) is
    /// refused and changes nothing.
    pub fn record(&mut self, completion: Completion) -> (accepted: bool)
        ensures
            accepted == old(self)@.accepts(completion@),
            final(self)@ == old(self)@.record(completion@),
            old(self)@.wf() ==> final(self)@.wf(),
    {
        match completion {
            Completion::Lookup { index, outcome } => {
                if index >= self.slots.len() || index >= self.operations.len() {
                    return false;
                }
                if self.slots[index].is_some() {
                    return false;
                }
                let result = match &self.operations[index] {
                    Some(op) => classify_answer(op, outcome),
                    None => {
                        return false;
                    },
                };
                self.slots.set(index, Some(result));
                assert(self@.results =~= old(self)@.results.update(index as int, Some(result@)));
                true
            },
            Completion::RootSoa { answer } => {
                if self.soa.is_some() {
                    return false;
                }
                self.soa = Some(answer);
                true
            },
            Completion::Svcb { answer } => {
                if self.svcb.is_some() {
                    return false;
                }
                self.svcb = Some(answer);
                true
            },
        }
    }

    /// Whether every query has come back.
    pub fn is_complete(&self) -> (r: bool)
        ensures
            r == self@.is_done(),
    {
        if self.soa.is_none() || self.svcb.is_none() {
            return false;
        }
        let mut i: usize = 0;
        while i < self.slots.len()
            invariant
                i <= self.slots.len(),
                forall|j: int| 0 <= j < i ==> (#[trigger] self@.results[j]) is Some,
            decreases self.slots.len() - i,
        {
            if self.slots[i].is_none() {
                assert(self@.results[i as int] is None);
                return false;
            }
            i += 1;
        }
        true
    }

    /// The report of the pass once every query has come back; until then
    /// there is none.
    pub fn finish(self) -> (r: Option<SessionReport>)
        ensures
            match r {
                Some(report) => self@.is_done() && report@ == self@.report(),
                None => !self@.is_done(),
            },
    {
        if !self.is_complete() {
            return None;
        }
        let ghost state = self@;
        let SessionRun { operations: _, slots, soa, svcb } = self;
        match (soa, svcb) {
            (Some(soa), Some(svcb)) => {
                assert forall|i: int| 0 <= i < slots@.len() implies (#[trigger] slots@[i]) is Some by {
                    assert(state.results[i] is Some);
                }
                let ghost filled = slots@;
                let results = take_results(slots);
                let diagnostics = classify_diagnostics(soa, svcb);
                let report = SessionReport { results, diagnostics };
                assert(report@.results =~= state.report().results) by {
                    assert forall|i: int| 0 <= i < results@.len() implies results@[i]@ == state.results[i]->0 by {
                        assert(Some(results@[i]) == filled[i]);
                    }
                }
                Some(report)
            },
            _ => None,
        }
    }
}


/// The values of a sequence of completions.
pub open spec fn completions_view(done: Seq<Completion>) -> Seq<CompletionView> {
    done.map_values(|c: Completion| c@)
}

/// The concurrent pass against one session as a function of its inputs:
/// the targets, and the completions in the order they came in. The report
/// is there once every query has come back, and lists the results in the
/// order of the targets.
pub fn concurrent_report(targets: &Vec<Target>, completions: Vec<Completion>) -> (r: Option<SessionReport>)
    ensures
        match r {
            Some(report) => {
                &&& run_spec(kinds_of(targets@), completions_view(completions@)).is_done()
                &&& report@ == run_spec(kinds_of(targets@), completions_view(completions@)).report()
            },
            None => !run_spec(kinds_of(targets@), completions_view(completions@)).is_done(),
        },
{
    let ghost kinds = kinds_of(targets@);
    let ghost all = completions_view(completions@);
    let ghost n = completions@.len() as int;
    let mut run = SessionRun::start(targets);
    let mut stack = reversed(completions);
    assert(all.take(0) =~= Seq::<CompletionView>::empty());
    while stack.len() > 0
        invariant
            n == completions@.len(),
            all == completions_view(completions@),
            stack@.len() <= n,
            forall|i: int| 0 <= i < stack@.len() ==> (#[trigger] stack@[i]) == completions@[n - 1 - i],
            run@ == run_spec(kinds, all.take(n - stack@.len())),
        decreases stack.len(),
    {
        let ghost k = n - stack@.len();
        let next = stack.pop();
        match next {
            Some(completion) => {
                assert(completion == completions@[k]);
                assert(all.take(k + 1).drop_last() =~= all.take(k));
                assert(all.take(k + 1).last() == completion@);
                run.record(completion);
            },
            None => {
                assert(false);
            },
        }
    }
    assert(all.take(n) =~= all);
    run.finish()
}

} // verus!
