//! What holds of every reconciliation, stated over whole runs: the calls
//! that are made, the result, and what the cluster holds afterwards.

use vstd::prelude::*;
use crate::cluster::{accepted, accepted_all, patched};
use crate::document::{
    at_most_once, lemma_token_index, DocumentStatus, DocumentView, DOCUMENT_FINALIZER,
    ILLEGAL_NAME,
};
use crate::error::Error;
use crate::reconciler::{
    add_finalizer_ops, add_finalizer_patch, apply_failed, delete_event, first_step, hide_event,
    next_step, protocol_state, remove_finalizer_patch, status_patch, Action, PatchOpView, Phase,
    ProtocolState, Reply, RequestView, StepView, REQUEUE_SECONDS,
};

verus! {

/// One reconciliation from its first step to its end.
pub struct Run {
    /// The calls that were made, in order.
    pub requests: Seq<RequestView>,
    /// How the reconciliation ended.
    pub outcome: Result<Action, Error>,
}

/// The result that a step holds, for a step that ends the reconciliation.
pub open spec fn ended(step: StepView) -> Result<Action, Error> {
    match step {
        StepView::Done(r) => r,
        StepView::Call(_, _) => arbitrary(),
    }
}

/// The reconciliation of `doc` where the first call, if one is made, is
/// answered by `first` and the second by `second`. No reconciliation makes
/// a third call.
pub open spec fn run(doc: DocumentView, first: Reply, second: Reply) -> Run {
    match first_step(doc) {
        StepView::Done(r) => Run { requests: Seq::empty(), outcome: r },
        StepView::Call(first_phase, first_call) => match next_step(doc, first_phase, first) {
            StepView::Done(r) => Run { requests: seq![first_call], outcome: r },
            StepView::Call(second_phase, second_call) => Run {
                requests: seq![first_call, second_call],
                outcome: ended(next_step(doc, second_phase, second)),
            },
        },
    }
}

/// Every reconciliation ends after two calls at most.
pub proof fn lemma_run_ends(doc: DocumentView, first: Reply, second: Reply)
    ensures
        run(doc, first, second).requests.len() <= 2,
        first_step(doc) matches StepView::Call(first_phase, _) ==> (next_step(
            doc,
            first_phase,
            first,
        ) matches StepView::Call(second_phase, _) ==> next_step(doc, second_phase, second)
            is Done),
{
}

/// The cluster refuses none of the calls of a reconciliation while it
/// still holds the document as the reconciliation saw it.
pub proof fn lemma_calls_are_accepted(doc: DocumentView, first: Reply, second: Reply)
    requires
        doc.fits(),
    ensures
        accepted_all(doc, run(doc, first, second).requests) is Some,
{
    lemma_token_index(doc.finalizers, DOCUMENT_FINALIZER@);
    let r = run(doc, first, second);
    reveal_with_fuel(accepted_all, 3);
    reveal_with_fuel(patched, 3);
    if r.requests.len() >= 1 {
        let first_call = r.requests[0];
        if first_call is PatchFinalizers {
            lemma_add_patch_accepted(doc);
        }
    }
    if r.requests.len() == 2 {
        let i = doc.finalizer_index()->0;
        if doc.is_deleting() {
            lemma_remove_patch_accepted(doc, i);
        }
    }
}

proof fn lemma_add_patch_accepted(doc: DocumentView)
    ensures
        patched(doc.finalizers, add_finalizer_ops(doc)) == Some(
            doc.finalizers.push(DOCUMENT_FINALIZER@),
        ),
        accepted(doc, add_finalizer_patch(doc)) == Some(
            DocumentView { finalizers: doc.finalizers.push(DOCUMENT_FINALIZER@), ..doc },
        ),
{
    reveal_with_fuel(patched, 3);
    let ops = add_finalizer_ops(doc);
    assert(ops.drop_first().drop_first().len() == 0);
    assert(ops.drop_first()[0] == ops[1]);
    if doc.finalizers.len() == 0 {
        assert(seq![DOCUMENT_FINALIZER@] =~= doc.finalizers.push(DOCUMENT_FINALIZER@));
    }
}

proof fn lemma_remove_patch_accepted(doc: DocumentView, i: int)
    requires
        0 <= i < doc.finalizers.len(),
        doc.finalizers[i] == DOCUMENT_FINALIZER@,
    ensures
        accepted(doc, remove_finalizer_patch(doc, i)) == Some(
            DocumentView { finalizers: doc.finalizers.remove(i), ..doc },
        ),
{
    reveal_with_fuel(patched, 3);
    let ops = seq![PatchOpView::TestAt(i, DOCUMENT_FINALIZER@), PatchOpView::RemoveAt(i)];
    assert(ops.drop_first().drop_first().len() == 0);
    assert(ops.drop_first()[0] == ops[1]);
}

/// A document without the controller's finalizer that is not being deleted
/// gets the finalizer and nothing else: the one call of the reconciliation
/// is the patch that adds the token on condition that the finalizers are
/// unchanged. No event is published and the status is not patched. The
/// cluster then holds the token once, at the end of the list, and the
/// controller waits for the next change.
pub proof fn lemma_missing_finalizer_is_attached(doc: DocumentView, first: Reply, second: Reply)
    requires
        !doc.is_finalized(),
        !doc.is_deleting(),
    ensures
        run(doc, first, second).requests == seq![add_finalizer_patch(doc)],
        first is Ok ==> run(doc, first, second).outcome == Ok::<Action, Error>(
            Action::AwaitChange,
        ),
        first is Err ==> run(doc, first, second).outcome is Err,
        accepted_all(doc, run(doc, first, second).requests) == Some(
            DocumentView { finalizers: doc.finalizers.push(DOCUMENT_FINALIZER@), ..doc },
        ),
        at_most_once(doc.finalizers.push(DOCUMENT_FINALIZER@), DOCUMENT_FINALIZER@),
        doc.finalizers.push(DOCUMENT_FINALIZER@).contains(DOCUMENT_FINALIZER@),
{
    lemma_token_index(doc.finalizers, DOCUMENT_FINALIZER@);
    lemma_add_patch_accepted(doc);
    reveal_with_fuel(accepted_all, 3);
    let after = doc.finalizers.push(DOCUMENT_FINALIZER@);
    assert(after[doc.finalizers.len() as int] == DOCUMENT_FINALIZER@);
    assert forall|i: int, j: int|
        0 <= i < after.len() && 0 <= j < after.len() && after[i] == DOCUMENT_FINALIZER@
            && after[j] == DOCUMENT_FINALIZER@ implies i == j by {
        if i < doc.finalizers.len() {
            assert(doc.finalizers[i] == DOCUMENT_FINALIZER@);
            assert(doc.finalizers.contains(DOCUMENT_FINALIZER@));
        }
        if j < doc.finalizers.len() {
            assert(doc.finalizers[j] == DOCUMENT_FINALIZER@);
            assert(doc.finalizers.contains(DOCUMENT_FINALIZER@));
        }
    }
}

/// A document with the finalizer that is not being deleted, asks to be
/// hidden and is not yet reported hidden has the hide event published
/// once, and after it the status patched; the cluster then reports it
/// hidden. This holds of every such document but the reserved one.
pub proof fn lemma_hide_is_announced_then_patched(doc: DocumentView, first: Reply, second: Reply)
    requires
        doc.is_finalized(),
        !doc.is_deleting(),
        doc.hide,
        !doc.was_hidden(),
        doc.name != ILLEGAL_NAME@,
        first is Ok,
        second is Ok,
    ensures
        run(doc, first, second).requests == seq![hide_event(doc), status_patch(doc)],
        run(doc, first, second).outcome == Ok::<Action, Error>(Action::Requeue(REQUEUE_SECONDS)),
        accepted_all(doc, run(doc, first, second).requests) == Some(
            DocumentView { status: Some(DocumentStatus { hidden: true }), ..doc },
        ),
{
    lemma_token_index(doc.finalizers, DOCUMENT_FINALIZER@);
    reveal_with_fuel(accepted_all, 3);
    let reqs = seq![hide_event(doc), status_patch(doc)];
    assert(reqs.drop_first()[0] == reqs[1]);
    assert(reqs.drop_first().drop_first().len() == 0);
}

/// A document with the finalizer that is not being deleted and whose
/// status already reports what it asks for has no event published, and its
/// status patched once all the same. This holds of every such document but
/// the reserved one, whatever the cluster answers.
pub proof fn lemma_converged_status_is_patched_again(
    doc: DocumentView,
    first: Reply,
    second: Reply,
)
    requires
        doc.is_finalized(),
        !doc.is_deleting(),
        doc.was_hidden() == doc.hide,
        doc.name != ILLEGAL_NAME@,
    ensures
        run(doc, first, second).requests == seq![status_patch(doc)],
        first is Ok ==> run(doc, first, second).outcome == Ok::<Action, Error>(
            Action::Requeue(REQUEUE_SECONDS),
        ),
        first is Err ==> run(doc, first, second).outcome is Err,
        accepted_all(doc, run(doc, first, second).requests) == Some(
            DocumentView { status: Some(DocumentStatus { hidden: doc.hide }), ..doc },
        ),
{
    lemma_token_index(doc.finalizers, DOCUMENT_FINALIZER@);
    reveal_with_fuel(accepted_all, 3);
}

/// The reserved document, once it has the finalizer, is rejected before
/// its status is patched: unless the hide event was due and could not be
/// published, the reconciliation fails with the rejection as the innermost
/// cause, and no call of it is a status patch.
pub proof fn lemma_reserved_document_is_rejected(doc: DocumentView, first: Reply, second: Reply)
    requires
        doc.is_finalized(),
        !doc.is_deleting(),
        doc.name == ILLEGAL_NAME@,
        doc.hide && !doc.was_hidden() ==> first is Ok,
    ensures
        run(doc, first, second).outcome == Err::<Action, Error>(
            apply_failed(Error::IllegalDocument),
        ),
        apply_failed(Error::IllegalDocument).rooted_in_illegal_document(),
        forall|i: int|
            0 <= i < run(doc, first, second).requests.len() ==> !(run(
                doc,
                first,
                second,
            ).requests[i] is PatchStatus),
        accepted_all(doc, run(doc, first, second).requests) == Some(doc),
{
    lemma_token_index(doc.finalizers, DOCUMENT_FINALIZER@);
    reveal_with_fuel(accepted_all, 3);
    reveal_with_fuel(Error::rooted_in_illegal_document, 3);
}

/// A document with the finalizer that is being deleted has the delete
/// event published once and then the finalizer removed from the position
/// where it stands, on condition that it still stands there. The status is
/// not touched, the controller's token is gone where it stood once, and
/// the controller waits for the next change.
pub proof fn lemma_deletion_is_announced_then_released(
    doc: DocumentView,
    first: Reply,
    second: Reply,
)
    requires
        doc.fits(),
        doc.is_finalized(),
        doc.is_deleting(),
        first is Ok,
        second is Ok,
    ensures
        doc.finalizer_index() matches Some(i) && 0 <= i < doc.finalizers.len() && {
            &&& run(doc, first, second).requests == seq![
                delete_event(doc),
                remove_finalizer_patch(doc, i),
            ]
            &&& run(doc, first, second).outcome == Ok::<Action, Error>(Action::AwaitChange)
            &&& accepted_all(doc, run(doc, first, second).requests) == Some(
                DocumentView { finalizers: doc.finalizers.remove(i), ..doc },
            )
            &&& doc.wf() ==> !doc.finalizers.remove(i).contains(DOCUMENT_FINALIZER@)
        },
{
    lemma_token_index(doc.finalizers, DOCUMENT_FINALIZER@);
    let i = doc.finalizer_index()->0;
    lemma_remove_patch_accepted(doc, i);
    reveal_with_fuel(accepted_all, 3);
    let reqs = seq![delete_event(doc), remove_finalizer_patch(doc, i)];
    assert(reqs.drop_first()[0] == reqs[1]);
    assert(reqs.drop_first().drop_first().len() == 0);
    if doc.wf() {
        let after = doc.finalizers.remove(i);
        if after.contains(DOCUMENT_FINALIZER@) {
            let k = choose|k: int| 0 <= k < after.len() && after[k] == DOCUMENT_FINALIZER@;
            if k < i {
                assert(doc.finalizers[k] == DOCUMENT_FINALIZER@);
            } else {
                assert(doc.finalizers[k + 1] == DOCUMENT_FINALIZER@);
            }
            assert(false);
        }
    }
}

/// A document without the finalizer that is being deleted is left alone.
pub proof fn lemma_released_document_is_left_alone(doc: DocumentView, first: Reply, second: Reply)
    requires
        !doc.is_finalized(),
        doc.is_deleting(),
    ensures
        run(doc, first, second).requests.len() == 0,
        run(doc, first, second).outcome == Ok::<Action, Error>(Action::AwaitChange),
{
    lemma_token_index(doc.finalizers, DOCUMENT_FINALIZER@);
}

/// Whatever a document asks for is what its status reports after a
/// successful reconciliation of the apply branch, for both values of
/// `hide`.
pub proof fn lemma_status_follows_spec(doc: DocumentView, first: Reply, second: Reply)
    requires
        doc.is_finalized(),
        !doc.is_deleting(),
        run(doc, first, second).outcome is Ok,
    ensures
        accepted_all(doc, run(doc, first, second).requests) == Some(
            DocumentView { status: Some(DocumentStatus { hidden: doc.hide }), ..doc },
        ),
        accepted_all(doc, run(doc, first, second).requests)->0.was_hidden() == doc.hide,
{
    lemma_token_index(doc.finalizers, DOCUMENT_FINALIZER@);
    reveal_with_fuel(accepted_all, 3);
    if doc.hide && !doc.was_hidden() {
        let reqs = seq![hide_event(doc), status_patch(doc)];
        assert(reqs.drop_first()[0] == reqs[1]);
        assert(reqs.drop_first().drop_first().len() == 0);
    }
}

/// Reconciling again at once changes nothing: after a successful
/// reconciliation of the apply branch, a second one on what the cluster
/// then holds publishes no event, repeats the status patch, leaves the
/// cluster as it is and ends as the first did.
pub proof fn lemma_second_reconciliation_repeats_the_patch(
    doc: DocumentView,
    first: Reply,
    second: Reply,
    third: Reply,
    fourth: Reply,
)
    requires
        doc.is_finalized(),
        !doc.is_deleting(),
        run(doc, first, second).outcome is Ok,
        third is Ok,
    ensures
        accepted_all(doc, run(doc, first, second).requests) matches Some(held) && {
            &&& run(held, third, fourth).requests == seq![status_patch(doc)]
            &&& run(held, third, fourth).outcome == run(doc, first, second).outcome
            &&& accepted_all(held, run(held, third, fourth).requests) == Some(held)
        },
{
    lemma_status_follows_spec(doc, first, second);
    let held = accepted_all(doc, run(doc, first, second).requests)->0;
    lemma_token_index(doc.finalizers, DOCUMENT_FINALIZER@);
    lemma_token_index(held.finalizers, DOCUMENT_FINALIZER@);
    reveal_with_fuel(accepted_all, 3);
    assert(held.was_hidden() == held.hide);
    assert(status_patch(held) == status_patch(doc));
}

/// A successful reconciliation moves a document through the protocol as
/// follows: one without finalizer becomes active; an active one stays
/// active; one that awaits deletion with the token in its place once is
/// removed; a removed one stays so. What a reconciliation does first is
/// decided by where the document stands.
pub proof fn lemma_protocol_transitions(doc: DocumentView, first: Reply, second: Reply)
    requires
        doc.fits(),
        doc.wf(),
        run(doc, first, second).outcome is Ok,
    ensures
        accepted_all(doc, run(doc, first, second).requests) matches Some(held) && protocol_state(
            held,
        ) == (match protocol_state(doc) {
            ProtocolState::NoFinalizer => ProtocolState::Active,
            ProtocolState::Active => ProtocolState::Active,
            ProtocolState::PendingDeletion => ProtocolState::Removed,
            ProtocolState::Removed => ProtocolState::Removed,
        }),
        match protocol_state(doc) {
            ProtocolState::NoFinalizer => first_step(doc) matches StepView::Call(
                Phase::AddingFinalizer,
                _,
            ),
            ProtocolState::Active => first_step(doc) matches StepView::Call(p, _) && (p
                == Phase::PublishingHide || p == Phase::PatchingStatus),
            ProtocolState::PendingDeletion => first_step(doc) matches StepView::Call(
                Phase::PublishingDelete(_),
                _,
            ),
            ProtocolState::Removed => first_step(doc) is Done,
        },
{
    lemma_token_index(doc.finalizers, DOCUMENT_FINALIZER@);
    match protocol_state(doc) {
        ProtocolState::NoFinalizer => {
            lemma_missing_finalizer_is_attached(doc, first, second);
        },
        ProtocolState::Active => {
            lemma_status_follows_spec(doc, first, second);
        },
        ProtocolState::PendingDeletion => {
            lemma_deletion_is_announced_then_released(doc, first, second);
        },
        ProtocolState::Removed => {
            lemma_released_document_is_left_alone(doc, first, second);
            reveal_with_fuel(accepted_all, 2);
        },
    }
}

/// A reconciliation keeps the controller's token from standing twice among
/// the finalizers.
pub proof fn lemma_token_stays_single(doc: DocumentView, first: Reply, second: Reply)
    requires
        doc.fits(),
        doc.wf(),
    ensures
        accepted_all(doc, run(doc, first, second).requests) matches Some(held) && held.wf(),
{
    lemma_calls_are_accepted(doc, first, second);
    lemma_token_index(doc.finalizers, DOCUMENT_FINALIZER@);
    reveal_with_fuel(accepted_all, 3);
    let r = run(doc, first, second);
    if !doc.is_finalized() && !doc.is_deleting() {
        lemma_missing_finalizer_is_attached(doc, first, second);
    } else if doc.is_finalized() && doc.is_deleting() {
        let i = doc.finalizer_index()->0;
        if r.requests.len() == 2 {
            lemma_remove_patch_accepted(doc, i);
            let reqs = seq![delete_event(doc), remove_finalizer_patch(doc, i)];
            assert(reqs.drop_first()[0] == reqs[1]);
            assert(reqs.drop_first().drop_first().len() == 0);
            let after = doc.finalizers.remove(i);
            assert forall|a: int, b: int|
                0 <= a < after.len() && 0 <= b < after.len() && after[a] == DOCUMENT_FINALIZER@
                    && after[b] == DOCUMENT_FINALIZER@ implies a == b by {
                let a2 = if a < i { a } else { a + 1 };
                let b2 = if b < i { b } else { b + 1 };
                assert(doc.finalizers[a2] == DOCUMENT_FINALIZER@);
                assert(doc.finalizers[b2] == DOCUMENT_FINALIZER@);
            }
        }
    } else if doc.is_finalized() {
        if r.requests.len() == 2 {
            let reqs = r.requests;
            assert(reqs.drop_first()[0] == reqs[1]);
            assert(reqs.drop_first().drop_first().len() == 0);
        }
    }
}

} // verus!
