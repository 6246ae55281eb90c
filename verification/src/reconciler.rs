//! The decisions of one reconciliation: which call to the cluster comes
//! next, and how the reconciliation ends.
//!
//! The caller makes each call and hands back how it went. A reconciliation
//! reads one snapshot of the document from its start to its end.

use vstd::prelude::*;
use vstd::string::*;
use crate::document::{Document, DocumentView, DOCUMENT_FINALIZER, ILLEGAL_NAME};
use crate::error::{ApiFailure, Error, FinalizerError};
use crate::text::{copy_strings, views};

verus! {

/// Seconds after which a document is looked at again when nothing changed,
/// and after which a failed reconciliation is tried again.
pub const REQUEUE_SECONDS: u64 = 300;

/// The identity under which the controller owns the fields it applies.
pub const FIELD_MANAGER: &'static str = "cntrlr";

/// The API version of the documents.
pub const API_VERSION: &'static str = "kube.rs/v1";

/// The kind of the documents.
pub const KIND: &'static str = "Document";

/// When the driver is to reconcile the document again.
#[derive(Clone, Copy, Debug, PartialEq, Eq)]
pub enum Action {
    /// After this many seconds, even if nothing changes.
    Requeue(u64),
    /// Only when the document changes.
    AwaitChange,
}

/// The severity of an event.
#[derive(Clone, Copy, Debug, PartialEq, Eq)]
pub enum EventType {
    Normal,
    Warning,
}

/// An event to publish about a document.
#[derive(Clone, Debug, PartialEq, Eq)]
pub struct Event {
    pub type_: EventType,
    pub reason: String,
    pub note: Option<String>,
    pub action: String,
}

/// The mathematical value of an `Event`.
pub struct EventView {
    pub type_: EventType,
    pub reason: Seq<char>,
    pub note: Option<Seq<char>>,
    pub action: Seq<char>,
}

impl View for Event {
    type V = EventView;

    open spec fn view(&self) -> EventView {
        EventView {
            type_: self.type_,
            reason: self.reason@,
            note: match self.note {
                Some(n) => Some(n@),
                None => None,
            },
            action: self.action@,
        }
    }
}

/// One operation of a patch on the list of finalizers. The cluster applies
/// the operations of a patch in order, and none of them if a test fails.
#[derive(Clone, Debug, PartialEq, Eq)]
pub enum PatchOp {
    /// Test that the document has no list of finalizers.
    TestAbsent,
    /// Test that the list of finalizers is this one.
    TestList(Vec<String>),
    /// Set the list of finalizers to this one.
    AddList(Vec<String>),
    /// Add this token at the end of the list.
    AddLast(String),
    /// Test that this position of the list holds this token.
    TestAt(usize, String),
    /// Remove what stands at this position of the list.
    RemoveAt(usize),
}

/// The mathematical value of a `PatchOp`.
pub enum PatchOpView {
    TestAbsent,
    TestList(Seq<Seq<char>>),
    AddList(Seq<Seq<char>>),
    AddLast(Seq<char>),
    TestAt(int, Seq<char>),
    RemoveAt(int),
}

impl View for PatchOp {
    type V = PatchOpView;

    open spec fn view(&self) -> PatchOpView {
        match *self {
            PatchOp::TestAbsent => PatchOpView::TestAbsent,
            PatchOp::TestList(l) => PatchOpView::TestList(views(l@)),
            PatchOp::AddList(l) => PatchOpView::AddList(views(l@)),
            PatchOp::AddLast(t) => PatchOpView::AddLast(t@),
            PatchOp::TestAt(i, t) => PatchOpView::TestAt(i as int, t@),
            PatchOp::RemoveAt(i) => PatchOpView::RemoveAt(i as int),
        }
    }
}

/// The views of the operations of `ops`, in order.
pub open spec fn op_views(ops: Seq<PatchOp>) -> Seq<PatchOpView> {
    ops.map_values(|o: PatchOp| o@)
}

/// A call to the cluster that the reconciliation asks for.
#[derive(Clone, Debug, PartialEq, Eq)]
pub enum Request {
    /// Publish an event about the named document.
    PublishEvent { namespace: String, name: String, event: Event },
    /// Apply `status.hidden` to the named document under the given field
    /// manager; with `force`, fields that another writer owns are taken over.
    PatchStatus {
        namespace: String,
        name: String,
        field_manager: String,
        force: bool,
        api_version: String,
        kind: String,
        hidden: bool,
    },
    /// Patch the finalizers of the named document.
    PatchFinalizers { namespace: String, name: String, ops: Vec<PatchOp> },
}

/// The mathematical value of a `Request`.
pub enum RequestView {
    PublishEvent { namespace: Seq<char>, name: Seq<char>, event: EventView },
    PatchStatus {
        namespace: Seq<char>,
        name: Seq<char>,
        field_manager: Seq<char>,
        force: bool,
        api_version: Seq<char>,
        kind: Seq<char>,
        hidden: bool,
    },
    PatchFinalizers { namespace: Seq<char>, name: Seq<char>, ops: Seq<PatchOpView> },
}

impl View for Request {
    type V = RequestView;

    open spec fn view(&self) -> RequestView {
        match *self {
            Request::PublishEvent { namespace, name, event } => RequestView::PublishEvent {
                namespace: namespace@,
                name: name@,
                event: event@,
            },
            Request::PatchStatus {
                namespace,
                name,
                field_manager,
                force,
                api_version,
                kind,
                hidden,
            } => RequestView::PatchStatus {
                namespace: namespace@,
                name: name@,
                field_manager: field_manager@,
                force,
                api_version: api_version@,
                kind: kind@,
                hidden,
            },
            Request::PatchFinalizers { namespace, name, ops } => RequestView::PatchFinalizers {
                namespace: namespace@,
                name: name@,
                ops: op_views(ops@),
            },
        }
    }
}

/// Where a document stands in the finalizer protocol.
#[derive(Clone, Copy, Debug, PartialEq, Eq)]
pub enum ProtocolState {
    /// Without the controller's finalizer, and not being deleted.
    NoFinalizer,
    /// With the controller's finalizer, and not being deleted.
    Active,
    /// With the controller's finalizer, and being deleted: the cleanup is
    /// still owed.
    PendingDeletion,
    /// Being deleted without the controller's finalizer: nothing is owed,
    /// and the cluster may let the document go.
    Removed,
}

/// Where `doc` stands in the finalizer protocol.
pub open spec fn protocol_state(doc: DocumentView) -> ProtocolState {
    if doc.is_finalized() {
        if doc.is_deleting() {
            ProtocolState::PendingDeletion
        } else {
            ProtocolState::Active
        }
    } else if doc.is_deleting() {
        ProtocolState::Removed
    } else {
        ProtocolState::NoFinalizer
    }
}

/// Tells where `doc` stands in the finalizer protocol.
pub fn state_of(doc: &Document) -> (r: ProtocolState)
    ensures
        r == protocol_state(doc@),
{
    let finalized = doc.finalizer_index().is_some();
    if finalized {
        if doc.is_deleting() {
            ProtocolState::PendingDeletion
        } else {
            ProtocolState::Active
        }
    } else if doc.is_deleting() {
        ProtocolState::Removed
    } else {
        ProtocolState::NoFinalizer
    }
}

/// The call that a reconciliation is waiting for.
#[derive(Clone, Copy, Debug, PartialEq, Eq)]
pub enum Phase {
    /// The patch that adds the controller's finalizer.
    AddingFinalizer,
    /// The event that says that hiding was asked for.
    PublishingHide,
    /// The patch of the status.
    PatchingStatus,
    /// The event that says that deletion was asked for; it keeps the
    /// position at which the controller's finalizer was seen.
    PublishingDelete(usize),
    /// The patch that removes the controller's finalizer.
    RemovingFinalizer,
}

/// What a reconciliation does next.
#[derive(Debug, PartialEq, Eq)]
pub enum Step {
    /// Make this call, and come back in this phase with how it went.
    Call(Phase, Request),
    /// The reconciliation has ended with this result.
    Done(Result<Action, Error>),
}

/// The mathematical value of a `Step`.
pub enum StepView {
    Call(Phase, RequestView),
    Done(Result<Action, Error>),
}

impl View for Step {
    type V = StepView;

    open spec fn view(&self) -> StepView {
        match *self {
            Step::Call(p, r) => StepView::Call(p, r@),
            Step::Done(r) => StepView::Done(r),
        }
    }
}

/// How a call to the cluster went.
pub type Reply = Result<(), ApiFailure>;

/// The failure `e` of the apply body, as the finalizer protocol reports it.
pub open spec fn apply_failed(e: Error) -> Error {
    Error::FinalizerError(Box::new(FinalizerError::ApplyFailed(e)))
}

/// The failure `e` of the cleanup body, as the finalizer protocol reports it.
pub open spec fn cleanup_failed(e: Error) -> Error {
    Error::FinalizerError(Box::new(FinalizerError::CleanupFailed(e)))
}

/// A failure `e` of the finalizer protocol itself.
pub open spec fn protocol_failed(e: FinalizerError) -> Error {
    Error::FinalizerError(Box::new(e))
}

/// The namespace of a document that has one.
pub open spec fn namespace_of(doc: DocumentView) -> Seq<char> {
    doc.namespace->0
}

/// The event that says that hiding the document was asked for.
pub open spec fn hide_event(doc: DocumentView) -> RequestView {
    RequestView::PublishEvent {
        namespace: namespace_of(doc),
        name: doc.name,
        event: EventView {
            type_: EventType::Normal,
            reason: "HideRequested"@,
            note: Some("Hiding `"@ + doc.name + "`"@),
            action: "Hiding"@,
        },
    }
}

/// The event that says that deleting the document was asked for.
pub open spec fn delete_event(doc: DocumentView) -> RequestView {
    RequestView::PublishEvent {
        namespace: namespace_of(doc),
        name: doc.name,
        event: EventView {
            type_: EventType::Normal,
            reason: "DeleteRequested"@,
            note: Some("Delete `"@ + doc.name + "`"@),
            action: "Deleting"@,
        },
    }
}

/// The patch that writes `spec.hide` to `status.hidden`, forced, under the
/// controller's field manager.
pub open spec fn status_patch(doc: DocumentView) -> RequestView {
    RequestView::PatchStatus {
        namespace: namespace_of(doc),
        name: doc.name,
        field_manager: FIELD_MANAGER@,
        force: true,
        api_version: API_VERSION@,
        kind: KIND@,
        hidden: doc.hide,
    }
}

/// The operations that add the controller's token on condition that the
/// finalizers are still as the snapshot shows them.
pub open spec fn add_finalizer_ops(doc: DocumentView) -> Seq<PatchOpView> {
    if doc.finalizers.len() == 0 {
        seq![PatchOpView::TestAbsent, PatchOpView::AddList(seq![DOCUMENT_FINALIZER@])]
    } else {
        seq![PatchOpView::TestList(doc.finalizers), PatchOpView::AddLast(DOCUMENT_FINALIZER@)]
    }
}

/// The patch that adds the controller's token.
pub open spec fn add_finalizer_patch(doc: DocumentView) -> RequestView {
    RequestView::PatchFinalizers {
        namespace: namespace_of(doc),
        name: doc.name,
        ops: add_finalizer_ops(doc),
    }
}

/// The patch that removes the controller's token from position `index` on
/// condition that it still stands there.
pub open spec fn remove_finalizer_patch(doc: DocumentView, index: int) -> RequestView {
    RequestView::PatchFinalizers {
        namespace: namespace_of(doc),
        name: doc.name,
        ops: seq![
            PatchOpView::TestAt(index, DOCUMENT_FINALIZER@),
            PatchOpView::RemoveAt(index),
        ],
    }
}

/// The apply body from the check of the name on: the reserved document is
/// rejected, any other gets its status patched.
pub open spec fn validate_then_patch(doc: DocumentView) -> StepView {
    if doc.name == ILLEGAL_NAME@ {
        StepView::Done(Err(apply_failed(Error::IllegalDocument)))
    } else {
        StepView::Call(Phase::PatchingStatus, status_patch(doc))
    }
}

/// The first step of a reconciliation of `doc`.
///
/// Without the controller's token: a document that is not being deleted
/// gets the token and nothing else; one that is being deleted is left
/// alone. With the token: a document that is being deleted is cleaned up,
/// any other has the apply body run, which first publishes the hide event
/// where hiding is asked for and the status does not yet report it.
pub open spec fn first_step(doc: DocumentView) -> StepView {
    match doc.finalizer_index() {
        Some(index) => {
            if doc.is_deleting() {
                StepView::Call(Phase::PublishingDelete(index as usize), delete_event(doc))
            } else if !doc.was_hidden() && doc.hide {
                StepView::Call(Phase::PublishingHide, hide_event(doc))
            } else {
                validate_then_patch(doc)
            }
        },
        None => {
            if doc.is_deleting() {
                StepView::Done(Ok(Action::AwaitChange))
            } else {
                StepView::Call(Phase::AddingFinalizer, add_finalizer_patch(doc))
            }
        },
    }
}

/// The step that follows the call awaited in `phase`, given how it went.
/// A failed call ends the reconciliation at once with the failure wrapped
/// by the part of the protocol that made the call.
pub open spec fn next_step(doc: DocumentView, phase: Phase, reply: Reply) -> StepView {
    match phase {
        Phase::AddingFinalizer => match reply {
            Ok(_) => StepView::Done(Ok(Action::AwaitChange)),
            Err(f) => StepView::Done(Err(protocol_failed(FinalizerError::AddFinalizer(f)))),
        },
        Phase::PublishingHide => match reply {
            Ok(_) => validate_then_patch(doc),
            Err(f) => StepView::Done(Err(apply_failed(Error::KubeError(f)))),
        },
        Phase::PatchingStatus => match reply {
            Ok(_) => StepView::Done(Ok(Action::Requeue(REQUEUE_SECONDS))),
            Err(f) => StepView::Done(Err(apply_failed(Error::KubeError(f)))),
        },
        Phase::PublishingDelete(index) => match reply {
            Ok(_) => StepView::Call(
                Phase::RemovingFinalizer,
                remove_finalizer_patch(doc, index as int),
            ),
            Err(f) => StepView::Done(Err(cleanup_failed(Error::KubeError(f)))),
        },
        Phase::RemovingFinalizer => match reply {
            Ok(_) => StepView::Done(Ok(Action::AwaitChange)),
            Err(f) => StepView::Done(Err(protocol_failed(FinalizerError::RemoveFinalizer(f)))),
        },
    }
}

/// `head`, then `name`, then a closing backquote.
fn quoted_note(head: &str, name: &str) -> (r: String)
    ensures
        r@ == head@ + name@ + "`"@,
{
    let mut s = String::from_str(head);
    s.append(name);
    s.append("`");
    s
}

fn namespace_string(doc: &Document) -> (r: String)
    requires
        doc@.namespace is Some,
    ensures
        r@ == namespace_of(doc@),
{
    match &doc.namespace {
        Some(ns) => ns.clone(),
        None => String::new(),
    }
}

fn make_hide_event(doc: &Document) -> (r: Request)
    requires
        doc@.namespace is Some,
    ensures
        r@ == hide_event(doc@),
{
    let name = doc.name_any();
    Request::PublishEvent {
        namespace: namespace_string(doc),
        event: Event {
            type_: EventType::Normal,
            reason: String::from_str("HideRequested"),
            note: Some(quoted_note("Hiding `", name.as_str())),
            action: String::from_str("Hiding"),
        },
        name,
    }
}

fn make_delete_event(doc: &Document) -> (r: Request)
    requires
        doc@.namespace is Some,
    ensures
        r@ == delete_event(doc@),
{
    let name = doc.name_any();
    Request::PublishEvent {
        namespace: namespace_string(doc),
        event: Event {
            type_: EventType::Normal,
            reason: String::from_str("DeleteRequested"),
            note: Some(quoted_note("Delete `", name.as_str())),
            action: String::from_str("Deleting"),
        },
        name,
    }
}

fn make_status_patch(doc: &Document) -> (r: Request)
    requires
        doc@.namespace is Some,
    ensures
        r@ == status_patch(doc@),
{
    Request::PatchStatus {
        namespace: namespace_string(doc),
        name: doc.name_any(),
        field_manager: String::from_str(FIELD_MANAGER),
        force: true,
        api_version: String::from_str(API_VERSION),
        kind: String::from_str(KIND),
        hidden: doc.spec.hide,
    }
}

fn make_add_finalizer_patch(doc: &Document) -> (r: Request)
    requires
        doc@.namespace is Some,
    ensures
        r@ == add_finalizer_patch(doc@),
{
    let mut ops: Vec<PatchOp> = Vec::new();
    if doc.finalizers.len() == 0 {
        let mut list: Vec<String> = Vec::new();
        list.push(String::from_str(DOCUMENT_FINALIZER));
        proof {
            assert(views(list@) =~= seq![DOCUMENT_FINALIZER@]);
        }
        ops.push(PatchOp::TestAbsent);
        ops.push(PatchOp::AddList(list));
    } else {
        ops.push(PatchOp::TestList(copy_strings(&doc.finalizers)));
        ops.push(PatchOp::AddLast(String::from_str(DOCUMENT_FINALIZER)));
    }
    proof {
        assert(op_views(ops@) =~= add_finalizer_ops(doc@));
    }
    Request::PatchFinalizers { namespace: namespace_string(doc), name: doc.name_any(), ops }
}

fn make_remove_finalizer_patch(doc: &Document, index: usize) -> (r: Request)
    requires
        doc@.namespace is Some,
    ensures
        r@ == remove_finalizer_patch(doc@, index as int),
{
    let mut ops: Vec<PatchOp> = Vec::new();
    ops.push(PatchOp::TestAt(index, String::from_str(DOCUMENT_FINALIZER)));
    ops.push(PatchOp::RemoveAt(index));
    proof {
        assert(op_views(ops@) =~= seq![
            PatchOpView::TestAt(index as int, DOCUMENT_FINALIZER@),
            PatchOpView::RemoveAt(index as int),
        ]);
    }
    Request::PatchFinalizers { namespace: namespace_string(doc), name: doc.name_any(), ops }
}

fn apply_after_event(doc: &Document) -> (step: Step)
    requires
        doc@.namespace is Some,
    ensures
        step@ == validate_then_patch(doc@),
{
    let name = doc.name_any();
    let reserved = String::from_str(ILLEGAL_NAME);
    if name == reserved {
        Step::Done(
            Err(Error::FinalizerError(Box::new(FinalizerError::ApplyFailed(Error::IllegalDocument)))),
        )
    } else {
        Step::Call(Phase::PatchingStatus, make_status_patch(doc))
    }
}

/// Starts a reconciliation of `doc`: decides by the controller's finalizer
/// and the deletion timestamp what is to be done first.
pub fn begin(doc: &Document) -> (step: Step)
    requires
        doc@.namespace is Some,
    ensures
        step@ == first_step(doc@),
{
    let deleting = doc.is_deleting();
    match doc.finalizer_index() {
        Some(index) => {
            if deleting {
                Step::Call(Phase::PublishingDelete(index), make_delete_event(doc))
            } else if !doc.was_hidden() && doc.spec.hide {
                Step::Call(Phase::PublishingHide, make_hide_event(doc))
            } else {
                apply_after_event(doc)
            }
        },
        None => {
            if deleting {
                Step::Done(Ok(Action::AwaitChange))
            } else {
                Step::Call(Phase::AddingFinalizer, make_add_finalizer_patch(doc))
            }
        },
    }
}

/// Goes on with a reconciliation of `doc` after the call awaited in `phase`
/// has returned with `reply`.
pub fn resume(doc: &Document, phase: Phase, reply: Reply) -> (step: Step)
    requires
        doc@.namespace is Some,
    ensures
        step@ == next_step(doc@, phase, reply),
{
    match phase {
        Phase::AddingFinalizer => match reply {
            Ok(_) => Step::Done(Ok(Action::AwaitChange)),
            Err(f) => Step::Done(
                Err(Error::FinalizerError(Box::new(FinalizerError::AddFinalizer(f)))),
            ),
        },
        Phase::PublishingHide => match reply {
            Ok(_) => apply_after_event(doc),
            Err(f) => Step::Done(
                Err(
                    Error::FinalizerError(
                        Box::new(FinalizerError::ApplyFailed(Error::KubeError(f))),
                    ),
                ),
            ),
        },
        Phase::PatchingStatus => match reply {
            Ok(_) => Step::Done(Ok(Action::Requeue(REQUEUE_SECONDS))),
            Err(f) => Step::Done(
                Err(
                    Error::FinalizerError(
                        Box::new(FinalizerError::ApplyFailed(Error::KubeError(f))),
                    ),
                ),
            ),
        },
        Phase::PublishingDelete(index) => match reply {
            Ok(_) => Step::Call(Phase::RemovingFinalizer, make_remove_finalizer_patch(doc, index)),
            Err(f) => Step::Done(
                Err(
                    Error::FinalizerError(
                        Box::new(FinalizerError::CleanupFailed(Error::KubeError(f))),
                    ),
                ),
            ),
        },
        Phase::RemovingFinalizer => match reply {
            Ok(_) => Step::Done(Ok(Action::AwaitChange)),
            Err(f) => Step::Done(
                Err(Error::FinalizerError(Box::new(FinalizerError::RemoveFinalizer(f)))),
            ),
        },
    }
}

} // verus!
