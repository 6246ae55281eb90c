use doc_controller::document::{Document, DocumentStatus, DOCUMENT_FINALIZER};
use doc_controller::error::{ApiFailure, Error, FinalizerError};
use doc_controller::reconciler::{
    begin, resume, state_of, Action, PatchOp, Phase, ProtocolState, Request, Step,
};

fn failure() -> ApiFailure {
    ApiFailure { message: "409 Conflict".to_string() }
}

#[test]
fn failed_finalizer_patch_is_reported_as_such() {
    let doc = Document::test();
    let step = resume(&doc, Phase::AddingFinalizer, Err(failure()));
    assert_eq!(
        step,
        Step::Done(Err(Error::FinalizerError(Box::new(FinalizerError::AddFinalizer(failure())))))
    );
}

#[test]
fn failed_hide_event_fails_the_apply_body() {
    let doc = Document::test().finalized().needs_hide();
    assert!(matches!(begin(&doc), Step::Call(Phase::PublishingHide, _)));
    let step = resume(&doc, Phase::PublishingHide, Err(failure()));
    let expected = Error::FinalizerError(Box::new(FinalizerError::ApplyFailed(Error::KubeError(
        failure(),
    ))));
    assert_eq!(expected.metric_label(), "finalizererror(applyfailed(kubeerror))");
    assert_eq!(
        expected.message(),
        "Finalizer Error: failed to apply object: Kube Error: 409 Conflict"
    );
    assert_eq!(step, Step::Done(Err(expected)));
}

#[test]
fn failed_status_patch_fails_the_apply_body() {
    let doc = Document::test().finalized();
    let step = resume(&doc, Phase::PatchingStatus, Err(failure()));
    assert_eq!(
        step,
        Step::Done(Err(Error::FinalizerError(Box::new(FinalizerError::ApplyFailed(
            Error::KubeError(failure())
        )))))
    );
}

#[test]
fn failed_delete_event_fails_the_cleanup_and_keeps_the_finalizer() {
    let doc = Document::test().finalized().needs_delete();
    assert!(matches!(begin(&doc), Step::Call(Phase::PublishingDelete(0), _)));
    let step = resume(&doc, Phase::PublishingDelete(0), Err(failure()));
    let expected = Error::FinalizerError(Box::new(FinalizerError::CleanupFailed(
        Error::KubeError(failure()),
    )));
    assert_eq!(expected.metric_label(), "finalizererror(cleanupfailed(kubeerror))");
    assert_eq!(
        expected.message(),
        "Finalizer Error: failed to clean up object: Kube Error: 409 Conflict"
    );
    assert_eq!(step, Step::Done(Err(expected)));
}

#[test]
fn failed_finalizer_removal_is_reported_as_such() {
    let doc = Document::test().finalized().needs_delete();
    let step = resume(&doc, Phase::RemovingFinalizer, Err(failure()));
    let expected = Error::FinalizerError(Box::new(FinalizerError::RemoveFinalizer(failure())));
    assert_eq!(expected.metric_label(), "finalizererror(removefinalizer)");
    assert_eq!(
        expected.message(),
        "Finalizer Error: failed to remove finalizer: 409 Conflict"
    );
    assert_eq!(step, Step::Done(Err(expected)));
}

#[test]
fn successful_calls_end_as_the_protocol_says() {
    let doc = Document::test().finalized();
    assert_eq!(resume(&doc, Phase::AddingFinalizer, Ok(())), Step::Done(Ok(Action::AwaitChange)));
    assert_eq!(resume(&doc, Phase::PatchingStatus, Ok(())), Step::Done(Ok(Action::Requeue(300))));
    assert_eq!(
        resume(&doc, Phase::RemovingFinalizer, Ok(())),
        Step::Done(Ok(Action::AwaitChange))
    );
}

#[test]
fn cluster_refuses_a_patch_whose_test_fails_and_keeps_the_document() {
    let mut cluster = Document::test().finalized();
    let before = cluster.clone();
    let stale = Request::PatchFinalizers {
        namespace: "default".to_string(),
        name: "test".to_string(),
        ops: vec![PatchOp::TestAbsent, PatchOp::AddList(vec![DOCUMENT_FINALIZER.to_string()])],
    };
    assert!(!cluster.accept(&stale));
    assert_eq!(cluster, before);
    let wrong_place = Request::PatchFinalizers {
        namespace: "default".to_string(),
        name: "test".to_string(),
        ops: vec![PatchOp::TestAt(1, DOCUMENT_FINALIZER.to_string()), PatchOp::RemoveAt(1)],
    };
    assert!(!cluster.accept(&wrong_place));
    assert_eq!(cluster, before);
    let half = Request::PatchFinalizers {
        namespace: "default".to_string(),
        name: "test".to_string(),
        ops: vec![PatchOp::RemoveAt(0), PatchOp::TestAt(0, DOCUMENT_FINALIZER.to_string())],
    };
    assert!(!cluster.accept(&half));
    assert_eq!(cluster, before);
    let nothing_to_append_to = Request::PatchFinalizers {
        namespace: "default".to_string(),
        name: "test".to_string(),
        ops: vec![PatchOp::RemoveAt(0), PatchOp::AddLast("x".to_string())],
    };
    assert!(!cluster.accept(&nothing_to_append_to));
    assert_eq!(cluster, before);
}

#[test]
fn was_hidden_reads_the_status() {
    assert!(!Document::test().was_hidden());
    assert!(!Document::test().with_status(DocumentStatus { hidden: false }).was_hidden());
    assert!(Document::test().with_status(DocumentStatus { hidden: true }).was_hidden());
}

#[test]
fn finalizer_index_is_the_first_position_of_the_token() {
    let mut doc = Document::test();
    assert_eq!(doc.finalizer_index(), None);
    doc.finalizers.push("a".to_string());
    doc.finalizers.push(DOCUMENT_FINALIZER.to_string());
    doc.finalizers.push(DOCUMENT_FINALIZER.to_string());
    assert_eq!(doc.finalizer_index(), Some(1));
    assert!(!doc.is_deleting());
    assert!(doc.needs_delete().is_deleting());
}

#[test]
fn documents_stand_in_one_of_four_states() {
    assert_eq!(state_of(&Document::test()), ProtocolState::NoFinalizer);
    assert_eq!(state_of(&Document::test().finalized()), ProtocolState::Active);
    assert_eq!(
        state_of(&Document::test().finalized().needs_delete()),
        ProtocolState::PendingDeletion
    );
    assert_eq!(state_of(&Document::test().needs_delete()), ProtocolState::Removed);
}

#[test]
fn builders_make_the_documents_they_say() {
    let d = Document::test();
    assert_eq!(d.name, "test");
    assert_eq!(d.name_any(), "test");
    assert_eq!(d.namespace.as_deref(), Some("default"));
    assert!(d.finalizers.is_empty());
    assert_eq!(d.deletion_timestamp, None);
    assert!(!d.spec.hide);
    assert_eq!(d.status, None);
    assert_eq!(Document::illegal().name, "illegal");
    assert!(Document::test().needs_hide().spec.hide);
    assert_eq!(Document::test().needs_delete().deletion_timestamp, Some(1491137432));
    assert_eq!(Document::test().finalized().finalizers, vec![DOCUMENT_FINALIZER.to_string()]);
    assert_eq!(DOCUMENT_FINALIZER, "documents.kube.rs");
    let bare = Document::new(
        "x",
        doc_controller::document::DocumentSpec {
            title: "t".into(),
            hide: true,
            content: "c".into(),
        },
    );
    assert_eq!(bare.namespace, None);
    assert_eq!(bare.spec.title, "t");
}
