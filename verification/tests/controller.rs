use doc_controller::controller::{conclude, error_policy, reconcile, Context};
use doc_controller::document::{Document, DocumentStatus, DOCUMENT_FINALIZER};
use doc_controller::error::{ApiFailure, Error};
use doc_controller::reconciler::{
    resume, Action, Event, EventType, PatchOp, Request, Step,
};

/// One reconciliation of `doc` against `cluster`, which answers each call as
/// the cluster would; gives the calls that were made and the result.
fn drive(
    doc: &Document,
    cluster: &mut Document,
    ctx: &mut Context,
) -> (Vec<Request>, Result<Action, Error>) {
    let (timer, mut step) = reconcile(doc, ctx);
    let mut calls = Vec::new();
    let result = loop {
        match step {
            Step::Done(r) => break r,
            Step::Call(phase, req) => {
                let reply = if cluster.accept(&req) {
                    Ok(())
                } else {
                    Err(ApiFailure { message: "the cluster refused the call".to_string() })
                };
                calls.push(req);
                step = resume(doc, phase, reply);
            }
        }
    };
    conclude(ctx, timer);
    (calls, result)
}

fn status_patch(name: &str, hidden: bool) -> Request {
    Request::PatchStatus {
        namespace: "default".to_string(),
        name: name.to_string(),
        field_manager: "cntrlr".to_string(),
        force: true,
        api_version: "kube.rs/v1".to_string(),
        kind: "Document".to_string(),
        hidden,
    }
}

fn event(name: &str, reason: &str, note: &str, action: &str) -> Request {
    Request::PublishEvent {
        namespace: "default".to_string(),
        name: name.to_string(),
        event: Event {
            type_: EventType::Normal,
            reason: reason.to_string(),
            note: Some(note.to_string()),
            action: action.to_string(),
        },
    }
}

#[test]
fn documents_without_finalizer_gets_a_finalizer() {
    let mut ctx = Context::started_at(0);
    let doc = Document::test();
    let mut cluster = doc.clone();
    let (calls, res) = drive(&doc, &mut cluster, &mut ctx);
    assert_eq!(res.expect("reconciler"), Action::AwaitChange);
    assert_eq!(
        calls,
        vec![Request::PatchFinalizers {
            namespace: "default".to_string(),
            name: "test".to_string(),
            ops: vec![
                PatchOp::TestAbsent,
                PatchOp::AddList(vec![DOCUMENT_FINALIZER.to_string()]),
            ],
        }]
    );
    assert_eq!(cluster, doc.finalized());
}

#[test]
fn finalized_doc_causes_status_patch() {
    let mut ctx = Context::started_at(0);
    let doc = Document::test().finalized();
    let mut cluster = doc.clone();
    let (calls, res) = drive(&doc, &mut cluster, &mut ctx);
    assert_eq!(res.expect("reconciler"), Action::Requeue(300));
    assert_eq!(calls, vec![status_patch("test", false)]);
    assert_eq!(cluster.status.map(|s| s.hidden), Some(doc.spec.hide));
    assert_eq!(cluster, doc.with_status(DocumentStatus { hidden: false }));
}

#[test]
fn finalized_doc_with_hide_causes_event_and_hide_patch() {
    let mut ctx = Context::started_at(0);
    let doc = Document::test().finalized().needs_hide();
    let mut cluster = doc.clone();
    let (calls, res) = drive(&doc, &mut cluster, &mut ctx);
    assert_eq!(res.expect("reconciler"), Action::Requeue(300));
    assert_eq!(
        calls,
        vec![
            event("test", "HideRequested", "Hiding `test`", "Hiding"),
            status_patch("test", true),
        ]
    );
    assert_eq!(cluster.status, Some(DocumentStatus { hidden: true }));
}

#[test]
fn finalized_doc_with_delete_timestamp_causes_delete() {
    let mut ctx = Context::started_at(0);
    let doc = Document::test().finalized().needs_delete();
    let mut cluster = doc.clone();
    let (calls, res) = drive(&doc, &mut cluster, &mut ctx);
    assert_eq!(res.expect("reconciler"), Action::AwaitChange);
    assert_eq!(
        calls,
        vec![
            event("test", "DeleteRequested", "Delete `test`", "Deleting"),
            Request::PatchFinalizers {
                namespace: "default".to_string(),
                name: "test".to_string(),
                ops: vec![
                    PatchOp::TestAt(0, DOCUMENT_FINALIZER.to_string()),
                    PatchOp::RemoveAt(0),
                ],
            },
        ]
    );
    assert!(cluster.finalizers.is_empty());
    assert_eq!(cluster.status, None);
    assert_eq!(cluster, Document::test().needs_delete());
}

#[test]
fn illegal_doc_reconcile_errors_which_bumps_failure_metric() {
    let mut ctx = Context::started_at(0);
    let doc = Document::illegal().finalized();
    let mut cluster = doc.clone();
    let (calls, res) = drive(&doc, &mut cluster, &mut ctx);
    assert!(calls.is_empty());
    assert_eq!(cluster, doc);
    assert!(res.is_err(), "apply reconciler fails on illegal doc");
    let err = res.unwrap_err();
    assert!(err.message().contains("IllegalDocument"));
    assert!(err.is_rooted_in_illegal_document());
    // calling error policy with the reconciler error should cause the correct metric to be set
    let action = error_policy(&doc, &err, &mut ctx);
    assert_eq!(action, Action::Requeue(300));
    let failures = ctx
        .metrics
        .app
        .reconcile
        .get_failures("illegal", "finalizererror(applyfailed(illegaldocument))");
    assert_eq!(failures, 1);
}

#[test]
fn integration_reconcile_should_set_status_and_send_event() {
    let mut ctx = Context::started_at(0);
    // create a test doc
    let doc = Document::test().finalized().needs_hide();
    let mut cluster = doc.clone();

    // reconcile it (as if it was just applied to the cluster like this)
    let (calls, res) = drive(&doc, &mut cluster, &mut ctx);
    res.unwrap();

    // verify side-effects happened
    assert!(cluster.status.is_some());
    // verify hide event was found
    let event = calls
        .iter()
        .filter_map(|c| match c {
            Request::PublishEvent { name, event, .. } if name == "test" => Some(event),
            _ => None,
        })
        .filter(|e| e.reason == "HideRequested")
        .last()
        .unwrap();
    assert_eq!(event.action, "Hiding");
}

#[test]
fn reconciling_twice_repeats_only_the_status_patch() {
    let mut ctx = Context::started_at(0);
    let doc = Document::test().finalized().needs_hide();
    let mut cluster = doc.clone();
    let (first_calls, first) = drive(&doc, &mut cluster, &mut ctx);
    assert_eq!(first_calls.len(), 2);
    let seen = cluster.clone();
    let (second_calls, second) = drive(&seen, &mut cluster, &mut ctx);
    assert_eq!(second_calls, vec![status_patch("test", true)]);
    assert_eq!(second, first);
    assert_eq!(cluster, seen);
    let (third_calls, third) = drive(&seen, &mut cluster, &mut ctx);
    assert_eq!(third_calls, second_calls);
    assert_eq!(third, second);
    assert_eq!(ctx.metrics.app.reconcile.runs, 3);
    assert_eq!(ctx.metrics.app.reconcile.duration.count, 3);
    assert!(ctx.metrics.app.reconcile.failures.is_empty());
}

#[test]
fn status_follows_spec_for_both_values_of_hide() {
    for hide in [false, true] {
        for status in [None, Some(false), Some(true)] {
            let mut ctx = Context::started_at(0);
            let mut doc = Document::test().finalized();
            doc.spec.hide = hide;
            doc.status = status.map(|hidden| DocumentStatus { hidden });
            let mut cluster = doc.clone();
            let (calls, res) = drive(&doc, &mut cluster, &mut ctx);
            assert_eq!(res, Ok(Action::Requeue(300)));
            assert_eq!(cluster.status, Some(DocumentStatus { hidden: hide }));
            assert!(cluster.was_hidden() == hide);
            let events = calls.iter().filter(|c| matches!(c, Request::PublishEvent { .. })).count();
            let expected = if hide && status != Some(true) { 1 } else { 0 };
            assert_eq!(events, expected);
            assert_eq!(calls.last(), Some(&status_patch("test", hide)));
        }
    }
}

#[test]
fn illegal_doc_that_asks_to_hide_announces_it_and_is_rejected() {
    let mut ctx = Context::started_at(0);
    let doc = Document::illegal().finalized().needs_hide();
    let mut cluster = doc.clone();
    let (calls, res) = drive(&doc, &mut cluster, &mut ctx);
    assert_eq!(calls, vec![event("illegal", "HideRequested", "Hiding `illegal`", "Hiding")]);
    assert!(res.unwrap_err().is_rooted_in_illegal_document());
    assert_eq!(cluster.status, None);
}

#[test]
fn finalizer_is_added_behind_those_of_others() {
    let mut ctx = Context::started_at(0);
    let mut doc = Document::test();
    doc.finalizers.push("other.example/cleanup".to_string());
    let mut cluster = doc.clone();
    let (calls, res) = drive(&doc, &mut cluster, &mut ctx);
    assert_eq!(res, Ok(Action::AwaitChange));
    assert_eq!(
        calls,
        vec![Request::PatchFinalizers {
            namespace: "default".to_string(),
            name: "test".to_string(),
            ops: vec![
                PatchOp::TestList(vec!["other.example/cleanup".to_string()]),
                PatchOp::AddLast(DOCUMENT_FINALIZER.to_string()),
            ],
        }]
    );
    assert_eq!(
        cluster.finalizers,
        vec!["other.example/cleanup".to_string(), DOCUMENT_FINALIZER.to_string()]
    );
}

#[test]
fn finalizer_is_removed_from_where_it_stands() {
    let mut ctx = Context::started_at(0);
    let mut doc = Document::test().needs_delete();
    doc.finalizers.push("other.example/cleanup".to_string());
    let doc = doc.finalized();
    assert_eq!(doc.finalizer_index(), Some(1));
    let mut cluster = doc.clone();
    let (calls, res) = drive(&doc, &mut cluster, &mut ctx);
    assert_eq!(res, Ok(Action::AwaitChange));
    assert_eq!(
        calls[1],
        Request::PatchFinalizers {
            namespace: "default".to_string(),
            name: "test".to_string(),
            ops: vec![PatchOp::TestAt(1, DOCUMENT_FINALIZER.to_string()), PatchOp::RemoveAt(1)],
        }
    );
    assert_eq!(cluster.finalizers, vec!["other.example/cleanup".to_string()]);
}

#[test]
fn deleted_doc_without_finalizer_is_left_alone() {
    let mut ctx = Context::started_at(0);
    let doc = Document::test().needs_delete();
    let mut cluster = doc.clone();
    let (calls, res) = drive(&doc, &mut cluster, &mut ctx);
    assert!(calls.is_empty());
    assert_eq!(res, Ok(Action::AwaitChange));
    assert_eq!(cluster, doc);
}

#[test]
fn finalizer_patch_is_refused_when_the_cluster_has_moved_on() {
    let mut ctx = Context::started_at(0);
    let doc = Document::test();
    // another writer added a finalizer after the snapshot was taken
    let mut cluster = doc.clone();
    cluster.finalizers.push("other.example/cleanup".to_string());
    let before = cluster.clone();
    let (calls, res) = drive(&doc, &mut cluster, &mut ctx);
    assert_eq!(calls.len(), 1);
    assert_eq!(cluster, before);
    let err = res.unwrap_err();
    assert_eq!(err.metric_label(), "finalizererror(addfinalizer)");
    assert_eq!(
        err.message(),
        "Finalizer Error: failed to add finalizer: the cluster refused the call"
    );
    assert_eq!(error_policy(&doc, &err, &mut ctx), Action::Requeue(300));
    assert_eq!(ctx.metrics.app.reconcile.get_failures("test", "finalizererror(addfinalizer)"), 1);
}

#[test]
fn reconcile_counts_and_touches_before_any_call() {
    let mut ctx = Context::started_at(0);
    let doc = Document::test().finalized();
    let (timer, step) = reconcile(&doc, &mut ctx);
    assert_eq!(ctx.metrics.app.reconcile.runs, 1);
    assert_eq!(ctx.metrics.app.reconcile.duration.count, 0);
    assert_eq!(ctx.diagnostics.last_event, timer.started_micros);
    // the clock of a machine that runs this stands after the year 2001
    assert!(ctx.diagnostics.last_event > 1_000_000_000_000_000);
    assert!(matches!(step, Step::Call(_, Request::PatchStatus { .. })));
    conclude(&mut ctx, timer);
    assert_eq!(ctx.metrics.app.reconcile.duration.count, 1);
    assert_eq!(ctx.diagnostics().reporter, "doc-controller");
}
