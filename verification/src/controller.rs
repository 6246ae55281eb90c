//! The entry points that the driver calls: the start and the end of a
//! reconciliation, and the policy for one that failed.

use vstd::prelude::*;
use crate::clock::now_micros;
use crate::diagnostics::{Diagnostics, REPORTER};
use crate::document::Document;
use crate::error::Error;
use crate::metrics::{bumped, elapsed, AppMetrics, Metrics, ReconcileMetrics, ReconcileTimer};
use crate::reconciler::{begin, first_step, Action, Step, REQUEUE_SECONDS};

verus! {

/// What the reconciler keeps between reconciliations.
#[derive(Debug, Clone, PartialEq, Eq)]
pub struct Context {
    /// Diagnostics read by the web server.
    pub diagnostics: Diagnostics,
    /// The metrics.
    pub metrics: Metrics,
}

impl Metrics {
    /// Metrics on which nothing has been counted yet.
    pub fn new() -> (m: Metrics)
        ensures
            m.app.reconcile.wf(),
            m.app.reconcile.is_fresh(),
            forall|instance: Seq<char>, error: Seq<char>|
                m.app.reconcile.failures_of(instance, error) == 0,
    {
        Metrics { app: AppMetrics { reconcile: ReconcileMetrics::new() } }
    }

    /// Counts one failure of the document `doc` with the failure `e`.
    pub fn reconcile_failure(&mut self, doc: &Document, e: &Error)
        ensures
            final(self).app.reconcile.runs == old(self).app.reconcile.runs,
            final(self).app.reconcile.duration == old(self).app.reconcile.duration,
            final(self).app.reconcile.failures_of(doc@.name, e.label()) == bumped(
                old(self).app.reconcile.failures_of(doc@.name, e.label()),
            ),
            forall|instance: Seq<char>, error: Seq<char>|
                !(instance == doc@.name && error == e.label())
                    ==> final(self).app.reconcile.failures_of(instance, error) == old(
                    self,
                ).app.reconcile.failures_of(instance, error),
    {
        self.app.reconcile.set_failure(doc, e);
    }
}

impl Default for Context {
    /// The context of a controller that starts now.
    fn default() -> (ctx: Context)
        ensures
            ctx.wf(),
            ctx.diagnostics.reporter@ == REPORTER@,
            ctx.metrics.app.reconcile.is_fresh(),
            forall|instance: Seq<char>, error: Seq<char>|
                ctx.metrics.app.reconcile.failures_of(instance, error) == 0,
    {
        Context::started_at(now_micros())
    }
}

impl Context {
    /// The metrics are well formed.
    pub open spec fn wf(&self) -> bool {
        self.metrics.app.reconcile.wf()
    }

    /// Tells whether the metrics are well formed.
    pub fn is_wf(&self) -> (r: bool)
        ensures
            r == self.wf(),
    {
        self.metrics.app.reconcile.is_wf()
    }

    /// The context of a controller that starts at `now_micros`.
    pub fn started_at(now_micros: i64) -> (ctx: Context)
        ensures
            ctx.wf(),
            ctx.diagnostics.last_event == now_micros,
            ctx.diagnostics.reporter@ == REPORTER@,
            ctx.metrics.app.reconcile.is_fresh(),
            forall|instance: Seq<char>, error: Seq<char>|
                ctx.metrics.app.reconcile.failures_of(instance, error) == 0,
    {
        Context { diagnostics: Diagnostics::started_at(now_micros), metrics: Metrics::new() }
    }

    /// A copy of the diagnostics as they are now.
    pub fn diagnostics(&self) -> (d: Diagnostics)
        ensures
            d.last_event == self.diagnostics.last_event,
            d.reporter@ == self.diagnostics.reporter@,
    {
        self.diagnostics.snapshot()
    }
}

/// Starts a reconciliation of `doc` at `now_micros`: counts it, starts to
/// measure it, notes the time in the diagnostics, and decides the first
/// step. All this is done before any call to the cluster is asked for.
pub fn reconcile_at(doc: &Document, ctx: &mut Context, now_micros: i64) -> (started: (
    ReconcileTimer,
    Step,
))
    requires
        doc@.namespace is Some,
    ensures
        started.1@ == first_step(doc@),
        started.0.started_micros == now_micros,
        final(ctx).diagnostics.last_event == now_micros,
        final(ctx).diagnostics.reporter == old(ctx).diagnostics.reporter,
        final(ctx).metrics.app.reconcile.runs == bumped(old(ctx).metrics.app.reconcile.runs),
        final(ctx).metrics.app.reconcile.failures == old(ctx).metrics.app.reconcile.failures,
        final(ctx).metrics.app.reconcile.duration == old(ctx).metrics.app.reconcile.duration,
{
    let timer = ctx.metrics.app.reconcile.count_and_measure(now_micros);
    ctx.diagnostics.touch_at(now_micros);
    (timer, begin(doc))
}

/// Starts a reconciliation of `doc` now. Whatever the clock says, the
/// reconciliation is counted once and its first step is decided by the
/// document alone.
pub fn reconcile(doc: &Document, ctx: &mut Context) -> (started: (ReconcileTimer, Step))
    requires
        doc@.namespace is Some,
    ensures
        started.1@ == first_step(doc@),
        final(ctx).diagnostics.last_event == started.0.started_micros,
        final(ctx).diagnostics.reporter == old(ctx).diagnostics.reporter,
        final(ctx).metrics.app.reconcile.runs == bumped(old(ctx).metrics.app.reconcile.runs),
        final(ctx).metrics.app.reconcile.failures == old(ctx).metrics.app.reconcile.failures,
        final(ctx).metrics.app.reconcile.duration == old(ctx).metrics.app.reconcile.duration,
{
    let now = now_micros();
    reconcile_at(doc, ctx, now)
}

/// Ends the measurement of a reconciliation at `now_micros`, however the
/// reconciliation ended: one duration is observed.
pub fn conclude_at(ctx: &mut Context, timer: ReconcileTimer, now_micros: i64)
    requires
        old(ctx).wf(),
    ensures
        final(ctx).wf(),
        final(ctx).diagnostics == old(ctx).diagnostics,
        final(ctx).metrics.app.reconcile.runs == old(ctx).metrics.app.reconcile.runs,
        final(ctx).metrics.app.reconcile.failures == old(ctx).metrics.app.reconcile.failures,
        old(ctx).metrics.app.reconcile.duration.observed(
            elapsed(timer.started_micros, now_micros),
            final(ctx).metrics.app.reconcile.duration,
        ),
{
    ctx.metrics.app.reconcile.observe(timer, now_micros);
}

/// Ends the measurement of a reconciliation now, however the
/// reconciliation ended. Whatever the clock says, one duration is observed.
pub fn conclude(ctx: &mut Context, timer: ReconcileTimer)
    requires
        old(ctx).wf(),
    ensures
        final(ctx).wf(),
        final(ctx).diagnostics == old(ctx).diagnostics,
        final(ctx).metrics.app.reconcile.runs == old(ctx).metrics.app.reconcile.runs,
        final(ctx).metrics.app.reconcile.failures == old(ctx).metrics.app.reconcile.failures,
        exists|now: i64|
            old(ctx).metrics.app.reconcile.duration.observed(
                elapsed(timer.started_micros, now),
                final(ctx).metrics.app.reconcile.duration,
            ),
        final(ctx).metrics.app.reconcile.duration.count == bumped(
            old(ctx).metrics.app.reconcile.duration.count,
        ),
{
    let now = now_micros();
    conclude_at(ctx, timer, now);
}

/// What follows a failed reconciliation of `doc`: the failure is counted
/// under the name of the document and the label of the failure, and the
/// document is tried again after the fixed delay, whatever the failure.
pub fn error_policy(doc: &Document, error: &Error, ctx: &mut Context) -> (action: Action)
    ensures
        action == Action::Requeue(REQUEUE_SECONDS),
        final(ctx).diagnostics == old(ctx).diagnostics,
        final(ctx).metrics.app.reconcile.runs == old(ctx).metrics.app.reconcile.runs,
        final(ctx).metrics.app.reconcile.duration == old(ctx).metrics.app.reconcile.duration,
        final(ctx).metrics.app.reconcile.failures_of(doc@.name, error.label()) == bumped(
            old(ctx).metrics.app.reconcile.failures_of(doc@.name, error.label()),
        ),
        forall|instance: Seq<char>, label: Seq<char>|
            !(instance == doc@.name && label == error.label())
                ==> final(ctx).metrics.app.reconcile.failures_of(instance, label) == old(
                ctx,
            ).metrics.app.reconcile.failures_of(instance, label),
{
    ctx.metrics.reconcile_failure(doc, error);
    Action::Requeue(REQUEUE_SECONDS)
}

} // verus!
