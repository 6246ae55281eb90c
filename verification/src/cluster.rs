//! What the cluster makes of a document when it takes one of the
//! controller's calls.

use vstd::prelude::*;
use vstd::string::*;
use crate::document::{Document, DocumentStatus, DocumentView};
use crate::reconciler::{op_views, PatchOp, PatchOpView, Request, RequestView};
use crate::text::{copy_strings, views};

verus! {

/// The list of finalizers after one operation of a patch, or `None` where
/// the operation fails. A document without finalizers has no list: the
/// test for absence passes on it, and nothing can be added at its end.
pub open spec fn op_applied(list: Seq<Seq<char>>, op: PatchOpView) -> Option<Seq<Seq<char>>> {
    match op {
        PatchOpView::TestAbsent => if list.len() == 0 {
            Some(list)
        } else {
            None
        },
        PatchOpView::TestList(l) => if list == l {
            Some(list)
        } else {
            None
        },
        PatchOpView::AddList(l) => Some(l),
        PatchOpView::AddLast(t) => if list.len() > 0 {
            Some(list.push(t))
        } else {
            None
        },
        PatchOpView::TestAt(i, t) => if 0 <= i < list.len() && list[i] == t {
            Some(list)
        } else {
            None
        },
        PatchOpView::RemoveAt(i) => if 0 <= i < list.len() {
            Some(list.remove(i))
        } else {
            None
        },
    }
}

/// The list of finalizers after the operations `ops` in order, or `None`
/// where one of them fails.
pub open spec fn patched(list: Seq<Seq<char>>, ops: Seq<PatchOpView>) -> Option<Seq<Seq<char>>>
    decreases ops.len(),
{
    if ops.len() == 0 {
        Some(list)
    } else {
        match op_applied(list, ops[0]) {
            Some(l) => patched(l, ops.drop_first()),
            None => None,
        }
    }
}

/// The document after the cluster has taken `req`, or `None` where the
/// cluster refuses it. An event leaves the document as it is; a status
/// patch replaces the status; a patch of the finalizers changes them if
/// all its operations pass, and is refused otherwise.
pub open spec fn accepted(doc: DocumentView, req: RequestView) -> Option<DocumentView> {
    match req {
        RequestView::PublishEvent { .. } => Some(doc),
        RequestView::PatchStatus { hidden, .. } => Some(
            DocumentView { status: Some(DocumentStatus { hidden }), ..doc },
        ),
        RequestView::PatchFinalizers { ops, .. } => match patched(doc.finalizers, ops) {
            Some(l) => Some(DocumentView { finalizers: l, ..doc }),
            None => None,
        },
    }
}

/// The document after the cluster has taken each of `reqs` in order, or
/// `None` where it refuses one.
pub open spec fn accepted_all(doc: DocumentView, reqs: Seq<RequestView>) -> Option<DocumentView>
    decreases reqs.len(),
{
    if reqs.len() == 0 {
        Some(doc)
    } else {
        match accepted(doc, reqs[0]) {
            Some(d) => accepted_all(d, reqs.drop_first()),
            None => None,
        }
    }
}

/// Tells whether two lists hold the same strings in the same order.
fn same_strings(a: &Vec<String>, b: &Vec<String>) -> (r: bool)
    ensures
        r == (views(a@) == views(b@)),
{
    if a.len() != b.len() {
        proof {
            assert(views(a@).len() != views(b@).len());
        }
        return false;
    }
    let mut i: usize = 0;
    while i < a.len()
        invariant
            i <= a.len(),
            a.len() == b.len(),
            forall|j: int| 0 <= j < i ==> views(a@)[j] == views(b@)[j],
        decreases a.len() - i,
    {
        if a[i] != b[i] {
            proof {
                assert(views(a@)[i as int] != views(b@)[i as int]);
            }
            return false;
        }
        i += 1;
    }
    proof {
        assert(views(a@) =~= views(b@));
    }
    true
}

/// Applies one operation to `list`; tells whether it passed. A failed
/// operation leaves the list as it was.
fn apply_op(list: &mut Vec<String>, op: &PatchOp) -> (ok: bool)
    ensures
        match op_applied(views(old(list)@), op@) {
            Some(l) => ok && views(final(list)@) == l,
            None => !ok && views(final(list)@) == views(old(list)@),
        },
{
    match op {
        PatchOp::TestAbsent => list.len() == 0,
        PatchOp::TestList(l) => same_strings(list, l),
        PatchOp::AddList(l) => {
            *list = copy_strings(l);
            true
        },
        PatchOp::AddLast(t) => {
            if list.len() > 0 {
                let ghost before = list@;
                list.push(t.clone());
                proof {
                    assert(views(list@) =~= views(before).push(t@));
                }
                true
            } else {
                false
            }
        },
        PatchOp::TestAt(i, t) => *i < list.len() && list[*i] == *t,
        PatchOp::RemoveAt(i) => {
            if *i < list.len() {
                let ghost before = list@;
                list.remove(*i);
                proof {
                    assert(views(list@) =~= views(before).remove(*i as int));
                }
                true
            } else {
                false
            }
        },
    }
}

/// Applies the operations of a patch in order to a copy of `list`; gives
/// the patched list, or `None` where an operation fails.
fn apply_ops(list: &Vec<String>, ops: &Vec<PatchOp>) -> (r: Option<Vec<String>>)
    ensures
        match patched(views(list@), op_views(ops@)) {
            Some(l) => r is Some && views(r->0@) == l,
            None => r is None,
        },
{
    let mut work = copy_strings(list);
    let mut i: usize = 0;
    proof {
        assert(op_views(ops@).skip(0) =~= op_views(ops@));
    }
    while i < ops.len()
        invariant
            i <= ops.len(),
            patched(views(list@), op_views(ops@)) == patched(
                views(work@),
                op_views(ops@).skip(i as int),
            ),
        decreases ops.len() - i,
    {
        let ghost rest = op_views(ops@).skip(i as int);
        let ghost before = views(work@);
        proof {
            assert(rest[0] == ops@[i as int]@);
            assert(rest.drop_first() =~= op_views(ops@).skip(i as int + 1));
        }
        if !apply_op(&mut work, &ops[i]) {
            proof {
                assert(patched(before, rest) is None);
            }
            return None;
        }
        i += 1;
    }
    proof {
        assert(op_views(ops@).skip(ops.len() as int).len() == 0);
    }
    Some(work)
}

impl Document {
    /// Takes `req` as the cluster would: tells whether the cluster accepts
    /// it, and changes the document accordingly. A refused request changes
    /// nothing.
    pub fn accept(&mut self, req: &Request) -> (ok: bool)
        ensures
            match accepted(old(self)@, req@) {
                Some(d) => ok && final(self)@ == d,
                None => !ok && final(self)@ == old(self)@,
            },
    {
        match req {
            Request::PublishEvent { .. } => true,
            Request::PatchStatus { hidden, .. } => {
                self.status = Some(DocumentStatus { hidden: *hidden });
                true
            },
            Request::PatchFinalizers { ops, .. } => {
                match apply_ops(&self.finalizers, ops) {
                    Some(list) => {
                        self.finalizers = list;
                        true
                    },
                    None => false,
                }
            },
        }
    }
}

} // verus!
