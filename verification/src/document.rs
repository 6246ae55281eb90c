//! The `Document` resource: what a user asks for, what the controller has
//! observed, and the metadata that the finalizer protocol reads.

use vstd::prelude::*;
use vstd::string::*;
use crate::text::views;

verus! {

/// The token by which the controller holds back the deletion of a document.
pub const DOCUMENT_FINALIZER: &'static str = "documents.kube.rs";

/// The name of the document that the controller always rejects.
pub const ILLEGAL_NAME: &'static str = "illegal";

/// What the user asks of a document.
#[derive(Clone, Debug, Default, PartialEq, Eq)]
pub struct DocumentSpec {
    pub title: String,
    pub hide: bool,
    pub content: String,
}

/// What the controller has observed of a document.
#[derive(Clone, Copy, Debug, Default, PartialEq, Eq)]
pub struct DocumentStatus {
    pub hidden: bool,
}

/// One snapshot of a document as the cluster holds it.
#[derive(Clone, Debug, PartialEq, Eq)]
pub struct Document {
    /// The name, which together with the namespace identifies the document.
    pub name: String,
    /// The namespace; documents are namespaced, so a served one has it.
    pub namespace: Option<String>,
    /// The finalizer tokens, in the order the cluster keeps them.
    pub finalizers: Vec<String>,
    /// When deletion was asked for, in seconds since the epoch; its
    /// presence is what says that the document is being deleted.
    pub deletion_timestamp: Option<i64>,
    pub spec: DocumentSpec,
    pub status: Option<DocumentStatus>,
}

/// The mathematical value of a `Document`.
pub struct DocumentView {
    pub name: Seq<char>,
    pub namespace: Option<Seq<char>>,
    pub finalizers: Seq<Seq<char>>,
    pub deletion_timestamp: Option<i64>,
    pub title: Seq<char>,
    pub hide: bool,
    pub content: Seq<char>,
    pub status: Option<DocumentStatus>,
}

/// The view of an optional string.
pub open spec fn opt_view(o: Option<String>) -> Option<Seq<char>> {
    match o {
        Some(s) => Some(s@),
        None => None,
    }
}

/// Position of the first `token` in `list`, if it is there.
pub open spec fn token_index(list: Seq<Seq<char>>, token: Seq<char>) -> Option<int> {
    if exists|i: int| 0 <= i < list.len() && list[i] == token {
        Some(choose|i: int| 0 <= i < list.len() && list[i] == token && forall|j: int| 0 <= j < i ==> list[j] != token)
    } else {
        None
    }
}

/// `token` stands at one position of `list` at most.
pub open spec fn at_most_once(list: Seq<Seq<char>>, token: Seq<char>) -> bool {
    forall|i: int, j: int|
        0 <= i < list.len() && 0 <= j < list.len() && list[i] == token && list[j] == token ==> i
            == j
}

impl DocumentView {
    /// Whether the status reports the document as hidden.
    pub open spec fn was_hidden(self) -> bool {
        self.status is Some && self.status->0.hidden
    }

    /// Whether deletion has been asked for.
    pub open spec fn is_deleting(self) -> bool {
        self.deletion_timestamp is Some
    }

    /// Where the controller's token stands among the finalizers.
    pub open spec fn finalizer_index(self) -> Option<int> {
        token_index(self.finalizers, DOCUMENT_FINALIZER@)
    }

    /// Whether the controller's token is among the finalizers.
    pub open spec fn is_finalized(self) -> bool {
        self.finalizers.contains(DOCUMENT_FINALIZER@)
    }

    /// The finalizers are no more than a machine can hold in one list, as
    /// is the case of the view of every `Document`.
    pub open spec fn fits(self) -> bool {
        self.finalizers.len() <= usize::MAX
    }

    /// The controller's token occurs at most once among the finalizers.
    pub open spec fn wf(self) -> bool {
        at_most_once(self.finalizers, DOCUMENT_FINALIZER@)
    }
}

impl View for Document {
    type V = DocumentView;

    open spec fn view(&self) -> DocumentView {
        DocumentView {
            name: self.name@,
            namespace: opt_view(self.namespace),
            finalizers: views(self.finalizers@),
            deletion_timestamp: self.deletion_timestamp,
            title: self.spec.title@,
            hide: self.spec.hide,
            content: self.spec.content@,
            status: self.status,
        }
    }
}

/// The view of a document fits.
pub proof fn lemma_document_fits(d: Document)
    ensures
        d@.fits(),
{
    assert(d.finalizers@.len() == d.finalizers.len());
}

/// `token_index` is the least position that holds the token.
pub proof fn lemma_token_index(list: Seq<Seq<char>>, token: Seq<char>)
    ensures
        token_index(list, token) is Some <==> list.contains(token),
        token_index(list, token) matches Some(i) ==> 0 <= i < list.len() && list[i] == token
            && forall|j: int| 0 <= j < i ==> list[j] != token,
{
    if exists|i: int| 0 <= i < list.len() && list[i] == token {
        let w = choose|i: int| 0 <= i < list.len() && list[i] == token;
        lemma_least_position(list, token, w);
    } else {
        if list.contains(token) {
            let i = choose|i: int| 0 <= i < list.len() && list[i] == token;
            assert(false);
        }
    }
}

proof fn lemma_least_position(list: Seq<Seq<char>>, token: Seq<char>, w: int)
    requires
        0 <= w < list.len(),
        list[w] == token,
    ensures
        exists|i: int|
            0 <= i < list.len() && list[i] == token && forall|j: int|
                0 <= j < i ==> list[j] != token,
    decreases w,
{
    if exists|j: int| 0 <= j < w && list[j] == token {
        let j = choose|j: int| 0 <= j < w && list[j] == token;
        lemma_least_position(list, token, j);
    } else {
        assert(0 <= w < list.len() && list[w] == token && forall|j: int|
            0 <= j < w ==> list[j] != token);
    }
}

impl Document {
    /// A document named `name` with the given spec: no namespace, no
    /// finalizer, no status, not being deleted.
    pub fn new(name: &str, spec: DocumentSpec) -> (d: Document)
        ensures
            d@ == (DocumentView {
                name: name@,
                namespace: None,
                finalizers: Seq::empty(),
                deletion_timestamp: None,
                title: spec.title@,
                hide: spec.hide,
                content: spec.content@,
                status: None,
            }),
            d@.wf(),
    {
        let d = Document {
            name: String::from_str(name),
            namespace: None,
            finalizers: Vec::new(),
            deletion_timestamp: None,
            spec,
            status: None,
        };
        proof {
            assert(views(d.finalizers@) =~= Seq::<Seq<char>>::empty());
        }
        d
    }

    /// A document that the reconciler rejects: named as the reserved one,
    /// in the namespace `default`, with an empty spec.
    pub fn illegal() -> (d: Document)
        ensures
            d@ == (DocumentView {
                name: ILLEGAL_NAME@,
                namespace: Some("default"@),
                finalizers: Seq::empty(),
                deletion_timestamp: None,
                title: Seq::empty(),
                hide: false,
                content: Seq::empty(),
                status: None,
            }),
            d@.wf(),
    {
        let spec = DocumentSpec { title: String::new(), hide: false, content: String::new() };
        let mut d = Document::new(ILLEGAL_NAME, spec);
        d.namespace = Some(String::from_str("default"));
        d
    }

    /// An ordinary document: named `test`, in the namespace `default`, with
    /// an empty spec.
    pub fn test() -> (d: Document)
        ensures
            d@ == (DocumentView {
                name: "test"@,
                namespace: Some("default"@),
                finalizers: Seq::empty(),
                deletion_timestamp: None,
                title: Seq::empty(),
                hide: false,
                content: Seq::empty(),
                status: None,
            }),
            d@.wf(),
    {
        let spec = DocumentSpec { title: String::new(), hide: false, content: String::new() };
        let mut d = Document::new("test", spec);
        d.namespace = Some(String::from_str("default"));
        d
    }

    /// The document, asking to be hidden.
    pub fn needs_hide(self) -> (d: Document)
        ensures
            d@ == (DocumentView { hide: true, ..self@ }),
    {
        let mut d = self;
        d.spec.hide = true;
        d
    }

    /// The document, with deletion asked for at a fixed time: 12:50:32 on
    /// 2 April 2017.
    pub fn needs_delete(self) -> (d: Document)
        ensures
            d@ == (DocumentView { deletion_timestamp: Some(1491137432i64), ..self@ }),
    {
        let mut d = self;
        d.deletion_timestamp = Some(1491137432);
        d
    }

    /// The document, with the controller's token added at the end of its
    /// finalizers.
    pub fn finalized(self) -> (d: Document)
        ensures
            d@ == (DocumentView {
                finalizers: self@.finalizers.push(DOCUMENT_FINALIZER@),
                ..self@
            }),
    {
        let mut d = self;
        let ghost before = d.finalizers@;
        d.finalizers.push(String::from_str(DOCUMENT_FINALIZER));
        proof {
            assert(views(d.finalizers@) =~= views(before).push(DOCUMENT_FINALIZER@));
        }
        d
    }

    /// The document, with the given status.
    pub fn with_status(self, status: DocumentStatus) -> (d: Document)
        ensures
            d@ == (DocumentView { status: Some(status), ..self@ }),
    {
        let mut d = self;
        d.status = Some(status);
        d
    }

    /// A copy of the name.
    pub fn name_any(&self) -> (r: String)
        ensures
            r@ == self@.name,
    {
        self.name.clone()
    }

    /// Tells whether the status reports the document as hidden; a document
    /// without status counts as not hidden.
    pub fn was_hidden(&self) -> (r: bool)
        ensures
            r == self@.was_hidden(),
    {
        match &self.status {
            Some(s) => s.hidden,
            None => false,
        }
    }

    /// Tells whether deletion has been asked for.
    pub fn is_deleting(&self) -> (r: bool)
        ensures
            r == self@.is_deleting(),
    {
        self.deletion_timestamp.is_some()
    }

    /// Finds the controller's token among the finalizers: the first
    /// position that holds it.
    pub fn finalizer_index(&self) -> (r: Option<usize>)
        ensures
            r is Some <==> self@.is_finalized(),
            match r {
                Some(i) => self@.finalizer_index() == Some(i as int),
                None => self@.finalizer_index() is None,
            },
    {
        let token = String::from_str(DOCUMENT_FINALIZER);
        let ghost list = views(self.finalizers@);
        proof {
            lemma_token_index(list, DOCUMENT_FINALIZER@);
        }
        let mut i: usize = 0;
        while i < self.finalizers.len()
            invariant
                i <= self.finalizers.len(),
                token@ == DOCUMENT_FINALIZER@,
                list == views(self.finalizers@),
                forall|j: int| 0 <= j < i ==> list[j] != DOCUMENT_FINALIZER@,
            decreases self.finalizers.len() - i,
        {
            if self.finalizers[i] == token {
                proof {
                    assert(list[i as int] == DOCUMENT_FINALIZER@);
                    assert(list.contains(DOCUMENT_FINALIZER@));
                    let k = token_index(list, DOCUMENT_FINALIZER@)->0;
                    assert(k == i) by {
                        if k < i {
                            assert(list[k] != DOCUMENT_FINALIZER@);
                        }
                    }
                }
                return Some(i);
            }
            i += 1;
        }
        proof {
            if list.contains(DOCUMENT_FINALIZER@) {
                let k = choose|k: int| 0 <= k < list.len() && list[k] == DOCUMENT_FINALIZER@;
                assert(false);
            }
        }
        None
    }
}

} // verus!
