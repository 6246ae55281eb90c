//! The failures a reconciliation can end in, and the names derived from them.

use vstd::prelude::*;
use vstd::string::*;
use crate::text::{contains_double_colon, find_char, first_index, has_double_colon, join, joined, views};

verus! {

/// A failed call to the cluster, as the client reported it.
#[derive(Debug, Clone, PartialEq, Eq)]
pub struct ApiFailure {
    /// The client's description of the failure, kept for the log only.
    pub message: String,
}

/// Failures of the finalizer protocol around the two reconcile bodies.
#[derive(Debug, PartialEq, Eq)]
pub enum FinalizerError {
    /// The apply body failed.
    ApplyFailed(Error),
    /// The cleanup body failed.
    CleanupFailed(Error),
    /// The patch that adds the finalizer failed.
    AddFinalizer(ApiFailure),
    /// The patch that removes the finalizer failed.
    RemoveFinalizer(ApiFailure),
}

/// The closed set of failures of a reconciliation.
#[derive(Debug, PartialEq, Eq)]
pub enum Error {
    /// A payload could not be encoded or decoded.
    SerializationError(String),
    /// A call to the cluster failed.
    KubeError(ApiFailure),
    /// The finalizer protocol failed; the cause is kept behind a box so that
    /// the value stays of fixed size however deep the causes nest.
    FinalizerError(Box<FinalizerError>),
    /// The document is the reserved one that is always rejected.
    IllegalDocument,
}

impl FinalizerError {
    /// The name of the variant.
    pub open spec fn name(self) -> Seq<char> {
        match self {
            FinalizerError::ApplyFailed(_) => "ApplyFailed"@,
            FinalizerError::CleanupFailed(_) => "CleanupFailed"@,
            FinalizerError::AddFinalizer(_) => "AddFinalizer"@,
            FinalizerError::RemoveFinalizer(_) => "RemoveFinalizer"@,
        }
    }

    /// The name of the variant in lower case.
    pub open spec fn lower_name(self) -> Seq<char> {
        match self {
            FinalizerError::ApplyFailed(_) => "applyfailed"@,
            FinalizerError::CleanupFailed(_) => "cleanupfailed"@,
            FinalizerError::AddFinalizer(_) => "addfinalizer"@,
            FinalizerError::RemoveFinalizer(_) => "removefinalizer"@,
        }
    }

    /// The variant's name, followed in parentheses by the rendering of the
    /// failure it wraps, where it wraps one.
    pub open spec fn rendered(self) -> Seq<char>
        decreases self,
    {
        match self {
            FinalizerError::ApplyFailed(e) => self.name() + "("@ + e.rendered() + ")"@,
            FinalizerError::CleanupFailed(e) => self.name() + "("@ + e.rendered() + ")"@,
            _ => self.name(),
        }
    }

    /// The same as `rendered`, over the names in lower case.
    pub open spec fn label(self) -> Seq<char>
        decreases self,
    {
        match self {
            FinalizerError::ApplyFailed(e) => self.lower_name() + "("@ + e.label() + ")"@,
            FinalizerError::CleanupFailed(e) => self.lower_name() + "("@ + e.label() + ")"@,
            _ => self.lower_name(),
        }
    }

    /// The names of the variants from this failure to its innermost cause.
    pub open spec fn cause_names(self) -> Seq<Seq<char>>
        decreases self,
    {
        match self {
            FinalizerError::ApplyFailed(e) => seq![self.name()] + e.cause_names(),
            FinalizerError::CleanupFailed(e) => seq![self.name()] + e.cause_names(),
            _ => seq![self.name()],
        }
    }

    /// The renderings of this failure and of each cause after it.
    pub open spec fn cause_renderings(self) -> Seq<Seq<char>>
        decreases self,
    {
        match self {
            FinalizerError::ApplyFailed(e) => seq![self.rendered()] + e.cause_renderings(),
            FinalizerError::CleanupFailed(e) => seq![self.rendered()] + e.cause_renderings(),
            _ => seq![self.rendered()],
        }
    }

    /// The text that describes the failure to a reader.
    pub open spec fn message_text(self) -> Seq<char>
        decreases self,
    {
        match self {
            FinalizerError::ApplyFailed(e) => "failed to apply object: "@ + e.message_text(),
            FinalizerError::CleanupFailed(e) => "failed to clean up object: "@ + e.message_text(),
            FinalizerError::AddFinalizer(f) => "failed to add finalizer: "@ + f.message@,
            FinalizerError::RemoveFinalizer(f) => "failed to remove finalizer: "@ + f.message@,
        }
    }
}

impl Error {
    /// The name of the variant.
    pub open spec fn name(self) -> Seq<char> {
        match self {
            Error::SerializationError(_) => "SerializationError"@,
            Error::KubeError(_) => "KubeError"@,
            Error::FinalizerError(_) => "FinalizerError"@,
            Error::IllegalDocument => "IllegalDocument"@,
        }
    }

    /// The name of the variant in lower case.
    pub open spec fn lower_name(self) -> Seq<char> {
        match self {
            Error::SerializationError(_) => "serializationerror"@,
            Error::KubeError(_) => "kubeerror"@,
            Error::FinalizerError(_) => "finalizererror"@,
            Error::IllegalDocument => "illegaldocument"@,
        }
    }

    /// The variant's name, followed in parentheses by the rendering of the
    /// failure it wraps, where it wraps one. What a client or an encoder
    /// reported is free text and takes no part.
    pub open spec fn rendered(self) -> Seq<char>
        decreases self,
    {
        match self {
            Error::FinalizerError(b) => self.name() + "("@ + b.rendered() + ")"@,
            _ => self.name(),
        }
    }

    /// The same as `rendered`, over the names in lower case.
    pub open spec fn label(self) -> Seq<char>
        decreases self,
    {
        match self {
            Error::FinalizerError(b) => self.lower_name() + "("@ + b.label() + ")"@,
            _ => self.lower_name(),
        }
    }

    /// The names of the variants from this failure to its innermost cause.
    pub open spec fn cause_names(self) -> Seq<Seq<char>>
        decreases self,
    {
        match self {
            Error::FinalizerError(b) => seq![self.name()] + b.cause_names(),
            _ => seq![self.name()],
        }
    }

    /// The renderings of this failure and of each cause after it.
    pub open spec fn cause_renderings(self) -> Seq<Seq<char>>
        decreases self,
    {
        match self {
            Error::FinalizerError(b) => seq![self.rendered()] + b.cause_renderings(),
            _ => seq![self.rendered()],
        }
    }

    /// The text that describes the failure to a reader.
    pub open spec fn message_text(self) -> Seq<char>
        decreases self,
    {
        match self {
            Error::SerializationError(m) => "SerializationError: "@ + m@,
            Error::KubeError(f) => "Kube Error: "@ + f.message@,
            Error::FinalizerError(b) => "Finalizer Error: "@ + b.message_text(),
            Error::IllegalDocument => "IllegalDocument"@,
        }
    }

    /// Whether the innermost cause is the rejection of the reserved document.
    pub open spec fn rooted_in_illegal_document(self) -> bool
        decreases self,
    {
        match self {
            Error::IllegalDocument => true,
            Error::FinalizerError(b) => match *b {
                FinalizerError::ApplyFailed(e) => e.rooted_in_illegal_document(),
                FinalizerError::CleanupFailed(e) => e.rooted_in_illegal_document(),
                _ => false,
            },
            _ => false,
        }
    }
}

/// `name`, and `inner` in parentheses after it.
fn wrapped(name: &str, inner: &str) -> (r: String)
    ensures
        r@ == name@ + "("@ + inner@ + ")"@,
{
    let mut s = String::from_str(name);
    s.append("(");
    s.append(inner);
    s.append(")");
    s
}

/// `head` followed by `tail`.
fn prefixed(head: &str, tail: &str) -> (r: String)
    ensures
        r@ == head@ + tail@,
{
    let mut s = String::from_str(head);
    s.append(tail);
    s
}

/// `first`, then the strings of `rest`.
fn chain_from(first: String, rest: Vec<String>) -> (r: Vec<String>)
    ensures
        views(r@) == seq![first@] + views(rest@),
{
    let mut out: Vec<String> = Vec::new();
    out.push(first);
    let mut rest = rest;
    let ghost all = rest@;
    out.append(&mut rest);
    proof {
        assert(views(out@) =~= seq![first@] + views(all));
    }
    out
}

impl FinalizerError {
    /// Renders the failure by the names of its variants.
    pub fn rendering(&self) -> (r: String)
        ensures
            r@ == self.rendered(),
        decreases self,
    {
        match self {
            FinalizerError::ApplyFailed(e) => wrapped("ApplyFailed", e.rendering().as_str()),
            FinalizerError::CleanupFailed(e) => wrapped("CleanupFailed", e.rendering().as_str()),
            FinalizerError::AddFinalizer(_) => String::from_str("AddFinalizer"),
            FinalizerError::RemoveFinalizer(_) => String::from_str("RemoveFinalizer"),
        }
    }

    /// The label under which a metric counts this failure.
    pub fn metric_label(&self) -> (r: String)
        ensures
            r@ == self.label(),
        decreases self,
    {
        match self {
            FinalizerError::ApplyFailed(e) => wrapped("applyfailed", e.metric_label().as_str()),
            FinalizerError::CleanupFailed(e) => wrapped(
                "cleanupfailed",
                e.metric_label().as_str(),
            ),
            FinalizerError::AddFinalizer(_) => String::from_str("addfinalizer"),
            FinalizerError::RemoveFinalizer(_) => String::from_str("removefinalizer"),
        }
    }

    /// Renders this failure and each cause after it, outermost first.
    pub fn renderings(&self) -> (r: Vec<String>)
        ensures
            views(r@) == self.cause_renderings(),
        decreases self,
    {
        match self {
            FinalizerError::ApplyFailed(e) => chain_from(self.rendering(), e.renderings()),
            FinalizerError::CleanupFailed(e) => chain_from(self.rendering(), e.renderings()),
            _ => chain_from(self.rendering(), Vec::new()),
        }
    }

    /// Describes the failure to a reader.
    pub fn message(&self) -> (r: String)
        ensures
            r@ == self.message_text(),
        decreases self,
    {
        match self {
            FinalizerError::ApplyFailed(e) => prefixed(
                "failed to apply object: ",
                e.message().as_str(),
            ),
            FinalizerError::CleanupFailed(e) => prefixed(
                "failed to clean up object: ",
                e.message().as_str(),
            ),
            FinalizerError::AddFinalizer(f) => prefixed(
                "failed to add finalizer: ",
                f.message.as_str(),
            ),
            FinalizerError::RemoveFinalizer(f) => prefixed(
                "failed to remove finalizer: ",
                f.message.as_str(),
            ),
        }
    }
}

impl Error {
    /// Renders the failure by the names of its variants.
    pub fn rendering(&self) -> (r: String)
        ensures
            r@ == self.rendered(),
        decreases self,
    {
        match self {
            Error::SerializationError(_) => String::from_str("SerializationError"),
            Error::KubeError(_) => String::from_str("KubeError"),
            Error::FinalizerError(b) => wrapped("FinalizerError", b.rendering().as_str()),
            Error::IllegalDocument => String::from_str("IllegalDocument"),
        }
    }

    /// The label under which a metric counts this failure: the names of the
    /// variants of the failure and of its nested causes, in lower case, each
    /// cause in parentheses after the failure that wraps it.
    pub fn metric_label(&self) -> (r: String)
        ensures
            r@ == self.label(),
        decreases self,
    {
        match self {
            Error::SerializationError(_) => String::from_str("serializationerror"),
            Error::KubeError(_) => String::from_str("kubeerror"),
            Error::FinalizerError(b) => wrapped("finalizererror", b.metric_label().as_str()),
            Error::IllegalDocument => String::from_str("illegaldocument"),
        }
    }

    /// Renders this failure and each cause after it, outermost first.
    pub fn renderings(&self) -> (r: Vec<String>)
        ensures
            views(r@) == self.cause_renderings(),
        decreases self,
    {
        match self {
            Error::FinalizerError(b) => chain_from(self.rendering(), b.renderings()),
            _ => chain_from(self.rendering(), Vec::new()),
        }
    }

    /// Describes the failure to a reader.
    pub fn message(&self) -> (r: String)
        ensures
            r@ == self.message_text(),
        decreases self,
    {
        match self {
            Error::SerializationError(m) => prefixed("SerializationError: ", m.as_str()),
            Error::KubeError(f) => prefixed("Kube Error: ", f.message.as_str()),
            Error::FinalizerError(b) => prefixed("Finalizer Error: ", b.message().as_str()),
            Error::IllegalDocument => String::from_str("IllegalDocument"),
        }
    }

    /// Tells whether the innermost cause is the rejection of the reserved
    /// document.
    pub fn is_rooted_in_illegal_document(&self) -> (r: bool)
        ensures
            r == self.rooted_in_illegal_document(),
        decreases self,
    {
        match self {
            Error::IllegalDocument => true,
            Error::FinalizerError(b) => match &**b {
                FinalizerError::ApplyFailed(e) => e.is_rooted_in_illegal_document(),
                FinalizerError::CleanupFailed(e) => e.is_rooted_in_illegal_document(),
                _ => false,
            },
            _ => false,
        }
    }
}

/// What is kept of the debug rendering of one error: the text before the
/// first opening parenthesis; the whole text where it has no parenthesis, no
/// space and no `::`; nothing otherwise.
pub open spec fn dbg_name(s: Seq<char>) -> Option<Seq<char>> {
    if s.contains('(') {
        Some(s.subrange(0, first_index(s, '(')))
    } else if s.contains(' ') || has_double_colon(s) {
        None
    } else {
        Some(s)
    }
}

/// The names kept of a chain of debug renderings, in order.
pub open spec fn kept_names(rs: Seq<Seq<char>>) -> Seq<Seq<char>>
    decreases rs.len(),
{
    if rs.len() == 0 {
        Seq::empty()
    } else {
        let rest = kept_names(rs.drop_last());
        match dbg_name(rs.last()) {
            Some(n) => rest.push(n),
            None => rest,
        }
    }
}

/// Reduces the debug rendering of one error to the name of its variant.
pub fn fmt_dbg_error(err: &str) -> (r: Option<String>)
    ensures
        r is Some <==> dbg_name(err@) is Some,
        r is Some ==> r->0@ == dbg_name(err@)->0,
{
    match find_char(err, '(') {
        Some(i) => Some(String::from_str(err.substring_char(0, i))),
        None => {
            if find_char(err, ' ').is_some() || contains_double_colon(err) {
                None
            } else {
                Some(String::from_str(err))
            }
        },
    }
}

/// Names the variants involved in an error and its nested causes, joined by
/// underscores, so that the result can label a metric.
///
/// `chain` holds the debug rendering of the error, then of its source, then
/// of the source of that, to the innermost one.
pub fn error_fmt(chain: &Vec<String>) -> (r: String)
    ensures
        r@ == joined(kept_names(views(chain@)), "_"@),
{
    let mut names: Vec<String> = Vec::new();
    let mut i: usize = 0;
    while i < chain.len()
        invariant
            i <= chain.len(),
            views(names@) == kept_names(views(chain@).take(i as int)),
        decreases chain.len() - i,
    {
        let ghost before = views(chain@).take(i as int);
        let ghost after = views(chain@).take(i as int + 1);
        let ghost old_names = names@;
        proof {
            assert(after.drop_last() =~= before);
            assert(after.last() == chain@[i as int]@);
        }
        match fmt_dbg_error(chain[i].as_str()) {
            Some(n) => {
                names.push(n);
                proof {
                    assert(views(names@) =~= views(old_names).push(n@));
                }
            },
            None => {},
        }
        i += 1;
    }
    proof {
        assert(views(chain@).take(chain.len() as int) =~= views(chain@));
    }
    join(&names, "_")
}

} // verus!
