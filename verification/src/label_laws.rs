//! What holds of the names and labels derived from a failure.

use vstd::prelude::*;
use vstd::string::*;
use crate::error::{dbg_name, kept_names, Error, FinalizerError};
use crate::text::{first_index, has_double_colon, joined};

verus! {

/// A text without parenthesis, space or colon.
pub open spec fn plain(s: Seq<char>) -> bool {
    !s.contains('(') && !s.contains(' ') && !s.contains(':')
}

/// The lower case form of an ASCII letter; any other character unchanged.
pub open spec fn ascii_lower(c: char) -> char {
    if 'A' <= c && c <= 'Z' {
        ((c as u32 + 32) as u8) as char
    } else {
        c
    }
}

/// `s` with each ASCII capital replaced by its lower case form.
pub open spec fn lowered(s: Seq<char>) -> Seq<char> {
    s.map_values(|c: char| ascii_lower(c))
}

proof fn lemma_finalizer_names(e: FinalizerError)
    ensures
        plain(e.name()),
        lowered(e.name()) == e.lower_name(),
{
    reveal_strlit("ApplyFailed");
    reveal_strlit("CleanupFailed");
    reveal_strlit("AddFinalizer");
    reveal_strlit("RemoveFinalizer");
    reveal_strlit("applyfailed");
    reveal_strlit("cleanupfailed");
    reveal_strlit("addfinalizer");
    reveal_strlit("removefinalizer");
    assert(lowered(e.name()) =~= e.lower_name());
}

proof fn lemma_error_names(e: Error)
    ensures
        plain(e.name()),
        lowered(e.name()) == e.lower_name(),
{
    reveal_strlit("SerializationError");
    reveal_strlit("KubeError");
    reveal_strlit("FinalizerError");
    reveal_strlit("IllegalDocument");
    reveal_strlit("serializationerror");
    reveal_strlit("kubeerror");
    reveal_strlit("finalizererror");
    reveal_strlit("illegaldocument");
    assert(lowered(e.name()) =~= e.lower_name());
}

proof fn lemma_first_index_after(a: Seq<char>, b: Seq<char>, c: char)
    requires
        !a.contains(c),
    ensures
        first_index(a + b, c) == a.len() + first_index(b, c),
    decreases a.len(),
{
    if a.len() == 0 {
        assert(a + b =~= b);
    } else {
        assert(a[0] != c) by {
            if a[0] == c {
                assert(a.contains(c));
            }
        }
        assert((a + b)[0] == a[0]);
        assert((a + b).drop_first() =~= a.drop_first() + b);
        assert(!a.drop_first().contains(c)) by {
            if a.drop_first().contains(c) {
                let i = choose|i: int| 0 <= i < a.drop_first().len() && a.drop_first()[i] == c;
                assert(a[i + 1] == c);
                assert(a.contains(c));
            }
        }
        lemma_first_index_after(a.drop_first(), b, c);
    }
}

proof fn lemma_dbg_name_wrapped(name: Seq<char>, inner: Seq<char>)
    requires
        plain(name),
    ensures
        dbg_name(name + "("@ + inner + ")"@) == Some(name),
{
    reveal_strlit("(");
    let s = name + "("@ + inner + ")"@;
    let tail = "("@ + inner + ")"@;
    assert(s =~= name + tail);
    assert(tail[0] == '(');
    lemma_first_index_after(name, tail, '(');
    assert(s[name.len() as int] == '(');
    assert(s.contains('('));
    assert(s.subrange(0, name.len() as int) =~= name);
}

proof fn lemma_dbg_name_plain(name: Seq<char>)
    requires
        plain(name),
    ensures
        dbg_name(name) == Some(name),
{
    if has_double_colon(name) {
        let i = choose|i: int|
            0 <= i && i + 1 < name.len() && name[i] == ':' && #[trigger] name[i + 1] == ':';
        assert(name.contains(':'));
    }
}

proof fn lemma_kept_names_concat(a: Seq<Seq<char>>, b: Seq<Seq<char>>)
    ensures
        kept_names(a + b) == kept_names(a) + kept_names(b),
    decreases b.len(),
{
    if b.len() == 0 {
        assert(a + b =~= a);
        assert(kept_names(a) + kept_names(b) =~= kept_names(a));
    } else {
        assert((a + b).drop_last() =~= a + b.drop_last());
        assert((a + b).last() == b.last());
        lemma_kept_names_concat(a, b.drop_last());
        assert(kept_names(a + b) =~= kept_names(a) + kept_names(b));
    }
}

proof fn lemma_kept_names_single(r: Seq<char>, n: Seq<char>)
    requires
        dbg_name(r) == Some(n),
    ensures
        kept_names(seq![r]) == seq![n],
{
    reveal_with_fuel(kept_names, 2);
    assert(seq![r].drop_last() =~= Seq::<Seq<char>>::empty());
    assert(seq![r].last() == r);
    assert(kept_names(seq![r]) =~= seq![n]);
}

proof fn lemma_kept_names_of_finalizer(e: FinalizerError)
    ensures
        kept_names(e.cause_renderings()) == e.cause_names(),
    decreases e,
{
    lemma_finalizer_names(e);
    match e {
        FinalizerError::ApplyFailed(inner) => {
            lemma_dbg_name_wrapped(e.name(), inner.rendered());
            lemma_kept_names_single(e.rendered(), e.name());
            lemma_kept_names_of_error(inner);
            lemma_kept_names_concat(seq![e.rendered()], inner.cause_renderings());
        },
        FinalizerError::CleanupFailed(inner) => {
            lemma_dbg_name_wrapped(e.name(), inner.rendered());
            lemma_kept_names_single(e.rendered(), e.name());
            lemma_kept_names_of_error(inner);
            lemma_kept_names_concat(seq![e.rendered()], inner.cause_renderings());
        },
        _ => {
            lemma_dbg_name_plain(e.name());
            lemma_kept_names_single(e.rendered(), e.name());
        },
    }
}

proof fn lemma_kept_names_of_error(e: Error)
    ensures
        kept_names(e.cause_renderings()) == e.cause_names(),
    decreases e,
{
    lemma_error_names(e);
    match e {
        Error::FinalizerError(b) => {
            lemma_dbg_name_wrapped(e.name(), b.rendered());
            lemma_kept_names_single(e.rendered(), e.name());
            lemma_kept_names_of_finalizer(*b);
            lemma_kept_names_concat(seq![e.rendered()], b.cause_renderings());
        },
        _ => {
            lemma_dbg_name_plain(e.name());
            lemma_kept_names_single(e.rendered(), e.name());
        },
    }
}

/// The names kept of the renderings of a failure and of its causes are the
/// names of their variants: no cause is dropped and none is cut short.
pub proof fn lemma_chain_keeps_variant_names(e: Error)
    ensures
        kept_names(e.cause_renderings()) == e.cause_names(),
        joined(kept_names(e.cause_renderings()), "_"@) == joined(e.cause_names(), "_"@),
{
    lemma_kept_names_of_error(e);
}

proof fn lemma_lowered_concat(a: Seq<char>, b: Seq<char>)
    ensures
        lowered(a + b) == lowered(a) + lowered(b),
{
    assert(lowered(a + b) =~= lowered(a) + lowered(b));
}

proof fn lemma_lowered_wrapped(name: Seq<char>, inner: Seq<char>)
    ensures
        lowered(name + "("@ + inner + ")"@) == lowered(name) + "("@ + lowered(inner) + ")"@,
{
    reveal_strlit("(");
    reveal_strlit(")");
    assert(lowered("("@) =~= "("@);
    assert(lowered(")"@) =~= ")"@);
    lemma_lowered_concat(name, "("@);
    lemma_lowered_concat(name + "("@, inner);
    lemma_lowered_concat(name + "("@ + inner, ")"@);
}

proof fn lemma_label_of_finalizer(e: FinalizerError)
    ensures
        e.label() == lowered(e.rendered()),
    decreases e,
{
    lemma_finalizer_names(e);
    match e {
        FinalizerError::ApplyFailed(inner) => {
            lemma_label_of_error(inner);
            lemma_lowered_wrapped(e.name(), inner.rendered());
        },
        FinalizerError::CleanupFailed(inner) => {
            lemma_label_of_error(inner);
            lemma_lowered_wrapped(e.name(), inner.rendered());
        },
        _ => {},
    }
}

proof fn lemma_label_of_error(e: Error)
    ensures
        e.label() == lowered(e.rendered()),
    decreases e,
{
    lemma_error_names(e);
    match e {
        Error::FinalizerError(b) => {
            lemma_label_of_finalizer(*b);
            lemma_lowered_wrapped(e.name(), b.rendered());
        },
        _ => {},
    }
}

/// The label of a failure is its rendering in lower case: the variants'
/// names and their nesting, and nothing of what a client or encoder said.
pub proof fn lemma_label_is_lowered_rendering(e: Error)
    ensures
        e.label() == lowered(e.rendered()),
{
    lemma_label_of_error(e);
}

} // verus!
