//! The `Foo` resource: a name and a text, judged by the words in the text.

use vstd::prelude::*;
use vstd::string::*;
use crate::text::{contains_text, occurs_in};
use crate::watch::Named;

verus! {

/// The words that make a `Foo` a bad one.
pub const BAD_WORDS: &'static str = "bad words";

/// What the user says of a `Foo`.
#[derive(Clone, Debug, PartialEq, Eq)]
pub struct FooSpec {
    pub name: String,
    pub info: String,
}

/// What the controller has observed of a `Foo`.
#[derive(Clone, Copy, Debug, Default, PartialEq, Eq)]
pub struct FooStatus {
    pub is_bad: bool,
    pub replicas: i32,
}

impl Named for FooSpec {
    open spec fn named(&self) -> Seq<char> {
        self.name@
    }

    fn name(&self) -> (r: String) {
        self.name.clone()
    }
}

impl FooSpec {
    /// The status that the controller writes for this `Foo`: bad if and
    /// only if its text holds the bad words, with one replica.
    pub fn observed_status(&self) -> (st: FooStatus)
        ensures
            st.is_bad == occurs_in(BAD_WORDS@, self.info@),
            st.replicas == 1,
    {
        FooStatus { is_bad: contains_text(self.info.as_str(), BAD_WORDS), replicas: 1 }
    }
}

} // verus!
