//! Errors as people see them: a message, and behind it what caused the error.

use vstd::prelude::*;

use crate::text::texts;

verus! {

/// An error: its message, and the messages of its causes, the nearest first.
#[derive(Debug, PartialEq, Eq)]
pub struct Failure {
    pub message: String,
    pub causes: Vec<String>,
}

/// `Failure` by what its texts hold.
pub struct FailureModel {
    pub message: Seq<char>,
    pub causes: Seq<Seq<char>>,
}

impl View for Failure {
    type V = FailureModel;

    open spec fn view(&self) -> FailureModel {
        FailureModel { message: self.message@, causes: texts(self.causes@) }
    }
}

impl FailureModel {
    /// An error without a cause.
    pub open spec fn plain(message: Seq<char>) -> FailureModel {
        FailureModel { message, causes: Seq::empty() }
    }

    /// The error under a heading: the heading is the message now, and the error is its cause.
    pub open spec fn under(self, heading: Seq<char>) -> FailureModel {
        FailureModel { message: heading, causes: seq![self.message] + self.causes }
    }
}

impl Failure {
    /// An error without a cause.
    pub fn plain(message: String) -> (failure: Failure)
        ensures
            failure@ == FailureModel::plain(message@),
    {
        let failure: Failure = Failure { message, causes: Vec::new() };
        assert(failure@.causes == Seq::<Seq<char>>::empty());
        failure
    }

    /// Puts the error under a heading.
    pub fn under(self, heading: &str) -> (failure: Failure)
        ensures
            failure@ == self@.under(heading@),
    {
        let ghost inner = self@;
        let mut causes: Vec<String> = Vec::new();
        causes.push(self.message);
        let mut rest: Vec<String> = self.causes;
        causes.append(&mut rest);
        assert(texts(causes@) == seq![inner.message] + inner.causes);
        Failure { message: heading.to_owned(), causes }
    }
}

/// An error under a heading shows the heading, and behind it every message that the error had, in
/// the same order. An error without a cause shows its message alone.
pub proof fn law_heading_goes_in_front(failure: FailureModel, heading: Seq<char>)
    ensures
        failure.under(heading).message == heading,
        failure.under(heading).causes.len() == failure.causes.len() + 1,
        failure.under(heading).causes[0] == failure.message,
        forall|i: int|
            0 <= i < failure.causes.len() ==> failure.under(heading).causes[i + 1]
                == #[trigger] failure.causes[i],
        FailureModel::plain(heading).message == heading,
        FailureModel::plain(heading).causes.len() == 0,
{
}

/// What is said of a failure is said of all that it holds: its message, and every cause in its place.
pub proof fn law_failures_are_seen_in_full(failure: Failure)
    ensures
        failure@.message == failure.message@,
        failure@.causes.len() == failure.causes@.len(),
        forall|i: int|
            0 <= i < failure.causes@.len() ==> failure@.causes[i] == (#[trigger] failure.causes@[i])@,
{
}

} // verus!
