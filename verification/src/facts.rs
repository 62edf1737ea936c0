//! How the engine talks to the services around it.
//!
//! The engine performs no lookup itself. A decision takes the facts that are
//! known so far and either settles, or names the one lookup it needs next. The
//! caller performs that lookup, records the answer and asks again.

use vstd::prelude::*;

verus! {

/// A decision in progress: settled, or waiting for the answer to a question.
#[derive(Clone, Debug, PartialEq, Eq)]
pub enum Step<T, Q> {
    /// The decision, final for the facts given.
    Done(T),
    /// The lookup that the decision needs next.
    Ask(Q),
}

impl<T, Q: View> View for Step<T, Q> {
    type V = Step<T, Q::V>;

    open spec fn view(&self) -> Step<T, Q::V> {
        match self {
            Step::Done(decision) => Step::Done(*decision),
            Step::Ask(question) => Step::Ask(question@),
        }
    }
}

/// A value that a lookup yields, before and after the lookup was made.
#[derive(Clone, Debug, PartialEq, Eq)]
pub enum Fact<T> {
    /// Nobody has looked yet.
    Pending,
    /// The answer.
    Known(T),
}

impl<T: DeepView> DeepView for Fact<T> {
    type V = Fact<T::V>;

    open spec fn deep_view(&self) -> Fact<T::V> {
        match self {
            Fact::Pending => Fact::Pending,
            Fact::Known(value) => Fact::Known(value.deep_view()),
        }
    }
}

} // verus!
