//! Delivery of a composed digest with bounded retry.
//!
//! The transport itself is not part of the library. A [`Dispatcher`] says
//! what to hand to it, takes the answer of each attempt, and decides whether
//! the delivery is done, is to be tried again after a pause, or is given up.

use crate::error::{DigestError, DigestErrorView};
use vstd::prelude::*;

verus! {

/// The number of attempts after which a delivery is given up.
pub const MAX_ATTEMPTS: u32 = 3;

/// The pause before the second and the third attempt, in seconds.
pub const BACKOFF_SECONDS: u64 = 5;

/// A delivery that has not ended yet.
#[derive(Debug)]
pub struct Dispatcher {
    destination: u64,
    text: String,
    failed_attempts: u32,
}

/// What a [`Dispatcher`] stands for.
pub struct DispatcherView {
    pub destination: u64,
    pub text: Seq<char>,
    /// The attempts made so far, all of which failed.
    pub failed_attempts: nat,
}

/// The answer of the transport to one attempt: nothing on success, its words
/// on failure.
pub type Outcome = Result<(), Seq<char>>;

/// What follows an attempt.
#[derive(Debug)]
pub enum DispatchStep {
    /// The digest arrived.
    Delivered,
    /// The attempt failed and another one is due after `delay_seconds`.
    Retry { dispatcher: Dispatcher, delay_seconds: u64 },
    /// The last attempt failed as well.
    GaveUp(DigestError),
}

/// A [`DispatchStep`] over views.
pub enum DispatchStepView {
    Delivered,
    Retry { dispatcher: DispatcherView, delay_seconds: u64 },
    GaveUp(DigestErrorView),
}

/// The step that follows when the transport answers the next attempt of `d`
/// with `outcome`.
pub open spec fn next_step(d: DispatcherView, outcome: Outcome) -> DispatchStepView {
    match outcome {
        Ok(_) => DispatchStepView::Delivered,
        Err(reason) => if d.failed_attempts + 1 < MAX_ATTEMPTS {
            DispatchStepView::Retry {
                dispatcher: DispatcherView { failed_attempts: d.failed_attempts + 1, ..d },
                delay_seconds: BACKOFF_SECONDS,
            }
        } else {
            DispatchStepView::GaveUp(DigestErrorView::SendError(reason))
        },
    }
}

/// The transport's answer as an [`Outcome`].
pub open spec fn outcome_view(result: Result<(), String>) -> Outcome {
    match result {
        Ok(_) => Ok(()),
        Err(reason) => Err(reason@),
    }
}

impl View for Dispatcher {
    type V = DispatcherView;

    closed spec fn view(&self) -> DispatcherView {
        DispatcherView {
            destination: self.destination,
            text: self.text@,
            failed_attempts: self.failed_attempts as nat,
        }
    }
}

impl View for DispatchStep {
    type V = DispatchStepView;

    open spec fn view(&self) -> DispatchStepView {
        match self {
            DispatchStep::Delivered => DispatchStepView::Delivered,
            DispatchStep::Retry { dispatcher, delay_seconds } => DispatchStepView::Retry {
                dispatcher: dispatcher@,
                delay_seconds: *delay_seconds,
            },
            DispatchStep::GaveUp(e) => DispatchStepView::GaveUp(e@),
        }
    }
}

impl Dispatcher {
    #[verifier::type_invariant]
    spec fn fewer_failures_than_attempts_allowed(self) -> bool {
        self.failed_attempts < MAX_ATTEMPTS
    }

    /// Starts the delivery of `text`. Without a destination there is nothing
    /// to try, and no attempt is counted.
    pub fn begin(destination: Option<u64>, text: String) -> (started: Result<
        Dispatcher,
        DigestError,
    >)
        ensures
            match destination {
                Some(id) => started matches Ok(d) && d@ == (DispatcherView {
                    destination: id,
                    text: text@,
                    failed_attempts: 0,
                }),
                None => started matches Err(e) && e@ == DigestErrorView::NoDestinationConfigured,
            },
    {
        match destination {
            Some(id) => Ok(Dispatcher { destination: id, text, failed_attempts: 0 }),
            None => Err(DigestError::NoDestinationConfigured),
        }
    }

    /// Where the digest goes.
    pub fn destination(&self) -> (id: u64)
        ensures
            id == self@.destination,
    {
        self.destination
    }

    /// The digest.
    pub fn text(&self) -> (text: &String)
        ensures
            text@ == self@.text,
    {
        &self.text
    }

    /// The attempts made so far. Fewer than [`MAX_ATTEMPTS`], since the
    /// delivery has not ended.
    pub fn failed_attempts(&self) -> (n: u32)
        ensures
            n == self@.failed_attempts,
            n < MAX_ATTEMPTS,
    {
        proof {
            use_type_invariant(self);
        }
        self.failed_attempts
    }

    /// Takes the transport's answer to the attempt that was due.
    pub fn on_result(self, result: Result<(), String>) -> (step: DispatchStep)
        ensures
            step@ == next_step(self@, outcome_view(result)),
    {
        proof {
            use_type_invariant(&self);
        }
        match result {
            Ok(_) => DispatchStep::Delivered,
            Err(reason) => {
                if self.failed_attempts + 1 < MAX_ATTEMPTS {
                    DispatchStep::Retry {
                        dispatcher: Dispatcher {
                            destination: self.destination,
                            text: self.text,
                            failed_attempts: self.failed_attempts + 1,
                        },
                        delay_seconds: BACKOFF_SECONDS,
                    }
                } else {
                    DispatchStep::GaveUp(DigestError::SendError(reason))
                }
            },
        }
    }
}

/// How a delivery went: the attempts that were made, and how it ended, if
/// it did.
pub struct DeliveryRun {
    pub attempts: nat,
    /// `None` while an attempt is still unanswered.
    pub end: Option<Outcome>,
}

/// What a delivery comes to when the transport answers its attempts with
/// `outcomes`, in this order. Answers that come after the end are not
/// asked for.
pub open spec fn deliver(d: DispatcherView, outcomes: Seq<Outcome>) -> DeliveryRun
    decreases outcomes.len(),
{
    if outcomes.len() == 0 {
        DeliveryRun { attempts: 0, end: None }
    } else {
        match next_step(d, outcomes.first()) {
            DispatchStepView::Delivered => DeliveryRun { attempts: 1, end: Some(Ok(())) },
            DispatchStepView::GaveUp(_) => DeliveryRun { attempts: 1, end: Some(outcomes.first()) },
            DispatchStepView::Retry { dispatcher, .. } => {
                let rest = deliver(dispatcher, outcomes.drop_first());
                DeliveryRun { attempts: rest.attempts + 1, end: rest.end }
            },
        }
    }
}

/// Every delivery that is under way has failed fewer than [`MAX_ATTEMPTS`]
/// times.
pub open spec fn under_way(d: DispatcherView) -> bool {
    d.failed_attempts < MAX_ATTEMPTS
}

/// A delivery never makes more attempts than are left to it, so a fresh one
/// makes at most [`MAX_ATTEMPTS`].
pub proof fn lemma_attempts_are_bounded(d: DispatcherView, outcomes: Seq<Outcome>)
    requires
        under_way(d),
    ensures
        deliver(d, outcomes).attempts <= MAX_ATTEMPTS - d.failed_attempts,
        deliver(d, outcomes).attempts <= outcomes.len(),
    decreases outcomes.len(),
{
    if outcomes.len() > 0 {
        match next_step(d, outcomes.first()) {
            DispatchStepView::Retry { dispatcher, .. } => {
                lemma_attempts_are_bounded(dispatcher, outcomes.drop_first());
            },
            _ => {},
        }
    }
}

/// A fresh delivery whose attempt number `n` is the first to succeed, with
/// `n` at most [`MAX_ATTEMPTS`], ends well after exactly `n` attempts.
pub proof fn lemma_first_success_ends_delivery(d: DispatcherView, outcomes: Seq<Outcome>, n: int)
    requires
        under_way(d),
        1 <= n <= outcomes.len(),
        d.failed_attempts + n <= MAX_ATTEMPTS,
        outcomes[n - 1] is Ok,
        forall|i: int| 0 <= i < n - 1 ==> (#[trigger] outcomes[i]) is Err,
    ensures
        deliver(d, outcomes).attempts == n,
        deliver(d, outcomes).end == Some(Outcome::Ok(())),
    decreases n,
{
    if n > 1 {
        assert(outcomes[0] is Err);
        let rest = outcomes.drop_first();
        assert(rest[n - 2] == outcomes[n - 1]);
        assert forall|i: int| 0 <= i < n - 2 implies (#[trigger] rest[i]) is Err by {
            assert(rest[i] == outcomes[i + 1]);
        }
        lemma_first_success_ends_delivery(
            DispatcherView { failed_attempts: d.failed_attempts + 1, ..d },
            rest,
            n - 1,
        );
    }
}

/// A delivery whose remaining attempts all fail is given up after the last
/// of them, with what the transport said of that one.
pub proof fn lemma_failures_exhaust_delivery(d: DispatcherView, outcomes: Seq<Outcome>)
    requires
        under_way(d),
        outcomes.len() >= MAX_ATTEMPTS - d.failed_attempts,
        forall|i: int|
            0 <= i < MAX_ATTEMPTS - d.failed_attempts ==> (#[trigger] outcomes[i]) is Err,
    ensures
        deliver(d, outcomes).attempts == MAX_ATTEMPTS - d.failed_attempts,
        deliver(d, outcomes).end == Some(outcomes[MAX_ATTEMPTS - d.failed_attempts - 1]),
    decreases MAX_ATTEMPTS - d.failed_attempts,
{
    assert(outcomes[0] is Err);
    if d.failed_attempts + 1 < MAX_ATTEMPTS {
        let rest = outcomes.drop_first();
        assert forall|i: int| 0 <= i < MAX_ATTEMPTS - d.failed_attempts - 1 implies (#[trigger] rest[i])
            is Err by {
            assert(rest[i] == outcomes[i + 1]);
        }
        lemma_failures_exhaust_delivery(
            DispatcherView { failed_attempts: d.failed_attempts + 1, ..d },
            rest,
        );
        assert(rest[MAX_ATTEMPTS - d.failed_attempts - 2] == outcomes[MAX_ATTEMPTS
            - d.failed_attempts - 1]);
    }
}

} // verus!
