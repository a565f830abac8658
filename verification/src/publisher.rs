//! The decisions of publishing one message.
//!
//! A message is handed to the broker client and then either confirmed, by
//! waiting a bounded time for the broker's acknowledgments, or left to the
//! client after one servicing pass that does not wait. The caller owns the
//! producer: it performs each action and reports what came of it; what to do
//! next, and what to return, is decided here.

use vstd::prelude::*;

verus! {

/// A message for the broker: the topic it goes to, its key, and its bytes.
#[derive(Clone, Debug, PartialEq, Eq)]
pub struct OutboundMessage {
    pub topic: String,
    pub key: String,
    pub payload: Vec<u8>,
}

impl OutboundMessage {
    /// The message with the given topic, key and bytes.
    pub fn new(topic: &str, key: &str, payload: Vec<u8>) -> (message: Self)
        ensures
            message.topic@ == topic@,
            message.key@ == key@,
            message.payload@ == payload@,
    {
        OutboundMessage { topic: topic.to_owned(), key: key.to_owned(), payload }
    }
}

/// How a message is published.
#[derive(Clone, Copy, Debug, PartialEq, Eq)]
pub enum PublishMode {
    /// Wait for the broker's acknowledgment, at most `timeout_ms`
    /// milliseconds.
    Confirm { timeout_ms: u64 },
    /// Do not wait for the broker.
    Continue,
}

/// Why a publication failed.
#[derive(Clone, Copy, Debug, PartialEq, Eq)]
pub enum PublishError {
    /// A publish error: the client did not take the message, and it is not
    /// offered again.
    Enqueue,
    /// A publish timeout: the acknowledgment did not come in time. The
    /// message may still be delivered later.
    Timeout,
}

/// How far a publication has come.
#[derive(Clone, Copy, Debug, PartialEq, Eq)]
pub enum Phase {
    /// Nothing was done yet.
    Ready,
    /// The message is being handed to the client.
    Enqueuing,
    /// The client took the message; the acknowledgments are waited for.
    Confirming,
    /// The client took the message; its event queue is being served.
    Servicing,
    /// The result was returned.
    Finished,
}

/// What the caller reports.
#[derive(Clone, Copy, Debug, PartialEq, Eq)]
pub enum Event {
    /// The publication was asked for.
    Begin,
    /// The client took the message.
    Enqueued,
    /// The client refused the message.
    EnqueueFailed,
    /// Every outstanding message was acknowledged.
    Acknowledged,
    /// The wait for acknowledgments ran out.
    TimedOut,
    /// The servicing pass is over.
    Serviced,
}

/// What the caller does next.
#[derive(Clone, Copy, Debug, PartialEq, Eq)]
pub enum Action {
    /// Hand the message to the client.
    Enqueue,
    /// Wait until everything outstanding is acknowledged, at most
    /// `timeout_ms` milliseconds.
    Flush { timeout_ms: u64 },
    /// Serve the client's event queue once, without waiting.
    Poll,
    /// Return this result.
    Return(Result<(), PublishError>),
}

/// The phase and the action that follow `event` in `phase`; `None` where the
/// event does not answer what the phase waits for, or the phase is none of
/// the mode.
pub open spec fn transition(mode: PublishMode, phase: Phase, event: Event) -> Option<
    (Phase, Action),
> {
    match (phase, event) {
        (Phase::Ready, Event::Begin) => Some((Phase::Enqueuing, Action::Enqueue)),
        (Phase::Enqueuing, Event::Enqueued) => match mode {
            PublishMode::Confirm { timeout_ms } => Some(
                (Phase::Confirming, Action::Flush { timeout_ms }),
            ),
            PublishMode::Continue => Some((Phase::Servicing, Action::Poll)),
        },
        (Phase::Enqueuing, Event::EnqueueFailed) => Some(
            (Phase::Finished, Action::Return(Err(PublishError::Enqueue))),
        ),
        (Phase::Confirming, Event::Acknowledged) if mode is Confirm => Some(
            (Phase::Finished, Action::Return(Ok(()))),
        ),
        (Phase::Confirming, Event::TimedOut) if mode is Confirm => Some(
            (Phase::Finished, Action::Return(Err(PublishError::Timeout))),
        ),
        (Phase::Servicing, Event::Serviced) if mode is Continue => Some(
            (Phase::Finished, Action::Return(Ok(()))),
        ),
        _ => None,
    }
}

/// What a publication returns, given whether the client took the message
/// and whether the acknowledgments came in time.
pub open spec fn outcome(mode: PublishMode, enqueued: bool, acknowledged: bool) -> Result<
    (),
    PublishError,
> {
    if !enqueued {
        Err(PublishError::Enqueue)
    } else if mode is Confirm && !acknowledged {
        Err(PublishError::Timeout)
    } else {
        Ok(())
    }
}

/// The event that tells whether the client took the message.
pub open spec fn enqueue_event(enqueued: bool) -> Event {
    if enqueued {
        Event::Enqueued
    } else {
        Event::EnqueueFailed
    }
}

/// The event that ends a publication once the client took the message.
pub open spec fn closing_event(mode: PublishMode, acknowledged: bool) -> Event {
    match mode {
        PublishMode::Confirm { .. } => if acknowledged {
            Event::Acknowledged
        } else {
            Event::TimedOut
        },
        PublishMode::Continue => Event::Serviced,
    }
}

/// How many events a publication in `phase` can still take.
pub open spec fn steps_left(phase: Phase) -> nat {
    match phase {
        Phase::Ready => 3,
        Phase::Enqueuing => 2,
        Phase::Confirming => 1,
        Phase::Servicing => 1,
        Phase::Finished => 0,
    }
}

/// Takes `event` in `phase`: the next phase and what to do in it, or `None`
/// where the event does not answer what the phase waits for.
pub fn step(mode: PublishMode, phase: Phase, event: Event) -> (r: Option<(Phase, Action)>)
    ensures
        r == transition(mode, phase, event),
{
    match phase {
        Phase::Ready => match event {
            Event::Begin => Some((Phase::Enqueuing, Action::Enqueue)),
            _ => None,
        },
        Phase::Enqueuing => match event {
            Event::Enqueued => match mode {
                PublishMode::Confirm { timeout_ms } => Some(
                    (Phase::Confirming, Action::Flush { timeout_ms }),
                ),
                PublishMode::Continue => Some((Phase::Servicing, Action::Poll)),
            },
            Event::EnqueueFailed => Some(
                (Phase::Finished, Action::Return(Err(PublishError::Enqueue))),
            ),
            _ => None,
        },
        Phase::Confirming => match (mode, event) {
            (PublishMode::Confirm { .. }, Event::Acknowledged) => Some(
                (Phase::Finished, Action::Return(Ok(()))),
            ),
            (PublishMode::Confirm { .. }, Event::TimedOut) => Some(
                (Phase::Finished, Action::Return(Err(PublishError::Timeout))),
            ),
            _ => None,
        },
        Phase::Servicing => match (mode, event) {
            (PublishMode::Continue, Event::Serviced) => Some(
                (Phase::Finished, Action::Return(Ok(()))),
            ),
            _ => None,
        },
        Phase::Finished => None,
    }
}

/// Every event taken brings the publication nearer to its end, so it ends
/// after three events at most; and it returns exactly when it ends.
pub proof fn lemma_step_advances(mode: PublishMode, phase: Phase, event: Event)
    requires
        transition(mode, phase, event) is Some,
    ensures
        steps_left(transition(mode, phase, event)->Some_0.0) < steps_left(phase),
        transition(mode, phase, event)->Some_0.1 is Return <==> transition(
            mode,
            phase,
            event,
        )->Some_0.0 == Phase::Finished,
{
}

/// A finished publication takes no event.
pub proof fn lemma_finished_is_final(mode: PublishMode, event: Event)
    ensures
        transition(mode, Phase::Finished, event) is None,
{
}

/// A refused message ends the publication at once with the enqueue error:
/// it is not offered again, and nothing is waited for.
pub proof fn lemma_refused_message_ends(mode: PublishMode)
    ensures
        transition(mode, Phase::Enqueuing, Event::EnqueueFailed) == Some(
            (Phase::Finished, Action::Return(Err(PublishError::Enqueue))),
        ),
{
}

/// A confirming publication waits exactly for its own bound, and returns
/// success only on the acknowledgment.
pub proof fn lemma_confirm_waits(timeout_ms: u64, phase: Phase, event: Event)
    ensures
        ({
            let mode = PublishMode::Confirm { timeout_ms };
            let next = transition(mode, phase, event);
            &&& next is Some && next->Some_0.1 is Flush ==> next->Some_0.1 == (Action::Flush {
                timeout_ms,
            })
            &&& next is Some ==> !(next->Some_0.1 is Poll)
            &&& next is Some && next->Some_0.1 == Action::Return(Ok(())) <==> phase
                == Phase::Confirming && event == Event::Acknowledged
        }),
{
}

/// A publication that does not confirm never waits for the broker and never
/// reports a timeout.
pub proof fn lemma_continue_never_waits(phase: Phase, event: Event)
    ensures
        ({
            let next = transition(PublishMode::Continue, phase, event);
            next is Some ==> !(next->Some_0.1 is Flush) && next->Some_0.1 != Action::Return(
                Err(PublishError::Timeout),
            )
        }),
{
}

/// Run from its start with what the client reports, a publication asks for
/// the enqueue first and returns its outcome: after two events where the
/// message was refused, after three otherwise.
pub proof fn lemma_run_returns_outcome(mode: PublishMode, enqueued: bool, acknowledged: bool)
    ensures
        transition(mode, Phase::Ready, Event::Begin) == Some((Phase::Enqueuing, Action::Enqueue)),
        !enqueued ==> transition(mode, Phase::Enqueuing, enqueue_event(enqueued)) == Some(
            (Phase::Finished, Action::Return(outcome(mode, enqueued, acknowledged))),
        ),
        enqueued ==> ({
            let second = transition(mode, Phase::Enqueuing, enqueue_event(enqueued));
            &&& second is Some
            &&& !(second->Some_0.1 is Return)
            &&& transition(mode, second->Some_0.0, closing_event(mode, acknowledged)) == Some(
                (Phase::Finished, Action::Return(outcome(mode, enqueued, acknowledged))),
            )
        }),
{
}

} // verus!
