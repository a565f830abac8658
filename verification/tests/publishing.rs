use kafka_bridge::publisher::step;
use kafka_bridge::{Action, Event, Phase, PublishError, PublishMode};

fn run(mode: PublishMode, events: &[Event]) -> Vec<Action> {
    let mut phase = Phase::Ready;
    let mut actions = Vec::new();
    for event in events {
        let (next, action) = step(mode, phase, *event).unwrap();
        phase = next;
        actions.push(action);
    }
    actions
}

const CONFIRM: PublishMode = PublishMode::Confirm { timeout_ms: 5000 };

#[test]
fn confirmed_publication_returns_after_the_acknowledgment() {
    assert_eq!(
        run(CONFIRM, &[Event::Begin, Event::Enqueued, Event::Acknowledged]),
        vec![Action::Enqueue, Action::Flush { timeout_ms: 5000 }, Action::Return(Ok(()))]
    );
}

#[test]
fn unreachable_broker_gives_an_error_and_no_crash() {
    assert_eq!(
        run(CONFIRM, &[Event::Begin, Event::Enqueued, Event::TimedOut]),
        vec![
            Action::Enqueue,
            Action::Flush { timeout_ms: 5000 },
            Action::Return(Err(PublishError::Timeout))
        ]
    );
    assert_eq!(
        run(CONFIRM, &[Event::Begin, Event::EnqueueFailed]),
        vec![Action::Enqueue, Action::Return(Err(PublishError::Enqueue))]
    );
}

#[test]
fn publication_that_continues_polls_once_and_returns() {
    assert_eq!(
        run(PublishMode::Continue, &[Event::Begin, Event::Enqueued, Event::Serviced]),
        vec![Action::Enqueue, Action::Poll, Action::Return(Ok(()))]
    );
    assert_eq!(
        run(PublishMode::Continue, &[Event::Begin, Event::EnqueueFailed]),
        vec![Action::Enqueue, Action::Return(Err(PublishError::Enqueue))]
    );
}

#[test]
fn events_out_of_turn_are_refused() {
    assert_eq!(step(CONFIRM, Phase::Ready, Event::Enqueued), None);
    assert_eq!(step(CONFIRM, Phase::Enqueuing, Event::Begin), None);
    assert_eq!(step(CONFIRM, Phase::Confirming, Event::Serviced), None);
    assert_eq!(step(CONFIRM, Phase::Servicing, Event::Serviced), None);
    assert_eq!(step(PublishMode::Continue, Phase::Confirming, Event::Acknowledged), None);
    assert_eq!(step(PublishMode::Continue, Phase::Servicing, Event::TimedOut), None);
}

#[test]
fn finished_publication_takes_no_event() {
    let events = [
        Event::Begin,
        Event::Enqueued,
        Event::EnqueueFailed,
        Event::Acknowledged,
        Event::TimedOut,
        Event::Serviced,
    ];
    for event in events {
        assert_eq!(step(CONFIRM, Phase::Finished, event), None);
        assert_eq!(step(PublishMode::Continue, Phase::Finished, event), None);
    }
}

#[test]
fn flush_waits_for_the_bound_of_its_mode() {
    let mode = PublishMode::Confirm { timeout_ms: 17 };
    assert_eq!(
        step(mode, Phase::Enqueuing, Event::Enqueued),
        Some((Phase::Confirming, Action::Flush { timeout_ms: 17 }))
    );
}
