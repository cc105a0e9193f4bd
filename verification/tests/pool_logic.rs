use taskpool::{
    spawn_result, spawn_with_timeout_result, trigger_stop_result, DispatchAction, DispatchEvent,
    DispatchWait, Dispatcher, DrainAction, DrainEvent, DrainWait, Drainer, Forwarded, PoolConfig,
    Queued, SendOutcome, TaskPoolError,
};

#[test]
fn error_messages_match_each_variant() {
    assert_eq!(
        TaskPoolError::SendTimeout.message(),
        "failed to schedule task in pool: send timeout"
    );
    assert_eq!(
        TaskPoolError::ChannelClosed.message(),
        "failed to schedule task in pool: channel closed"
    );
    assert_eq!(
        TaskPoolError::FailedToSend.message(),
        "failed to schedule task in pool: can't send"
    );
    assert_ne!(TaskPoolError::SendTimeout, TaskPoolError::ChannelClosed);
}

#[test]
fn spawn_reports_any_failure_as_failed_to_send() {
    assert_eq!(spawn_result(SendOutcome::Delivered), Ok(()));
    assert_eq!(
        spawn_result(SendOutcome::Closed),
        Err(TaskPoolError::FailedToSend)
    );
    assert_eq!(
        spawn_result(SendOutcome::TimedOut),
        Err(TaskPoolError::FailedToSend)
    );
}

#[test]
fn spawn_with_timeout_tells_full_from_closed() {
    assert_eq!(spawn_with_timeout_result(SendOutcome::Delivered), Ok(()));
    assert_eq!(
        spawn_with_timeout_result(SendOutcome::TimedOut),
        Err(TaskPoolError::SendTimeout)
    );
    assert_eq!(
        spawn_with_timeout_result(SendOutcome::Closed),
        Err(TaskPoolError::ChannelClosed)
    );
}

#[test]
fn trigger_stop_fails_only_on_closed_queue() {
    assert_eq!(trigger_stop_result(SendOutcome::Delivered), Ok(()));
    assert_eq!(
        trigger_stop_result(SendOutcome::Closed),
        Err(TaskPoolError::ChannelClosed)
    );
}

#[test]
fn config_keeps_its_limits() {
    let config = PoolConfig::new(4, 64).expect("limits accepted");
    assert_eq!(config.concurrency(), 4);
    assert_eq!(config.queue_size(), 64);
}

#[test]
fn config_refuses_zero_limits() {
    assert!(PoolConfig::new(0, 64).is_none());
    assert!(PoolConfig::new(4, 0).is_none());
}

#[test]
fn config_follows_the_semaphore_ceiling() {
    let ceiling = tokio::sync::Semaphore::MAX_PERMITS;
    assert_eq!(ceiling, usize::MAX / 8);
    let at_ceiling = PoolConfig::new(ceiling, ceiling).expect("ceiling accepted");
    assert_eq!(at_ceiling.concurrency(), ceiling);
    assert!(PoolConfig::new(ceiling + 1, 1).is_none());
    assert!(PoolConfig::new(1, ceiling + 1).is_none());
    assert!(PoolConfig::new(usize::MAX, usize::MAX).is_none());
}

fn settle(d: &mut Dispatcher, granted: bool) -> DispatchAction {
    assert_eq!(d.waiting_for(), DispatchWait::NextMessage);
    assert_eq!(
        d.step(DispatchEvent::Received(Queued::Task)),
        DispatchAction::Continue
    );
    assert_eq!(d.waiting_for(), DispatchWait::Permit);
    if granted {
        d.step(DispatchEvent::PermitGranted)
    } else {
        d.step(DispatchEvent::PermitRefused)
    }
}

#[test]
fn dispatcher_launches_each_task_once_in_order() {
    let mut d = Dispatcher::new();
    for _ in 0..5 {
        assert_eq!(settle(&mut d, true), DispatchAction::Launch);
    }
    assert_eq!(
        d.step(DispatchEvent::Received(Queued::Stop)),
        DispatchAction::ForwardStop
    );
    assert_eq!(d.waiting_for(), DispatchWait::Nothing);
}

#[test]
fn dispatcher_discards_a_task_without_permit() {
    let mut d = Dispatcher::new();
    assert_eq!(settle(&mut d, false), DispatchAction::Discard);
    assert_eq!(d.waiting_for(), DispatchWait::NextMessage);
    assert_eq!(settle(&mut d, true), DispatchAction::Launch);
}

#[test]
fn dispatcher_takes_nothing_after_the_stop_marker() {
    let mut d = Dispatcher::new();
    for _ in 0..3 {
        assert_eq!(settle(&mut d, true), DispatchAction::Launch);
    }
    assert_eq!(
        d.step(DispatchEvent::Received(Queued::Stop)),
        DispatchAction::ForwardStop
    );
    assert_eq!(d.waiting_for(), DispatchWait::Nothing);
    assert_eq!(
        d.step(DispatchEvent::Received(Queued::Task)),
        DispatchAction::Continue
    );
    assert_eq!(d.step(DispatchEvent::PermitGranted), DispatchAction::Continue);
    assert_eq!(
        d.step(DispatchEvent::Received(Queued::Stop)),
        DispatchAction::Continue
    );
    assert_eq!(d.waiting_for(), DispatchWait::Nothing);
}

#[test]
fn dispatcher_stops_when_the_queue_closes() {
    let mut d = Dispatcher::new();
    assert_eq!(d.step(DispatchEvent::QueueClosed), DispatchAction::ForwardStop);
    assert_eq!(d.waiting_for(), DispatchWait::Nothing);
}

#[test]
fn dispatcher_ignores_events_it_did_not_wait_for() {
    let mut d = Dispatcher::new();
    assert_eq!(d.step(DispatchEvent::PermitGranted), DispatchAction::Continue);
    assert_eq!(d.waiting_for(), DispatchWait::NextMessage);
    d.step(DispatchEvent::Received(Queued::Task));
    assert_eq!(
        d.step(DispatchEvent::Received(Queued::Stop)),
        DispatchAction::Continue
    );
    assert_eq!(d.step(DispatchEvent::QueueClosed), DispatchAction::Continue);
    assert_eq!(d.waiting_for(), DispatchWait::Permit);
}

#[test]
fn drainer_signals_after_every_join() {
    let mut d = Drainer::new();
    for _ in 0..2 {
        assert_eq!(d.waiting_for(), DrainWait::NextMessage);
        assert_eq!(
            d.step(DrainEvent::Received(Forwarded::Handle)),
            DrainAction::Continue
        );
        assert_eq!(d.waiting_for(), DrainWait::Join);
        assert_eq!(
            d.step(DrainEvent::Received(Forwarded::Stop)),
            DrainAction::Continue
        );
        assert_eq!(d.waiting_for(), DrainWait::Join);
        assert_eq!(d.step(DrainEvent::Joined), DrainAction::Continue);
    }
    assert_eq!(
        d.step(DrainEvent::Received(Forwarded::Stop)),
        DrainAction::SignalDrained
    );
    assert_eq!(d.waiting_for(), DrainWait::Nothing);
    assert_eq!(
        d.step(DrainEvent::Received(Forwarded::Stop)),
        DrainAction::Continue
    );
    assert_eq!(d.step(DrainEvent::AckClosed), DrainAction::Continue);
}

#[test]
fn drainer_signals_when_the_channel_closes() {
    let mut d = Drainer::new();
    assert_eq!(d.step(DrainEvent::Joined), DrainAction::Continue);
    assert_eq!(d.waiting_for(), DrainWait::NextMessage);
    assert_eq!(d.step(DrainEvent::AckClosed), DrainAction::SignalDrained);
    assert_eq!(d.waiting_for(), DrainWait::Nothing);
}

#[test]
fn pipeline_joins_every_launched_job_before_the_signal() {
    // Tasks queued: five, then the stop marker, then one more that must be
    // left alone. Permits: the third is refused.
    let queued = [
        Queued::Task,
        Queued::Task,
        Queued::Task,
        Queued::Task,
        Queued::Task,
        Queued::Stop,
        Queued::Task,
    ];
    let mut dispatcher = Dispatcher::new();
    let mut ack: std::collections::VecDeque<Forwarded> = std::collections::VecDeque::new();
    let mut next = 0;
    let mut permits_asked = 0;
    let mut launched = 0;
    let mut discarded = 0;
    loop {
        let event = match dispatcher.waiting_for() {
            DispatchWait::NextMessage => {
                let m = queued[next];
                next += 1;
                DispatchEvent::Received(m)
            }
            DispatchWait::Permit => {
                permits_asked += 1;
                if permits_asked == 3 {
                    DispatchEvent::PermitRefused
                } else {
                    DispatchEvent::PermitGranted
                }
            }
            DispatchWait::Nothing => break,
        };
        match dispatcher.step(event) {
            DispatchAction::Launch => {
                launched += 1;
                ack.push_back(Forwarded::Handle);
            }
            DispatchAction::Discard => discarded += 1,
            DispatchAction::ForwardStop => ack.push_back(Forwarded::Stop),
            DispatchAction::Continue => {}
        }
    }
    assert_eq!(next, 6, "the task behind the marker is never taken");
    assert_eq!(launched, 4);
    assert_eq!(discarded, 1);

    let mut drainer = Drainer::new();
    let mut joined = 0;
    let mut signals = 0;
    loop {
        let event = match drainer.waiting_for() {
            DrainWait::NextMessage => match ack.pop_front() {
                Some(m) => DrainEvent::Received(m),
                None => DrainEvent::AckClosed,
            },
            DrainWait::Join => {
                joined += 1;
                DrainEvent::Joined
            }
            DrainWait::Nothing => break,
        };
        if drainer.step(event) == DrainAction::SignalDrained {
            signals += 1;
            assert_eq!(joined, launched, "every launched job joined before the signal");
        }
    }
    assert_eq!(signals, 1);
    assert!(ack.is_empty());
}
