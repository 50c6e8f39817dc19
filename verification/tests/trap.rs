use logweb::batch::{approx_log_size, Batch, BatchStep, Log, SkippedLogs};
use logweb::classify::LogClassifier;
use logweb::level::LogLevel;
use logweb::sender::{connection_step, ConnectionAction, ConnectionEvent, QueuedLog, RetryAction, RetryEvent, RetryWait, SendAction, SendEvent, SendSession};

fn line(n: u64, text: &str) -> Log {
    Log { occurrence: n, level: LogLevel::Info, content: text.to_owned() }
}

#[test]
fn approx_size_adds_fixed_overhead() {
    assert_eq!(approx_log_size(""), 25);
    assert_eq!(approx_log_size("héllo"), 6 + 25);
}

#[test]
fn batch_flushes_when_large_or_old() {
    let mut b = Batch::new(100, 5_000_000_000);
    assert!(b.is_empty());
    b.start(line(1, "a"), 40);
    assert_eq!(b.next_step(1_000_000_000), BatchStep::WaitNanos(4_000_000_000));
    assert_eq!(b.next_step(5_000_000_000), BatchStep::Flush);
    b.push(line(2, "b"), 60);
    assert_eq!(b.next_step(0), BatchStep::Flush);
    let logs = b.take();
    assert_eq!(logs.len(), 2);
    assert_eq!(logs[0].occurrence, 1);
    assert_eq!(logs[1].content, "b");
    assert!(b.is_empty());
    assert!(b.finish().is_none());
    b.start(line(3, "c"), 1);
    assert_eq!(b.finish().map(|l| l.len()), Some(1));
}

#[test]
fn skipped_count_is_reported_once() {
    let mut s = SkippedLogs::new();
    assert_eq!(s.take_for_report(), None);
    s.add(2);
    s.add(3);
    assert_eq!(s.take_for_report(), Some(5));
    assert_eq!(s.take_for_report(), None);
    s.add(usize::MAX);
    s.add(2);
    assert_eq!(s.take_for_report(), Some(1));
}

fn queued(n: u64, text: &str, approx_bytes: usize) -> QueuedLog {
    QueuedLog { log: line(n, text), approx_bytes }
}

#[test]
fn session_classifies_and_sends_when_old_enough() {
    let classifier = LogClassifier::from_str("error=fail").ok().unwrap();
    let mut session = SendSession::new(100, 1_000);
    match session.step(SendEvent::Received(queued(1, "it did fail", 10)), 5, &classifier) {
        SendAction::WaitFor(w) => assert_eq!(w, 1_000),
        _ => panic!("expected a wait"),
    }
    match session.step(SendEvent::Received(queued(2, "fine", 10)), 400, &classifier) {
        SendAction::WaitFor(w) => assert_eq!(w, 605),
        _ => panic!("expected a wait"),
    }
    match session.step(SendEvent::TimedOut, 1_005, &classifier) {
        SendAction::Send(logs) => {
            assert_eq!(logs.len(), 2);
            assert_eq!(logs[0].level, LogLevel::Error);
            assert_eq!(logs[0].content, "it did fail");
            assert_eq!(logs[1].level, LogLevel::Unknown);
        }
        _ => panic!("expected a send"),
    }
    assert!(matches!(session.step(SendEvent::Sent, 1_006, &classifier), SendAction::ReportAndWait));
}

#[test]
fn session_sends_large_batch_at_once_and_finishes() {
    let classifier = LogClassifier::new();
    let mut session = SendSession::new(100, 1_000);
    match session.step(SendEvent::Received(queued(1, "big", 150)), 0, &classifier) {
        SendAction::Send(logs) => assert_eq!(logs.len(), 1),
        _ => panic!("expected a send"),
    }
    assert!(matches!(session.step(SendEvent::Sent, 1, &classifier), SendAction::ReportAndWait));
    assert!(matches!(
        session.step(SendEvent::Received(queued(2, "a", 1)), 10, &classifier),
        SendAction::WaitFor(1_000)
    ));
    match session.step(SendEvent::Closed, 20, &classifier) {
        SendAction::Finish(Some(logs)) => assert_eq!(logs[0].content, "a"),
        _ => panic!("expected the rest"),
    }
    assert!(matches!(session.step(SendEvent::Closed, 30, &classifier), SendAction::Finish(None)));
}

#[test]
fn retry_wait_counts_skipped_lines() {
    let wait = RetryWait::new(1_000, 30_000);
    assert_eq!(wait.next(1_000), RetryAction::WaitFor(30_000));
    assert_eq!(wait.next(31_000), RetryAction::Reconnect);
    let mut skipped = SkippedLogs::new();
    assert_eq!(wait.on_event(RetryEvent::Received, &mut skipped), None);
    assert_eq!(wait.on_event(RetryEvent::Received, &mut skipped), None);
    assert_eq!(wait.on_event(RetryEvent::TimedOut, &mut skipped), Some(RetryAction::Reconnect));
    assert_eq!(wait.on_event(RetryEvent::Closed, &mut skipped), Some(RetryAction::Stop));
    assert_eq!(skipped.take_for_report(), Some(2));
}

#[test]
fn sending_thread_stages() {
    assert_eq!(connection_step(ConnectionEvent::ConnectFailed), ConnectionAction::WaitToRetry);
    assert_eq!(connection_step(ConnectionEvent::SessionEnded(true)), ConnectionAction::FinishAndStop);
    assert_eq!(connection_step(ConnectionEvent::SessionEnded(false)), ConnectionAction::WaitToRetry);
    assert_eq!(connection_step(ConnectionEvent::RetryWaitEnded(true)), ConnectionAction::Connect);
    assert_eq!(connection_step(ConnectionEvent::RetryWaitEnded(false)), ConnectionAction::Stop);
}
