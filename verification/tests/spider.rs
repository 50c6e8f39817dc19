use logweb::insert_plan::{plan_inserts, InsertPlanError, PlannedMessage, StoredLog};

fn log(ts: u64, sender: &str, producer: &str, message: &str) -> StoredLog {
    StoredLog {
        timestamp_utc_usec: ts,
        sender: sender.to_owned(),
        producer: producer.to_owned(),
        message: message.to_owned(),
    }
}

#[test]
fn senders_and_producers_are_registered_once_in_order() {
    let logs = vec![
        log(1, "10.0.0.1:5000", "nginx", "a"),
        log(2, "10.0.0.2:5000", "nginx", "b"),
        log(3, "10.0.0.1:5000", "sshd", "c"),
        log(4, "10.0.0.2:5000", "nginx", "d"),
    ];
    let plan = plan_inserts(&logs).unwrap();
    assert_eq!(plan.senders, vec!["10.0.0.1:5000", "10.0.0.2:5000"]);
    assert_eq!(plan.producers, vec!["nginx", "sshd"]);
    assert_eq!(
        plan.messages,
        vec![
            PlannedMessage { timestamp_utc_usec: 1, sender: 0, producer: 0 },
            PlannedMessage { timestamp_utc_usec: 2, sender: 1, producer: 0 },
            PlannedMessage { timestamp_utc_usec: 3, sender: 0, producer: 1 },
            PlannedMessage { timestamp_utc_usec: 4, sender: 1, producer: 0 },
        ]
    );
}

#[test]
fn oversized_timestamp_is_refused() {
    let logs = vec![
        log(1, "a", "p", "ok"),
        log(i64::MAX as u64, "a", "p", "still ok"),
        log(i64::MAX as u64 + 1, "a", "p", "too large"),
        log(u64::MAX, "a", "p", "too large"),
    ];
    let err = plan_inserts(&logs).err().unwrap();
    assert_eq!(err, InsertPlanError::TimestampOutOfRange { index: 2 });
    assert_eq!(err.message(), "timestamp_utc_usec does not fit into SQLite INTEGER");
}

#[test]
fn empty_batch_plans_nothing() {
    let plan = plan_inserts(&[]).unwrap();
    assert!(plan.senders.is_empty() && plan.producers.is_empty() && plan.messages.is_empty());
}
