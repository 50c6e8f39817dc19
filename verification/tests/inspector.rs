use logweb::logs_query::{
    build_logs_query, ensure_id_exists, id_exists_sql, validate_limit, validate_logs_request,
    validate_time_bounds, validation_step, IdTable, LogsRequest, RequestError, SqlParam,
    ValidationStep, LOGS_SELECT,
};
use logweb::query_result::{
    id_columns, matching_columns, query_text, replace_id, replace_ids, QueryCell,
};
use std::collections::HashMap;

fn request() -> LogsRequest {
    LogsRequest {
        limit: None,
        level: None,
        producer: None,
        utc_lowest: None,
        utc_highest: None,
        content: None,
    }
}

#[test]
fn limit_defaults_and_bounds() {
    assert_eq!(validate_limit(&request()), Ok(50));
    let mut r = request();
    r.limit = Some(500);
    assert_eq!(validate_limit(&r), Ok(500));
    r.limit = Some(0);
    assert_eq!(validate_limit(&r), Err(RequestError::LimitOutOfRange { limit: 0 }));
    r.limit = Some(501);
    let err = validate_limit(&r).unwrap_err();
    assert_eq!(err.message(), "limit must be between 1 and 500, got 501");
}

#[test]
fn time_bounds_are_checked_in_order() {
    let mut r = request();
    r.utc_lowest = Some(-5);
    r.utc_highest = Some(-7);
    let err = validate_time_bounds(&r).unwrap_err();
    assert_eq!(err, RequestError::NegativeLowest { value: -5 });
    assert_eq!(err.message(), "utc_lowest must be greater than or equal to 0, got -5");
    r.utc_lowest = Some(10);
    let err = validate_time_bounds(&r).unwrap_err();
    assert_eq!(err.message(), "utc_highest must be greater than or equal to 0, got -7");
    r.utc_highest = Some(3);
    let err = validate_time_bounds(&r).unwrap_err();
    assert_eq!(
        err.message(),
        "utc_lowest must be less than or equal to utc_highest, got 10 > 3"
    );
    r.utc_highest = Some(10);
    assert_eq!(validate_time_bounds(&r), Ok(()));
}

#[test]
fn missing_ids_are_reported() {
    assert_eq!(
        id_exists_sql(IdTable::Producer),
        "SELECT EXISTS(SELECT 1 FROM Producer WHERE id = ?1)"
    );
    assert_eq!(ensure_id_exists(IdTable::Level, 4, 1), Ok(()));
    let err = ensure_id_exists(IdTable::Level, 4, 0).unwrap_err();
    assert_eq!(err.message(), "Level id 4 does not exist");
    let mut r = request();
    r.producer = Some(-9223372036854775808);
    let err = validate_logs_request(&r, true, false).unwrap_err();
    assert_eq!(err.message(), "Producer id -9223372036854775808 does not exist");
}

#[test]
fn validation_checks_limit_before_ids() {
    let mut r = request();
    r.limit = Some(1000);
    r.level = Some(3);
    assert_eq!(
        validate_logs_request(&r, false, false),
        Err(RequestError::LimitOutOfRange { limit: 1000 })
    );
    r.limit = Some(20);
    assert_eq!(
        validate_logs_request(&r, false, true),
        Err(RequestError::UnknownId { table: IdTable::Level, id: 3 })
    );
    assert_eq!(validate_logs_request(&r, true, false), Ok(20));
}

#[test]
fn query_without_filters() {
    let q = build_logs_query(&request(), 50);
    assert_eq!(q.sql, format!("{LOGS_SELECT} ORDER BY Log.id DESC LIMIT ?"));
    assert_eq!(q.params, vec![SqlParam::Integer(50)]);
}

#[test]
fn query_with_every_filter() {
    let r = LogsRequest {
        limit: Some(7),
        level: Some(2),
        producer: Some(3),
        utc_lowest: Some(100),
        utc_highest: Some(200),
        content: Some("  Disk FULL \t".to_owned()),
    };
    let q = build_logs_query(&r, 7);
    assert_eq!(
        q.sql,
        format!(
            "{LOGS_SELECT} AND Log.level = ? AND Log.producer = ? AND Log.occurrence >= ? AND Log.occurrence <= ? AND instr(lower(Log.content), ?) > 0 ORDER BY Log.id DESC LIMIT ?"
        )
    );
    assert_eq!(
        q.params,
        vec![
            SqlParam::Integer(2),
            SqlParam::Integer(3),
            SqlParam::Integer(100),
            SqlParam::Integer(200),
            SqlParam::Text("disk full".to_owned()),
            SqlParam::Integer(7),
        ]
    );
    assert_eq!(q.sql.matches('?').count(), q.params.len());
}

#[test]
fn blank_content_filter_is_ignored() {
    let mut r = request();
    r.content = Some(" \n ".to_owned());
    let q = build_logs_query(&r, 5);
    assert_eq!(q.params, vec![SqlParam::Integer(5)]);
}

#[test]
fn query_text_is_trimmed() {
    assert_eq!(query_text("  SELECT 1;\n").unwrap(), "SELECT 1;");
    let err = query_text(" \t ").unwrap_err();
    assert_eq!(err.message(), "SQL query cannot be empty");
}

#[test]
fn columns_match_ignoring_ascii_case() {
    let columns: Vec<String> = ["id", "Producer", "level", "PRODUCER", "producers"]
        .iter()
        .map(|s| s.to_string())
        .collect();
    assert_eq!(matching_columns(&columns, "producer"), vec![1, 3]);
    let ids = id_columns(&columns);
    assert_eq!(ids.producer, vec![1, 3]);
    assert_eq!(ids.level, vec![2]);
}

#[test]
fn ids_are_replaced_by_names() {
    let mut names = HashMap::new();
    names.insert(1i64, "nginx".to_owned());
    names.insert(2i64, "sshd".to_owned());
    let mut rows = vec![
        vec![QueryCell::Id(10), QueryCell::Id(1), QueryCell::Id(2)],
        vec![QueryCell::Id(11), QueryCell::Id(9)],
        vec![QueryCell::Id(12)],
        vec![QueryCell::Other, QueryCell::Other],
    ];
    replace_ids(&mut rows, &vec![1, 2, 1], &names);
    assert!(matches!(rows[0][0], QueryCell::Id(10)));
    assert!(matches!(&rows[0][1], QueryCell::Name(n) if n == "nginx"));
    assert!(matches!(&rows[0][2], QueryCell::Name(n) if n == "sshd"));
    assert!(matches!(rows[1][1], QueryCell::Id(9)));
    assert_eq!(rows[2].len(), 1);
    assert!(matches!(rows[3][1], QueryCell::Other));

    let before = format!("{rows:?}");
    replace_ids(&mut rows, &vec![1, 2, 1], &names);
    assert_eq!(format!("{rows:?}"), before);

    let mut cell = QueryCell::Id(2);
    replace_id(&mut cell, &names);
    assert!(matches!(&cell, QueryCell::Name(n) if n == "sshd"));
}

#[test]
fn validation_steps_query_ids_in_order() {
    let mut r = request();
    r.level = Some(3);
    r.producer = Some(7);
    assert!(matches!(validation_step(&r, None, None), ValidationStep::Query(IdTable::Level, 3)));
    assert!(matches!(
        validation_step(&r, Some(false), None),
        ValidationStep::Finish(Err(RequestError::UnknownId { table: IdTable::Level, id: 3 }))
    ));
    assert!(matches!(
        validation_step(&r, Some(true), None),
        ValidationStep::Query(IdTable::Producer, 7)
    ));
    assert!(matches!(
        validation_step(&r, Some(true), Some(false)),
        ValidationStep::Finish(Err(RequestError::UnknownId { table: IdTable::Producer, id: 7 }))
    ));
    assert!(matches!(validation_step(&r, Some(true), Some(true)), ValidationStep::Finish(Ok(50))));
    r.limit = Some(0);
    assert!(matches!(
        validation_step(&r, None, None),
        ValidationStep::Finish(Err(RequestError::LimitOutOfRange { limit: 0 }))
    ));
    let mut t = request();
    t.utc_lowest = Some(5);
    t.utc_highest = Some(4);
    assert!(matches!(
        validation_step(&t, None, None),
        ValidationStep::Finish(Err(RequestError::InvertedRange { lowest: 5, highest: 4 }))
    ));
}
