//! Requests for the log list of the log browser: their validation and the
//! SQL query that answers them.

use crate::chars::{str_chars, string_from_chars, trim, trim_bounds};
use crate::level::{str_lowercase, to_lowercase};
use crate::text::{decimal, push_decimal, push_signed_decimal, signed_decimal};
use vstd::prelude::*;

verus! {

/// Number of rows listed when a request names no limit.
pub const DEFAULT_LOG_LIMIT: usize = 50;

/// Largest number of rows a request may ask for.
pub const MAX_LOG_LIMIT: usize = 500;

/// A request for the newest log rows, with optional filters.
#[derive(Debug)]
pub struct LogsRequest {
    pub limit: Option<usize>,
    pub level: Option<i64>,
    pub producer: Option<i64>,
    pub utc_lowest: Option<i64>,
    pub utc_highest: Option<i64>,
    pub content: Option<String>,
}

/// A `LogsRequest` with its text filter as characters.
pub struct LogsRequestView {
    pub limit: Option<usize>,
    pub level: Option<i64>,
    pub producer: Option<i64>,
    pub utc_lowest: Option<i64>,
    pub utc_highest: Option<i64>,
    pub content: Option<Seq<char>>,
}

impl View for LogsRequest {
    type V = LogsRequestView;

    open spec fn view(&self) -> LogsRequestView {
        LogsRequestView {
            limit: self.limit,
            level: self.level,
            producer: self.producer,
            utc_lowest: self.utc_lowest,
            utc_highest: self.utc_highest,
            content: match self.content {
                Some(c) => Some(c@),
                None => None,
            },
        }
    }
}

/// The table an id filter refers to.
#[derive(Clone, Copy, PartialEq, Eq, Structural, Debug)]
pub enum IdTable {
    Level,
    Producer,
}

/// Why a request was refused.
#[derive(Clone, Copy, PartialEq, Eq, Structural, Debug)]
pub enum RequestError {
    LimitOutOfRange { limit: usize },
    UnknownId { table: IdTable, id: i64 },
    NegativeLowest { value: i64 },
    NegativeHighest { value: i64 },
    InvertedRange { lowest: i64, highest: i64 },
}

/// The name of `table` in messages.
pub open spec fn table_label(table: IdTable) -> Seq<char> {
    match table {
        IdTable::Level => "Level"@,
        IdTable::Producer => "Producer"@,
    }
}

/// The message that describes `e`.
pub open spec fn request_error_message(e: RequestError) -> Seq<char> {
    match e {
        RequestError::LimitOutOfRange { limit } => "limit must be between 1 and "@ + decimal(
            MAX_LOG_LIMIT as nat,
        ) + ", got "@ + decimal(limit as nat),
        RequestError::UnknownId { table, id } => table_label(table) + " id "@ + signed_decimal(
            id as int,
        ) + " does not exist"@,
        RequestError::NegativeLowest { value } => "utc_lowest must be greater than or equal to 0, got "@
            + signed_decimal(value as int),
        RequestError::NegativeHighest { value } =>
            "utc_highest must be greater than or equal to 0, got "@ + signed_decimal(value as int),
        RequestError::InvertedRange { lowest, highest } =>
            "utc_lowest must be less than or equal to utc_highest, got "@ + signed_decimal(
            lowest as int,
        ) + " > "@ + signed_decimal(highest as int),
    }
}

impl RequestError {
    /// A one-line description of the error.
    pub fn message(&self) -> (text: String)
        ensures
            text@ == request_error_message(*self),
    {
        match self {
            RequestError::LimitOutOfRange { limit } => {
                let mut text = "limit must be between 1 and ".to_owned();
                push_decimal(&mut text, MAX_LOG_LIMIT as u64);
                text.append(", got ");
                push_decimal(&mut text, *limit as u64);
                text
            },
            RequestError::UnknownId { table, id } => {
                let mut text = match table {
                    IdTable::Level => "Level".to_owned(),
                    IdTable::Producer => "Producer".to_owned(),
                };
                text.append(" id ");
                push_signed_decimal(&mut text, *id);
                text.append(" does not exist");
                text
            },
            RequestError::NegativeLowest { value } => {
                let mut text = "utc_lowest must be greater than or equal to 0, got ".to_owned();
                push_signed_decimal(&mut text, *value);
                text
            },
            RequestError::NegativeHighest { value } => {
                let mut text = "utc_highest must be greater than or equal to 0, got ".to_owned();
                push_signed_decimal(&mut text, *value);
                text
            },
            RequestError::InvertedRange { lowest, highest } => {
                let mut text = "utc_lowest must be less than or equal to utc_highest, got ".to_owned();
                push_signed_decimal(&mut text, *lowest);
                text.append(" > ");
                push_signed_decimal(&mut text, *highest);
                text
            },
        }
    }
}

/// The row limit of a request: the default where it names none; refused
/// outside `1..=MAX_LOG_LIMIT`.
pub open spec fn spec_request_limit(r: LogsRequestView) -> Result<usize, RequestError> {
    let limit = match r.limit {
        Some(l) => l,
        None => DEFAULT_LOG_LIMIT,
    };
    if limit == 0 || limit > MAX_LOG_LIMIT {
        Err(RequestError::LimitOutOfRange { limit })
    } else {
        Ok(limit)
    }
}

/// The checks of the time bounds of a request, in order: neither bound is
/// negative, and the lower bound is not above the upper one.
pub open spec fn spec_time_bounds(r: LogsRequestView) -> Result<(), RequestError> {
    if r.utc_lowest matches Some(l) && l < 0 {
        Err(RequestError::NegativeLowest { value: r.utc_lowest->0 })
    } else if r.utc_highest matches Some(h) && h < 0 {
        Err(RequestError::NegativeHighest { value: r.utc_highest->0 })
    } else if r.utc_lowest matches Some(l) && r.utc_highest matches Some(h) && l > h {
        Err(RequestError::InvertedRange { lowest: r.utc_lowest->0, highest: r.utc_highest->0 })
    } else {
        Ok(())
    }
}

/// The whole validation of a request, given whether its level and producer
/// ids exist: the limit, then the level id, then the producer id, then the
/// time bounds. Gives the limit.
pub open spec fn spec_validate_logs_request(
    r: LogsRequestView,
    level_exists: bool,
    producer_exists: bool,
) -> Result<usize, RequestError> {
    match spec_request_limit(r) {
        Err(e) => Err(e),
        Ok(limit) => if r.level matches Some(id) && !level_exists {
            Err(RequestError::UnknownId { table: IdTable::Level, id: r.level->0 })
        } else if r.producer matches Some(id) && !producer_exists {
            Err(RequestError::UnknownId { table: IdTable::Producer, id: r.producer->0 })
        } else {
            match spec_time_bounds(r) {
                Err(e) => Err(e),
                Ok(()) => Ok(limit),
            }
        },
    }
}

/// An accepted request asks for 1 to `MAX_LOG_LIMIT` rows, within a time
/// range whose bounds are not negative and not inverted, and every id it
/// filters on exists.
pub proof fn lemma_accepted_request(r: LogsRequestView, level_exists: bool, producer_exists: bool)
    requires
        spec_validate_logs_request(r, level_exists, producer_exists) is Ok,
    ensures
        ({
            let limit = spec_validate_logs_request(r, level_exists, producer_exists)->Ok_0;
            &&& 1 <= limit <= MAX_LOG_LIMIT
            &&& r.limit is None ==> limit == DEFAULT_LOG_LIMIT
            &&& r.limit is Some ==> limit == r.limit->0
            &&& r.level is Some ==> level_exists
            &&& r.producer is Some ==> producer_exists
            &&& r.utc_lowest is Some ==> r.utc_lowest->0 >= 0
            &&& r.utc_highest is Some ==> r.utc_highest->0 >= 0
            &&& (r.utc_lowest is Some && r.utc_highest is Some) ==> r.utc_lowest->0
                <= r.utc_highest->0
        }),
{
}

/// The row limit of `request`: its own, or `DEFAULT_LOG_LIMIT`; refused
/// outside `1..=MAX_LOG_LIMIT`.
pub fn validate_limit(request: &LogsRequest) -> (res: Result<usize, RequestError>)
    ensures
        res == spec_request_limit(request@),
{
    let limit = match request.limit {
        Some(l) => l,
        None => DEFAULT_LOG_LIMIT,
    };
    if limit == 0 || limit > MAX_LOG_LIMIT {
        Err(RequestError::LimitOutOfRange { limit })
    } else {
        Ok(limit)
    }
}

/// The SQL that counts (0 or 1) the rows of `table` with the id `?1`.
pub fn id_exists_sql(table: IdTable) -> (sql: &'static str)
    ensures
        sql@ == (match table {
            IdTable::Level => "SELECT EXISTS(SELECT 1 FROM Level WHERE id = ?1)"@,
            IdTable::Producer => "SELECT EXISTS(SELECT 1 FROM Producer WHERE id = ?1)"@,
        }),
{
    match table {
        IdTable::Level => "SELECT EXISTS(SELECT 1 FROM Level WHERE id = ?1)",
        IdTable::Producer => "SELECT EXISTS(SELECT 1 FROM Producer WHERE id = ?1)",
    }
}

/// Refuses the id `id` of `table` where the existence query answered 0.
pub fn ensure_id_exists(table: IdTable, id: i64, exists: i64) -> (res: Result<(), RequestError>)
    ensures
        res == (if exists == 0 {
            Err(RequestError::UnknownId { table, id })
        } else {
            Ok(())
        }),
{
    if exists == 0 {
        Err(RequestError::UnknownId { table, id })
    } else {
        Ok(())
    }
}

/// Checks the time bounds of `request`: neither negative, the lower not
/// above the upper.
pub fn validate_time_bounds(request: &LogsRequest) -> (res: Result<(), RequestError>)
    ensures
        res == spec_time_bounds(request@),
{
    if let Some(l) = request.utc_lowest {
        if l < 0 {
            return Err(RequestError::NegativeLowest { value: l });
        }
    }
    if let Some(h) = request.utc_highest {
        if h < 0 {
            return Err(RequestError::NegativeHighest { value: h });
        }
    }
    if let (Some(l), Some(h)) = (request.utc_lowest, request.utc_highest) {
        if l > h {
            return Err(RequestError::InvertedRange { lowest: l, highest: h });
        }
    }
    Ok(())
}

/// Validates `request` where the answers of the id existence queries are
/// known: `level_exists` for its level id, `producer_exists` for its
/// producer id (each ignored where the request has no such id).
pub fn validate_logs_request(request: &LogsRequest, level_exists: bool, producer_exists: bool) -> (res:
    Result<usize, RequestError>)
    ensures
        res == spec_validate_logs_request(request@, level_exists, producer_exists),
{
    let limit = match validate_limit(request) {
        Ok(l) => l,
        Err(e) => {
            return Err(e);
        },
    };
    if let Some(id) = request.level {
        if !level_exists {
            return Err(RequestError::UnknownId { table: IdTable::Level, id });
        }
    }
    if let Some(id) = request.producer {
        if !producer_exists {
            return Err(RequestError::UnknownId { table: IdTable::Producer, id });
        }
    }
    match validate_time_bounds(request) {
        Ok(()) => Ok(limit),
        Err(e) => Err(e),
    }
}

/// The next step of validating a request, where the existence queries are
/// run one at a time between the checks.
#[derive(Debug)]
pub enum ValidationStep {
    /// Ask whether the id exists in the table, then step again with the
    /// answer.
    Query(IdTable, i64),
    /// The validation is over: the limit, or why the request is refused.
    Finish(Result<usize, RequestError>),
}

/// The step of validating `r`, given the answers of the existence queries
/// run so far (`None` where it was not run): the limit is checked first;
/// then the level id is asked about, then the producer id, each only where
/// the request filters on it and every earlier check passed; then the time
/// bounds.
pub open spec fn spec_validation_step(
    r: LogsRequestView,
    level_answer: Option<bool>,
    producer_answer: Option<bool>,
) -> ValidationStep {
    match spec_request_limit(r) {
        Err(e) => ValidationStep::Finish(Err(e)),
        Ok(limit) => if r.level is Some && level_answer is None {
            ValidationStep::Query(IdTable::Level, r.level->0)
        } else if r.level is Some && level_answer == Some(false) {
            ValidationStep::Finish(Err(RequestError::UnknownId { table: IdTable::Level, id: r.level->0 }))
        } else if r.producer is Some && producer_answer is None {
            ValidationStep::Query(IdTable::Producer, r.producer->0)
        } else if r.producer is Some && producer_answer == Some(false) {
            ValidationStep::Finish(
                Err(RequestError::UnknownId { table: IdTable::Producer, id: r.producer->0 }),
            )
        } else {
            match spec_time_bounds(r) {
                Err(e) => ValidationStep::Finish(Err(e)),
                Ok(()) => ValidationStep::Finish(Ok(limit)),
            }
        },
    }
}

/// Whether `answer`, where there is one, is `exists`.
pub open spec fn answers(answer: Option<bool>, exists: bool) -> bool {
    answer is None || answer == Some(exists)
}

/// Stepping through the validation with true answers gives the whole
/// validation's result: a step only asks about an id the request filters
/// on and that was not asked about yet, the producer only once the level
/// passed, and a finished step gives `spec_validate_logs_request` whatever
/// the queries not run would have answered.
pub proof fn lemma_validation_steps(
    r: LogsRequestView,
    level_answer: Option<bool>,
    producer_answer: Option<bool>,
    level_exists: bool,
    producer_exists: bool,
)
    requires
        answers(level_answer, level_exists),
        answers(producer_answer, producer_exists),
        level_answer is Some ==> r.level is Some,
        producer_answer is Some ==> r.producer is Some,
    ensures
        ({
            let step = spec_validation_step(r, level_answer, producer_answer);
            &&& step matches ValidationStep::Finish(res) ==> res == spec_validate_logs_request(
                r,
                level_exists,
                producer_exists,
            )
            &&& step matches ValidationStep::Query(table, id) ==> spec_request_limit(r) is Ok && (
            match table {
                IdTable::Level => r.level == Some(id) && level_answer is None,
                IdTable::Producer => r.producer == Some(id) && producer_answer is None && (
                r.level is None || level_answer == Some(true)),
            })
        }),
        (r.level is Some ==> level_answer is Some) && (r.producer is Some ==> producer_answer
            is Some) ==> spec_validation_step(r, level_answer, producer_answer) is Finish,
{
}

/// The next step of validating `request`, given the answers of the
/// existence queries run so far.
pub fn validation_step(
    request: &LogsRequest,
    level_answer: Option<bool>,
    producer_answer: Option<bool>,
) -> (step: ValidationStep)
    ensures
        step == spec_validation_step(request@, level_answer, producer_answer),
{
    let limit = match validate_limit(request) {
        Ok(l) => l,
        Err(e) => {
            return ValidationStep::Finish(Err(e));
        },
    };
    if let Some(id) = request.level {
        match level_answer {
            None => {
                return ValidationStep::Query(IdTable::Level, id);
            },
            Some(false) => {
                return ValidationStep::Finish(
                    Err(RequestError::UnknownId { table: IdTable::Level, id }),
                );
            },
            Some(true) => {},
        }
    }
    if let Some(id) = request.producer {
        match producer_answer {
            None => {
                return ValidationStep::Query(IdTable::Producer, id);
            },
            Some(false) => {
                return ValidationStep::Finish(
                    Err(RequestError::UnknownId { table: IdTable::Producer, id }),
                );
            },
            Some(true) => {},
        }
    }
    match validate_time_bounds(request) {
        Ok(()) => ValidationStep::Finish(Ok(limit)),
        Err(e) => ValidationStep::Finish(Err(e)),
    }
}

/// A parameter bound to a `?` of a query.
#[derive(PartialEq, Eq, Debug)]
pub enum SqlParam {
    Integer(i64),
    Text(String),
}

/// A `SqlParam` with its text as characters.
pub enum SqlParamView {
    Integer(i64),
    Text(Seq<char>),
}

impl View for SqlParam {
    type V = SqlParamView;

    open spec fn view(&self) -> SqlParamView {
        match self {
            SqlParam::Integer(i) => SqlParamView::Integer(*i),
            SqlParam::Text(t) => SqlParamView::Text(t@),
        }
    }
}

/// An SQL statement and the values of its `?` placeholders, in order.
pub struct LogsQuery {
    pub sql: String,
    pub params: Vec<SqlParam>,
}

/// The text filter of a request: the content trimmed and lowercased, where
/// anything is left after trimming.
pub open spec fn spec_content_filter(content: Option<Seq<char>>) -> Option<Seq<char>> {
    match content {
        Some(c) => if trim(c).len() == 0 {
            None
        } else {
            Some(str_lowercase(trim(c)))
        },
        None => None,
    }
}

/// The head of the log listing query.
pub const LOGS_SELECT: &'static str = r#"
        SELECT
            Log.id,
            Log.occurrence,
            Log.level,
            Level.text,
            Log.producer,
            Producer.name,
            Log.content
        FROM Log
        JOIN Level ON Level.id = Log.level
        JOIN Producer ON Producer.id = Log.producer
        WHERE 1 = 1
        "#;

/// `clause` where `present`, else nothing.
pub open spec fn clause_if(present: bool, clause: Seq<char>) -> Seq<char> {
    if present {
        clause
    } else {
        Seq::empty()
    }
}

/// `[p]` where `present`, else nothing.
pub open spec fn param_if(present: bool, p: SqlParamView) -> Seq<SqlParamView> {
    if present {
        seq![p]
    } else {
        Seq::empty()
    }
}

/// The SQL text of the listing query for `r`: one condition for each filter
/// it has, in a fixed order, newest rows first, at most `limit` rows.
pub open spec fn spec_logs_sql(r: LogsRequestView) -> Seq<char> {
    LOGS_SELECT@ + clause_if(r.level is Some, " AND Log.level = ?"@) + clause_if(
        r.producer is Some,
        " AND Log.producer = ?"@,
    ) + clause_if(r.utc_lowest is Some, " AND Log.occurrence >= ?"@) + clause_if(
        r.utc_highest is Some,
        " AND Log.occurrence <= ?"@,
    ) + clause_if(
        spec_content_filter(r.content) is Some,
        " AND instr(lower(Log.content), ?) > 0"@,
    ) + " ORDER BY Log.id DESC LIMIT ?"@
}

/// The parameters of the listing query for `r`, in the order of its `?`s.
pub open spec fn spec_logs_params(r: LogsRequestView, limit: usize) -> Seq<SqlParamView> {
    param_if(r.level is Some, SqlParamView::Integer(r.level->0)) + param_if(
        r.producer is Some,
        SqlParamView::Integer(r.producer->0),
    ) + param_if(r.utc_lowest is Some, SqlParamView::Integer(r.utc_lowest->0)) + param_if(
        r.utc_highest is Some,
        SqlParamView::Integer(r.utc_highest->0),
    ) + param_if(
        spec_content_filter(r.content) is Some,
        SqlParamView::Text(spec_content_filter(r.content)->0),
    ) + seq![SqlParamView::Integer(limit as i64)]
}

/// The number of `?` placeholders in `s`.
pub open spec fn count_placeholders(s: Seq<char>) -> nat
    decreases s.len(),
{
    if s.len() == 0 {
        0
    } else {
        count_placeholders(s.drop_last()) + if s.last() == '?' {
            1nat
        } else {
            0nat
        }
    }
}

proof fn lemma_count_concat(a: Seq<char>, b: Seq<char>)
    ensures
        count_placeholders(a + b) == count_placeholders(a) + count_placeholders(b),
    decreases b.len(),
{
    if b.len() == 0 {
    } else {
        lemma_count_concat(a, b.drop_last());
        assert((a + b).drop_last() =~= a + b.drop_last());
    }
}

proof fn lemma_count_none(s: Seq<char>)
    requires
        forall|i: int| 0 <= i < s.len() ==> s[i] != '?',
    ensures
        count_placeholders(s) == 0,
    decreases s.len(),
{
    if s.len() > 0 {
        lemma_count_none(s.drop_last());
    }
}

/// `s` ends in its only `?`.
proof fn lemma_count_one(s: Seq<char>)
    requires
        s.len() > 0,
        s.last() == '?',
        forall|i: int| 0 <= i < s.len() - 1 ==> s[i] != '?',
    ensures
        count_placeholders(s) == 1,
{
    lemma_count_none(s.drop_last());
}

proof fn lemma_count_clause(present: bool, clause: Seq<char>)
    requires
        clause.len() > 0,
        clause.last() == '?',
        forall|i: int| 0 <= i < clause.len() - 1 ==> clause[i] != '?',
    ensures
        count_placeholders(clause_if(present, clause)) == if present {
            1nat
        } else {
            0nat
        },
{
    if present {
        lemma_count_one(clause);
    } else {
        lemma_count_none(clause_if(present, clause));
    }
}

/// The listing query has exactly one parameter for each of its `?`
/// placeholders.
pub proof fn lemma_logs_query_placeholders(r: LogsRequestView, limit: usize)
    ensures
        count_placeholders(spec_logs_sql(r)) == spec_logs_params(r, limit).len(),
{
    reveal_strlit(r#"
        SELECT
            Log.id,
            Log.occurrence,
            Log.level,
            Level.text,
            Log.producer,
            Producer.name,
            Log.content
        FROM Log
        JOIN Level ON Level.id = Log.level
        JOIN Producer ON Producer.id = Log.producer
        WHERE 1 = 1
        "#);
    reveal_strlit(" AND Log.level = ?");
    reveal_strlit(" AND Log.producer = ?");
    reveal_strlit(" AND Log.occurrence >= ?");
    reveal_strlit(" AND Log.occurrence <= ?");
    reveal_strlit(" AND instr(lower(Log.content), ?) > 0");
    reveal_strlit(" ORDER BY Log.id DESC LIMIT ?");
    let base = LOGS_SELECT@;
    let c1 = clause_if(r.level is Some, " AND Log.level = ?"@);
    let c2 = clause_if(r.producer is Some, " AND Log.producer = ?"@);
    let c3 = clause_if(r.utc_lowest is Some, " AND Log.occurrence >= ?"@);
    let c4 = clause_if(r.utc_highest is Some, " AND Log.occurrence <= ?"@);
    let content = " AND instr(lower(Log.content), ?) > 0"@;
    let c5 = clause_if(spec_content_filter(r.content) is Some, content);
    let tail = " ORDER BY Log.id DESC LIMIT ?"@;
    lemma_count_none(base);
    lemma_count_clause(r.level is Some, " AND Log.level = ?"@);
    lemma_count_clause(r.producer is Some, " AND Log.producer = ?"@);
    lemma_count_clause(r.utc_lowest is Some, " AND Log.occurrence >= ?"@);
    lemma_count_clause(r.utc_highest is Some, " AND Log.occurrence <= ?"@);
    lemma_count_one(tail);
    lemma_count_one(content.subrange(0, 32));
    lemma_count_none(content.subrange(32, content.len() as int));
    lemma_count_concat(content.subrange(0, 32), content.subrange(32, content.len() as int));
    assert(content.subrange(0, 32) + content.subrange(32, content.len() as int) =~= content);
    if spec_content_filter(r.content) is None {
        lemma_count_none(c5);
    }
    lemma_count_concat(base, c1);
    lemma_count_concat(base + c1, c2);
    lemma_count_concat(base + c1 + c2, c3);
    lemma_count_concat(base + c1 + c2 + c3, c4);
    lemma_count_concat(base + c1 + c2 + c3 + c4, c5);
    lemma_count_concat(base + c1 + c2 + c3 + c4 + c5, tail);
}

/// Whether the placeholder that ends an occurrence of `clause` in `sql`
/// is bound to `p`: the parameters are taken in the order of the
/// placeholders, so it is the one at the count of placeholders up to the
/// end of the clause, less one.
pub open spec fn binds(
    sql: Seq<char>,
    params: Seq<SqlParamView>,
    clause: Seq<char>,
    p: SqlParamView,
) -> bool {
    exists|i: int|
        0 <= i && i + clause.len() <= sql.len() && #[trigger] sql.subrange(i, i + clause.len())
            == clause && count_placeholders(sql.subrange(0, i + clause.len())) >= 1
            && count_placeholders(sql.subrange(0, i + clause.len())) <= params.len()
            && params[count_placeholders(sql.subrange(0, i + clause.len())) - 1] == p
}

/// A clause that ends in its only placeholder, between `prefix` and `rest`,
/// is bound to the parameter that follows those of `prefix`.
proof fn lemma_binds_at(
    sql: Seq<char>,
    params: Seq<SqlParamView>,
    prefix: Seq<char>,
    clause: Seq<char>,
    rest: Seq<char>,
    before: Seq<SqlParamView>,
    p: SqlParamView,
    after: Seq<SqlParamView>,
)
    requires
        sql == prefix + clause + rest,
        params == before + seq![p] + after,
        count_placeholders(prefix) == before.len(),
        count_placeholders(clause) == 1,
    ensures
        binds(sql, params, clause, p),
{
    let i = prefix.len() as int;
    assert(sql.subrange(i, i + clause.len()) =~= clause);
    assert(sql.subrange(0, i + clause.len()) =~= prefix + clause);
    lemma_count_concat(prefix, clause);
    assert(params[before.len() as int] == p);
}

/// Each placeholder of the listing query is bound to the value of the
/// filter its clause names: the level id to `Log.level = ?`, the producer
/// id to `Log.producer = ?`, the lower time bound to `Log.occurrence >= ?`,
/// the upper one to `Log.occurrence <= ?`, the text filter to the `instr`
/// condition, and the row limit to `LIMIT ?`, whatever other filters the
/// request has.
#[verifier::rlimit(80)]
pub proof fn lemma_logs_query_binds(r: LogsRequestView, limit: usize)
    ensures
        ({
            let sql = spec_logs_sql(r);
            let params = spec_logs_params(r, limit);
            &&& r.level matches Some(id) ==> binds(
                sql,
                params,
                " AND Log.level = ?"@,
                SqlParamView::Integer(id),
            )
            &&& r.producer matches Some(id) ==> binds(
                sql,
                params,
                " AND Log.producer = ?"@,
                SqlParamView::Integer(id),
            )
            &&& r.utc_lowest matches Some(t) ==> binds(
                sql,
                params,
                " AND Log.occurrence >= ?"@,
                SqlParamView::Integer(t),
            )
            &&& r.utc_highest matches Some(t) ==> binds(
                sql,
                params,
                " AND Log.occurrence <= ?"@,
                SqlParamView::Integer(t),
            )
            &&& spec_content_filter(r.content) matches Some(f) ==> binds(
                sql,
                params,
                " AND instr(lower(Log.content), ?"@,
                SqlParamView::Text(f),
            )
            &&& binds(
                sql,
                params,
                " ORDER BY Log.id DESC LIMIT ?"@,
                SqlParamView::Integer(limit as i64),
            )
        }),
{
    reveal_strlit(r#"
        SELECT
            Log.id,
            Log.occurrence,
            Log.level,
            Level.text,
            Log.producer,
            Producer.name,
            Log.content
        FROM Log
        JOIN Level ON Level.id = Log.level
        JOIN Producer ON Producer.id = Log.producer
        WHERE 1 = 1
        "#);
    reveal_strlit(" AND Log.level = ?");
    reveal_strlit(" AND Log.producer = ?");
    reveal_strlit(" AND Log.occurrence >= ?");
    reveal_strlit(" AND Log.occurrence <= ?");
    reveal_strlit(" AND instr(lower(Log.content), ?) > 0");
    reveal_strlit(" AND instr(lower(Log.content), ?");
    reveal_strlit(" ORDER BY Log.id DESC LIMIT ?");
    let sql = spec_logs_sql(r);
    let params = spec_logs_params(r, limit);
    let base = LOGS_SELECT@;
    let k1 = " AND Log.level = ?"@;
    let k2 = " AND Log.producer = ?"@;
    let k3 = " AND Log.occurrence >= ?"@;
    let k4 = " AND Log.occurrence <= ?"@;
    let content = " AND instr(lower(Log.content), ?) > 0"@;
    let k5 = " AND instr(lower(Log.content), ?"@;
    let tail = " ORDER BY Log.id DESC LIMIT ?"@;
    let f = spec_content_filter(r.content);
    let c1 = clause_if(r.level is Some, k1);
    let c2 = clause_if(r.producer is Some, k2);
    let c3 = clause_if(r.utc_lowest is Some, k3);
    let c4 = clause_if(r.utc_highest is Some, k4);
    let c5 = clause_if(f is Some, content);
    let p1 = param_if(r.level is Some, SqlParamView::Integer(r.level->0));
    let p2 = param_if(r.producer is Some, SqlParamView::Integer(r.producer->0));
    let p3 = param_if(r.utc_lowest is Some, SqlParamView::Integer(r.utc_lowest->0));
    let p4 = param_if(r.utc_highest is Some, SqlParamView::Integer(r.utc_highest->0));
    let p5 = param_if(f is Some, SqlParamView::Text(f->0));
    let pl = seq![SqlParamView::Integer(limit as i64)];
    let rest5 = content.subrange(32, content.len() as int);
    assert(k5 =~= content.subrange(0, 32));
    assert(content =~= k5 + rest5);
    lemma_count_none(base);
    lemma_count_clause(r.level is Some, k1);
    lemma_count_clause(r.producer is Some, k2);
    lemma_count_clause(r.utc_lowest is Some, k3);
    lemma_count_clause(r.utc_highest is Some, k4);
    lemma_count_one(k1);
    lemma_count_one(k2);
    lemma_count_one(k3);
    lemma_count_one(k4);
    lemma_count_one(k5);
    lemma_count_one(tail);
    lemma_count_none(rest5);
    lemma_count_concat(k5, rest5);
    if f is None {
        lemma_count_none(c5);
    }
    lemma_count_concat(base, c1);
    lemma_count_concat(base + c1, c2);
    lemma_count_concat(base + c1 + c2, c3);
    lemma_count_concat(base + c1 + c2 + c3, c4);
    lemma_count_concat(base + c1 + c2 + c3 + c4, c5);
    assert(sql == base + c1 + c2 + c3 + c4 + c5 + tail);
    assert(params == p1 + p2 + p3 + p4 + p5 + pl);
    if r.level is Some {
        assert(sql =~= base + k1 + (c2 + c3 + c4 + c5 + tail));
        assert(params =~= Seq::<SqlParamView>::empty() + seq![SqlParamView::Integer(r.level->0)] + (p2 + p3 + p4 + p5 + pl));
        assert(base =~= base + Seq::<char>::empty());
        lemma_binds_at(sql, params, base, k1, c2 + c3 + c4 + c5 + tail, Seq::empty(), SqlParamView::Integer(r.level->0), p2 + p3 + p4 + p5 + pl);
    }
    if r.producer is Some {
        assert(sql =~= (base + c1) + k2 + (c3 + c4 + c5 + tail));
        assert(params =~= p1 + seq![SqlParamView::Integer(r.producer->0)] + (p3 + p4 + p5 + pl));
        lemma_binds_at(sql, params, base + c1, k2, c3 + c4 + c5 + tail, p1, SqlParamView::Integer(r.producer->0), p3 + p4 + p5 + pl);
    }
    if r.utc_lowest is Some {
        assert(sql =~= (base + c1 + c2) + k3 + (c4 + c5 + tail));
        assert(params =~= (p1 + p2) + seq![SqlParamView::Integer(r.utc_lowest->0)] + (p4 + p5 + pl));
        lemma_binds_at(sql, params, base + c1 + c2, k3, c4 + c5 + tail, p1 + p2, SqlParamView::Integer(r.utc_lowest->0), p4 + p5 + pl);
    }
    if r.utc_highest is Some {
        assert(sql =~= (base + c1 + c2 + c3) + k4 + (c5 + tail));
        assert(params =~= (p1 + p2 + p3) + seq![SqlParamView::Integer(r.utc_highest->0)] + (p5 + pl));
        lemma_binds_at(sql, params, base + c1 + c2 + c3, k4, c5 + tail, p1 + p2 + p3, SqlParamView::Integer(r.utc_highest->0), p5 + pl);
    }
    if f is Some {
        assert(sql =~= (base + c1 + c2 + c3 + c4) + k5 + (rest5 + tail));
        assert(params =~= (p1 + p2 + p3 + p4) + seq![SqlParamView::Text(f->0)] + pl);
        lemma_binds_at(sql, params, base + c1 + c2 + c3 + c4, k5, rest5 + tail, p1 + p2 + p3 + p4, SqlParamView::Text(f->0), pl);
    }
    assert(sql =~= (base + c1 + c2 + c3 + c4 + c5) + tail + Seq::<char>::empty());
    assert(params =~= (p1 + p2 + p3 + p4 + p5) + pl + Seq::<SqlParamView>::empty());
    lemma_binds_at(sql, params, base + c1 + c2 + c3 + c4 + c5, tail, Seq::empty(), p1 + p2 + p3 + p4 + p5, SqlParamView::Integer(limit as i64), Seq::empty());
}

/// The text filter of `content`: trimmed and lowercased, unless nothing is
/// left after trimming.
fn content_filter(content: &Option<String>) -> (filter: Option<String>)
    ensures
        match content {
            Some(c) => match spec_content_filter(Some(c@)) {
                Some(f) => filter matches Some(s) && s@ == f,
                None => filter is None,
            },
            None => filter is None,
        },
{
    match content {
        Some(c) => {
            let chars = str_chars(c.as_str());
            let (a, b) = trim_bounds(&chars, 0, chars.len());
            assert(chars@.subrange(0, chars@.len() as int) =~= c@);
            if a == b {
                None
            } else {
                let trimmed = string_from_chars(&chars, a, b);
                Some(to_lowercase(trimmed.as_str()))
            }
        },
        None => None,
    }
}

/// The listing query for `request` with the row limit `limit`.
pub fn build_logs_query(request: &LogsRequest, limit: usize) -> (query: LogsQuery)
    ensures
        query.sql@ == spec_logs_sql(request@),
        query.params@.map_values(|p: SqlParam| p@) == spec_logs_params(request@, limit),
{
    let ghost r = request@;
    let mut sql = LOGS_SELECT.to_owned();
    let mut params: Vec<SqlParam> = Vec::new();
    let ghost mut sql_spec = LOGS_SELECT@;
    let ghost mut params_spec = Seq::<SqlParamView>::empty();
    assert(params@.map_values(|p: SqlParam| p@) =~= params_spec);
    if let Some(level) = request.level {
        sql.append(" AND Log.level = ?");
        params.push(SqlParam::Integer(level));
    }
    proof {
        sql_spec = sql_spec + clause_if(r.level is Some, " AND Log.level = ?"@);
        params_spec = params_spec + param_if(r.level is Some, SqlParamView::Integer(r.level->0));
        assert(sql@ =~= sql_spec);
        assert(params@.map_values(|p: SqlParam| p@) =~= params_spec);
    }
    if let Some(producer) = request.producer {
        sql.append(" AND Log.producer = ?");
        params.push(SqlParam::Integer(producer));
    }
    proof {
        sql_spec = sql_spec + clause_if(r.producer is Some, " AND Log.producer = ?"@);
        params_spec = params_spec + param_if(
            r.producer is Some,
            SqlParamView::Integer(r.producer->0),
        );
        assert(sql@ =~= sql_spec);
        assert(params@.map_values(|p: SqlParam| p@) =~= params_spec);
    }
    if let Some(lowest) = request.utc_lowest {
        sql.append(" AND Log.occurrence >= ?");
        params.push(SqlParam::Integer(lowest));
    }
    proof {
        sql_spec = sql_spec + clause_if(r.utc_lowest is Some, " AND Log.occurrence >= ?"@);
        params_spec = params_spec + param_if(
            r.utc_lowest is Some,
            SqlParamView::Integer(r.utc_lowest->0),
        );
        assert(sql@ =~= sql_spec);
        assert(params@.map_values(|p: SqlParam| p@) =~= params_spec);
    }
    if let Some(highest) = request.utc_highest {
        sql.append(" AND Log.occurrence <= ?");
        params.push(SqlParam::Integer(highest));
    }
    proof {
        sql_spec = sql_spec + clause_if(r.utc_highest is Some, " AND Log.occurrence <= ?"@);
        params_spec = params_spec + param_if(
            r.utc_highest is Some,
            SqlParamView::Integer(r.utc_highest->0),
        );
        assert(sql@ =~= sql_spec);
        assert(params@.map_values(|p: SqlParam| p@) =~= params_spec);
    }
    let filter = content_filter(&request.content);
    if let Some(text) = filter {
        sql.append(" AND instr(lower(Log.content), ?) > 0");
        params.push(SqlParam::Text(text));
    }
    proof {
        let f = spec_content_filter(r.content);
        sql_spec = sql_spec + clause_if(f is Some, " AND instr(lower(Log.content), ?) > 0"@);
        params_spec = params_spec + param_if(f is Some, SqlParamView::Text(f->0));
        assert(sql@ =~= sql_spec);
        assert(params@.map_values(|p: SqlParam| p@) =~= params_spec);
    }
    sql.append(" ORDER BY Log.id DESC LIMIT ?");
    params.push(SqlParam::Integer(limit as i64));
    proof {
        assert(sql@ =~= spec_logs_sql(r));
        assert(params@.map_values(|p: SqlParam| p@) =~= spec_logs_params(r, limit));
    }
    LogsQuery { sql, params }
}

} // verus!
