//! The statements that keep the accounting database: its schema, and the writes
//! and reads whose text depends on what is asked.
//!
//! A statement is a list of parts: text, which is fixed, and values, which are
//! handed over apart from it.

use vstd::prelude::*;
use crate::clock::Instant;
use crate::execution_identity::{is_blank_str, nonempty};
use crate::ledger::JobRowView;

verus! {

/// The keys of the lock that keeps two controllers from applying the schema at
/// once.
pub const SCHEMA_LOCK_CLASS: i32 = 0x5350_5552;

pub const SCHEMA_LOCK_OBJ: i32 = 1;

/// The schema. It can be applied to a database that has it.
pub const SCHEMA: &'static str = r#"
CREATE TABLE IF NOT EXISTS jobs (
    job_id          INTEGER PRIMARY KEY,
    submission_generation UUID NOT NULL DEFAULT '00000000-0000-0000-0000-000000000000',
    run_attempt     INTEGER NOT NULL DEFAULT 0,
    name            TEXT NOT NULL DEFAULT '',
    user_name       TEXT NOT NULL,
    uid             INTEGER NOT NULL DEFAULT 0,
    account         TEXT NOT NULL DEFAULT '',
    partition_name  TEXT NOT NULL DEFAULT '',
    qos             TEXT NOT NULL DEFAULT '',
    state           TEXT NOT NULL DEFAULT 'PENDING',
    exit_code       INTEGER NOT NULL DEFAULT 0,
    exit_signal     INTEGER NOT NULL DEFAULT 0,
    derived_exit_code INTEGER NOT NULL DEFAULT 0,
    num_nodes       INTEGER NOT NULL DEFAULT 1,
    num_tasks       INTEGER NOT NULL DEFAULT 1,
    cpus_per_task   INTEGER NOT NULL DEFAULT 1,
    memory_mb       BIGINT NOT NULL DEFAULT 0,
    nodelist        TEXT NOT NULL DEFAULT '',
    submit_time     TIMESTAMPTZ NOT NULL DEFAULT NOW(),
    start_time      TIMESTAMPTZ,
    end_time        TIMESTAMPTZ,
    time_limit_min  INTEGER,
    work_dir        TEXT NOT NULL DEFAULT '',
    script_hash     TEXT NOT NULL DEFAULT ''
);

CREATE TABLE IF NOT EXISTS accounts (
    name            TEXT PRIMARY KEY,
    description     TEXT NOT NULL DEFAULT '',
    organization    TEXT NOT NULL DEFAULT '',
    parent_account  TEXT,
    fairshare_weight INTEGER NOT NULL DEFAULT 1,
    max_running_jobs INTEGER,
    grp_tres        TEXT,
    created_at      TIMESTAMPTZ NOT NULL DEFAULT NOW()
);

CREATE TABLE IF NOT EXISTS users (
    name            TEXT NOT NULL,
    account         TEXT NOT NULL REFERENCES accounts(name),
    admin_level     TEXT NOT NULL DEFAULT 'none',
    default_account TEXT,
    created_at      TIMESTAMPTZ NOT NULL DEFAULT NOW(),
    PRIMARY KEY (name, account)
);

CREATE TABLE IF NOT EXISTS usage (
    user_name       TEXT NOT NULL,
    account         TEXT NOT NULL,
    period_start    TIMESTAMPTZ NOT NULL,
    period_end      TIMESTAMPTZ NOT NULL,
    cpu_seconds     BIGINT NOT NULL DEFAULT 0,
    gpu_seconds     BIGINT NOT NULL DEFAULT 0,
    job_count       INTEGER NOT NULL DEFAULT 0,
    PRIMARY KEY (user_name, account, period_start)
);

-- Authoritative immutable execution records. `jobs` remains the compatible
-- current-job projection; this table prevents a reused numeric job ID or a
-- later run attempt from aliasing an earlier accounting contribution.
CREATE TABLE IF NOT EXISTS job_runs (
    job_id          INTEGER NOT NULL,
    submission_generation UUID NOT NULL,
    run_attempt     INTEGER NOT NULL,
    finalization_id UUID,
    name            TEXT NOT NULL DEFAULT '',
    user_name       TEXT NOT NULL,
    account         TEXT NOT NULL DEFAULT '',
    partition_name  TEXT NOT NULL DEFAULT '',
    num_nodes       INTEGER NOT NULL DEFAULT 1,
    num_tasks       INTEGER NOT NULL DEFAULT 1,
    cpus_per_task   INTEGER NOT NULL DEFAULT 1,
    memory_mb       BIGINT NOT NULL DEFAULT 0,
    submit_time     TIMESTAMPTZ NOT NULL,
    start_time      TIMESTAMPTZ NOT NULL,
    reservation     TEXT NOT NULL DEFAULT '',
    start_recorded  BOOLEAN NOT NULL DEFAULT FALSE,
    state           TEXT NOT NULL DEFAULT 'RUNNING',
    exit_code       INTEGER NOT NULL DEFAULT 0,
    exit_signal     INTEGER NOT NULL DEFAULT 0,
    derived_exit_code INTEGER NOT NULL DEFAULT 0,
    end_time        TIMESTAMPTZ,
    PRIMARY KEY (job_id, submission_generation, run_attempt)
);

-- UUID uniqueness is mandatory for new finalizations. Legacy snapshots use a
-- nil UUID, which the controller writes as NULL and fences by execution tuple.
CREATE UNIQUE INDEX IF NOT EXISTS job_runs_finalization_id_unique
    ON job_runs (finalization_id) WHERE finalization_id IS NOT NULL;

-- One exact additive contribution claim per execution. The claim and the
-- aggregate increment are committed in the same transaction.
CREATE TABLE IF NOT EXISTS usage_contributions (
    job_id          INTEGER NOT NULL,
    submission_generation UUID NOT NULL,
    run_attempt     INTEGER NOT NULL,
    finalization_id UUID,
    user_name       TEXT NOT NULL,
    account         TEXT NOT NULL,
    period_start    TIMESTAMPTZ NOT NULL,
    period_end      TIMESTAMPTZ NOT NULL,
    cpu_seconds     BIGINT NOT NULL,
    PRIMARY KEY (job_id, submission_generation, run_attempt),
    FOREIGN KEY (job_id, submission_generation, run_attempt)
        REFERENCES job_runs (job_id, submission_generation, run_attempt)
);

CREATE TABLE IF NOT EXISTS qos (
    name            TEXT PRIMARY KEY,
    description     TEXT NOT NULL DEFAULT '',
    priority        INTEGER NOT NULL DEFAULT 0,
    preempt_mode    TEXT NOT NULL DEFAULT 'off',
    usage_factor    REAL NOT NULL DEFAULT 1.0,
    max_jobs_per_user INTEGER,
    max_submit_per_user INTEGER,
    max_tres_per_job TEXT,
    max_tres_per_user TEXT,
    grp_tres        TEXT,
    max_wall_min    INTEGER,
    grp_wall_min    INTEGER,
    created_at      TIMESTAMPTZ NOT NULL DEFAULT NOW()
);

CREATE TABLE IF NOT EXISTS associations (
    id              SERIAL PRIMARY KEY,
    user_name       TEXT NOT NULL,
    account         TEXT NOT NULL REFERENCES accounts(name),
    partition_name  TEXT,
    fairshare_weight INTEGER NOT NULL DEFAULT 1,
    max_running_jobs INTEGER,
    max_submit_jobs INTEGER,
    max_tres_per_job TEXT,
    grp_tres        TEXT,
    max_wall_min    INTEGER,
    created_at      TIMESTAMPTZ NOT NULL DEFAULT NOW(),
    UNIQUE (user_name, account, partition_name)
);

CREATE TABLE IF NOT EXISTS tres_usage (
    job_id          INTEGER NOT NULL,
    tres_type       TEXT NOT NULL,
    alloc_value     BIGINT NOT NULL DEFAULT 0,
    used_value      BIGINT NOT NULL DEFAULT 0,
    PRIMARY KEY (job_id, tres_type)
);

CREATE INDEX IF NOT EXISTS idx_jobs_user ON jobs(user_name);
CREATE INDEX IF NOT EXISTS idx_jobs_account ON jobs(account);
CREATE INDEX IF NOT EXISTS idx_jobs_state ON jobs(state);
CREATE INDEX IF NOT EXISTS idx_jobs_submit_time ON jobs(submit_time);
CREATE INDEX IF NOT EXISTS idx_jobs_start_time ON jobs(start_time);
CREATE INDEX IF NOT EXISTS idx_usage_period ON usage(period_start, period_end);
CREATE INDEX IF NOT EXISTS idx_assoc_user ON associations(user_name);
CREATE INDEX IF NOT EXISTS idx_assoc_account ON associations(account);

ALTER TABLE jobs ADD COLUMN IF NOT EXISTS exit_signal INTEGER NOT NULL DEFAULT 0;
ALTER TABLE jobs ADD COLUMN IF NOT EXISTS derived_exit_code INTEGER NOT NULL DEFAULT 0;
ALTER TABLE jobs ADD COLUMN IF NOT EXISTS reservation TEXT NOT NULL DEFAULT '';
ALTER TABLE jobs ADD COLUMN IF NOT EXISTS submission_generation UUID NOT NULL
    DEFAULT '00000000-0000-0000-0000-000000000000';
ALTER TABLE jobs ADD COLUMN IF NOT EXISTS run_attempt INTEGER NOT NULL DEFAULT 0;
ALTER TABLE job_runs ADD COLUMN IF NOT EXISTS start_recorded BOOLEAN NOT NULL DEFAULT FALSE;
-- No FK to qos(name): a stale reference (QOS deleted after being set as a
-- default) must degrade gracefully at read time, not be blocked here.
ALTER TABLE associations ADD COLUMN IF NOT EXISTS default_qos TEXT;
-- Comma-separated QOS names, same degrade-gracefully rationale as default_qos.
ALTER TABLE associations ADD COLUMN IF NOT EXISTS allowed_qos TEXT;
ALTER TABLE qos ADD COLUMN IF NOT EXISTS grp_wall_min INTEGER;
ALTER TABLE accounts ADD COLUMN IF NOT EXISTS grp_tres TEXT;

-- users.default_account is the single source of truth for a user's default
-- account (the scheduler reads it via the association cache). associations
-- once carried a redundant is_default flag that nothing read; drop it so the
-- two representations can't drift.
ALTER TABLE associations DROP COLUMN IF EXISTS is_default;

-- One default account per user. Pre-fix rows could mark several accounts
-- default; collapse each user to one (the lowest account name) before the index
-- below, which would otherwise fail to build. Idempotent: a no-op once clean.
UPDATE users u SET default_account = NULL
WHERE default_account IS NOT NULL
  AND EXISTS (
    SELECT 1 FROM users o
    WHERE o.name = u.name
      AND o.default_account IS NOT NULL
      AND o.account < u.account
  );
CREATE UNIQUE INDEX IF NOT EXISTS one_default_account_per_user
    ON users (name) WHERE default_account IS NOT NULL;
"#;

/// How many jobs a look at the history shows where no number is given.
pub const HISTORY_LIMIT: i64 = 1000;

/// A value that is handed over with a statement. The optional ones are null
/// where they are none.
#[derive(Clone, Copy, Debug, PartialEq, Eq)]
pub enum SqlVal<'a> {
    Text(&'a str),
    NullText(Option<&'a str>),
    Int(i32),
    NullInt(Option<i32>),
    BigInt(i64),
    /// The bits of a floating-point number.
    Real(u64),
    Time(Instant),
}

/// What a [`SqlVal`] holds.
pub enum SqlValView {
    Text(Seq<char>),
    NullText(Option<Seq<char>>),
    Int(i32),
    NullInt(Option<i32>),
    BigInt(i64),
    Real(u64),
    Time(Instant),
}

/// The text of an optional value.
pub open spec fn opt_text(value: Option<&str>) -> Option<Seq<char>> {
    match value {
        Some(text) => Some(text@),
        None => None,
    }
}

impl<'a> View for SqlVal<'a> {
    type V = SqlValView;

    open spec fn view(&self) -> SqlValView {
        match self {
            SqlVal::Text(text) => SqlValView::Text(text@),
            SqlVal::NullText(text) => SqlValView::NullText(opt_text(*text)),
            SqlVal::Int(n) => SqlValView::Int(*n),
            SqlVal::NullInt(n) => SqlValView::NullInt(*n),
            SqlVal::BigInt(n) => SqlValView::BigInt(*n),
            SqlVal::Real(bits) => SqlValView::Real(*bits),
            SqlVal::Time(at) => SqlValView::Time(*at),
        }
    }
}

/// A column and the value it is given.
#[derive(Clone, Copy, Debug)]
pub struct Assignment<'a> {
    pub column: &'static str,
    pub value: SqlVal<'a>,
}

/// What an [`Assignment`] holds.
pub struct AssignmentView {
    pub column: Seq<char>,
    pub value: SqlValView,
}

impl<'a> View for Assignment<'a> {
    type V = AssignmentView;

    open spec fn view(&self) -> AssignmentView {
        AssignmentView { column: self.column@, value: self.value@ }
    }
}

impl<'a> DeepView for Assignment<'a> {
    type V = AssignmentView;

    open spec fn deep_view(&self) -> AssignmentView {
        self@
    }
}

/// A part of a statement.
#[derive(Clone, Copy, Debug, PartialEq, Eq)]
pub enum QueryPart<'a> {
    /// Fixed text.
    Sql(&'static str),
    /// A value.
    Bind(SqlVal<'a>),
}

/// What a [`QueryPart`] holds.
pub enum QueryPartView {
    Sql(Seq<char>),
    Bind(SqlValView),
}

impl<'a> View for QueryPart<'a> {
    type V = QueryPartView;

    open spec fn view(&self) -> QueryPartView {
        match self {
            QueryPart::Sql(text) => QueryPartView::Sql(text@),
            QueryPart::Bind(value) => QueryPartView::Bind(value@),
        }
    }
}

impl<'a> DeepView for QueryPart<'a> {
    type V = QueryPartView;

    open spec fn deep_view(&self) -> QueryPartView {
        self@
    }
}

/// One piece of text.
pub open spec fn sql(text: Seq<char>) -> Seq<QueryPartView> {
    seq![QueryPartView::Sql(text)]
}

/// One value.
pub open spec fn bind(value: SqlValView) -> Seq<QueryPartView> {
    seq![QueryPartView::Bind(value)]
}

/// A statement in the making.
struct Query<'a> {
    parts: Vec<QueryPart<'a>>,
}

impl<'a> Query<'a> {
    spec fn made(&self) -> Seq<QueryPartView> {
        self.parts.deep_view()
    }

    fn new() -> (out: Self)
        ensures
            out.made() == Seq::<QueryPartView>::empty(),
    {
        let out = Query { parts: Vec::new() };
        proof {
            assert(out.made() =~= Seq::<QueryPartView>::empty());
        }
        out
    }

    fn push(&mut self, text: &'static str)
        ensures
            final(self).made() == old(self).made() + sql(text@),
    {
        let ghost before = self.made();
        self.parts.push(QueryPart::Sql(text));
        proof {
            assert(self.made() =~= before + sql(text@));
        }
    }

    fn push_bind(&mut self, value: SqlVal<'a>)
        ensures
            final(self).made() == old(self).made() + bind(value@),
    {
        let ghost before = self.made();
        self.parts.push(QueryPart::Bind(value));
        proof {
            assert(self.made() =~= before + bind(value@));
        }
    }
}

/// The tables that rows are put into by name.
#[derive(Clone, Copy, Debug, PartialEq, Eq, Structural)]
pub enum UpsertTable {
    Accounts,
    Qos,
}

/// The name of a table.
pub open spec fn table_name(table: UpsertTable) -> Seq<char> {
    match table {
        UpsertTable::Accounts => "accounts"@,
        UpsertTable::Qos => "qos"@,
    }
}

impl UpsertTable {
    /// The name of the table.
    pub fn name(self) -> (out: &'static str)
        ensures
            out@ == table_name(self),
    {
        match self {
            UpsertTable::Accounts => "accounts",
            UpsertTable::Qos => "qos",
        }
    }

    /// The column that tells its rows apart.
    pub fn conflict_target(self) -> (out: &'static str)
        ensures
            out@ == "name"@,
    {
        match self {
            UpsertTable::Accounts => "name",
            UpsertTable::Qos => "name",
        }
    }
}

/// The names of columns, separated by commas.
pub open spec fn column_list(list: Seq<AssignmentView>) -> Seq<QueryPartView>
    decreases list.len(),
{
    if list.len() == 0 {
        Seq::empty()
    } else if list.len() == 1 {
        sql(list[0].column)
    } else {
        column_list(list.drop_last()) + sql(", "@) + sql(list.last().column)
    }
}

/// The values of columns, separated by commas.
pub open spec fn value_list(list: Seq<AssignmentView>) -> Seq<QueryPartView>
    decreases list.len(),
{
    if list.len() == 0 {
        Seq::empty()
    } else if list.len() == 1 {
        bind(list[0].value)
    } else {
        value_list(list.drop_last()) + sql(", "@) + bind(list.last().value)
    }
}

/// Columns that take the value of the row that was to be inserted.
pub open spec fn excluded_list(list: Seq<AssignmentView>) -> Seq<QueryPartView>
    decreases list.len(),
{
    if list.len() == 0 {
        Seq::empty()
    } else {
        let last = sql(list.last().column) + sql(" = EXCLUDED."@) + sql(list.last().column);
        if list.len() == 1 {
            last
        } else {
            excluded_list(list.drop_last()) + sql(", "@) + last
        }
    }
}

/// Columns that take a value.
pub open spec fn set_list(list: Seq<AssignmentView>) -> Seq<QueryPartView>
    decreases list.len(),
{
    if list.len() == 0 {
        Seq::empty()
    } else {
        let last = sql(list.last().column) + sql(" = "@) + bind(list.last().value);
        if list.len() == 1 {
            last
        } else {
            set_list(list.drop_last()) + sql(", "@) + last
        }
    }
}

/// The statement that puts a row into a table. Where the row is there, only the
/// `updates` change; without any, nothing does.
pub open spec fn upsert_statement(
    table: UpsertTable,
    keys: Seq<AssignmentView>,
    updates: Seq<AssignmentView>,
) -> Seq<QueryPartView> {
    sql("INSERT INTO "@) + sql(table_name(table)) + sql(" ("@) + column_list(keys + updates) + sql(
        ") VALUES ("@,
    ) + value_list(keys + updates) + sql(") ON CONFLICT ("@) + sql("name"@) + sql(")"@) + (
    if updates.len() == 0 {
        sql(" DO NOTHING"@)
    } else {
        sql(" DO UPDATE SET "@) + excluded_list(updates)
    })
}

fn push_columns<'a>(query: &mut Query<'a>, list: &Vec<Assignment<'a>>)
    ensures
        final(query).made() == old(query).made() + column_list(list.deep_view()),
{
    let ghost items = list.deep_view();
    let ghost before = query.made();
    let mut i: usize = 0;
    proof {
        assert(items.take(0) =~= Seq::<AssignmentView>::empty());
        assert(before + column_list(items.take(0)) =~= before);
    }
    while i < list.len()
        invariant
            i <= list@.len(),
            items == list.deep_view(),
            query.made() == before + column_list(items.take(i as int)),
        decreases list@.len() - i,
    {
        proof {
            assert(items.take(i + 1).drop_last() =~= items.take(i as int));
            assert(items.take(i + 1).last() == list@[i as int]@);
            assert(items.take(i + 1)[0] == items[0]);
            assert(items[0] == list@[0]@);
        }
        if i > 0 {
            query.push(", ");
        }
        query.push(list[i].column);
        proof {
            assert(query.made() =~= before + column_list(items.take(i + 1)));
        }
        i = i + 1;
    }
    proof {
        assert(items.take(i as int) =~= items);
    }
}

fn push_values<'a>(query: &mut Query<'a>, list: &Vec<Assignment<'a>>)
    ensures
        final(query).made() == old(query).made() + value_list(list.deep_view()),
{
    let ghost items = list.deep_view();
    let ghost before = query.made();
    let mut i: usize = 0;
    proof {
        assert(items.take(0) =~= Seq::<AssignmentView>::empty());
        assert(before + value_list(items.take(0)) =~= before);
    }
    while i < list.len()
        invariant
            i <= list@.len(),
            items == list.deep_view(),
            query.made() == before + value_list(items.take(i as int)),
        decreases list@.len() - i,
    {
        proof {
            assert(items.take(i + 1).drop_last() =~= items.take(i as int));
            assert(items.take(i + 1).last() == list@[i as int]@);
            assert(items.take(i + 1)[0] == items[0]);
            assert(items[0] == list@[0]@);
        }
        if i > 0 {
            query.push(", ");
        }
        query.push_bind(list[i].value);
        proof {
            assert(query.made() =~= before + value_list(items.take(i + 1)));
        }
        i = i + 1;
    }
    proof {
        assert(items.take(i as int) =~= items);
    }
}

fn push_excluded<'a>(query: &mut Query<'a>, list: &Vec<Assignment<'a>>)
    ensures
        final(query).made() == old(query).made() + excluded_list(list.deep_view()),
{
    let ghost items = list.deep_view();
    let ghost before = query.made();
    let mut i: usize = 0;
    proof {
        assert(items.take(0) =~= Seq::<AssignmentView>::empty());
        assert(before + excluded_list(items.take(0)) =~= before);
    }
    while i < list.len()
        invariant
            i <= list@.len(),
            items == list.deep_view(),
            query.made() == before + excluded_list(items.take(i as int)),
        decreases list@.len() - i,
    {
        proof {
            assert(items.take(i + 1).drop_last() =~= items.take(i as int));
            assert(items.take(i + 1).last() == list@[i as int]@);
        }
        if i > 0 {
            query.push(", ");
        }
        query.push(list[i].column);
        query.push(" = EXCLUDED.");
        query.push(list[i].column);
        proof {
            assert(query.made() =~= before + excluded_list(items.take(i + 1)));
        }
        i = i + 1;
    }
    proof {
        assert(items.take(i as int) =~= items);
    }
}

fn push_sets<'a>(query: &mut Query<'a>, list: &Vec<Assignment<'a>>)
    ensures
        final(query).made() == old(query).made() + set_list(list.deep_view()),
{
    let ghost items = list.deep_view();
    let ghost before = query.made();
    let mut i: usize = 0;
    proof {
        assert(items.take(0) =~= Seq::<AssignmentView>::empty());
        assert(before + set_list(items.take(0)) =~= before);
    }
    while i < list.len()
        invariant
            i <= list@.len(),
            items == list.deep_view(),
            query.made() == before + set_list(items.take(i as int)),
        decreases list@.len() - i,
    {
        proof {
            assert(items.take(i + 1).drop_last() =~= items.take(i as int));
            assert(items.take(i + 1).last() == list@[i as int]@);
        }
        if i > 0 {
            query.push(", ");
        }
        query.push(list[i].column);
        query.push(" = ");
        query.push_bind(list[i].value);
        proof {
            assert(query.made() =~= before + set_list(items.take(i + 1)));
        }
        i = i + 1;
    }
    proof {
        assert(items.take(i as int) =~= items);
    }
}

fn chained<'a>(keys: &Vec<Assignment<'a>>, updates: &Vec<Assignment<'a>>) -> (out: Vec<
    Assignment<'a>,
>)
    ensures
        out.deep_view() == keys.deep_view() + updates.deep_view(),
{
    let mut out: Vec<Assignment<'a>> = Vec::new();
    let mut i: usize = 0;
    while i < keys.len()
        invariant
            i <= keys@.len(),
            out@ == keys@.take(i as int),
        decreases keys@.len() - i,
    {
        out.push(keys[i]);
        i = i + 1;
        proof {
            assert(keys@.take(i as int) =~= keys@.take(i - 1).push(keys@[i - 1]));
        }
    }
    let mut j: usize = 0;
    proof {
        assert(keys@.take(i as int) =~= keys@);
        assert(out@ =~= keys@ + updates@.take(0));
    }
    while j < updates.len()
        invariant
            j <= updates@.len(),
            out@ == keys@ + updates@.take(j as int),
        decreases updates@.len() - j,
    {
        out.push(updates[j]);
        j = j + 1;
        proof {
            assert(keys@ + updates@.take(j as int) =~= (keys@ + updates@.take(j - 1)).push(
                updates@[j - 1],
            ));
        }
    }
    proof {
        assert(updates@.take(j as int) =~= updates@);
        assert(out.deep_view() =~= keys.deep_view() + updates.deep_view());
    }
    out
}

/// The statement that puts a row into a table. Where the row is there, only the
/// `updates` change; without any, nothing does.
pub fn upsert_row<'a>(
    table: UpsertTable,
    keys: &Vec<Assignment<'a>>,
    updates: &Vec<Assignment<'a>>,
) -> (out: Vec<QueryPart<'a>>)
    ensures
        out.deep_view() == upsert_statement(table, keys.deep_view(), updates.deep_view()),
{
    let all = chained(keys, updates);
    let mut query = Query::new();
    query.push("INSERT INTO ");
    query.push(table.name());
    query.push(" (");
    push_columns(&mut query, &all);
    query.push(") VALUES (");
    push_values(&mut query, &all);
    query.push(") ON CONFLICT (");
    query.push(table.conflict_target());
    query.push(")");
    if updates.len() == 0 {
        query.push(" DO NOTHING");
    } else {
        query.push(" DO UPDATE SET ");
        push_excluded(&mut query, updates);
    }
    proof {
        assert(query.made() =~= upsert_statement(table, keys.deep_view(), updates.deep_view()));
    }
    query.parts
}

/// A list of assignments, and one more where it is given a value.
pub open spec fn assigning(
    list: Seq<AssignmentView>,
    column: Seq<char>,
    value: Option<SqlValView>,
) -> Seq<AssignmentView> {
    match value {
        Some(value) => list.push(AssignmentView { column, value }),
        None => list,
    }
}

/// A text, as a value.
pub open spec fn text_value(value: Option<&str>) -> Option<SqlValView> {
    match value {
        Some(text) => Some(SqlValView::Text(text@)),
        None => None,
    }
}

/// A text that may be null, as a value.
pub open spec fn null_text_value(value: Option<Option<&str>>) -> Option<SqlValView> {
    match value {
        Some(text) => Some(SqlValView::NullText(opt_text(text))),
        None => None,
    }
}

/// A number, as a value.
pub open spec fn int_value(value: Option<i32>) -> Option<SqlValView> {
    match value {
        Some(n) => Some(SqlValView::Int(n)),
        None => None,
    }
}

/// A number that may be null, as a value.
pub open spec fn null_int_value(value: Option<Option<i32>>) -> Option<SqlValView> {
    match value {
        Some(n) => Some(SqlValView::NullInt(n)),
        None => None,
    }
}

fn assign<'a>(list: &mut Vec<Assignment<'a>>, column: &'static str, value: SqlVal<'a>)
    ensures
        final(list).deep_view() == old(list).deep_view().push(
            AssignmentView { column: column@, value: value@ },
        ),
{
    let ghost before = list.deep_view();
    let assignment = Assignment { column, value };
    list.push(assignment);
    proof {
        assert(list.deep_view() =~= before.push(assignment@));
    }
}

fn assign_text<'a>(list: &mut Vec<Assignment<'a>>, column: &'static str, value: Option<&'a str>)
    ensures
        final(list).deep_view() == assigning(old(list).deep_view(), column@, text_value(value)),
{
    if let Some(text) = value {
        assign(list, column, SqlVal::Text(text));
    }
}

fn assign_null_text<'a>(
    list: &mut Vec<Assignment<'a>>,
    column: &'static str,
    value: Option<Option<&'a str>>,
)
    ensures
        final(list).deep_view() == assigning(
            old(list).deep_view(),
            column@,
            null_text_value(value),
        ),
{
    if let Some(text) = value {
        assign(list, column, SqlVal::NullText(text));
    }
}

fn assign_int<'a>(list: &mut Vec<Assignment<'a>>, column: &'static str, value: Option<i32>)
    ensures
        final(list).deep_view() == assigning(old(list).deep_view(), column@, int_value(value)),
{
    if let Some(n) = value {
        assign(list, column, SqlVal::Int(n));
    }
}

fn assign_null_int<'a>(
    list: &mut Vec<Assignment<'a>>,
    column: &'static str,
    value: Option<Option<i32>>,
)
    ensures
        final(list).deep_view() == assigning(
            old(list).deep_view(),
            column@,
            null_int_value(value),
        ),
{
    if let Some(n) = value {
        assign(list, column, SqlVal::NullInt(n));
    }
}

/// What changes of an account. A field that is none stays; an inner none clears
/// it.
#[derive(Clone, Copy, Debug, Default)]
pub struct AccountUpdate<'a> {
    pub description: Option<&'a str>,
    pub organization: Option<&'a str>,
    pub parent: Option<Option<&'a str>>,
    pub fairshare: Option<i32>,
    pub max_running_jobs: Option<Option<i32>>,
    pub grp_tres: Option<Option<&'a str>>,
}

/// The assignments that change an account.
pub open spec fn account_assignments(u: AccountUpdate) -> Seq<AssignmentView> {
    let a = assigning(Seq::empty(), "description"@, text_value(u.description));
    let b = assigning(a, "organization"@, text_value(u.organization));
    let c = assigning(b, "parent_account"@, null_text_value(u.parent));
    let d = assigning(c, "fairshare_weight"@, int_value(u.fairshare));
    let e = assigning(d, "max_running_jobs"@, null_int_value(u.max_running_jobs));
    assigning(e, "grp_tres"@, null_text_value(u.grp_tres))
}

/// The key of a row that is told apart by its name.
pub open spec fn name_key(name: Seq<char>) -> Seq<AssignmentView> {
    seq![AssignmentView { column: "name"@, value: SqlValView::Text(name) }]
}

fn key_of_name<'a>(name: &'a str) -> (out: Vec<Assignment<'a>>)
    ensures
        out.deep_view() == name_key(name@),
{
    let mut keys: Vec<Assignment<'a>> = Vec::new();
    assign(&mut keys, "name", SqlVal::Text(name));
    proof {
        assert(keys.deep_view() =~= name_key(name@));
    }
    keys
}

/// The statement that creates an account, or changes what is given of it.
pub fn upsert_account<'a>(name: &'a str, u: AccountUpdate<'a>) -> (out: Vec<QueryPart<'a>>)
    ensures
        out.deep_view() == upsert_statement(
            UpsertTable::Accounts,
            name_key(name@),
            account_assignments(u),
        ),
{
    let mut updates: Vec<Assignment<'a>> = Vec::new();
    proof {
        assert(updates.deep_view() =~= Seq::<AssignmentView>::empty());
    }
    assign_text(&mut updates, "description", u.description);
    assign_text(&mut updates, "organization", u.organization);
    assign_null_text(&mut updates, "parent_account", u.parent);
    assign_int(&mut updates, "fairshare_weight", u.fairshare);
    assign_null_int(&mut updates, "max_running_jobs", u.max_running_jobs);
    assign_null_text(&mut updates, "grp_tres", u.grp_tres);
    upsert_row(UpsertTable::Accounts, &key_of_name(name), &updates)
}

/// What changes of a quality of service. A field that is none stays; an inner
/// none clears it.
#[derive(Clone, Copy, Debug, Default)]
pub struct QosUpdate<'a> {
    pub description: Option<&'a str>,
    pub priority: Option<i32>,
    pub preempt_mode: Option<&'a str>,
    /// The bits of the factor.
    pub usage_factor: Option<u64>,
    pub max_jobs_per_user: Option<Option<i32>>,
    pub max_wall_min: Option<Option<i32>>,
    pub max_tres_per_job: Option<Option<&'a str>>,
    pub max_submit_per_user: Option<Option<i32>>,
    pub max_tres_per_user: Option<Option<&'a str>>,
    pub grp_tres: Option<Option<&'a str>>,
    pub grp_wall_min: Option<Option<i32>>,
}

/// The value of a factor that is given.
pub open spec fn real_value(value: Option<u64>) -> Option<SqlValView> {
    match value {
        Some(bits) => Some(SqlValView::Real(bits)),
        None => None,
    }
}

/// The assignments that change a quality of service.
pub open spec fn qos_assignments(u: QosUpdate) -> Seq<AssignmentView> {
    let a = assigning(Seq::empty(), "description"@, text_value(u.description));
    let b = assigning(a, "priority"@, int_value(u.priority));
    let c = assigning(b, "preempt_mode"@, text_value(u.preempt_mode));
    let d = assigning(c, "usage_factor"@, real_value(u.usage_factor));
    let e = assigning(d, "max_jobs_per_user"@, null_int_value(u.max_jobs_per_user));
    let f = assigning(e, "max_wall_min"@, null_int_value(u.max_wall_min));
    let g = assigning(f, "max_tres_per_job"@, null_text_value(u.max_tres_per_job));
    let h = assigning(g, "max_submit_per_user"@, null_int_value(u.max_submit_per_user));
    let i = assigning(h, "max_tres_per_user"@, null_text_value(u.max_tres_per_user));
    let j = assigning(i, "grp_tres"@, null_text_value(u.grp_tres));
    assigning(j, "grp_wall_min"@, null_int_value(u.grp_wall_min))
}

/// The statement that creates a quality of service, or changes what is given of
/// it.
pub fn upsert_qos<'a>(name: &'a str, u: QosUpdate<'a>) -> (out: Vec<QueryPart<'a>>)
    ensures
        out.deep_view() == upsert_statement(
            UpsertTable::Qos,
            name_key(name@),
            qos_assignments(u),
        ),
{
    let mut updates: Vec<Assignment<'a>> = Vec::new();
    proof {
        assert(updates.deep_view() =~= Seq::<AssignmentView>::empty());
    }
    assign_text(&mut updates, "description", u.description);
    assign_int(&mut updates, "priority", u.priority);
    assign_text(&mut updates, "preempt_mode", u.preempt_mode);
    if let Some(bits) = u.usage_factor {
        assign(&mut updates, "usage_factor", SqlVal::Real(bits));
    }
    assign_null_int(&mut updates, "max_jobs_per_user", u.max_jobs_per_user);
    assign_null_int(&mut updates, "max_wall_min", u.max_wall_min);
    assign_null_text(&mut updates, "max_tres_per_job", u.max_tres_per_job);
    assign_null_int(&mut updates, "max_submit_per_user", u.max_submit_per_user);
    assign_null_text(&mut updates, "max_tres_per_user", u.max_tres_per_user);
    assign_null_text(&mut updates, "grp_tres", u.grp_tres);
    assign_null_int(&mut updates, "grp_wall_min", u.grp_wall_min);
    upsert_row(UpsertTable::Qos, &key_of_name(name), &updates)
}

/// What changes of a user in an account. A field that is none stays; an inner
/// none clears it.
#[derive(Clone, Copy, Debug, Default)]
pub struct UserUpdate<'a> {
    pub admin_level: Option<&'a str>,
    pub is_default: Option<bool>,
    pub default_qos: Option<Option<&'a str>>,
    pub allowed_qos: Option<Option<&'a str>>,
    pub max_running_jobs: Option<Option<i32>>,
    pub max_submit_jobs: Option<Option<i32>>,
    pub max_tres_per_job: Option<Option<&'a str>>,
    pub grp_tres: Option<Option<&'a str>>,
    pub max_wall_min: Option<Option<i32>>,
}

/// The assignments that change the association of a user with an account.
pub open spec fn association_assignments(u: UserUpdate) -> Seq<AssignmentView> {
    let a = assigning(Seq::empty(), "default_qos"@, null_text_value(u.default_qos));
    let b = assigning(a, "allowed_qos"@, null_text_value(u.allowed_qos));
    let c = assigning(b, "max_running_jobs"@, null_int_value(u.max_running_jobs));
    let d = assigning(c, "max_submit_jobs"@, null_int_value(u.max_submit_jobs));
    let e = assigning(d, "max_tres_per_job"@, null_text_value(u.max_tres_per_job));
    let f = assigning(e, "grp_tres"@, null_text_value(u.grp_tres));
    assigning(f, "max_wall_min"@, null_int_value(u.max_wall_min))
}

fn assignments_of<'a>(u: &UserUpdate<'a>) -> (out: Vec<Assignment<'a>>)
    ensures
        out.deep_view() == association_assignments(*u),
{
    let mut assoc: Vec<Assignment<'a>> = Vec::new();
    proof {
        assert(assoc.deep_view() =~= Seq::<AssignmentView>::empty());
    }
    assign_null_text(&mut assoc, "default_qos", u.default_qos);
    assign_null_text(&mut assoc, "allowed_qos", u.allowed_qos);
    assign_null_int(&mut assoc, "max_running_jobs", u.max_running_jobs);
    assign_null_int(&mut assoc, "max_submit_jobs", u.max_submit_jobs);
    assign_null_text(&mut assoc, "max_tres_per_job", u.max_tres_per_job);
    assign_null_text(&mut assoc, "grp_tres", u.grp_tres);
    assign_null_int(&mut assoc, "max_wall_min", u.max_wall_min);
    assoc
}

/// The statement that changes the association of a user with an account, where
/// there is one.
pub open spec fn association_update(
    user: Seq<char>,
    account: Seq<char>,
    updates: Seq<AssignmentView>,
) -> Seq<QueryPartView> {
    sql("UPDATE associations SET "@) + set_list(updates) + sql(" WHERE user_name = "@) + bind(
        SqlValView::Text(user),
    ) + sql(" AND account = "@) + bind(SqlValView::Text(account)) + sql(
        " AND (partition_name IS NULL OR partition_name = '')"@,
    )
}

/// Columns, each after a comma.
pub open spec fn more_columns(list: Seq<AssignmentView>) -> Seq<QueryPartView>
    decreases list.len(),
{
    if list.len() == 0 {
        Seq::empty()
    } else {
        more_columns(list.drop_last()) + sql(", "@) + sql(list.last().column)
    }
}

/// Values, each after a comma.
pub open spec fn more_values(list: Seq<AssignmentView>) -> Seq<QueryPartView>
    decreases list.len(),
{
    if list.len() == 0 {
        Seq::empty()
    } else {
        more_values(list.drop_last()) + sql(", "@) + bind(list.last().value)
    }
}

/// The statement that creates the association of a user with an account.
pub open spec fn association_insert(
    user: Seq<char>,
    account: Seq<char>,
    updates: Seq<AssignmentView>,
) -> Seq<QueryPartView> {
    sql("INSERT INTO associations (user_name, account"@) + more_columns(updates) + sql(
        ") VALUES ("@,
    ) + bind(SqlValView::Text(user)) + sql(", "@) + bind(SqlValView::Text(account)) + more_values(
        updates,
    ) + sql(")"@)
}

fn push_more_columns<'a>(query: &mut Query<'a>, list: &Vec<Assignment<'a>>)
    ensures
        final(query).made() == old(query).made() + more_columns(list.deep_view()),
{
    let ghost items = list.deep_view();
    let ghost before = query.made();
    let mut i: usize = 0;
    proof {
        assert(items.take(0) =~= Seq::<AssignmentView>::empty());
        assert(before + more_columns(items.take(0)) =~= before);
    }
    while i < list.len()
        invariant
            i <= list@.len(),
            items == list.deep_view(),
            query.made() == before + more_columns(items.take(i as int)),
        decreases list@.len() - i,
    {
        proof {
            assert(items.take(i + 1).drop_last() =~= items.take(i as int));
            assert(items.take(i + 1).last() == list@[i as int]@);
        }
        query.push(", ");
        query.push(list[i].column);
        proof {
            assert(query.made() =~= before + more_columns(items.take(i + 1)));
        }
        i = i + 1;
    }
    proof {
        assert(items.take(i as int) =~= items);
    }
}

fn push_more_values<'a>(query: &mut Query<'a>, list: &Vec<Assignment<'a>>)
    ensures
        final(query).made() == old(query).made() + more_values(list.deep_view()),
{
    let ghost items = list.deep_view();
    let ghost before = query.made();
    let mut i: usize = 0;
    proof {
        assert(items.take(0) =~= Seq::<AssignmentView>::empty());
        assert(before + more_values(items.take(0)) =~= before);
    }
    while i < list.len()
        invariant
            i <= list@.len(),
            items == list.deep_view(),
            query.made() == before + more_values(items.take(i as int)),
        decreases list@.len() - i,
    {
        proof {
            assert(items.take(i + 1).drop_last() =~= items.take(i as int));
            assert(items.take(i + 1).last() == list@[i as int]@);
        }
        query.push(", ");
        query.push_bind(list[i].value);
        proof {
            assert(query.made() =~= before + more_values(items.take(i + 1)));
        }
        i = i + 1;
    }
    proof {
        assert(items.take(i as int) =~= items);
    }
}

/// The statements that change the association of a user with an account: the
/// second is for when the first found none.
#[derive(Debug)]
pub struct AssociationStatements<'a> {
    pub update: Vec<QueryPart<'a>>,
    pub insert: Vec<QueryPart<'a>>,
}

/// The statements that change the association of a user with an account; none
/// where nothing of it changes.
pub fn upsert_association<'a>(user: &'a str, account: &'a str, u: &UserUpdate<'a>) -> (out: Option<
    AssociationStatements<'a>,
>)
    ensures
        match out {
            None => association_assignments(*u).len() == 0,
            Some(statements) => {
                &&& association_assignments(*u).len() > 0
                &&& statements.update.deep_view() == association_update(
                    user@,
                    account@,
                    association_assignments(*u),
                )
                &&& statements.insert.deep_view() == association_insert(
                    user@,
                    account@,
                    association_assignments(*u),
                )
            },
        },
{
    let updates = assignments_of(u);
    if updates.len() == 0 {
        return None;
    }
    let mut update = Query::new();
    update.push("UPDATE associations SET ");
    push_sets(&mut update, &updates);
    update.push(" WHERE user_name = ");
    update.push_bind(SqlVal::Text(user));
    update.push(" AND account = ");
    update.push_bind(SqlVal::Text(account));
    update.push(" AND (partition_name IS NULL OR partition_name = '')");
    let mut insert = Query::new();
    insert.push("INSERT INTO associations (user_name, account");
    push_more_columns(&mut insert, &updates);
    insert.push(") VALUES (");
    insert.push_bind(SqlVal::Text(user));
    insert.push(", ");
    insert.push_bind(SqlVal::Text(account));
    push_more_values(&mut insert, &updates);
    insert.push(")");
    proof {
        let list = association_assignments(*u);
        assert(update.made() =~= association_update(user@, account@, list));
        assert(insert.made() =~= association_insert(user@, account@, list));
    }
    Some(AssociationStatements { update: update.parts, insert: insert.parts })
}

/// What a look at the history of jobs is limited to.
#[derive(Clone, Copy, Debug)]
pub struct HistoryFilter<'a> {
    pub user: Option<&'a str>,
    pub account: Option<&'a str>,
    pub start_after: Option<Instant>,
    pub start_before: Option<Instant>,
    pub states: &'a Vec<String>,
    /// The number of jobs; zero for the default.
    pub limit: u32,
}

/// A text and a value, where there is one.
pub open spec fn clause(text: Seq<char>, value: Option<SqlValView>) -> Seq<QueryPartView> {
    match value {
        Some(value) => sql(text) + bind(value),
        None => Seq::empty(),
    }
}

/// A text that is not empty, as a value.
pub open spec fn filter_value(value: Option<&str>) -> Option<SqlValView> {
    match nonempty(opt_text(value)) {
        Some(text) => Some(SqlValView::Text(text)),
        None => None,
    }
}

/// A point in time, as a value.
pub open spec fn time_value(at: Option<Instant>) -> Option<SqlValView> {
    match at {
        Some(at) => Some(SqlValView::Time(at)),
        None => None,
    }
}

/// Texts as values, separated by commas.
pub open spec fn text_list(texts: Seq<Seq<char>>) -> Seq<QueryPartView>
    decreases texts.len(),
{
    if texts.len() == 0 {
        Seq::empty()
    } else if texts.len() == 1 {
        bind(SqlValView::Text(texts[0]))
    } else {
        text_list(texts.drop_last()) + sql(", "@) + bind(SqlValView::Text(texts.last()))
    }
}

/// The columns of a job that its history shows.
pub const HISTORY_COLUMNS: &'static str =
    "SELECT job_id, name, user_name, account, partition_name, state, exit_code, exit_signal, derived_exit_code, num_nodes, num_tasks, nodelist, submit_time, start_time, end_time, reservation FROM jobs WHERE 1=1";

/// The statement that reads the history of jobs, the latest first.
pub open spec fn history_statement(filter: HistoryFilter) -> Seq<QueryPartView> {
    let states = filter.states.deep_view();
    sql(HISTORY_COLUMNS@) + clause(" AND user_name = "@, filter_value(filter.user)) + clause(
        " AND account = "@,
        filter_value(filter.account),
    ) + clause(" AND start_time >= "@, time_value(filter.start_after)) + clause(
        " AND start_time <= "@,
        time_value(filter.start_before),
    ) + (if states.len() == 0 {
        Seq::empty()
    } else {
        sql(" AND state IN ("@) + text_list(states) + sql(")"@)
    }) + sql(" ORDER BY submit_time DESC"@) + sql(" LIMIT "@) + bind(
        SqlValView::BigInt(
            if filter.limit > 0 {
                filter.limit as i64
            } else {
                HISTORY_LIMIT
            },
        ),
    )
}

fn push_text_clause<'a>(query: &mut Query<'a>, text: &'static str, value: Option<&'a str>)
    ensures
        final(query).made() == old(query).made() + clause(text@, filter_value(value)),
{
    let ghost before = query.made();
    if let Some(value) = value {
        if !is_blank_str(value) {
            query.push(text);
            query.push_bind(SqlVal::Text(value));
        }
    }
    proof {
        assert(query.made() =~= before + clause(text@, filter_value(value)));
    }
}

fn push_time_clause<'a>(query: &mut Query<'a>, text: &'static str, at: Option<Instant>)
    ensures
        final(query).made() == old(query).made() + clause(text@, time_value(at)),
{
    let ghost before = query.made();
    if let Some(at) = at {
        query.push(text);
        query.push_bind(SqlVal::Time(at));
    }
    proof {
        assert(query.made() =~= before + clause(text@, time_value(at)));
    }
}

fn push_texts<'a>(query: &mut Query<'a>, texts: &'a Vec<String>)
    ensures
        final(query).made() == old(query).made() + text_list(texts.deep_view()),
{
    let ghost items = texts.deep_view();
    let ghost before = query.made();
    let mut i: usize = 0;
    proof {
        assert(items.take(0) =~= Seq::<Seq<char>>::empty());
        assert(before + text_list(items.take(0)) =~= before);
    }
    while i < texts.len()
        invariant
            i <= texts@.len(),
            items == texts.deep_view(),
            query.made() == before + text_list(items.take(i as int)),
        decreases texts@.len() - i,
    {
        proof {
            assert(items.take(i + 1).drop_last() =~= items.take(i as int));
            assert(items.take(i + 1).last() == texts@[i as int]@);
            assert(items.take(i + 1)[0] == items[0]);
            assert(items[0] == texts@[0]@);
        }
        if i > 0 {
            query.push(", ");
        }
        query.push_bind(SqlVal::Text(texts[i].as_str()));
        proof {
            assert(query.made() =~= before + text_list(items.take(i + 1)));
        }
        i = i + 1;
    }
    proof {
        assert(items.take(i as int) =~= items);
    }
}

/// The statement that reads the history of jobs, the latest first.
pub fn get_job_history<'a>(filter: HistoryFilter<'a>) -> (out: Vec<QueryPart<'a>>)
    ensures
        out.deep_view() == history_statement(filter),
{
    let mut query = Query::new();
    query.push(HISTORY_COLUMNS);
    push_text_clause(&mut query, " AND user_name = ", filter.user);
    push_text_clause(&mut query, " AND account = ", filter.account);
    push_time_clause(&mut query, " AND start_time >= ", filter.start_after);
    push_time_clause(&mut query, " AND start_time <= ", filter.start_before);
    if filter.states.len() > 0 {
        query.push(" AND state IN (");
        push_texts(&mut query, filter.states);
        query.push(")");
    }
    query.push(" ORDER BY submit_time DESC");
    query.push(" LIMIT ");
    let limit: i64 = if filter.limit > 0 {
        filter.limit as i64
    } else {
        HISTORY_LIMIT
    };
    query.push_bind(SqlVal::BigInt(limit));
    proof {
        assert(query.made() =~= history_statement(filter));
    }
    query.parts
}

/// A statement without its values.
pub open spec fn shape(parts: Seq<QueryPartView>) -> Seq<Option<Seq<char>>> {
    parts.map_values(
        |part: QueryPartView|
            match part {
                QueryPartView::Sql(text) => Some(text),
                QueryPartView::Bind(_) => None,
            },
    )
}

/// Whether two lists assign to the same columns.
pub open spec fn same_columns(a: Seq<AssignmentView>, b: Seq<AssignmentView>) -> bool {
    a.len() == b.len() && forall|i: int| 0 <= i < a.len() ==> (#[trigger] a[i]).column == b[i].column
}

proof fn lemma_shape_of_sum(a: Seq<QueryPartView>, b: Seq<QueryPartView>)
    ensures
        shape(a + b) == shape(a) + shape(b),
{
    assert(shape(a + b) =~= shape(a) + shape(b));
}

proof fn lemma_same_shapes(a: Seq<AssignmentView>, b: Seq<AssignmentView>)
    requires
        same_columns(a, b),
    ensures
        shape(column_list(a)) == shape(column_list(b)),
        shape(value_list(a)) == shape(value_list(b)),
        shape(excluded_list(a)) == shape(excluded_list(b)),
    decreases a.len(),
{
    if a.len() > 0 {
        assert(a.last().column == b.last().column) by {
            assert(a[a.len() - 1].column == b[a.len() - 1].column);
        }
        assert(a[0].column == b[0].column);
        let da = a.drop_last();
        let db = b.drop_last();
        assert forall|i: int| 0 <= i < da.len() implies (#[trigger] da[i]).column
            == db[i].column by {
            assert(a[i].column == b[i].column);
        }
        lemma_same_shapes(da, db);
        assert(shape(value_list(a)) =~= shape(value_list(b))) by {
            lemma_shape_of_sum(value_list(da), sql(", "@) + bind(a.last().value));
            lemma_shape_of_sum(value_list(db), sql(", "@) + bind(b.last().value));
            assert(value_list(da) + sql(", "@) + bind(a.last().value) =~= value_list(da) + (sql(
                ", "@,
            ) + bind(a.last().value)));
            assert(value_list(db) + sql(", "@) + bind(b.last().value) =~= value_list(db) + (sql(
                ", "@,
            ) + bind(b.last().value)));
            assert(shape(sql(", "@) + bind(a.last().value)) =~= shape(
                sql(", "@) + bind(b.last().value),
            ));
            assert(shape(bind(a[0].value)) =~= shape(bind(b[0].value)));
        }
        let ca = sql(", "@) + sql(a.last().column);
        assert(shape(column_list(a)) =~= shape(column_list(b))) by {
            lemma_shape_of_sum(column_list(da), ca);
            lemma_shape_of_sum(column_list(db), ca);
            assert(column_list(da) + sql(", "@) + sql(a.last().column) =~= column_list(da) + ca);
            assert(column_list(db) + sql(", "@) + sql(b.last().column) =~= column_list(db) + ca);
        }
        let last = sql(a.last().column) + sql(" = EXCLUDED."@) + sql(a.last().column);
        let ea = sql(", "@) + last;
        assert(shape(excluded_list(a)) =~= shape(excluded_list(b))) by {
            lemma_shape_of_sum(excluded_list(da), ea);
            lemma_shape_of_sum(excluded_list(db), ea);
            assert(excluded_list(da) + sql(", "@) + last =~= excluded_list(da) + ea);
            assert(excluded_list(db) + sql(", "@) + last =~= excluded_list(db) + ea);
        }
    }
}

/// What is given as a value never becomes text of a statement: statements that
/// assign to the same columns differ in their values alone.
pub proof fn law_values_stay_out_of_the_text(
    table: UpsertTable,
    keys: Seq<AssignmentView>,
    updates: Seq<AssignmentView>,
    other_keys: Seq<AssignmentView>,
    other_updates: Seq<AssignmentView>,
)
    requires
        same_columns(keys, other_keys),
        same_columns(updates, other_updates),
    ensures
        shape(upsert_statement(table, keys, updates)) == shape(
            upsert_statement(table, other_keys, other_updates),
        ),
{
    let a = keys + updates;
    let b = other_keys + other_updates;
    assert forall|i: int| 0 <= i < a.len() implies (#[trigger] a[i]).column == b[i].column by {
        if i < keys.len() {
            assert(keys[i].column == other_keys[i].column);
        } else {
            assert(updates[i - keys.len()].column == other_updates[i - keys.len()].column);
        }
    }
    lemma_same_shapes(a, b);
    lemma_same_shapes(updates, other_updates);
    let head = sql("INSERT INTO "@) + sql(table_name(table)) + sql(" ("@);
    let middle = sql(") VALUES ("@);
    let tail = sql(") ON CONFLICT ("@) + sql("name"@) + sql(")"@);
    let end_a = if updates.len() == 0 {
        sql(" DO NOTHING"@)
    } else {
        sql(" DO UPDATE SET "@) + excluded_list(updates)
    };
    let end_b = if other_updates.len() == 0 {
        sql(" DO NOTHING"@)
    } else {
        sql(" DO UPDATE SET "@) + excluded_list(other_updates)
    };
    lemma_shape_of_sum(sql(" DO UPDATE SET "@), excluded_list(updates));
    lemma_shape_of_sum(sql(" DO UPDATE SET "@), excluded_list(other_updates));
    assert(upsert_statement(table, keys, updates) =~= head + column_list(a) + middle + value_list(a)
        + tail + end_a);
    assert(upsert_statement(table, other_keys, other_updates) =~= head + column_list(b) + middle
        + value_list(b) + tail + end_b);
    lemma_shape_of_sum(head, column_list(a));
    lemma_shape_of_sum(head, column_list(b));
    lemma_shape_of_sum(head + column_list(a), middle);
    lemma_shape_of_sum(head + column_list(b), middle);
    lemma_shape_of_sum(head + column_list(a) + middle, value_list(a));
    lemma_shape_of_sum(head + column_list(b) + middle, value_list(b));
    lemma_shape_of_sum(head + column_list(a) + middle + value_list(a), tail);
    lemma_shape_of_sum(head + column_list(b) + middle + value_list(b), tail);
    lemma_shape_of_sum(head + column_list(a) + middle + value_list(a) + tail, end_a);
    lemma_shape_of_sum(head + column_list(b) + middle + value_list(b) + tail, end_b);
}

/// The value that a list of assignments gives to a column; none where it leaves
/// the column alone.
pub open spec fn assigned(list: Seq<AssignmentView>, column: Seq<char>) -> Option<SqlValView>
    decreases list.len(),
{
    if list.len() == 0 {
        None
    } else if list.last().column == column {
        Some(list.last().value)
    } else {
        assigned(list.drop_last(), column)
    }
}

/// One more assignment changes what its own column is given, and nothing else.
proof fn lemma_assigned(
    list: Seq<AssignmentView>,
    column: Seq<char>,
    value: Option<SqlValView>,
    c: Seq<char>,
)
    ensures
        assigned(assigning(list, column, value), c) == if c == column && value is Some {
            value
        } else {
            assigned(list, c)
        },
{
    if value is Some {
        let more = assigning(list, column, value);
        assert(more.drop_last() =~= list);
    }
}

/// Two names differ when they have different lengths or differ somewhere.
proof fn lemma_differ(a: Seq<char>, b: Seq<char>, i: int)
    requires
        a.len() != b.len() || (0 <= i < a.len() && a[i] != b[i]),
    ensures
        a != b,
{
}

/// The value that an update gives to a column of an account.
pub open spec fn account_column(u: AccountUpdate, column: Seq<char>) -> Option<SqlValView> {
    if column == "description"@ {
        text_value(u.description)
    } else if column == "organization"@ {
        text_value(u.organization)
    } else if column == "parent_account"@ {
        null_text_value(u.parent)
    } else if column == "fairshare_weight"@ {
        int_value(u.fairshare)
    } else if column == "max_running_jobs"@ {
        null_int_value(u.max_running_jobs)
    } else if column == "grp_tres"@ {
        null_text_value(u.grp_tres)
    } else {
        None
    }
}

/// Only what an update gives of an account changes: every other column is left
/// alone.
pub proof fn law_account_keeps_what_is_not_given(u: AccountUpdate, column: Seq<char>)
    ensures
        assigned(account_assignments(u), column) == account_column(u, column),
{
    reveal_strlit("description");
    reveal_strlit("organization");
    reveal_strlit("parent_account");
    reveal_strlit("fairshare_weight");
    reveal_strlit("max_running_jobs");
    reveal_strlit("grp_tres");
    lemma_differ("description"@, "organization"@, 0);
    lemma_differ("description"@, "parent_account"@, 0);
    lemma_differ("description"@, "fairshare_weight"@, 0);
    lemma_differ("description"@, "max_running_jobs"@, 0);
    lemma_differ("description"@, "grp_tres"@, 0);
    lemma_differ("organization"@, "parent_account"@, 0);
    lemma_differ("organization"@, "fairshare_weight"@, 0);
    lemma_differ("organization"@, "max_running_jobs"@, 0);
    lemma_differ("organization"@, "grp_tres"@, 0);
    lemma_differ("parent_account"@, "fairshare_weight"@, 0);
    lemma_differ("parent_account"@, "max_running_jobs"@, 0);
    lemma_differ("parent_account"@, "grp_tres"@, 0);
    lemma_differ("fairshare_weight"@, "max_running_jobs"@, 0);
    lemma_differ("fairshare_weight"@, "grp_tres"@, 0);
    lemma_differ("max_running_jobs"@, "grp_tres"@, 0);
    lemma_assigned(Seq::<AssignmentView>::empty(), "description"@, text_value(u.description), column);
    let a = assigning(Seq::<AssignmentView>::empty(), "description"@, text_value(u.description));
    lemma_assigned(a, "organization"@, text_value(u.organization), column);
    let b = assigning(a, "organization"@, text_value(u.organization));
    lemma_assigned(b, "parent_account"@, null_text_value(u.parent), column);
    let c = assigning(b, "parent_account"@, null_text_value(u.parent));
    lemma_assigned(c, "fairshare_weight"@, int_value(u.fairshare), column);
    let d = assigning(c, "fairshare_weight"@, int_value(u.fairshare));
    lemma_assigned(d, "max_running_jobs"@, null_int_value(u.max_running_jobs), column);
    let e = assigning(d, "max_running_jobs"@, null_int_value(u.max_running_jobs));
    lemma_assigned(e, "grp_tres"@, null_text_value(u.grp_tres), column);
}

/// The value that an update gives to a column of a quality of service.
pub open spec fn qos_column(u: QosUpdate, column: Seq<char>) -> Option<SqlValView> {
    if column == "description"@ {
        text_value(u.description)
    } else if column == "priority"@ {
        int_value(u.priority)
    } else if column == "preempt_mode"@ {
        text_value(u.preempt_mode)
    } else if column == "usage_factor"@ {
        real_value(u.usage_factor)
    } else if column == "max_jobs_per_user"@ {
        null_int_value(u.max_jobs_per_user)
    } else if column == "max_wall_min"@ {
        null_int_value(u.max_wall_min)
    } else if column == "max_tres_per_job"@ {
        null_text_value(u.max_tres_per_job)
    } else if column == "max_submit_per_user"@ {
        null_int_value(u.max_submit_per_user)
    } else if column == "max_tres_per_user"@ {
        null_text_value(u.max_tres_per_user)
    } else if column == "grp_tres"@ {
        null_text_value(u.grp_tres)
    } else if column == "grp_wall_min"@ {
        null_int_value(u.grp_wall_min)
    } else {
        None
    }
}

/// Only what an update gives of a quality of service changes: every other column is left
/// alone.
pub proof fn law_qos_keeps_what_is_not_given(u: QosUpdate, column: Seq<char>)
    ensures
        assigned(qos_assignments(u), column) == qos_column(u, column),
{
    reveal_strlit("description");
    reveal_strlit("priority");
    reveal_strlit("preempt_mode");
    reveal_strlit("usage_factor");
    reveal_strlit("max_jobs_per_user");
    reveal_strlit("max_wall_min");
    reveal_strlit("max_tres_per_job");
    reveal_strlit("max_submit_per_user");
    reveal_strlit("max_tres_per_user");
    reveal_strlit("grp_tres");
    reveal_strlit("grp_wall_min");
    lemma_differ("description"@, "priority"@, 0);
    lemma_differ("description"@, "preempt_mode"@, 0);
    lemma_differ("description"@, "usage_factor"@, 0);
    lemma_differ("description"@, "max_jobs_per_user"@, 0);
    lemma_differ("description"@, "max_wall_min"@, 0);
    lemma_differ("description"@, "max_tres_per_job"@, 0);
    lemma_differ("description"@, "max_submit_per_user"@, 0);
    lemma_differ("description"@, "max_tres_per_user"@, 0);
    lemma_differ("description"@, "grp_tres"@, 0);
    lemma_differ("description"@, "grp_wall_min"@, 0);
    lemma_differ("priority"@, "preempt_mode"@, 0);
    lemma_differ("priority"@, "usage_factor"@, 0);
    lemma_differ("priority"@, "max_jobs_per_user"@, 0);
    lemma_differ("priority"@, "max_wall_min"@, 0);
    lemma_differ("priority"@, "max_tres_per_job"@, 0);
    lemma_differ("priority"@, "max_submit_per_user"@, 0);
    lemma_differ("priority"@, "max_tres_per_user"@, 0);
    lemma_differ("priority"@, "grp_tres"@, 0);
    lemma_differ("priority"@, "grp_wall_min"@, 0);
    lemma_differ("preempt_mode"@, "usage_factor"@, 0);
    lemma_differ("preempt_mode"@, "max_jobs_per_user"@, 0);
    lemma_differ("preempt_mode"@, "max_wall_min"@, 0);
    lemma_differ("preempt_mode"@, "max_tres_per_job"@, 0);
    lemma_differ("preempt_mode"@, "max_submit_per_user"@, 0);
    lemma_differ("preempt_mode"@, "max_tres_per_user"@, 0);
    lemma_differ("preempt_mode"@, "grp_tres"@, 0);
    lemma_differ("preempt_mode"@, "grp_wall_min"@, 0);
    lemma_differ("usage_factor"@, "max_jobs_per_user"@, 0);
    lemma_differ("usage_factor"@, "max_wall_min"@, 0);
    lemma_differ("usage_factor"@, "max_tres_per_job"@, 0);
    lemma_differ("usage_factor"@, "max_submit_per_user"@, 0);
    lemma_differ("usage_factor"@, "max_tres_per_user"@, 0);
    lemma_differ("usage_factor"@, "grp_tres"@, 0);
    lemma_differ("usage_factor"@, "grp_wall_min"@, 0);
    lemma_differ("max_jobs_per_user"@, "max_wall_min"@, 0);
    lemma_differ("max_jobs_per_user"@, "max_tres_per_job"@, 0);
    lemma_differ("max_jobs_per_user"@, "max_submit_per_user"@, 0);
    lemma_differ("max_jobs_per_user"@, "max_tres_per_user"@, 4);
    lemma_differ("max_jobs_per_user"@, "grp_tres"@, 0);
    lemma_differ("max_jobs_per_user"@, "grp_wall_min"@, 0);
    lemma_differ("max_wall_min"@, "max_tres_per_job"@, 0);
    lemma_differ("max_wall_min"@, "max_submit_per_user"@, 0);
    lemma_differ("max_wall_min"@, "max_tres_per_user"@, 0);
    lemma_differ("max_wall_min"@, "grp_tres"@, 0);
    lemma_differ("max_wall_min"@, "grp_wall_min"@, 0);
    lemma_differ("max_tres_per_job"@, "max_submit_per_user"@, 0);
    lemma_differ("max_tres_per_job"@, "max_tres_per_user"@, 0);
    lemma_differ("max_tres_per_job"@, "grp_tres"@, 0);
    lemma_differ("max_tres_per_job"@, "grp_wall_min"@, 0);
    lemma_differ("max_submit_per_user"@, "max_tres_per_user"@, 0);
    lemma_differ("max_submit_per_user"@, "grp_tres"@, 0);
    lemma_differ("max_submit_per_user"@, "grp_wall_min"@, 0);
    lemma_differ("max_tres_per_user"@, "grp_tres"@, 0);
    lemma_differ("max_tres_per_user"@, "grp_wall_min"@, 0);
    lemma_differ("grp_tres"@, "grp_wall_min"@, 0);
    lemma_assigned(Seq::<AssignmentView>::empty(), "description"@, text_value(u.description), column);
    let a = assigning(Seq::<AssignmentView>::empty(), "description"@, text_value(u.description));
    lemma_assigned(a, "priority"@, int_value(u.priority), column);
    let b = assigning(a, "priority"@, int_value(u.priority));
    lemma_assigned(b, "preempt_mode"@, text_value(u.preempt_mode), column);
    let c = assigning(b, "preempt_mode"@, text_value(u.preempt_mode));
    lemma_assigned(c, "usage_factor"@, real_value(u.usage_factor), column);
    let d = assigning(c, "usage_factor"@, real_value(u.usage_factor));
    lemma_assigned(d, "max_jobs_per_user"@, null_int_value(u.max_jobs_per_user), column);
    let e = assigning(d, "max_jobs_per_user"@, null_int_value(u.max_jobs_per_user));
    lemma_assigned(e, "max_wall_min"@, null_int_value(u.max_wall_min), column);
    let f = assigning(e, "max_wall_min"@, null_int_value(u.max_wall_min));
    lemma_assigned(f, "max_tres_per_job"@, null_text_value(u.max_tres_per_job), column);
    let g = assigning(f, "max_tres_per_job"@, null_text_value(u.max_tres_per_job));
    lemma_assigned(g, "max_submit_per_user"@, null_int_value(u.max_submit_per_user), column);
    let h = assigning(g, "max_submit_per_user"@, null_int_value(u.max_submit_per_user));
    lemma_assigned(h, "max_tres_per_user"@, null_text_value(u.max_tres_per_user), column);
    let i = assigning(h, "max_tres_per_user"@, null_text_value(u.max_tres_per_user));
    lemma_assigned(i, "grp_tres"@, null_text_value(u.grp_tres), column);
    let j = assigning(i, "grp_tres"@, null_text_value(u.grp_tres));
    lemma_assigned(j, "grp_wall_min"@, null_int_value(u.grp_wall_min), column);
}

/// The value that an update gives to a column of the association of a user with an account.
pub open spec fn association_column(u: UserUpdate, column: Seq<char>) -> Option<SqlValView> {
    if column == "default_qos"@ {
        null_text_value(u.default_qos)
    } else if column == "allowed_qos"@ {
        null_text_value(u.allowed_qos)
    } else if column == "max_running_jobs"@ {
        null_int_value(u.max_running_jobs)
    } else if column == "max_submit_jobs"@ {
        null_int_value(u.max_submit_jobs)
    } else if column == "max_tres_per_job"@ {
        null_text_value(u.max_tres_per_job)
    } else if column == "grp_tres"@ {
        null_text_value(u.grp_tres)
    } else if column == "max_wall_min"@ {
        null_int_value(u.max_wall_min)
    } else {
        None
    }
}

/// Only what an update gives of the association of a user with an account changes: every other column is left
/// alone.
pub proof fn law_association_keeps_what_is_not_given(u: UserUpdate, column: Seq<char>)
    ensures
        assigned(association_assignments(u), column) == association_column(u, column),
{
    reveal_strlit("default_qos");
    reveal_strlit("allowed_qos");
    reveal_strlit("max_running_jobs");
    reveal_strlit("max_submit_jobs");
    reveal_strlit("max_tres_per_job");
    reveal_strlit("grp_tres");
    reveal_strlit("max_wall_min");
    lemma_differ("default_qos"@, "allowed_qos"@, 0);
    lemma_differ("default_qos"@, "max_running_jobs"@, 0);
    lemma_differ("default_qos"@, "max_submit_jobs"@, 0);
    lemma_differ("default_qos"@, "max_tres_per_job"@, 0);
    lemma_differ("default_qos"@, "grp_tres"@, 0);
    lemma_differ("default_qos"@, "max_wall_min"@, 0);
    lemma_differ("allowed_qos"@, "max_running_jobs"@, 0);
    lemma_differ("allowed_qos"@, "max_submit_jobs"@, 0);
    lemma_differ("allowed_qos"@, "max_tres_per_job"@, 0);
    lemma_differ("allowed_qos"@, "grp_tres"@, 0);
    lemma_differ("allowed_qos"@, "max_wall_min"@, 0);
    lemma_differ("max_running_jobs"@, "max_submit_jobs"@, 0);
    lemma_differ("max_running_jobs"@, "max_tres_per_job"@, 4);
    lemma_differ("max_running_jobs"@, "grp_tres"@, 0);
    lemma_differ("max_running_jobs"@, "max_wall_min"@, 0);
    lemma_differ("max_submit_jobs"@, "max_tres_per_job"@, 0);
    lemma_differ("max_submit_jobs"@, "grp_tres"@, 0);
    lemma_differ("max_submit_jobs"@, "max_wall_min"@, 0);
    lemma_differ("max_tres_per_job"@, "grp_tres"@, 0);
    lemma_differ("max_tres_per_job"@, "max_wall_min"@, 0);
    lemma_differ("grp_tres"@, "max_wall_min"@, 0);
    lemma_assigned(Seq::<AssignmentView>::empty(), "default_qos"@, null_text_value(u.default_qos), column);
    let a = assigning(Seq::<AssignmentView>::empty(), "default_qos"@, null_text_value(u.default_qos));
    lemma_assigned(a, "allowed_qos"@, null_text_value(u.allowed_qos), column);
    let b = assigning(a, "allowed_qos"@, null_text_value(u.allowed_qos));
    lemma_assigned(b, "max_running_jobs"@, null_int_value(u.max_running_jobs), column);
    let c = assigning(b, "max_running_jobs"@, null_int_value(u.max_running_jobs));
    lemma_assigned(c, "max_submit_jobs"@, null_int_value(u.max_submit_jobs), column);
    let d = assigning(c, "max_submit_jobs"@, null_int_value(u.max_submit_jobs));
    lemma_assigned(d, "max_tres_per_job"@, null_text_value(u.max_tres_per_job), column);
    let e = assigning(d, "max_tres_per_job"@, null_text_value(u.max_tres_per_job));
    lemma_assigned(e, "grp_tres"@, null_text_value(u.grp_tres), column);
    let f = assigning(e, "grp_tres"@, null_text_value(u.grp_tres));
    lemma_assigned(f, "max_wall_min"@, null_int_value(u.max_wall_min), column);
}

/// Whether `a` is at or after `b`.
pub open spec fn not_before(a: Instant, b: Instant) -> bool {
    a.secs > b.secs || a.secs == b.secs && a.nanos >= b.nanos
}

/// What the conditions of a statement say of a row: whether they admit it; none
/// where they cannot be read. They are read from the front, each as the database
/// reads it, up to the order and the limit.
pub open spec fn admits(parts: Seq<QueryPartView>, row: JobRowView) -> Option<bool>
    decreases parts.len(),
{
    if parts.len() < 3 {
        None
    } else if parts[0] == QueryPartView::Sql(" AND user_name = "@) {
        both(parts[1] == QueryPartView::Bind(SqlValView::Text(row.user_name)), admits(parts.skip(2), row))
    } else if parts[0] == QueryPartView::Sql(" AND account = "@) {
        both(parts[1] == QueryPartView::Bind(SqlValView::Text(row.account)), admits(parts.skip(2), row))
    } else if parts[0] == QueryPartView::Sql(" AND start_time >= "@) {
        both(
            parts[1] matches QueryPartView::Bind(SqlValView::Time(at)) && row.start_time is Some
                && not_before(row.start_time->0, at),
            admits(parts.skip(2), row),
        )
    } else if parts[0] == QueryPartView::Sql(" AND start_time <= "@) {
        both(
            parts[1] matches QueryPartView::Bind(SqlValView::Time(at)) && row.start_time is Some
                && not_before(at, row.start_time->0),
            admits(parts.skip(2), row),
        )
    } else if parts[0] == QueryPartView::Sql(" AND state IN ("@) {
        let close = 1 + closing(parts.skip(1)) as int;
        if close < parts.len() {
            both(
                parts.subrange(1, close).contains(QueryPartView::Bind(SqlValView::Text(row.state))),
                admits(parts.skip(close + 1), row),
            )
        } else {
            None
        }
    } else if parts.len() == 3 && parts[0] == QueryPartView::Sql(" ORDER BY submit_time DESC"@)
        && parts[1] == QueryPartView::Sql(" LIMIT "@) && (parts[2] matches QueryPartView::Bind(
        SqlValView::BigInt(_),
    )) {
        Some(true)
    } else {
        None
    }
}

/// A condition and what follows it.
pub open spec fn both(yes: bool, rest: Option<bool>) -> Option<bool> {
    match rest {
        Some(more) => Some(yes && more),
        None => None,
    }
}

/// Where a bracket is closed.
pub open spec fn closing(parts: Seq<QueryPartView>) -> nat
    decreases parts.len(),
{
    if parts.len() == 0 || parts[0] == QueryPartView::Sql(")"@) {
        0
    } else {
        1 + closing(parts.skip(1))
    }
}

proof fn lemma_closing(parts: Seq<QueryPartView>, n: int)
    requires
        0 <= n < parts.len(),
        parts[n] == QueryPartView::Sql(")"@),
        forall|j: int| 0 <= j < n ==> #[trigger] parts[j] != QueryPartView::Sql(")"@),
    ensures
        closing(parts) == n,
    decreases parts.len(),
{
    if n > 0 {
        assert(parts[0] != QueryPartView::Sql(")"@));
        let rest = parts.skip(1);
        assert forall|j: int| 0 <= j < n - 1 implies #[trigger] rest[j] != QueryPartView::Sql(
            ")"@,
        ) by {
            assert(rest[j] == parts[j + 1]);
        }
        lemma_closing(rest, n - 1);
    }
}

proof fn lemma_condition_texts()
    ensures
        " AND user_name = "@ != " AND account = "@,
        " AND user_name = "@ != " AND start_time >= "@,
        " AND user_name = "@ != " AND start_time <= "@,
        " AND user_name = "@ != " AND state IN ("@,
        " AND account = "@ != " AND start_time >= "@,
        " AND account = "@ != " AND start_time <= "@,
        " AND account = "@ != " AND state IN ("@,
        " AND start_time >= "@ != " AND start_time <= "@,
        " AND start_time >= "@ != " AND state IN ("@,
        " AND start_time <= "@ != " AND state IN ("@,
        " ORDER BY submit_time DESC"@ != " AND user_name = "@,
        " ORDER BY submit_time DESC"@ != " AND account = "@,
        " ORDER BY submit_time DESC"@ != " AND start_time >= "@,
        " ORDER BY submit_time DESC"@ != " AND start_time <= "@,
        " ORDER BY submit_time DESC"@ != " AND state IN ("@,
        ", "@ != ")"@,
{
    reveal_strlit(" AND user_name = ");
    reveal_strlit(" AND account = ");
    reveal_strlit(" AND start_time >= ");
    reveal_strlit(" AND start_time <= ");
    reveal_strlit(" AND state IN (");
    reveal_strlit(" ORDER BY submit_time DESC");
    reveal_strlit(", ");
    reveal_strlit(")");
    assert(" AND user_name = "@.len() == 17);
    assert(" AND account = "@.len() == 15);
    lemma_differ(" AND user_name = "@, " AND account = "@, 5);
    lemma_differ(" AND user_name = "@, " AND start_time >= "@, 5);
    lemma_differ(" AND user_name = "@, " AND start_time <= "@, 5);
    lemma_differ(" AND user_name = "@, " AND state IN ("@, 5);
    lemma_differ(" AND account = "@, " AND start_time >= "@, 5);
    lemma_differ(" AND account = "@, " AND start_time <= "@, 5);
    lemma_differ(" AND account = "@, " AND state IN ("@, 5);
    lemma_differ(" AND start_time >= "@, " AND start_time <= "@, 16);
    lemma_differ(" AND start_time >= "@, " AND state IN ("@, 8);
    lemma_differ(" AND start_time <= "@, " AND state IN ("@, 8);
    lemma_differ(" ORDER BY submit_time DESC"@, " AND user_name = "@, 1);
    lemma_differ(" ORDER BY submit_time DESC"@, " AND account = "@, 1);
    lemma_differ(" ORDER BY submit_time DESC"@, " AND start_time >= "@, 1);
    lemma_differ(" ORDER BY submit_time DESC"@, " AND start_time <= "@, 1);
    lemma_differ(" ORDER BY submit_time DESC"@, " AND state IN ("@, 1);
    lemma_differ(", "@, ")"@, 0);
}

proof fn lemma_text_list(texts: Seq<Seq<char>>, x: Seq<char>)
    ensures
        forall|i: int|
            0 <= i < text_list(texts).len() ==> #[trigger] text_list(texts)[i]
                != QueryPartView::Sql(")"@),
        text_list(texts).contains(QueryPartView::Bind(SqlValView::Text(x))) <==> texts.contains(x),
    decreases texts.len(),
{
    lemma_condition_texts();
    let wanted = QueryPartView::Bind(SqlValView::Text(x));
    let list = text_list(texts);
    if texts.len() == 1 {
        assert(list[0] == QueryPartView::Bind(SqlValView::Text(texts[0])));
        if texts.contains(x) {
            assert(list[0] == wanted);
        }
    } else if texts.len() > 1 {
        let before = texts.drop_last();
        lemma_text_list(before, x);
        let head = text_list(before);
        let n = head.len() as int;
        assert(list.len() == n + 2);
        assert(list[n] == QueryPartView::Sql(", "@));
        assert(list[n + 1] == QueryPartView::Bind(SqlValView::Text(texts.last())));
        assert forall|i: int| 0 <= i < n implies list[i] == head[i] by {}
        if texts.contains(x) {
            let i = choose|i: int| 0 <= i < texts.len() && texts[i] == x;
            if i < before.len() {
                assert(before[i] == x);
                let j = choose|j: int| 0 <= j < head.len() && head[j] == wanted;
                assert(list[j] == wanted);
            } else {
                assert(list[n + 1] == wanted);
            }
        }
        if list.contains(wanted) {
            let j = choose|j: int| 0 <= j < list.len() && list[j] == wanted;
            if j < n {
                assert(head[j] == wanted);
                let i = choose|i: int| 0 <= i < before.len() && before[i] == x;
                assert(texts[i] == x);
            } else {
                assert(texts[texts.len() - 1] == x);
            }
        }
    }
}

proof fn lemma_state_condition(texts: Seq<Seq<char>>, rest: Seq<QueryPartView>, row: JobRowView)
    requires
        texts.len() > 0,
    ensures
        admits(sql(" AND state IN ("@) + text_list(texts) + sql(")"@) + rest, row) == both(
            texts.contains(row.state),
            admits(rest, row),
        ),
{
    lemma_condition_texts();
    lemma_text_list(texts, row.state);
    let list = text_list(texts);
    let parts = sql(" AND state IN ("@) + list + sql(")"@) + rest;
    let tail = parts.skip(1);
    let n = list.len() as int;
    assert(n > 0);
    assert forall|j: int| 0 <= j < n implies #[trigger] tail[j] != QueryPartView::Sql(")"@) by {
        assert(tail[j] == list[j]);
    }
    assert(tail[n] == QueryPartView::Sql(")"@));
    lemma_closing(tail, n);
    assert(parts.subrange(1, n + 1) =~= list);
    assert(parts.skip(n + 2) =~= rest);
}

proof fn lemma_user_condition(value: Option<&str>, rest: Seq<QueryPartView>, row: JobRowView)
    requires
        rest.len() >= 3,
    ensures
        (clause(" AND user_name = "@, filter_value(value)) + rest).len() >= 3,
        admits(clause(" AND user_name = "@, filter_value(value)) + rest, row) == if filter_value(value) is None {
            admits(rest, row)
        } else {
            both(row.user_name == value->0@, admits(rest, row))
        },
{
    lemma_condition_texts();
    let parts = clause(" AND user_name = "@, filter_value(value)) + rest;
    if filter_value(value) is Some {
        assert(parts[0] == QueryPartView::Sql(" AND user_name = "@));
        assert(parts.skip(2) =~= rest);
    } else {
        assert(parts =~= rest);
    }
}

proof fn lemma_account_condition(value: Option<&str>, rest: Seq<QueryPartView>, row: JobRowView)
    requires
        rest.len() >= 3,
    ensures
        (clause(" AND account = "@, filter_value(value)) + rest).len() >= 3,
        admits(clause(" AND account = "@, filter_value(value)) + rest, row) == if filter_value(value) is None {
            admits(rest, row)
        } else {
            both(row.account == value->0@, admits(rest, row))
        },
{
    lemma_condition_texts();
    let parts = clause(" AND account = "@, filter_value(value)) + rest;
    if filter_value(value) is Some {
        assert(parts[0] == QueryPartView::Sql(" AND account = "@));
        assert(parts.skip(2) =~= rest);
    } else {
        assert(parts =~= rest);
    }
}

proof fn lemma_after_condition(value: Option<Instant>, rest: Seq<QueryPartView>, row: JobRowView)
    requires
        rest.len() >= 3,
    ensures
        (clause(" AND start_time >= "@, time_value(value)) + rest).len() >= 3,
        admits(clause(" AND start_time >= "@, time_value(value)) + rest, row) == if time_value(value) is None {
            admits(rest, row)
        } else {
            both(row.start_time is Some && not_before(row.start_time->0, value->0), admits(rest, row))
        },
{
    lemma_condition_texts();
    let parts = clause(" AND start_time >= "@, time_value(value)) + rest;
    if time_value(value) is Some {
        assert(parts[0] == QueryPartView::Sql(" AND start_time >= "@));
        assert(parts.skip(2) =~= rest);
    } else {
        assert(parts =~= rest);
    }
}

proof fn lemma_before_condition(value: Option<Instant>, rest: Seq<QueryPartView>, row: JobRowView)
    requires
        rest.len() >= 3,
    ensures
        (clause(" AND start_time <= "@, time_value(value)) + rest).len() >= 3,
        admits(clause(" AND start_time <= "@, time_value(value)) + rest, row) == if time_value(value) is None {
            admits(rest, row)
        } else {
            both(row.start_time is Some && not_before(value->0, row.start_time->0), admits(rest, row))
        },
{
    lemma_condition_texts();
    let parts = clause(" AND start_time <= "@, time_value(value)) + rest;
    if time_value(value) is Some {
        assert(parts[0] == QueryPartView::Sql(" AND start_time <= "@));
        assert(parts.skip(2) =~= rest);
    } else {
        assert(parts =~= rest);
    }
}

/// Whether a row is one that a look at the history asks for.
pub open spec fn asked_for(filter: HistoryFilter, row: JobRowView) -> bool {
    &&& filter.user matches Some(user) ==> (user@.len() > 0 ==> row.user_name == user@)
    &&& filter.account matches Some(account) ==> (account@.len() > 0 ==> row.account == account@)
    &&& filter.start_after matches Some(at) ==> row.start_time is Some && not_before(
        row.start_time->0,
        at,
    )
    &&& filter.start_before matches Some(at) ==> row.start_time is Some && not_before(
        at,
        row.start_time->0,
    )
    &&& filter.states.deep_view().len() > 0 ==> filter.states.deep_view().contains(row.state)
}

/// The history shows exactly the jobs that were asked for: those of the user and
/// of the account, that started no earlier than the one time and no later than the
/// other, in one of the states, each where it is given. The latest come first, and
/// no more than the limit, or a thousand where none is given.
pub proof fn law_history_shows_what_was_asked_for(filter: HistoryFilter, row: JobRowView)
    ensures
        ({
            let parts = history_statement(filter);
            &&& parts.len() >= 4
            &&& parts[0] == QueryPartView::Sql(
                "SELECT job_id, name, user_name, account, partition_name, state, exit_code, exit_signal, derived_exit_code, num_nodes, num_tasks, nodelist, submit_time, start_time, end_time, reservation FROM jobs WHERE 1=1"@,
            )
            &&& admits(parts.skip(1), row) == Some(asked_for(filter, row))
            &&& parts.last() == QueryPartView::Bind(
                SqlValView::BigInt(
                    if filter.limit == 0 {
                        1000
                    } else {
                        filter.limit as i64
                    },
                ),
            )
        }),
{
    let states = filter.states.deep_view();
    let limit = SqlValView::BigInt(
        if filter.limit > 0 {
            filter.limit as i64
        } else {
            HISTORY_LIMIT
        },
    );
    let end = sql(" ORDER BY submit_time DESC"@) + sql(" LIMIT "@) + bind(limit);
    assert(admits(end, row) == Some(true)) by {
        lemma_condition_texts();
    }
    let listed = if states.len() == 0 {
        Seq::<QueryPartView>::empty()
    } else {
        sql(" AND state IN ("@) + text_list(states) + sql(")"@)
    };
    let p5 = listed + end;
    if states.len() > 0 {
        lemma_state_condition(states, end, row);
    } else {
        assert(p5 =~= end);
    }
    let p4 = clause(" AND start_time <= "@, time_value(filter.start_before)) + p5;
    lemma_before_condition(filter.start_before, p5, row);
    let p3 = clause(" AND start_time >= "@, time_value(filter.start_after)) + p4;
    lemma_after_condition(filter.start_after, p4, row);
    let p2 = clause(" AND account = "@, filter_value(filter.account)) + p3;
    lemma_account_condition(filter.account, p3, row);
    let p1 = clause(" AND user_name = "@, filter_value(filter.user)) + p2;
    lemma_user_condition(filter.user, p2, row);
    let parts = history_statement(filter);
    lemma_history_parts(filter, p1);
    assert(parts.skip(1) =~= p1);
}

proof fn lemma_history_parts(filter: HistoryFilter, rest: Seq<QueryPartView>)
    requires
        ({
            let states = filter.states.deep_view();
            let listed = if states.len() == 0 {
                Seq::<QueryPartView>::empty()
            } else {
                sql(" AND state IN ("@) + text_list(states) + sql(")"@)
            };
            let end = sql(" ORDER BY submit_time DESC"@) + sql(" LIMIT "@) + bind(
                SqlValView::BigInt(
                    if filter.limit > 0 {
                        filter.limit as i64
                    } else {
                        HISTORY_LIMIT
                    },
                ),
            );
            rest == clause(" AND user_name = "@, filter_value(filter.user)) + (clause(
                " AND account = "@,
                filter_value(filter.account),
            ) + (clause(" AND start_time >= "@, time_value(filter.start_after)) + (clause(
                " AND start_time <= "@,
                time_value(filter.start_before),
            ) + (listed + end))))
        }),
    ensures
        history_statement(filter) == sql(HISTORY_COLUMNS@) + rest,
        history_statement(filter).len() >= 4,
        history_statement(filter).last() == QueryPartView::Bind(
            SqlValView::BigInt(
                if filter.limit > 0 {
                    filter.limit as i64
                } else {
                    HISTORY_LIMIT
                },
            ),
        ),
{
    let states = filter.states.deep_view();
    let first = sql(HISTORY_COLUMNS@);
    let user = clause(" AND user_name = "@, filter_value(filter.user));
    let account = clause(" AND account = "@, filter_value(filter.account));
    let after = clause(" AND start_time >= "@, time_value(filter.start_after));
    let before = clause(" AND start_time <= "@, time_value(filter.start_before));
    let listed = if states.len() == 0 {
        Seq::<QueryPartView>::empty()
    } else {
        sql(" AND state IN ("@) + text_list(states) + sql(")"@)
    };
    let order = sql(" ORDER BY submit_time DESC"@);
    let most = sql(" LIMIT "@);
    let limit = bind(
        SqlValView::BigInt(
            if filter.limit > 0 {
                filter.limit as i64
            } else {
                HISTORY_LIMIT
            },
        ),
    );
    let head = first + user + account + after + before + listed;
    lemma_grouping(head, order, most);
    lemma_grouping(head, order + most, limit);
    let end = order + most + limit;
    lemma_grouping(first + user + account + after + before, listed, end);
    lemma_grouping(first + user + account + after, before, listed + end);
    lemma_grouping(first + user + account, after, before + (listed + end));
    lemma_grouping(first + user, account, after + (before + (listed + end)));
    lemma_grouping(first, user, account + (after + (before + (listed + end))));
    let parts = history_statement(filter);
    assert(parts == head + order + most + limit);
    assert(parts.last() == limit[0]);
}

/// Joining is the same however it is grouped.
proof fn lemma_grouping(a: Seq<QueryPartView>, b: Seq<QueryPartView>, c: Seq<QueryPartView>)
    ensures
        (a + b) + c == a + (b + c),
{
    assert((a + b) + c =~= a + (b + c));
}

/// Where the parts of a joined statement stand.
proof fn lemma_joined(
    a: Seq<QueryPartView>,
    b: Seq<QueryPartView>,
    c: Seq<QueryPartView>,
    d: Seq<QueryPartView>,
    e: Seq<QueryPartView>,
    f: Seq<QueryPartView>,
)
    ensures
        ({
            let all = a + b + c + d + e + f;
            let nb = a.len() as int;
            let nc = nb + b.len();
            let nd = nc + c.len();
            let ne = nd + d.len();
            let nf = ne + e.len();
            &&& all.len() == nf + f.len()
            &&& forall|j: int| 0 <= j < a.len() ==> all[j] == #[trigger] a[j]
            &&& forall|j: int| 0 <= j < b.len() ==> all[nb + j] == #[trigger] b[j]
            &&& forall|j: int| 0 <= j < c.len() ==> all[nc + j] == #[trigger] c[j]
            &&& forall|j: int| 0 <= j < d.len() ==> all[nd + j] == #[trigger] d[j]
            &&& forall|j: int| 0 <= j < e.len() ==> all[ne + j] == #[trigger] e[j]
            &&& forall|j: int| 0 <= j < f.len() ==> all[nf + j] == #[trigger] f[j]
        }),
{
}

/// A longer stretch of time shows no fewer jobs: what is shown between two times is
/// shown from the first on and up to the second, and a job that started at either
/// is shown.
pub proof fn law_history_is_closed_at_both_ends(
    filter: HistoryFilter,
    row: JobRowView,
    start: Instant,
    from: Instant,
    to: Instant,
)
    requires
        filter.user is None,
        filter.account is None,
        filter.states.deep_view().len() == 0,
        filter.start_after == Some(from),
        filter.start_before == Some(to),
        row.start_time == Some(start),
    ensures
        admits(history_statement(filter).skip(1), row) == Some(
            not_before(start, from) && not_before(to, start),
        ),
        not_before(to, from) && (start == from || start == to) ==> admits(
            history_statement(filter).skip(1),
            row,
        ) == Some(true),
{
    law_history_shows_what_was_asked_for(filter, row);
}

proof fn lemma_list_positions(list: Seq<AssignmentView>, i: int)
    requires
        0 <= i < list.len(),
    ensures
        column_list(list).len() == 2 * list.len() - 1,
        value_list(list).len() == 2 * list.len() - 1,
        excluded_list(list).len() == 4 * list.len() - 1,
        set_list(list).len() == 4 * list.len() - 1,
        more_columns(list).len() == 2 * list.len(),
        more_values(list).len() == 2 * list.len(),
        column_list(list)[2 * i] == QueryPartView::Sql(list[i].column),
        value_list(list)[2 * i] == QueryPartView::Bind(list[i].value),
        excluded_list(list)[4 * i] == QueryPartView::Sql(list[i].column),
        excluded_list(list)[4 * i + 1] == QueryPartView::Sql(" = EXCLUDED."@),
        excluded_list(list)[4 * i + 2] == QueryPartView::Sql(list[i].column),
        set_list(list)[4 * i] == QueryPartView::Sql(list[i].column),
        set_list(list)[4 * i + 1] == QueryPartView::Sql(" = "@),
        set_list(list)[4 * i + 2] == QueryPartView::Bind(list[i].value),
        more_columns(list)[2 * i + 1] == QueryPartView::Sql(list[i].column),
        more_values(list)[2 * i + 1] == QueryPartView::Bind(list[i].value),
    decreases list.len(),
{
    let before = list.drop_last();
    if list.len() > 1 {
        lemma_list_positions(before, if i < before.len() { i } else { 0 });
    } else {
        assert(more_columns(before).len() == 0);
        assert(more_values(before).len() == 0);
    }
    if i < before.len() {
        assert(before[i] == list[i]);
    } else {
        assert(list.last() == list[i]);
    }
}

/// A row that is put into a table gets its name and each value in its own column.
/// Where a row of the name is there, the columns that are given take their new
/// values, and without any the row is left as it is.
#[verifier::rlimit(40)]
pub proof fn law_upsert_puts_values_into_their_columns(
    table: UpsertTable,
    name: Seq<char>,
    updates: Seq<AssignmentView>,
    i: int,
)
    ensures
        ({
            let parts = upsert_statement(table, name_key(name), updates);
            let n = updates.len() as int;
            &&& parts[0] == QueryPartView::Sql("INSERT INTO "@)
            &&& parts[1] == QueryPartView::Sql(
                match table {
                    UpsertTable::Accounts => "accounts"@,
                    UpsertTable::Qos => "qos"@,
                },
            )
            &&& parts[2] == QueryPartView::Sql(" ("@)
            &&& parts[3] == QueryPartView::Sql("name"@)
            &&& parts[2 * n + 4] == QueryPartView::Sql(") VALUES ("@)
            &&& parts[2 * n + 5] == QueryPartView::Bind(SqlValView::Text(name))
            &&& parts[4 * n + 6] == QueryPartView::Sql(") ON CONFLICT ("@)
            &&& parts[4 * n + 7] == QueryPartView::Sql("name"@)
            &&& parts[4 * n + 8] == QueryPartView::Sql(")"@)
            &&& n == 0 ==> parts.len() == 10 && parts[9] == QueryPartView::Sql(" DO NOTHING"@)
            &&& n > 0 ==> parts.len() == 8 * n + 9 && parts[4 * n + 9] == QueryPartView::Sql(
                " DO UPDATE SET "@,
            )
            &&& 0 <= i < n ==> {
                &&& parts[5 + 2 * i] == QueryPartView::Sql(updates[i].column)
                &&& parts[2 * n + 7 + 2 * i] == QueryPartView::Bind(updates[i].value)
                &&& parts[4 * n + 10 + 4 * i] == QueryPartView::Sql(updates[i].column)
                &&& parts[4 * n + 11 + 4 * i] == QueryPartView::Sql(" = EXCLUDED."@)
                &&& parts[4 * n + 12 + 4 * i] == QueryPartView::Sql(updates[i].column)
            }
        }),
{
    let keys = name_key(name);
    let all = keys + updates;
    let n = updates.len() as int;
    let head = sql("INSERT INTO "@) + sql(table_name(table)) + sql(" ("@);
    let middle = sql(") VALUES ("@);
    let tail = sql(") ON CONFLICT ("@) + sql("name"@) + sql(")"@);
    lemma_upsert_parts(table, keys, updates);
    lemma_list_positions(all, 0);
    assert(all[0] == keys[0]);
    assert(head[0] == QueryPartView::Sql("INSERT INTO "@));
    assert(head[1] == QueryPartView::Sql(table_name(table)));
    assert(head[2] == QueryPartView::Sql(" ("@));
    assert(middle[0] == QueryPartView::Sql(") VALUES ("@));
    assert(tail[0] == QueryPartView::Sql(") ON CONFLICT ("@));
    assert(tail[1] == QueryPartView::Sql("name"@));
    assert(tail[2] == QueryPartView::Sql(")"@));
    if n == 0 {
        let end = sql(" DO NOTHING"@);
        lemma_joined(head, column_list(all), middle, value_list(all), tail, end);
        assert(end[0] == QueryPartView::Sql(" DO NOTHING"@));
    } else {
        let end = sql(" DO UPDATE SET "@) + excluded_list(updates);
        lemma_joined(head, column_list(all), middle, value_list(all), tail, end);
        lemma_list_positions(updates, 0);
        assert(end[0] == QueryPartView::Sql(" DO UPDATE SET "@));
        if 0 <= i < n {
            lemma_list_positions(all, i + 1);
            lemma_list_positions(updates, i);
            assert(all[i + 1] == updates[i]);
            assert(column_list(all)[2 * (i + 1)] == QueryPartView::Sql(updates[i].column));
            assert(value_list(all)[2 * (i + 1)] == QueryPartView::Bind(updates[i].value));
            assert(end[1 + 4 * i] == excluded_list(updates)[4 * i]);
            assert(end[2 + 4 * i] == excluded_list(updates)[4 * i + 1]);
            assert(end[3 + 4 * i] == excluded_list(updates)[4 * i + 2]);
        }
    }
}

proof fn lemma_upsert_parts(
    table: UpsertTable,
    keys: Seq<AssignmentView>,
    updates: Seq<AssignmentView>,
)
    ensures
        upsert_statement(table, keys, updates) == (sql("INSERT INTO "@) + sql(table_name(table))
            + sql(" ("@)) + column_list(keys + updates) + sql(") VALUES ("@) + value_list(
            keys + updates,
        ) + (sql(") ON CONFLICT ("@) + sql("name"@) + sql(")"@)) + (if updates.len() == 0 {
            sql(" DO NOTHING"@)
        } else {
            sql(" DO UPDATE SET "@) + excluded_list(updates)
        }),
{
    let rest = sql("INSERT INTO "@) + sql(table_name(table)) + sql(" ("@) + column_list(
        keys + updates,
    ) + sql(") VALUES ("@) + value_list(keys + updates);
    lemma_grouping(rest, sql(") ON CONFLICT ("@), sql("name"@));
    lemma_grouping(rest, sql(") ON CONFLICT ("@) + sql("name"@), sql(")"@));
}

/// The association that is changed or created is that of the user with the account,
/// without a partition, and each value goes into its own column.
pub proof fn law_association_statements_set_their_columns(
    user: Seq<char>,
    account: Seq<char>,
    updates: Seq<AssignmentView>,
    i: int,
)
    requires
        0 <= i < updates.len(),
    ensures
        ({
            let parts = association_update(user, account, updates);
            let n = updates.len() as int;
            &&& parts.len() == 4 * n + 5
            &&& parts[0] == QueryPartView::Sql("UPDATE associations SET "@)
            &&& parts[1 + 4 * i] == QueryPartView::Sql(updates[i].column)
            &&& parts[2 + 4 * i] == QueryPartView::Sql(" = "@)
            &&& parts[3 + 4 * i] == QueryPartView::Bind(updates[i].value)
            &&& parts[4 * n] == QueryPartView::Sql(" WHERE user_name = "@)
            &&& parts[4 * n + 1] == QueryPartView::Bind(SqlValView::Text(user))
            &&& parts[4 * n + 2] == QueryPartView::Sql(" AND account = "@)
            &&& parts[4 * n + 3] == QueryPartView::Bind(SqlValView::Text(account))
            &&& parts[4 * n + 4] == QueryPartView::Sql(
                " AND (partition_name IS NULL OR partition_name = '')"@,
            )
        }),
        ({
            let parts = association_insert(user, account, updates);
            let n = updates.len() as int;
            &&& parts.len() == 4 * n + 6
            &&& parts[0] == QueryPartView::Sql("INSERT INTO associations (user_name, account"@)
            &&& parts[2 + 2 * i] == QueryPartView::Sql(updates[i].column)
            &&& parts[2 * n + 1] == QueryPartView::Sql(") VALUES ("@)
            &&& parts[2 * n + 2] == QueryPartView::Bind(SqlValView::Text(user))
            &&& parts[2 * n + 4] == QueryPartView::Bind(SqlValView::Text(account))
            &&& parts[2 * n + 6 + 2 * i] == QueryPartView::Bind(updates[i].value)
        }),
{
    lemma_list_positions(updates, i);
    let n = updates.len() as int;
    let set = set_list(updates);
    let update = association_update(user, account, updates);
    assert(update[1 + 4 * i] == set[4 * i]);
    assert(update[2 + 4 * i] == set[4 * i + 1]);
    assert(update[3 + 4 * i] == set[4 * i + 2]);
    let columns = more_columns(updates);
    let values = more_values(updates);
    let insert = association_insert(user, account, updates);
    assert(insert[2 + 2 * i] == columns[2 * i + 1]);
    assert(insert[2 * n + 6 + 2 * i] == values[2 * i + 1]);
}

/// What an update gives is what is written: a text, a number, or nothing in the
/// place of one.
pub proof fn law_given_values_are_written(text: &str, number: i32, bits: u64)
    ensures
        text_value(Some(text)) == Some(SqlValView::Text(text@)),
        null_text_value(Some(Some(text))) == Some(SqlValView::NullText(Some(text@))),
        null_text_value(Some(None)) == Some(SqlValView::NullText(None)),
        int_value(Some(number)) == Some(SqlValView::Int(number)),
        null_int_value(Some(Some(number))) == Some(SqlValView::NullInt(Some(number))),
        null_int_value(Some(None)) == Some(SqlValView::NullInt(None)),
        real_value(Some(bits)) == Some(SqlValView::Real(bits)),
        text_value(None) is None,
        null_text_value(None) is None,
        int_value(None) is None,
        null_int_value(None) is None,
        real_value(None) is None,
{
}

} // verus!
