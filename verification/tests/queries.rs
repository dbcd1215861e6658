use spur::clock::Instant;
use spur::queries::{
    get_job_history, upsert_account, upsert_association, upsert_qos, AccountUpdate, HistoryFilter,
    QosUpdate, QueryPart, SqlVal, UserUpdate, SCHEMA,
};

fn text(parts: &[QueryPart]) -> String {
    let mut out = String::new();
    let mut n = 0;
    for part in parts {
        match part {
            QueryPart::Sql(sql) => out.push_str(sql),
            QueryPart::Bind(_) => {
                n += 1;
                out.push_str(&format!("${n}"));
            }
        }
    }
    out
}

fn bound<'a>(parts: &'a [QueryPart<'a>]) -> Vec<&'a SqlVal<'a>> {
    parts
        .iter()
        .filter_map(|part| match part {
            QueryPart::Bind(value) => Some(value),
            QueryPart::Sql(_) => None,
        })
        .collect()
}

#[test]
fn exact_accounting_schema_has_both_identity_fences_and_a_usage_claim() {
    assert!(SCHEMA.contains("PRIMARY KEY (job_id, submission_generation, run_attempt)"));
    assert!(SCHEMA.contains("ON job_runs (finalization_id) WHERE finalization_id IS NOT NULL"));
    assert!(SCHEMA.contains("CREATE TABLE IF NOT EXISTS usage_contributions"));
    assert!(SCHEMA.contains("FOREIGN KEY (job_id, submission_generation, run_attempt)"));
}

#[test]
fn history_filters_are_joined_by_and() {
    let states = vec!["COMPLETED".to_string(), "FAILED".to_string()];
    let after = Instant { secs: 5, nanos: 0 };
    let parts = get_job_history(HistoryFilter {
        user: Some("alice"),
        account: Some("research"),
        start_after: Some(after),
        start_before: None,
        states: &states,
        limit: 10,
    });
    let sql = text(&parts);
    assert!(sql.contains("user_name = $1"), "{sql}");
    assert!(sql.contains("account = $2"), "{sql}");
    assert!(sql.contains("$3"), "{sql}");
    assert!(sql.contains("$4, $5"), "{sql}");
    assert_eq!(
        bound(&parts),
        vec![
            &SqlVal::Text("alice"),
            &SqlVal::Text("research"),
            &SqlVal::Time(after),
            &SqlVal::Text("COMPLETED"),
            &SqlVal::Text("FAILED"),
            &SqlVal::BigInt(10),
        ]
    );
}

#[test]
fn history_without_filters_is_limited() {
    let states = vec![];
    let parts = get_job_history(HistoryFilter {
        user: None,
        account: None,
        start_after: None,
        start_before: None,
        states: &states,
        limit: 0,
    });
    assert_eq!(bound(&parts), vec![&SqlVal::BigInt(1000)]);
}

#[test]
fn values_never_become_text() {
    let name = "o'brien";
    let parts = upsert_account(
        name,
        AccountUpdate {
            description: Some("d"),
            ..Default::default()
        },
    );
    assert!(!text(&parts).contains("brien"));
    assert_eq!(bound(&parts)[0], &SqlVal::Text(name));
}

#[test]
fn omitted_fields_are_left_alone() {
    let sql = text(&upsert_account(
        "research",
        AccountUpdate {
            grp_tres: Some(None),
            ..Default::default()
        },
    ));
    assert!(sql.contains("grp_tres"), "{sql}");
    assert!(!sql.contains("description"), "{sql}");
    let sql = text(&upsert_account("research", AccountUpdate::default()));
    assert!(sql.contains("DO NOTHING"), "{sql}");
    let sql = text(&upsert_qos(
        "high",
        QosUpdate {
            priority: Some(5),
            ..Default::default()
        },
    ));
    assert!(sql.contains("qos") && sql.contains("priority"), "{sql}");
    for column in ["description", "preempt_mode", "usage_factor", "max_wall_min", "grp_tres"] {
        assert!(!sql.contains(column), "{column} in {sql}");
    }
}

#[test]
fn associations_are_updated_then_inserted() {
    let update = UserUpdate {
        max_running_jobs: Some(Some(5)),
        ..Default::default()
    };
    let statements = upsert_association("alice", "research", &update).unwrap();
    assert!(text(&statements.update).starts_with("UPDATE associations"));
    assert!(text(&statements.insert).starts_with("INSERT INTO associations"));
    assert!(bound(&statements.update).contains(&&SqlVal::NullInt(Some(5))));
    for column in ["allowed_qos", "max_submit_jobs", "max_tres_per_job", "grp_tres", "max_wall_min"] {
        let sql = text(&statements.update);
        assert!(!sql.contains(column), "{column} in {sql}");
    }
}
