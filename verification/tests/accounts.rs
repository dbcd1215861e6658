use spur::accounts::{
    account_limits_from_record, add_user, association_maps, effective_halflife, fairshare_since,
    merge_admin_level, missing_qos, remove_user, AssociationRecord, UserAccount, UserRecord,
    UserRow,
};
use spur::clock::Instant;
use spur::queries::UserUpdate;
use spur::strmap::StrMap;

#[test]
fn admin_wins_regardless_of_row_order() {
    // Admin then Operator: Admin must survive the later non-admin row.
    let mut m = StrMap::new();
    merge_admin_level(&mut m, "carol", "Admin");
    merge_admin_level(&mut m, "carol", "Operator");
    assert_eq!(m.get("carol").map(String::as_str), Some("Admin"));

    // Operator then Admin: Admin must still win.
    let mut m = StrMap::new();
    merge_admin_level(&mut m, "carol", "Operator");
    merge_admin_level(&mut m, "carol", "Admin");
    assert_eq!(m.get("carol").map(String::as_str), Some("Admin"));
}

#[test]
fn none_and_empty_levels_are_dropped() {
    let mut m = StrMap::new();
    merge_admin_level(&mut m, "dave", "none");
    merge_admin_level(&mut m, "dave", "");
    assert!(!m.contains_key("dave"));
}

fn row<'a>(rows: &'a [UserRow], user: &str, account: &str) -> &'a UserRow {
    rows.iter()
        .find(|row| row.name == user && row.account == account)
        .expect("row present")
}

fn restating(is_default: bool) -> UserUpdate<'static> {
    UserUpdate {
        is_default: Some(is_default),
        ..Default::default()
    }
}

#[test]
fn add_user_is_default_patches_default_account_only_when_restated() {
    // add with is_default=true records this account as the user's default.
    let rows = add_user(&vec![], "alice", "acct", &restating(true));
    assert_eq!(
        row(&rows, "alice", "acct").default_account.as_deref(),
        Some("acct")
    );

    // An unrestated is_default must leave default_account untouched.
    let rows = add_user(
        &rows,
        "alice",
        "acct",
        &UserUpdate {
            max_running_jobs: Some(Some(5)),
            ..Default::default()
        },
    );
    assert_eq!(
        row(&rows, "alice", "acct").default_account.as_deref(),
        Some("acct"),
        "unrestated is_default must not touch default_account"
    );

    // Restating is_default=false clears default_account.
    let rows = add_user(&rows, "alice", "acct", &restating(false));
    assert_eq!(row(&rows, "alice", "acct").default_account, None);

    // Restating is_default=true sets it back.
    let rows = add_user(&rows, "alice", "acct", &restating(true));
    assert_eq!(
        row(&rows, "alice", "acct").default_account.as_deref(),
        Some("acct")
    );
}

#[test]
fn add_user_default_account_is_unique_per_user() {
    // alice's default starts as account A, then B is made the default.
    let rows = add_user(&vec![], "alice", "acct-a", &restating(true));
    let rows = add_user(&rows, "alice", "acct-b", &restating(true));

    // Only B remains the user's default; A is demoted.
    assert_eq!(
        row(&rows, "alice", "acct-a").default_account,
        None,
        "A must be demoted when B becomes default"
    );
    assert_eq!(
        row(&rows, "alice", "acct-b").default_account.as_deref(),
        Some("acct-b")
    );
}

#[test]
fn add_user_defaults_first_account_and_later_adds_dont_demote() {
    // A plain add (is_default = None) makes a user's first account the default.
    let rows = add_user(&vec![], "alice", "acct-a", &UserUpdate::default());
    // A later plain add to another account must not demote that default.
    let rows = add_user(&rows, "alice", "acct-b", &UserUpdate::default());

    assert_eq!(
        row(&rows, "alice", "acct-a").default_account.as_deref(),
        Some("acct-a"),
        "a user's first account must become the default"
    );
    assert_eq!(
        row(&rows, "alice", "acct-b").default_account,
        None,
        "a plain add must not steal the default from an existing account"
    );
}

#[test]
fn other_users_keep_their_rows() {
    let rows = add_user(&vec![], "alice", "acct-a", &restating(true));
    let rows = add_user(&rows, "bob", "acct-a", &restating(true));
    assert_eq!(rows.len(), 2);
    assert_eq!(
        row(&rows, "alice", "acct-a").default_account.as_deref(),
        Some("acct-a")
    );
    let rows = add_user(
        &rows,
        "bob",
        "acct-a",
        &UserUpdate {
            admin_level: Some("Admin"),
            ..Default::default()
        },
    );
    assert_eq!(rows.len(), 2, "an existing row is updated in place");
    assert_eq!(row(&rows, "bob", "acct-a").admin_level, "Admin");
    assert_eq!(row(&rows, "alice", "acct-a").admin_level, "none");
}

fn limited(user: &str, account: &str) -> AssociationRecord {
    AssociationRecord {
        user_name: user.into(),
        account: account.into(),
        max_running_jobs: Some(1),
        max_submit_jobs: None,
        max_tres_per_job: None,
        grp_tres: None,
        max_wall_min: None,
    }
}

#[test]
fn remove_user_deletes_one_or_all_account_associations() {
    let rows = add_user(&vec![], "alice", "acct-one", &restating(true));
    let rows = add_user(&rows, "alice", "acct-two", &restating(false));
    let associations = vec![limited("alice", "acct-one"), limited("alice", "acct-two")];

    let after = remove_user(&rows, &associations, "alice", "acct-one");
    assert_eq!(after.removed, 2);
    assert!(!after
        .users
        .iter()
        .any(|record| record.name == "alice" && record.account == "acct-one"));
    assert!(after
        .users
        .iter()
        .any(|record| record.name == "alice" && record.account == "acct-two"));

    let after = remove_user(&after.users, &after.associations, "alice", "");
    assert_eq!(after.removed, 2);
    assert!(!after.users.iter().any(|record| record.name == "alice"));
    assert_eq!(after.associations.len(), 0);

    let after = remove_user(&after.users, &after.associations, "alice", "");
    assert_eq!(after.removed, 0);
}

#[test]
fn removing_a_user_leaves_the_others_in_order() {
    let rows = add_user(&vec![], "carol", "acct-one", &restating(true));
    let rows = add_user(&rows, "alice", "acct-one", &restating(true));
    let rows = add_user(&rows, "bob", "acct-one", &restating(true));
    let associations = vec![
        limited("alice", "acct-one"),
        limited("carol", "acct-one"),
        limited("alice", "acct-one"),
        limited("bob", "acct-one"),
    ];
    let after = remove_user(&rows, &associations, "alice", "acct-one");
    assert_eq!(after.removed, 3, "older duplicates of an association go too");
    let users: Vec<&str> = after.users.iter().map(|row| row.name.as_str()).collect();
    assert_eq!(users, vec!["carol", "bob"]);
    let linked: Vec<&str> = after.associations.iter().map(|row| row.user_name.as_str()).collect();
    assert_eq!(linked, vec!["carol", "bob"]);
    assert_eq!(remove_user(&rows, &associations, "alice", "acct-two").removed, 0);
}

#[test]
fn missing_qos_reports_only_absent_names() {
    let existing = vec!["present-a".to_string(), "present-b".to_string()];
    assert!(missing_qos(&vec![], &existing).is_empty());

    // Only the absent name is returned, preserving input order and
    // ignoring existing names in any position.
    let missing = missing_qos(
        &vec![
            "present-a".to_string(),
            "absent".to_string(),
            "present-b".to_string(),
        ],
        &existing,
    );
    assert_eq!(missing, vec!["absent".to_string()]);

    // All-present resolves to no missing.
    assert!(missing_qos(&existing.clone(), &existing).is_empty());
}

fn member(name: &str, account: &str, level: &str, default: Option<&str>) -> UserRecord {
    UserRecord {
        name: name.into(),
        account: account.into(),
        admin_level: level.into(),
        default_account: default.map(String::from),
        default_qos: None,
        allowed_qos: None,
    }
}

fn association(user: &str, account: &str) -> AssociationRecord {
    AssociationRecord {
        user_name: user.into(),
        account: account.into(),
        max_running_jobs: Some(3),
        max_submit_jobs: Some(-1),
        max_tres_per_job: Some("cpu=4".into()),
        grp_tres: Some("junk".into()),
        max_wall_min: None,
    }
}

#[test]
fn limits_are_read_from_an_association() {
    let mut parsed = StrMap::new();
    parsed.insert("cpu=4".into(), "cpu=4".into());
    let limits = account_limits_from_record(&association("alice", "research"), &parsed);
    assert_eq!(limits.max_running_jobs, Some(3));
    assert_eq!(limits.max_submit_jobs, None, "negative limits are no limits");
    assert_eq!(limits.max_tres_per_job.as_deref(), Some("cpu=4"));
    assert_eq!(limits.grp_tres, None, "unreadable limits are no limits");
    assert_eq!(limits.max_wall_minutes, None);
}

#[test]
fn members_have_rows() {
    let users = vec![
        member("alice", "research", "Admin", Some("research")),
        member("alice", "teaching", "none", None),
        member("bob", "research", "", None),
    ];
    let maps = association_maps(&users, &vec![association("alice", "research")], &StrMap::new());
    for (user, account, expected) in [
        ("alice", "research", true),
        ("alice", "teaching", true),
        ("bob", "research", true),
        ("bob", "teaching", false),
    ] {
        let pair = UserAccount {
            user: user.into(),
            account: account.into(),
        };
        assert_eq!(maps.memberships.contains(&pair), expected, "{user} {account}");
    }
    assert_eq!(
        maps.admin_level.get("alice").map(String::as_str),
        Some("Admin")
    );
    assert!(!maps.admin_level.contains_key("bob"));
    assert_eq!(
        maps.default_account.get("alice").map(String::as_str),
        Some("research")
    );
    assert_eq!(maps.limits.len(), 1);
}

#[test]
fn halflives_are_bounded() {
    assert_eq!(effective_halflife(0), 14);
    assert_eq!(effective_halflife(7), 7);
    assert_eq!(effective_halflife(1000), 365);
    let now = Instant {
        secs: 1_750_000_000,
        nanos: 5,
    };
    assert_eq!(
        fairshare_since(now, 7),
        Instant {
            secs: 1_750_000_000 - 7 * 4 * 86_400,
            nanos: 5,
        }
    );
}
