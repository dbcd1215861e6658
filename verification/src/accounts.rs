//! Accounts, their users, and what each user may do in each account.

use vstd::prelude::*;
use crate::clock::{Instant, MIN_SECS};
use crate::execution_identity::{is_blank, is_blank_str, lookup, or_empty};
use crate::naming::ascii_lower;
use crate::plain::Plain;
use crate::plainmap::{PlainMap, PlainSet};
use crate::queries::{opt_text, UserUpdate};
use crate::strmap::StrMap;
use crate::submission::{node_names, nodes_of};
use crate::text::{chars_of, same_text};

verus! {

/// An account.
#[derive(Clone, Debug)]
pub struct AccountRecord {
    pub name: String,
    pub description: String,
    pub organization: String,
    pub parent: Option<String>,
    pub fairshare_weight: i32,
    pub max_running_jobs: Option<i32>,
    /// What the account may use; everything where unset.
    pub grp_tres: Option<String>,
}

/// What an [`AccountRecord`] holds.
#[verifier::ext_equal]
pub struct AccountRecordView {
    pub name: Seq<char>,
    pub description: Seq<char>,
    pub organization: Seq<char>,
    pub parent: Option<Seq<char>>,
    pub fairshare_weight: i32,
    pub max_running_jobs: Option<i32>,
    pub grp_tres: Option<Seq<char>>,
}

impl View for AccountRecord {
    type V = AccountRecordView;

    open spec fn view(&self) -> AccountRecordView {
        AccountRecordView {
            name: self.name.deep_view(),
            description: self.description.deep_view(),
            organization: self.organization.deep_view(),
            parent: self.parent.deep_view(),
            fairshare_weight: self.fairshare_weight.deep_view(),
            max_running_jobs: self.max_running_jobs.deep_view(),
            grp_tres: self.grp_tres.deep_view(),
        }
    }
}

impl DeepView for AccountRecord {
    type V = AccountRecordView;

    open spec fn deep_view(&self) -> AccountRecordView {
        self@
    }
}

impl Plain for AccountRecord {
    fn equals(&self, other: &Self) -> (same: bool) {
        self.name.equals(&other.name)
            && self.description.equals(&other.description)
            && self.organization.equals(&other.organization)
            && self.parent.equals(&other.parent)
            && self.fairshare_weight.equals(&other.fairshare_weight)
            && self.max_running_jobs.equals(&other.max_running_jobs)
            && self.grp_tres.equals(&other.grp_tres)
    }

    fn copy_of(&self) -> (out: Self) {
        AccountRecord {
            name: self.name.copy_of(),
            description: self.description.copy_of(),
            organization: self.organization.copy_of(),
            parent: self.parent.copy_of(),
            fairshare_weight: self.fairshare_weight.copy_of(),
            max_running_jobs: self.max_running_jobs.copy_of(),
            grp_tres: self.grp_tres.copy_of(),
        }
    }
}

/// A user in an account.
#[derive(Clone, Debug)]
pub struct UserRecord {
    pub name: String,
    pub account: String,
    pub admin_level: String,
    pub default_account: Option<String>,
    pub default_qos: Option<String>,
    pub allowed_qos: Option<String>,
}

/// What an [`UserRecord`] holds.
#[verifier::ext_equal]
pub struct UserRecordView {
    pub name: Seq<char>,
    pub account: Seq<char>,
    pub admin_level: Seq<char>,
    pub default_account: Option<Seq<char>>,
    pub default_qos: Option<Seq<char>>,
    pub allowed_qos: Option<Seq<char>>,
}

impl View for UserRecord {
    type V = UserRecordView;

    open spec fn view(&self) -> UserRecordView {
        UserRecordView {
            name: self.name.deep_view(),
            account: self.account.deep_view(),
            admin_level: self.admin_level.deep_view(),
            default_account: self.default_account.deep_view(),
            default_qos: self.default_qos.deep_view(),
            allowed_qos: self.allowed_qos.deep_view(),
        }
    }
}

impl DeepView for UserRecord {
    type V = UserRecordView;

    open spec fn deep_view(&self) -> UserRecordView {
        self@
    }
}

impl Plain for UserRecord {
    fn equals(&self, other: &Self) -> (same: bool) {
        self.name.equals(&other.name)
            && self.account.equals(&other.account)
            && self.admin_level.equals(&other.admin_level)
            && self.default_account.equals(&other.default_account)
            && self.default_qos.equals(&other.default_qos)
            && self.allowed_qos.equals(&other.allowed_qos)
    }

    fn copy_of(&self) -> (out: Self) {
        UserRecord {
            name: self.name.copy_of(),
            account: self.account.copy_of(),
            admin_level: self.admin_level.copy_of(),
            default_account: self.default_account.copy_of(),
            default_qos: self.default_qos.copy_of(),
            allowed_qos: self.allowed_qos.copy_of(),
        }
    }
}

/// The limits of a user in an account.
#[derive(Clone, Debug)]
pub struct AssociationRecord {
    pub user_name: String,
    pub account: String,
    pub max_running_jobs: Option<i32>,
    pub max_submit_jobs: Option<i32>,
    pub max_tres_per_job: Option<String>,
    pub grp_tres: Option<String>,
    pub max_wall_min: Option<i32>,
}

/// What an [`AssociationRecord`] holds.
#[verifier::ext_equal]
pub struct AssociationRecordView {
    pub user_name: Seq<char>,
    pub account: Seq<char>,
    pub max_running_jobs: Option<i32>,
    pub max_submit_jobs: Option<i32>,
    pub max_tres_per_job: Option<Seq<char>>,
    pub grp_tres: Option<Seq<char>>,
    pub max_wall_min: Option<i32>,
}

impl View for AssociationRecord {
    type V = AssociationRecordView;

    open spec fn view(&self) -> AssociationRecordView {
        AssociationRecordView {
            user_name: self.user_name.deep_view(),
            account: self.account.deep_view(),
            max_running_jobs: self.max_running_jobs.deep_view(),
            max_submit_jobs: self.max_submit_jobs.deep_view(),
            max_tres_per_job: self.max_tres_per_job.deep_view(),
            grp_tres: self.grp_tres.deep_view(),
            max_wall_min: self.max_wall_min.deep_view(),
        }
    }
}

impl DeepView for AssociationRecord {
    type V = AssociationRecordView;

    open spec fn deep_view(&self) -> AssociationRecordView {
        self@
    }
}

impl Plain for AssociationRecord {
    fn equals(&self, other: &Self) -> (same: bool) {
        self.user_name.equals(&other.user_name)
            && self.account.equals(&other.account)
            && self.max_running_jobs.equals(&other.max_running_jobs)
            && self.max_submit_jobs.equals(&other.max_submit_jobs)
            && self.max_tres_per_job.equals(&other.max_tres_per_job)
            && self.grp_tres.equals(&other.grp_tres)
            && self.max_wall_min.equals(&other.max_wall_min)
    }

    fn copy_of(&self) -> (out: Self) {
        AssociationRecord {
            user_name: self.user_name.copy_of(),
            account: self.account.copy_of(),
            max_running_jobs: self.max_running_jobs.copy_of(),
            max_submit_jobs: self.max_submit_jobs.copy_of(),
            max_tres_per_job: self.max_tres_per_job.copy_of(),
            grp_tres: self.grp_tres.copy_of(),
            max_wall_min: self.max_wall_min.copy_of(),
        }
    }
}

/// A user and an account.
#[derive(Clone, Debug)]
pub struct UserAccount {
    pub user: String,
    pub account: String,
}

/// What an [`UserAccount`] holds.
#[verifier::ext_equal]
pub struct UserAccountView {
    pub user: Seq<char>,
    pub account: Seq<char>,
}

impl View for UserAccount {
    type V = UserAccountView;

    open spec fn view(&self) -> UserAccountView {
        UserAccountView {
            user: self.user.deep_view(),
            account: self.account.deep_view(),
        }
    }
}

impl DeepView for UserAccount {
    type V = UserAccountView;

    open spec fn deep_view(&self) -> UserAccountView {
        self@
    }
}

impl Plain for UserAccount {
    fn equals(&self, other: &Self) -> (same: bool) {
        self.user.equals(&other.user)
            && self.account.equals(&other.account)
    }

    fn copy_of(&self) -> (out: Self) {
        UserAccount {
            user: self.user.copy_of(),
            account: self.account.copy_of(),
        }
    }
}

/// The limits that are enforced; none where there is no limit.
#[derive(Clone, Debug)]
pub struct AccountLimits {
    pub max_running_jobs: Option<u32>,
    pub max_submit_jobs: Option<u32>,
    pub max_tres_per_job: Option<String>,
    pub grp_tres: Option<String>,
    pub max_wall_minutes: Option<u32>,
}

/// What an [`AccountLimits`] holds.
#[verifier::ext_equal]
pub struct AccountLimitsView {
    pub max_running_jobs: Option<u32>,
    pub max_submit_jobs: Option<u32>,
    pub max_tres_per_job: Option<Seq<char>>,
    pub grp_tres: Option<Seq<char>>,
    pub max_wall_minutes: Option<u32>,
}

impl View for AccountLimits {
    type V = AccountLimitsView;

    open spec fn view(&self) -> AccountLimitsView {
        AccountLimitsView {
            max_running_jobs: self.max_running_jobs.deep_view(),
            max_submit_jobs: self.max_submit_jobs.deep_view(),
            max_tres_per_job: self.max_tres_per_job.deep_view(),
            grp_tres: self.grp_tres.deep_view(),
            max_wall_minutes: self.max_wall_minutes.deep_view(),
        }
    }
}

impl DeepView for AccountLimits {
    type V = AccountLimitsView;

    open spec fn deep_view(&self) -> AccountLimitsView {
        self@
    }
}

impl Plain for AccountLimits {
    fn equals(&self, other: &Self) -> (same: bool) {
        self.max_running_jobs.equals(&other.max_running_jobs)
            && self.max_submit_jobs.equals(&other.max_submit_jobs)
            && self.max_tres_per_job.equals(&other.max_tres_per_job)
            && self.grp_tres.equals(&other.grp_tres)
            && self.max_wall_minutes.equals(&other.max_wall_minutes)
    }

    fn copy_of(&self) -> (out: Self) {
        AccountLimits {
            max_running_jobs: self.max_running_jobs.copy_of(),
            max_submit_jobs: self.max_submit_jobs.copy_of(),
            max_tres_per_job: self.max_tres_per_job.copy_of(),
            grp_tres: self.grp_tres.copy_of(),
            max_wall_minutes: self.max_wall_minutes.copy_of(),
        }
    }
}

/// The row of a user in an account.
#[derive(Clone, Debug)]
pub struct UserRow {
    pub name: String,
    pub account: String,
    pub admin_level: String,
    pub default_account: Option<String>,
}

/// What an [`UserRow`] holds.
#[verifier::ext_equal]
pub struct UserRowView {
    pub name: Seq<char>,
    pub account: Seq<char>,
    pub admin_level: Seq<char>,
    pub default_account: Option<Seq<char>>,
}

impl View for UserRow {
    type V = UserRowView;

    open spec fn view(&self) -> UserRowView {
        UserRowView {
            name: self.name.deep_view(),
            account: self.account.deep_view(),
            admin_level: self.admin_level.deep_view(),
            default_account: self.default_account.deep_view(),
        }
    }
}

impl DeepView for UserRow {
    type V = UserRowView;

    open spec fn deep_view(&self) -> UserRowView {
        self@
    }
}

impl Plain for UserRow {
    fn equals(&self, other: &Self) -> (same: bool) {
        self.name.equals(&other.name)
            && self.account.equals(&other.account)
            && self.admin_level.equals(&other.admin_level)
            && self.default_account.equals(&other.default_account)
    }

    fn copy_of(&self) -> (out: Self) {
        UserRow {
            name: self.name.copy_of(),
            account: self.account.copy_of(),
            admin_level: self.admin_level.copy_of(),
            default_account: self.default_account.copy_of(),
        }
    }
}

/// A text with its ASCII letters in lower case.
pub open spec fn lowered(s: Seq<char>) -> Seq<char> {
    s.map_values(|c: char| ascii_lower(c))
}

fn lower_code(c: char) -> (code: u32)
    ensures
        code == ascii_lower(c) as u32,
{
    if 'A' <= c && c <= 'Z' {
        c as u32 + 32
    } else {
        c as u32
    }
}

fn same_ignoring_case(a: &str, b: &str) -> (same: bool)
    ensures
        same == (lowered(a@) == lowered(b@)),
{
    let left: Vec<char> = chars_of(a);
    let right: Vec<char> = chars_of(b);
    if left.len() != right.len() {
        proof {
            assert(lowered(a@).len() != lowered(b@).len());
        }
        return false;
    }
    let mut i: usize = 0;
    while i < left.len()
        invariant
            i <= left@.len(),
            left@ == a@,
            right@ == b@,
            a@.len() == b@.len(),
            forall|j: int| 0 <= j < i ==> #[trigger] lowered(a@)[j] == lowered(b@)[j],
        decreases left@.len() - i,
    {
        if lower_code(left[i]) != lower_code(right[i]) {
            proof {
                assert(lowered(a@)[i as int] != lowered(b@)[i as int]);
            }
            return false;
        }
        proof {
            assert(lowered(a@)[i as int] == lowered(b@)[i as int]);
        }
        i = i + 1;
    }
    proof {
        assert(lowered(a@) =~= lowered(b@));
    }
    true
}

/// Whether a level is one at all.
pub open spec fn is_level(level: Seq<char>) -> bool {
    level.len() > 0 && lowered(level) != lowered("none"@)
}

/// Whether a level is the highest.
pub open spec fn is_admin(level: Seq<char>) -> bool {
    lowered(level) == lowered("admin"@)
}

/// The levels of users, with one more row of a user: the highest level wins, and
/// of others the first.
pub open spec fn level_merged(
    levels: Map<Seq<char>, Seq<char>>,
    user: Seq<char>,
    level: Seq<char>,
) -> Map<Seq<char>, Seq<char>> {
    if !is_level(level) {
        levels
    } else if or_empty(lookup(levels, user)).len() == 0 || is_admin(level) {
        levels.insert(user, level)
    } else {
        levels
    }
}

/// Adds one more row of a user to the levels of users: the highest level wins,
/// and of others the first.
pub fn merge_admin_level(map: &mut StrMap, user: &str, level: &str)
    ensures
        final(map)@ == level_merged(old(map)@, user@, level@),
{
    if is_blank_str(level) || same_ignoring_case(level, "none") {
        return;
    }
    let unset = match map.get(user) {
        Some(current) => is_blank(current),
        None => true,
    };
    if unset || same_ignoring_case(level, "admin") {
        map.insert(user.to_owned(), level.to_owned());
    }
}

/// The levels of users, by their rows.
pub open spec fn levels_of(rows: Seq<UserRecordView>) -> Map<Seq<char>, Seq<char>>
    decreases rows.len(),
{
    if rows.len() == 0 {
        Map::empty()
    } else {
        level_merged(levels_of(rows.drop_last()), rows.last().name, rows.last().admin_level)
    }
}

/// A user who is an administrator in any account is one, in whatever order the
/// rows come; and no one else is.
pub proof fn law_admin_wins(rows: Seq<UserRecordView>, user: Seq<char>)
    ensures
        (lookup(levels_of(rows), user) matches Some(level) && is_admin(level)) <==> exists|i: int|
            0 <= i < rows.len() && (#[trigger] rows[i]).name == user && is_admin(
                rows[i].admin_level,
            ),
        lookup(levels_of(rows), user) matches Some(level) ==> is_level(level),
    decreases rows.len(),
{
    lemma_admin_is_level();
    if rows.len() > 0 {
        let before = rows.drop_last();
        law_admin_wins(before, user);
        let last = rows.last();
        assert(rows[rows.len() - 1] == last);
        assert forall|i: int| 0 <= i < before.len() implies #[trigger] before[i] == rows[i] by {}
        if exists|i: int|
            0 <= i < before.len() && (#[trigger] before[i]).name == user && is_admin(
                before[i].admin_level,
            ) {
            let i = choose|i: int|
                0 <= i < before.len() && (#[trigger] before[i]).name == user && is_admin(
                    before[i].admin_level,
                );
            assert(rows[i].name == user && is_admin(rows[i].admin_level));
        }
        if exists|i: int|
            0 <= i < rows.len() && (#[trigger] rows[i]).name == user && is_admin(
                rows[i].admin_level,
            ) {
            let i = choose|i: int|
                0 <= i < rows.len() && (#[trigger] rows[i]).name == user && is_admin(
                    rows[i].admin_level,
                );
            if i < before.len() {
                assert(before[i].name == user && is_admin(before[i].admin_level));
            }
        }
        if last.name == user && is_admin(last.admin_level) {
            assert(is_level(last.admin_level));
            assert(levels_of(rows) == levels_of(before).insert(user, last.admin_level));
        }
    }
}

proof fn lemma_admin_is_level()
    ensures
        forall|level: Seq<char>| #[trigger] is_admin(level) ==> is_level(level),
{
    reveal_strlit("none");
    reveal_strlit("admin");
    assert(lowered("none"@).len() == 4);
    assert(lowered("admin"@).len() == 5);
    assert forall|level: Seq<char>| #[trigger] is_admin(level) implies is_level(level) by {
        assert(lowered(level).len() == level.len());
    }
}

/// The names that are not empty, as a set.
pub open spec fn named_set(names: Seq<Seq<char>>) -> Set<Seq<char>>
    decreases names.len(),
{
    if names.len() == 0 {
        Set::empty()
    } else if names.last().len() > 0 {
        named_set(names.drop_last()).insert(names.last())
    } else {
        named_set(names.drop_last())
    }
}

fn names_in(list: &str) -> (out: PlainSet<String>)
    ensures
        out@ == named_set(nodes_of(list@)),
{
    let names: Vec<String> = node_names(list);
    let ghost all = nodes_of(list@);
    let mut out: PlainSet<String> = PlainSet::new();
    let mut i: usize = 0;
    proof {
        assert(all.take(0) =~= Seq::<Seq<char>>::empty());
    }
    while i < names.len()
        invariant
            i <= names@.len(),
            names.deep_view() == all,
            out@ == named_set(all.take(i as int)),
        decreases names@.len() - i,
    {
        proof {
            assert(all[i as int] == names@[i as int]@);
            assert(all.take(i + 1).drop_last() =~= all.take(i as int));
            assert(all.take(i + 1).last() == names@[i as int]@);
        }
        if !is_blank(&names[i]) {
            out.insert(names[i].clone());
        }
        i = i + 1;
    }
    proof {
        assert(all.take(i as int) =~= all);
    }
    out
}

/// A limit: one that is not positive is none.
pub open spec fn limit_of(value: Option<i32>) -> Option<u32> {
    match value {
        Some(n) => if n > 0 {
            Some(n as u32)
        } else {
            None
        },
        None => None,
    }
}

fn positive(value: Option<i32>) -> (out: Option<u32>)
    ensures
        out == limit_of(value),
{
    match value {
        Some(n) => if n > 0 {
            Some(n as u32)
        } else {
            None
        },
        None => None,
    }
}

/// A limit on resources: one that is empty, or that nothing can be made of, is
/// none. `parsed` says what is made of each text.
pub open spec fn tres_of(
    value: Option<Seq<char>>,
    parsed: Map<Seq<char>, Seq<char>>,
) -> Option<Seq<char>> {
    match value {
        Some(text) => if text.len() > 0 {
            lookup(parsed, text)
        } else {
            None
        },
        None => None,
    }
}

fn parsed_tres(value: &Option<String>, parsed: &StrMap) -> (out: Option<String>)
    ensures
        out.deep_view() == tres_of(value.deep_view(), parsed@),
{
    match value {
        Some(text) => {
            if is_blank(text) {
                return None;
            }
            match parsed.get(text.as_str()) {
                Some(record) => Some(record.clone()),
                None => None,
            }
        },
        None => None,
    }
}

/// The limits that a record sets.
pub open spec fn limits_set(
    record: AssociationRecordView,
    parsed: Map<Seq<char>, Seq<char>>,
) -> AccountLimitsView {
    AccountLimitsView {
        max_running_jobs: limit_of(record.max_running_jobs),
        max_submit_jobs: limit_of(record.max_submit_jobs),
        max_tres_per_job: tres_of(record.max_tres_per_job, parsed),
        grp_tres: tres_of(record.grp_tres, parsed),
        max_wall_minutes: limit_of(record.max_wall_min),
    }
}

/// The limits that a record sets; `parsed` says what is made of each text that
/// limits resources.
pub fn account_limits_from_record(record: &AssociationRecord, parsed: &StrMap) -> (out:
    AccountLimits)
    ensures
        out@ == limits_set(record@, parsed@),
{
    AccountLimits {
        max_running_jobs: positive(record.max_running_jobs),
        max_submit_jobs: positive(record.max_submit_jobs),
        max_tres_per_job: parsed_tres(&record.max_tres_per_job, parsed),
        grp_tres: parsed_tres(&record.grp_tres, parsed),
        max_wall_minutes: positive(record.max_wall_min),
    }
}

/// What is known of users and their accounts.
#[derive(Debug)]
pub struct AssociationMaps {
    pub default_qos: PlainMap<UserAccount, String>,
    pub default_account: StrMap,
    pub memberships: PlainSet<UserAccount>,
    pub limits: PlainMap<UserAccount, AccountLimits>,
    pub allowed_qos: PlainMap<UserAccount, PlainSet<String>>,
    pub admin_level: StrMap,
}

/// What an [`AssociationMaps`] holds.
#[verifier::ext_equal]
pub struct AssociationMapsView {
    pub default_qos: Map<UserAccountView, Seq<char>>,
    pub default_account: Map<Seq<char>, Seq<char>>,
    pub memberships: Set<UserAccountView>,
    pub limits: Map<UserAccountView, AccountLimitsView>,
    pub allowed_qos: Map<UserAccountView, Set<Seq<char>>>,
    pub admin_level: Map<Seq<char>, Seq<char>>,
}

impl View for AssociationMaps {
    type V = AssociationMapsView;

    open spec fn view(&self) -> AssociationMapsView {
        AssociationMapsView {
            default_qos: self.default_qos@,
            default_account: self.default_account@,
            memberships: self.memberships@,
            limits: self.limits@,
            allowed_qos: self.allowed_qos@,
            admin_level: self.admin_level@,
        }
    }
}

/// What is known with one more row of a user.
pub open spec fn user_known(maps: AssociationMapsView, row: UserRecordView) -> AssociationMapsView {
    let key = UserAccountView { user: row.name, account: row.account };
    AssociationMapsView {
        default_qos: match row.default_qos {
            Some(qos) => maps.default_qos.insert(key, qos),
            None => maps.default_qos,
        },
        default_account: match row.default_account {
            Some(account) => maps.default_account.insert(row.name, account),
            None => maps.default_account,
        },
        memberships: maps.memberships.insert(key),
        limits: maps.limits,
        allowed_qos: match row.allowed_qos {
            Some(list) => if named_set(nodes_of(list)) == Set::<Seq<char>>::empty() {
                maps.allowed_qos
            } else {
                maps.allowed_qos.insert(key, named_set(nodes_of(list)))
            },
            None => maps.allowed_qos,
        },
        admin_level: level_merged(maps.admin_level, row.name, row.admin_level),
    }
}

/// What the rows of users tell.
pub open spec fn users_known(rows: Seq<UserRecordView>) -> AssociationMapsView
    decreases rows.len(),
{
    if rows.len() == 0 {
        AssociationMapsView {
            default_qos: Map::empty(),
            default_account: Map::empty(),
            memberships: Set::empty(),
            limits: Map::empty(),
            allowed_qos: Map::empty(),
            admin_level: Map::empty(),
        }
    } else {
        user_known(users_known(rows.drop_last()), rows.last())
    }
}

/// The limits that records set.
pub open spec fn limits_known(
    records: Seq<AssociationRecordView>,
    parsed: Map<Seq<char>, Seq<char>>,
) -> Map<UserAccountView, AccountLimitsView>
    decreases records.len(),
{
    if records.len() == 0 {
        Map::empty()
    } else {
        let last = records.last();
        limits_known(records.drop_last(), parsed).insert(
            UserAccountView { user: last.user_name, account: last.account },
            limits_set(last, parsed),
        )
    }
}

fn learn_user(maps: &mut AssociationMaps, row: &UserRecord)
    ensures
        final(maps)@ == user_known(old(maps)@, row@),
{
    let ghost before = maps@;
    let key = UserAccount { user: row.name.clone(), account: row.account.clone() };
    maps.memberships.insert(key.copy_of());
    merge_admin_level(&mut maps.admin_level, row.name.as_str(), row.admin_level.as_str());
    if let Some(qos) = &row.default_qos {
        maps.default_qos.insert(key.copy_of(), qos.clone());
    }
    if let Some(account) = &row.default_account {
        maps.default_account.insert(row.name.clone(), account.clone());
    }
    if let Some(list) = &row.allowed_qos {
        let names = names_in(list.as_str());
        let n: usize = names.len();
        proof {
            if n == 0 {
                assert(names@ =~= Set::<Seq<char>>::empty());
            } else {
                assert(names@ != Set::<Seq<char>>::empty());
            }
        }
        if n > 0 {
            maps.allowed_qos.insert(key, names);
        }
    }
    proof {
        assert(maps@ =~= user_known(before, row@));
    }
}

/// What the rows of users and the records of their limits tell. `parsed` says
/// what is made of each text that limits resources.
pub fn association_maps(
    users: &Vec<UserRecord>,
    associations: &Vec<AssociationRecord>,
    parsed: &StrMap,
) -> (out: AssociationMaps)
    ensures
        out@ == (AssociationMapsView {
            limits: limits_known(associations.deep_view(), parsed@),
            ..users_known(users.deep_view())
        }),
{
    let ghost rows = users.deep_view();
    let ghost records = associations.deep_view();
    let mut maps = AssociationMaps {
        default_qos: PlainMap::new(),
        default_account: StrMap::new(),
        memberships: PlainSet::new(),
        limits: PlainMap::new(),
        allowed_qos: PlainMap::new(),
        admin_level: StrMap::new(),
    };
    let mut i: usize = 0;
    proof {
        assert(rows.take(0) =~= Seq::<UserRecordView>::empty());
        assert(maps@ =~= users_known(rows.take(0)));
    }
    while i < users.len()
        invariant
            i <= users@.len(),
            rows == users.deep_view(),
            maps@ == users_known(rows.take(i as int)),
        decreases users@.len() - i,
    {
        proof {
            assert(rows.take(i + 1).drop_last() =~= rows.take(i as int));
            assert(rows.take(i + 1).last() == users@[i as int]@);
        }
        learn_user(&mut maps, &users[i]);
        i = i + 1;
    }
    let mut limits: PlainMap<UserAccount, AccountLimits> = PlainMap::new();
    let mut j: usize = 0;
    proof {
        assert(rows.take(i as int) =~= rows);
        assert(records.take(0) =~= Seq::<AssociationRecordView>::empty());
    }
    while j < associations.len()
        invariant
            j <= associations@.len(),
            records == associations.deep_view(),
            limits@ == limits_known(records.take(j as int), parsed@),
        decreases associations@.len() - j,
    {
        let record = &associations[j];
        proof {
            assert(records.take(j + 1).drop_last() =~= records.take(j as int));
            assert(records.take(j + 1).last() == record@);
        }
        limits.insert(
            UserAccount { user: record.user_name.clone(), account: record.account.clone() },
            account_limits_from_record(record, parsed),
        );
        j = j + 1;
    }
    proof {
        assert(records.take(j as int) =~= records);
    }
    maps.limits = limits;
    maps
}

proof fn lemma_users_known(rows: Seq<UserRecordView>)
    ensures
        users_known(rows).admin_level == levels_of(rows),
        forall|key: UserAccountView| #[trigger]
            users_known(rows).memberships.contains(key) <==> exists|i: int|
                0 <= i < rows.len() && (#[trigger] rows[i]).name == key.user && rows[i].account
                    == key.account,
    decreases rows.len(),
{
    if rows.len() > 0 {
        let before = rows.drop_last();
        lemma_users_known(before);
        let last = rows.last();
        assert(rows[rows.len() - 1] == last);
        assert forall|key: UserAccountView| #[trigger]
            users_known(rows).memberships.contains(key) <==> exists|i: int|
            0 <= i < rows.len() && (#[trigger] rows[i]).name == key.user && rows[i].account
                == key.account by {
            if users_known(before).memberships.contains(key) {
                let i = choose|i: int|
                    0 <= i < before.len() && (#[trigger] before[i]).name == key.user
                        && before[i].account == key.account;
                assert(rows[i] == before[i]);
            }
            if exists|i: int|
                0 <= i < rows.len() && (#[trigger] rows[i]).name == key.user && rows[i].account
                    == key.account {
                let i = choose|i: int|
                    0 <= i < rows.len() && (#[trigger] rows[i]).name == key.user && rows[i].account
                        == key.account;
                if i < before.len() {
                    assert(before[i] == rows[i]);
                    assert(users_known(before).memberships.contains(key));
                }
            }
        }
    }
}

/// A user is a member of exactly the accounts that it has a row in, whatever else
/// the rows say.
pub proof fn law_members_have_rows(rows: Seq<UserRecordView>, key: UserAccountView)
    ensures
        users_known(rows).memberships.contains(key) <==> exists|i: int|
            0 <= i < rows.len() && (#[trigger] rows[i]).name == key.user && rows[i].account
                == key.account,
        users_known(rows).admin_level == levels_of(rows),
{
    lemma_users_known(rows);
}

/// The window over which usage counts.
pub open spec fn halflife_of(days: u32) -> u32 {
    if days == 0 {
        14
    } else if days > 365 {
        365
    } else {
        days
    }
}

/// The half-life of usage, in days: the default where none is given, and at most
/// a year.
pub fn effective_halflife(days: u32) -> (out: u32)
    ensures
        out == halflife_of(days),
        1 <= out <= 365,
{
    if days == 0 {
        14
    } else if days > 365 {
        365
    } else {
        days
    }
}

/// Since when usage counts: four half-lives.
pub fn fairshare_since(now: Instant, halflife_days: u32) -> (out: Instant)
    requires
        now.wf(),
        now.secs - halflife_of(halflife_days) * 345_600 >= MIN_SECS,
    ensures
        out == (Instant {
            secs: (now.secs - halflife_of(halflife_days) * 345_600) as i64,
            nanos: now.nanos,
        }),
{
    let days: u32 = effective_halflife(halflife_days);
    Instant { secs: now.secs - days as i64 * 345_600, nanos: now.nanos }
}

/// Whether a row is that of a user in an account.
pub open spec fn row_is_of(row: UserRowView, user: Seq<char>, account: Seq<char>) -> bool {
    row.name == user && row.account == account
}

/// A row, without its default where another account of the user becomes it.
pub open spec fn demoted(
    row: UserRowView,
    user: Seq<char>,
    account: Seq<char>,
    is_default: Option<bool>,
) -> UserRowView {
    if is_default == Some(true) && row.name == user && row.account != account {
        UserRowView { default_account: None, ..row }
    } else {
        row
    }
}

/// Whether a user has a default account.
pub open spec fn has_default(rows: Seq<UserRowView>, user: Seq<char>) -> bool {
    exists|i: int|
        0 <= i < rows.len() && (#[trigger] rows[i]).name == user && rows[i].default_account is Some
}

/// The default account of a row that is added. The first account of a user is its
/// default unless said otherwise.
pub open spec fn default_when_added(
    rows: Seq<UserRowView>,
    user: Seq<char>,
    account: Seq<char>,
    is_default: Option<bool>,
) -> Option<Seq<char>> {
    match is_default {
        Some(true) => Some(account),
        Some(false) => None,
        None => if has_default(rows, user) {
            None
        } else {
            Some(account)
        },
    }
}

/// The row of a user in an account, changed by what is given.
pub open spec fn row_changed(
    row: UserRowView,
    account: Seq<char>,
    admin_level: Option<Seq<char>>,
    is_default: Option<bool>,
) -> UserRowView {
    UserRowView {
        admin_level: match admin_level {
            Some(level) => level,
            None => row.admin_level,
        },
        default_account: match is_default {
            None => row.default_account,
            Some(true) => Some(account),
            Some(false) => None,
        },
        ..row
    }
}

/// Whether some row is that of a user in an account.
pub open spec fn has_row(rows: Seq<UserRowView>, user: Seq<char>, account: Seq<char>) -> bool {
    exists|i: int| 0 <= i < rows.len() && row_is_of(#[trigger] rows[i], user, account)
}

/// The rows of users after a user was added to an account, or changed in it.
pub open spec fn user_added(
    rows: Seq<UserRowView>,
    user: Seq<char>,
    account: Seq<char>,
    admin_level: Option<Seq<char>>,
    is_default: Option<bool>,
) -> Seq<UserRowView> {
    let changed = rows.map_values(
        |row: UserRowView|
            if row_is_of(row, user, account) {
                row_changed(row, account, admin_level, is_default)
            } else {
                demoted(row, user, account, is_default)
            },
    );
    if has_row(rows, user, account) {
        changed
    } else {
        changed.push(
            UserRowView {
                name: user,
                account,
                admin_level: match admin_level {
                    Some(level) => level,
                    None => "none"@,
                },
                default_account: default_when_added(rows, user, account, is_default),
            },
        )
    }
}

/// The rows of users after a user was added to an account, or changed in it.
pub fn add_user(rows: &Vec<UserRow>, user: &str, account: &str, u: &UserUpdate) -> (out: Vec<UserRow>)
    ensures
        out.deep_view() == user_added(
            rows.deep_view(),
            user@,
            account@,
            opt_text(u.admin_level),
            u.is_default,
        ),
{
    let ghost all = rows.deep_view();
    let ghost level = opt_text(u.admin_level);
    let ghost change = |row: UserRowView|
        if row_is_of(row, user@, account@) {
            row_changed(row, account@, level, u.is_default)
        } else {
            demoted(row, user@, account@, u.is_default)
        };
    let mut out: Vec<UserRow> = Vec::new();
    let mut found = false;
    let mut defaulted = false;
    let mut i: usize = 0;
    while i < rows.len()
        invariant
            i <= rows@.len(),
            all == rows.deep_view(),
            level == opt_text(u.admin_level),
            change == (|row: UserRowView|
                if row_is_of(row, user@, account@) {
                    row_changed(row, account@, level, u.is_default)
                } else {
                    demoted(row, user@, account@, u.is_default)
                }),
            out.deep_view() == all.map_values(change).take(i as int),
            found == exists|j: int| 0 <= j < i && row_is_of(#[trigger] all[j], user@, account@),
            defaulted == exists|j: int|
                0 <= j < i && (#[trigger] all[j]).name == user@ && all[j].default_account is Some,
        decreases rows@.len() - i,
    {
        let row = &rows[i];
        let ghost before = out.deep_view();
        proof {
            assert(all[i as int] == row@);
        }
        let mut next = row.copy_of();
        let same_user = same_text(row.name.as_str(), user);
        let same_account = same_text(row.account.as_str(), account);
        if same_user && row.default_account.is_some() {
            defaulted = true;
        }
        if same_user && same_account {
            found = true;
            if let Some(level) = u.admin_level {
                next.admin_level = level.to_owned();
            }
            match u.is_default {
                None => {},
                Some(true) => {
                    next.default_account = Some(account.to_owned());
                },
                Some(false) => {
                    next.default_account = None;
                },
            }
        } else if same_user {
            if let Some(true) = u.is_default {
                next.default_account = None;
            }
        }
        proof {
            assert(next@ =~= change(row@));
        }
        out.push(next);
        proof {
            assert(out.deep_view() =~= before.push(next@));
            assert(all.map_values(change).take(i + 1) =~= before.push(change(all[i as int])));
        }
        i = i + 1;
    }
    proof {
        assert(all.map_values(change).take(i as int) =~= all.map_values(change));
        assert(found == has_row(all, user@, account@));
        assert(defaulted == has_default(all, user@));
    }
    if !found {
        let default_account: Option<String> = match u.is_default {
            Some(true) => Some(account.to_owned()),
            Some(false) => None,
            None => if defaulted {
                None
            } else {
                Some(account.to_owned())
            },
        };
        let admin_level: String = match u.admin_level {
            Some(level) => level.to_owned(),
            None => "none".to_owned(),
        };
        let row = UserRow {
            name: user.to_owned(),
            account: account.to_owned(),
            admin_level,
            default_account,
        };
        let ghost before = out.deep_view();
        out.push(row);
        proof {
            assert(out.deep_view() =~= before.push(row@));
        }
    }
    out
}

/// Whether no user has two default accounts.
pub open spec fn one_default_each(rows: Seq<UserRowView>) -> bool {
    forall|i: int, j: int|
        0 <= i < j < rows.len() && (#[trigger] rows[i]).name == (#[trigger] rows[j]).name
            ==> rows[i].default_account is None || rows[j].default_account is None
}

/// Whether no user has two rows for one account.
pub open spec fn one_row_each(rows: Seq<UserRowView>) -> bool {
    forall|i: int, j: int|
        0 <= i < j < rows.len() && (#[trigger] rows[i]).name == (#[trigger] rows[j]).name
            ==> rows[i].account != rows[j].account
}

/// A user never has two default accounts, nor two rows for one account, whatever
/// is added or changed.
pub proof fn law_default_account_is_unique(
    rows: Seq<UserRowView>,
    user: Seq<char>,
    account: Seq<char>,
    admin_level: Option<Seq<char>>,
    is_default: Option<bool>,
)
    requires
        one_default_each(rows),
        one_row_each(rows),
    ensures
        one_default_each(user_added(rows, user, account, admin_level, is_default)),
        one_row_each(user_added(rows, user, account, admin_level, is_default)),
{
    let after = user_added(rows, user, account, admin_level, is_default);
    assert forall|i: int, j: int|
        0 <= i < j < after.len() && (#[trigger] after[i]).name == (
        #[trigger] after[j]).name implies after[i].account != after[j].account && (
    after[i].default_account is None || after[j].default_account is None) by {
        assert(i < rows.len());
        assert(after[i].name == rows[i].name && after[i].account == rows[i].account);
        if j < rows.len() {
            assert(after[j].name == rows[j].name && after[j].account == rows[j].account);
            assert(rows[i].account != rows[j].account);
        } else {
            assert(!row_is_of(rows[i], user, account));
            if is_default is None && after[i].default_account is Some {
                assert(rows[i].default_account is Some);
                assert(has_default(rows, user));
            }
        }
    }
}

/// Making an account the default demotes the others of the user; restating
/// nothing of it keeps the default where it is; and the rows of other users stay.
pub proof fn law_default_moves_only_when_said(
    rows: Seq<UserRowView>,
    user: Seq<char>,
    account: Seq<char>,
    admin_level: Option<Seq<char>>,
    i: int,
)
    requires
        0 <= i < rows.len(),
    ensures
        ({
            let stated = user_added(rows, user, account, admin_level, Some(true));
            let unstated = user_added(rows, user, account, admin_level, None);
            &&& rows[i].name == user && rows[i].account != account
                ==> stated[i].default_account is None
            &&& row_is_of(rows[i], user, account) ==> stated[i].default_account == Some(account)
            &&& unstated[i].default_account == rows[i].default_account
            &&& rows[i].name != user ==> stated[i] == rows[i] && unstated[i] == rows[i]
        }),
{
}

/// The first account of a user becomes its default, and a later one does not take
/// its place unasked.
pub proof fn law_first_account_is_default(
    rows: Seq<UserRowView>,
    user: Seq<char>,
    account: Seq<char>,
    admin_level: Option<Seq<char>>,
)
    requires
        !has_row(rows, user, account),
    ensures
        ({
            let after = user_added(rows, user, account, admin_level, None);
            &&& after.len() == rows.len() + 1
            &&& after.last().default_account == if has_default(rows, user) {
                None
            } else {
                Some(account)
            }
        }),
{
}

/// Whether a row goes when a user is removed from an account, or from all where
/// none is named.
pub open spec fn row_goes(
    row_user: Seq<char>,
    row_account: Seq<char>,
    user: Seq<char>,
    account: Seq<char>,
) -> bool {
    row_user == user && (account.len() == 0 || row_account == account)
}

fn row_matches(row_user: &str, row_account: &str, user: &str, account: &str) -> (yes: bool)
    ensures
        yes == row_goes(row_user@, row_account@, user@, account@),
{
    same_text(row_user, user) && (is_blank_str(account) || same_text(row_account, account))
}

/// The rows of users that stay when a user is removed, in order.
pub open spec fn users_left(
    rows: Seq<UserRowView>,
    user: Seq<char>,
    account: Seq<char>,
) -> Seq<UserRowView> {
    rows.filter(|row: UserRowView| !row_goes(row.name, row.account, user, account))
}

/// The associations that stay when a user is removed, in order.
pub open spec fn associations_left(
    rows: Seq<AssociationRecordView>,
    user: Seq<char>,
    account: Seq<char>,
) -> Seq<AssociationRecordView> {
    rows.filter(|row: AssociationRecordView| !row_goes(row.user_name, row.account, user, account))
}

fn keep_users(rows: &Vec<UserRow>, user: &str, account: &str) -> (out: Vec<UserRow>)
    ensures
        out.deep_view() == users_left(rows.deep_view(), user@, account@),
        out@.len() <= rows@.len(),
{
    let ghost all = rows.deep_view();
    let ghost stays = |row: UserRowView| !row_goes(row.name, row.account, user@, account@);
    let mut out: Vec<UserRow> = Vec::new();
    let mut i: usize = 0;
    proof {
        reveal(Seq::filter);
        assert(all.take(0) =~= Seq::<UserRowView>::empty());
        assert(out.deep_view() =~= Seq::<UserRowView>::empty());
    }
    while i < rows.len()
        invariant
            i <= rows@.len(),
            all == rows.deep_view(),
            stays == (|row: UserRowView| !row_goes(row.name, row.account, user@, account@)),
            out.deep_view() == all.take(i as int).filter(stays),
            out@.len() <= i,
        decreases rows@.len() - i,
    {
        proof {
            reveal(Seq::filter);
            assert(all.take(i + 1).drop_last() =~= all.take(i as int));
            assert(all.take(i + 1).last() == rows@[i as int]@);
        }
        if !row_matches(rows[i].name.as_str(), rows[i].account.as_str(), user, account) {
            let ghost before = out.deep_view();
            out.push(rows[i].copy_of());
            proof {
                assert(out.deep_view() =~= before.push(rows@[i as int]@));
            }
        }
        i = i + 1;
    }
    proof {
        assert(all.take(i as int) =~= all);
    }
    out
}

fn keep_associations(rows: &Vec<AssociationRecord>, user: &str, account: &str) -> (out: Vec<AssociationRecord>)
    ensures
        out.deep_view() == associations_left(rows.deep_view(), user@, account@),
        out@.len() <= rows@.len(),
{
    let ghost all = rows.deep_view();
    let ghost stays = |row: AssociationRecordView| !row_goes(row.user_name, row.account, user@, account@);
    let mut out: Vec<AssociationRecord> = Vec::new();
    let mut i: usize = 0;
    proof {
        reveal(Seq::filter);
        assert(all.take(0) =~= Seq::<AssociationRecordView>::empty());
        assert(out.deep_view() =~= Seq::<AssociationRecordView>::empty());
    }
    while i < rows.len()
        invariant
            i <= rows@.len(),
            all == rows.deep_view(),
            stays == (|row: AssociationRecordView| !row_goes(row.user_name, row.account, user@, account@)),
            out.deep_view() == all.take(i as int).filter(stays),
            out@.len() <= i,
        decreases rows@.len() - i,
    {
        proof {
            reveal(Seq::filter);
            assert(all.take(i + 1).drop_last() =~= all.take(i as int));
            assert(all.take(i + 1).last() == rows@[i as int]@);
        }
        if !row_matches(rows[i].user_name.as_str(), rows[i].account.as_str(), user, account) {
            let ghost before = out.deep_view();
            out.push(rows[i].copy_of());
            proof {
                assert(out.deep_view() =~= before.push(rows@[i as int]@));
            }
        }
        i = i + 1;
    }
    proof {
        assert(all.take(i as int) =~= all);
    }
    out
}

/// What is left when a user is removed, and how many rows went.
#[derive(Debug)]
pub struct UserRemoval {
    pub users: Vec<UserRow>,
    pub associations: Vec<AssociationRecord>,
    pub removed: u64,
}

/// Removes a user from an account, or from all where none is named: its rows and
/// its associations.
pub fn remove_user(
    users: &Vec<UserRow>,
    associations: &Vec<AssociationRecord>,
    user: &str,
    account: &str,
) -> (out: UserRemoval)
    requires
        users@.len() + associations@.len() <= u64::MAX,
    ensures
        out.users.deep_view() == users_left(users.deep_view(), user@, account@),
        out.associations.deep_view() == associations_left(
            associations.deep_view(),
            user@,
            account@,
        ),
        out.removed == (users@.len() - out.users@.len()) + (associations@.len()
            - out.associations@.len()),
{
    let left = keep_users(users, user, account);
    let linked = keep_associations(associations, user, account);
    let removed: u64 = (users.len() - left.len()) as u64 + (associations.len()
        - linked.len()) as u64;
    UserRemoval { users: left, associations: linked, removed }
}

/// A removal takes the rows that it names and no others, and leaves nothing for
/// a second one.
pub proof fn law_removal_takes_what_it_names(
    rows: Seq<UserRowView>,
    user: Seq<char>,
    account: Seq<char>,
    row: UserRowView,
)
    ensures
        users_left(rows, user, account).contains(row) <==> rows.contains(row) && !row_goes(
            row.name,
            row.account,
            user,
            account,
        ),
        users_left(users_left(rows, user, account), user, account) == users_left(
            rows,
            user,
            account,
        ),
{
    let stays = |row: UserRowView| !row_goes(row.name, row.account, user, account);
    lemma_filter_members(rows, stays, row);
    lemma_filter_twice(rows, stays);
}

/// The same holds of associations.
pub proof fn law_removal_takes_the_associations_it_names(
    rows: Seq<AssociationRecordView>,
    user: Seq<char>,
    account: Seq<char>,
    row: AssociationRecordView,
)
    ensures
        associations_left(rows, user, account).contains(row) <==> rows.contains(row) && !row_goes(
            row.user_name,
            row.account,
            user,
            account,
        ),
        associations_left(associations_left(rows, user, account), user, account)
            == associations_left(rows, user, account),
{
    let stays = |row: AssociationRecordView|
        !row_goes(row.user_name, row.account, user, account);
    lemma_filter_members(rows, stays, row);
    lemma_filter_twice(rows, stays);
}

/// A filter keeps the members that it holds of.
pub proof fn lemma_filter_members<A>(s: Seq<A>, p: spec_fn(A) -> bool, x: A)
    ensures
        s.filter(p).contains(x) <==> s.contains(x) && p(x),
    decreases s.len(),
{
    reveal(Seq::filter);
    if s.len() > 0 {
        let before = s.drop_last();
        lemma_filter_members(before, p, x);
        assert(s =~= before.push(s.last()));
        vstd::seq_lib::lemma_seq_contains_after_push(before, s.last(), x);
        vstd::seq_lib::lemma_seq_contains_after_push(before.filter(p), s.last(), x);
    }
}

proof fn lemma_filter_twice<A>(s: Seq<A>, p: spec_fn(A) -> bool)
    ensures
        s.filter(p).filter(p) == s.filter(p),
    decreases s.len(),
{
    reveal(Seq::filter);
    if s.len() > 0 {
        lemma_filter_twice(s.drop_last(), p);
        let kept = s.drop_last().filter(p);
        if p(s.last()) {
            assert(kept.push(s.last()).drop_last() =~= kept);
        }
    }
}

/// Of these names, those that do not exist, in order.
pub open spec fn missing_of(names: Seq<Seq<char>>, existing: Seq<Seq<char>>) -> Seq<Seq<char>> {
    names.filter(|name: Seq<char>| !existing.contains(name))
}

fn is_listed(list: &Vec<String>, name: &str) -> (yes: bool)
    ensures
        yes == list.deep_view().contains(name@),
{
    let mut i: usize = 0;
    while i < list.len()
        invariant
            i <= list@.len(),
            forall|j: int| 0 <= j < i ==> #[trigger] list.deep_view()[j] != name@,
        decreases list@.len() - i,
    {
        proof {
            assert(list.deep_view()[i as int] == list@[i as int]@);
        }
        if same_text(list[i].as_str(), name) {
            return true;
        }
        i = i + 1;
    }
    false
}

/// Of these names, those that do not exist, in order.
pub fn missing_qos(names: &Vec<String>, existing: &Vec<String>) -> (out: Vec<String>)
    ensures
        out.deep_view() == missing_of(names.deep_view(), existing.deep_view()),
{
    let ghost all = names.deep_view();
    let ghost known = existing.deep_view();
    let ghost absent = |name: Seq<char>| !known.contains(name);
    let mut out: Vec<String> = Vec::new();
    let mut i: usize = 0;
    proof {
        reveal(Seq::filter);
        assert(all.take(0) =~= Seq::<Seq<char>>::empty());
        assert(out.deep_view() =~= Seq::<Seq<char>>::empty());
    }
    while i < names.len()
        invariant
            i <= names@.len(),
            all == names.deep_view(),
            known == existing.deep_view(),
            absent == (|name: Seq<char>| !known.contains(name)),
            out.deep_view() == all.take(i as int).filter(absent),
        decreases names@.len() - i,
    {
        proof {
            reveal(Seq::filter);
            assert(all.take(i + 1).drop_last() =~= all.take(i as int));
            assert(all.take(i + 1).last() == names@[i as int]@);
        }
        if !is_listed(existing, names[i].as_str()) {
            let ghost before = out.deep_view();
            out.push(names[i].clone());
            proof {
                assert(out.deep_view() =~= before.push(names@[i as int]@));
            }
        }
        i = i + 1;
    }
    proof {
        assert(all.take(i as int) =~= all);
    }
    out
}

/// Whether `text` reads `word`, an upper case letter of the text standing for the
/// lower case one.
pub open spec fn reads_in_any_case(text: Seq<char>, word: Seq<char>) -> bool {
    text.len() == word.len() && forall|i: int|
        #![trigger text[i]]
        0 <= i < text.len() ==> text[i] == word[i] || ('A' <= text[i] <= 'Z' && text[i] as int + 32
            == word[i] as int)
}

/// A text of lower case letters is what another reads in any case exactly where
/// the two are the same in lower case.
proof fn lemma_any_case(text: Seq<char>, word: Seq<char>)
    requires
        forall|i: int| 0 <= i < word.len() ==> 'a' <= #[trigger] word[i] <= 'z',
    ensures
        lowered(text) == lowered(word) <==> reads_in_any_case(text, word),
{
    if lowered(text) == lowered(word) {
        assert(lowered(text).len() == text.len());
        assert forall|i: int| 0 <= i < text.len() implies text[i] == word[i] || ('A'
            <= #[trigger] text[i] <= 'Z' && text[i] as int + 32 == word[i] as int) by {
            assert(lowered(text)[i] == ascii_lower(text[i]));
            assert(lowered(word)[i] == ascii_lower(word[i]));
        }
    }
    if reads_in_any_case(text, word) {
        assert forall|i: int| 0 <= i < text.len() implies #[trigger] lowered(text)[i] == lowered(
            word,
        )[i] by {
            assert(text[i] == word[i] || ('A' <= text[i] <= 'Z' && text[i] as int + 32
                == word[i] as int));
        }
        assert(lowered(text) =~= lowered(word));
    }
}

/// A level is an administrator's where it reads "admin", and none at all where
/// it is empty or reads "none", in any case.
pub proof fn law_levels_are_read_in_any_case(level: Seq<char>)
    ensures
        is_admin(level) <==> reads_in_any_case(level, seq!['a', 'd', 'm', 'i', 'n']),
        is_level(level) <==> level.len() > 0 && !reads_in_any_case(level, seq!['n', 'o', 'n', 'e']),
        is_admin(level) ==> is_level(level),
{
    reveal_strlit("admin");
    reveal_strlit("none");
    assert("admin"@ =~= seq!['a', 'd', 'm', 'i', 'n']);
    assert("none"@ =~= seq!['n', 'o', 'n', 'e']);
    lemma_any_case(level, seq!['a', 'd', 'm', 'i', 'n']);
    lemma_any_case(level, seq!['n', 'o', 'n', 'e']);
}

/// A user keeps the first level found, and only that of an administrator takes
/// its place. One user's level is nothing to another.
pub proof fn law_first_level_is_kept(
    levels: Map<Seq<char>, Seq<char>>,
    user: Seq<char>,
    level: Seq<char>,
    other: Seq<char>,
)
    ensures
        other != user ==> level_merged(levels, user, level).contains_key(other)
            == levels.contains_key(other) && (levels.contains_key(other) ==> level_merged(
            levels,
            user,
            level,
        )[other] == levels[other]),
        is_level(level) && !levels.contains_key(user) ==> level_merged(levels, user, level)[user]
            == level,
        is_level(level) ==> level_merged(levels, user, level).contains_key(user),
        is_admin(level) && is_level(level) ==> level_merged(levels, user, level)[user] == level,
        !is_admin(level) && levels.contains_key(user) && levels[user].len() > 0 ==> level_merged(
            levels,
            user,
            level,
        )[user] == levels[user],
        !is_level(level) ==> level_merged(levels, user, level) == levels,
{
}

/// The set of a list of names holds the names in it, and no empty one.
pub proof fn law_named_set_holds_the_names(names: Seq<Seq<char>>, name: Seq<char>)
    ensures
        named_set(names).contains(name) <==> names.contains(name) && name.len() > 0,
    decreases names.len(),
{
    if names.len() > 0 {
        let init = names.drop_last();
        law_named_set_holds_the_names(init, name);
        assert(names[names.len() - 1] == names.last());
        if init.contains(name) {
            let i = choose|i: int| 0 <= i < init.len() && init[i] == name;
            assert(names[i] == name);
        }
        if names.contains(name) && name != names.last() {
            let i = choose|i: int| 0 <= i < names.len() && names[i] == name;
            assert(init[i] == name);
        }
    }
}

/// A limit is a positive number; anything else is no limit. Each limit of an
/// association is its own.
pub proof fn law_limits_are_positive_and_their_own(
    record: AssociationRecordView,
    parsed: Map<Seq<char>, Seq<char>>,
)
    ensures
        ({
            let limits = limits_set(record, parsed);
            let is_limit = |value: Option<i32>| value is Some && value->0 > 0;
            &&& limits.max_running_jobs is Some <==> is_limit(record.max_running_jobs)
            &&& limits.max_running_jobs is Some ==> limits.max_running_jobs->0
                == record.max_running_jobs->0
            &&& limits.max_submit_jobs is Some <==> is_limit(record.max_submit_jobs)
            &&& limits.max_submit_jobs is Some ==> limits.max_submit_jobs->0
                == record.max_submit_jobs->0
            &&& limits.max_wall_minutes is Some <==> is_limit(record.max_wall_min)
            &&& limits.max_wall_minutes is Some ==> limits.max_wall_minutes->0
                == record.max_wall_min->0
            &&& record.max_tres_per_job is Some && (record.max_tres_per_job->0).len() > 0
                && parsed.contains_key(record.max_tres_per_job->0) ==> limits.max_tres_per_job
                == Some(parsed[record.max_tres_per_job->0])
            &&& limits.max_tres_per_job is Some ==> record.max_tres_per_job is Some && (
            record.max_tres_per_job->0).len() > 0
            &&& record.grp_tres is Some && (record.grp_tres->0).len() > 0 && parsed.contains_key(
                record.grp_tres->0,
            ) ==> limits.grp_tres == Some(parsed[record.grp_tres->0])
            &&& limits.grp_tres is Some ==> record.grp_tres is Some && (record.grp_tres->0).len()
                > 0
        }),
{
}

/// The limits of a user in an account are those of the last record of the two.
pub proof fn law_last_limits_count(
    records: Seq<AssociationRecordView>,
    parsed: Map<Seq<char>, Seq<char>>,
    i: int,
)
    requires
        0 <= i < records.len(),
        forall|j: int|
            i < j < records.len() ==> (#[trigger] records[j]).user_name != records[i].user_name
                || records[j].account != records[i].account,
    ensures
        ({
            let key = UserAccountView { user: records[i].user_name, account: records[i].account };
            &&& limits_known(records, parsed).contains_key(key)
            &&& limits_known(records, parsed)[key] == limits_set(records[i], parsed)
        }),
    decreases records.len(),
{
    let init = records.drop_last();
    if i < init.len() {
        assert(init[i] == records[i]);
        assert forall|j: int| i < j < init.len() implies (#[trigger] init[j]).user_name
            != init[i].user_name || init[j].account != init[i].account by {
            assert(init[j] == records[j]);
        }
        law_last_limits_count(init, parsed, i);
        assert(records[records.len() - 1] == records.last());
    }
}

/// A user without a record in an account has no limits there.
pub proof fn law_unrecorded_users_have_no_limits(
    records: Seq<AssociationRecordView>,
    parsed: Map<Seq<char>, Seq<char>>,
    key: UserAccountView,
)
    requires
        forall|j: int|
            0 <= j < records.len() ==> (#[trigger] records[j]).user_name != key.user
                || records[j].account != key.account,
    ensures
        !limits_known(records, parsed).contains_key(key),
    decreases records.len(),
{
    if records.len() > 0 {
        let init = records.drop_last();
        assert forall|j: int| 0 <= j < init.len() implies (#[trigger] init[j]).user_name != key.user
            || init[j].account != key.account by {
            assert(init[j] == records[j]);
        }
        law_unrecorded_users_have_no_limits(init, parsed, key);
        assert(records[records.len() - 1] == records.last());
    }
}

/// What a row says of a user in an account is what is known of them there: the
/// default QOS, the allowed ones, and the account that is the user's default.
pub proof fn law_rows_say_what_users_may_use(before: AssociationMapsView, row: UserRecordView)
    ensures
        ({
            let after = user_known(before, row);
            let key = UserAccountView { user: row.name, account: row.account };
            &&& after.memberships.contains(key)
            &&& row.default_qos is Some ==> after.default_qos.contains_key(key)
                && after.default_qos[key] == row.default_qos->0
            &&& row.default_account is Some ==> after.default_account.contains_key(row.name)
                && after.default_account[row.name] == row.default_account->0
            &&& row.default_qos is None ==> after.default_qos == before.default_qos
            &&& row.default_account is None ==> after.default_account == before.default_account
            &&& row.allowed_qos is None ==> after.allowed_qos == before.allowed_qos
            &&& forall|other: UserAccountView|
                other != key ==> (after.default_qos.contains_key(other)
                    == before.default_qos.contains_key(other) && #[trigger] after.default_qos[other]
                    == before.default_qos[other])
            &&& forall|other: UserAccountView|
                other != key ==> (after.allowed_qos.contains_key(other)
                    == before.allowed_qos.contains_key(other) && #[trigger] after.allowed_qos[other]
                    == before.allowed_qos[other])
            &&& forall|other: UserAccountView|
                other != key ==> #[trigger] after.memberships.contains(other)
                    == before.memberships.contains(other)
            &&& forall|other: Seq<char>|
                other != row.name ==> (after.default_account.contains_key(other)
                    == before.default_account.contains_key(other)
                    && #[trigger] after.default_account[other] == before.default_account[other])
            &&& after.limits == before.limits
        }),
{
}

/// A QOS is allowed where the row lists it; a list that names none says nothing.
pub proof fn law_listed_qos_are_allowed(
    before: AssociationMapsView,
    row: UserRecordView,
    qos: Seq<char>,
)
    requires
        row.allowed_qos is Some,
        qos.len() > 0,
        nodes_of(row.allowed_qos->0).contains(qos),
    ensures
        ({
            let key = UserAccountView { user: row.name, account: row.account };
            let allowed = user_known(before, row).allowed_qos;
            &&& allowed.contains_key(key)
            &&& forall|other: Seq<char>| #[trigger]
                allowed[key].contains(other) <==> other.len() > 0 && nodes_of(
                    row.allowed_qos->0,
                ).contains(other)
        }),
{
    let names = nodes_of(row.allowed_qos->0);
    law_named_set_holds_the_names(names, qos);
    assert forall|other: Seq<char>| #[trigger] named_set(names).contains(other) <==> other.len() > 0
        && names.contains(other) by {
        law_named_set_holds_the_names(names, other);
    }
    assert(named_set(names) != Set::<Seq<char>>::empty());
}

/// The half-life is the one that was set, from one day to a year, and two weeks
/// where none was.
pub proof fn law_halflife_is_bounded(days: u32, more: u32)
    ensures
        1 <= halflife_of(days) <= 365,
        1 <= days <= 365 ==> halflife_of(days) == days,
        halflife_of(0) == 14,
        0 < days <= more ==> halflife_of(days) <= halflife_of(more),
        days >= 365 ==> halflife_of(days) == 365,
{
}

/// A user that is added stands in the account with the level that was given, or
/// with none; one that is there gets a new level only where one was given. No
/// other row's level is touched.
pub proof fn law_added_user_has_the_given_level(
    rows: Seq<UserRowView>,
    user: Seq<char>,
    account: Seq<char>,
    admin_level: Option<Seq<char>>,
    is_default: Option<bool>,
    i: int,
)
    requires
        0 <= i < rows.len(),
    ensures
        ({
            let after = user_added(rows, user, account, admin_level, is_default);
            let its = rows[i].name == user && rows[i].account == account;
            &&& after[i].name == rows[i].name && after[i].account == rows[i].account
            &&& its && admin_level is Some ==> after[i].admin_level == admin_level->0
            &&& !its || admin_level is None ==> after[i].admin_level == rows[i].admin_level
            &&& after.len() == rows.len() || after.len() == rows.len() + 1
            &&& after.len() == rows.len() + 1 ==> {
                let new = after[rows.len() as int];
                &&& new.name == user
                &&& new.account == account
                &&& admin_level is Some ==> new.admin_level == admin_level->0
                &&& admin_level is None ==> new.admin_level == "none"@
                &&& is_default == Some(true) ==> new.default_account == Some(account)
                &&& is_default == Some(false) ==> new.default_account is None
            }
            &&& its && is_default == Some(false) ==> after[i].default_account is None
            &&& its ==> after.len() == rows.len()
        }),
{
}

/// A row goes with a user where it is the user's, in the account named, or in
/// any where none is.
pub proof fn law_removal_is_by_user_and_account(
    rows: Seq<UserRowView>,
    user: Seq<char>,
    account: Seq<char>,
    i: int,
)
    requires
        0 <= i < rows.len(),
    ensures
        users_left(rows, user, account).contains(rows[i]) <==> rows[i].name != user || (account.len()
            > 0 && rows[i].account != account),
{
    law_removal_takes_what_it_names(rows, user, account, rows[i]);
    assert(rows.contains(rows[i]));
}

/// So does an association.
pub proof fn law_associations_go_by_user_and_account(
    rows: Seq<AssociationRecordView>,
    user: Seq<char>,
    account: Seq<char>,
    i: int,
)
    requires
        0 <= i < rows.len(),
    ensures
        associations_left(rows, user, account).contains(rows[i]) <==> rows[i].user_name != user || (
        account.len() > 0 && rows[i].account != account),
{
    law_removal_takes_the_associations_it_names(rows, user, account, rows[i]);
    assert(rows.contains(rows[i]));
}

/// What is missing is what was named and does not exist.
pub proof fn law_missing_names_do_not_exist(
    names: Seq<Seq<char>>,
    existing: Seq<Seq<char>>,
    name: Seq<char>,
)
    ensures
        missing_of(names, existing).contains(name) <==> names.contains(name) && !existing.contains(
            name,
        ),
{
    lemma_filter_members(names, |name: Seq<char>| !existing.contains(name), name);
}

} // verus!
