//! The diff between the account tables as they stand and the accounts held
//! in memory: which rows to update, insert and delete so that the tables
//! match memory. Everything here is pure; applying the plan is the job of
//! the account store.
use vstd::prelude::*;

use crate::statement::{statement_view, statement_views, ParamView, SqlParam, SqlStatement};
use crate::text::{same_text, texts};

verus! {

/// A player account held in memory.
#[derive(Clone, Debug)]
pub struct AuthSqlBackendUser {
    pub name: String,
    pub password: String,
    pub last_login: i32,
    pub privileges: Vec<String>,
}

/// One row of the account table.
#[derive(Clone, Debug)]
pub struct AccountRow {
    pub id: i64,
    pub name: String,
    pub password: String,
    pub last_login: i32,
}

/// `(id, text)` rows with their text as characters.
pub open spec fn pair_texts(v: Seq<(i64, String)>) -> Seq<(i64, Seq<char>)> {
    v.map_values(|p: (i64, String)| (p.0, p.1@))
}

pub open spec fn has_text(v: Seq<String>, t: Seq<char>) -> bool {
    exists|i: int| 0 <= i < v.len() && v[i]@ == t
}

/// Some account in memory carries `name`.
pub open spec fn names_user(users: Seq<AuthSqlBackendUser>, name: Seq<char>) -> bool {
    exists|k: int| 0 <= k < users.len() && users[k].name@ == name
}

/// Some account in memory named `name` holds privilege `p`.
pub open spec fn grants(users: Seq<AuthSqlBackendUser>, name: Seq<char>, p: Seq<char>) -> bool {
    exists|k: int| 0 <= k < users.len() && users[k].name@ == name && has_text(users[k].privileges@, p)
}

/// The id that the `(id, name)` rows give `name` (the last row wins).
pub open spec fn id_of(ids: Seq<(i64, String)>, name: Seq<char>) -> Option<i64>
    decreases ids.len(),
{
    if ids.len() == 0 {
        None
    } else if ids.last().1@ == name {
        Some(ids.last().0)
    } else {
        id_of(ids.drop_last(), name)
    }
}

/// The name that the `(id, name)` rows give `id` (the last row wins).
pub open spec fn name_of(ids: Seq<(i64, String)>, id: i64) -> Option<Seq<char>>
    decreases ids.len(),
{
    if ids.len() == 0 {
        None
    } else if ids.last().0 == id {
        Some(ids.last().1@)
    } else {
        name_of(ids.drop_last(), id)
    }
}

/// `(id, index)` for every account in memory whose name already has an id.
pub open spec fn planned_updates(ids: Seq<(i64, String)>, users: Seq<AuthSqlBackendUser>) -> Seq<
    (i64, usize),
>
    decreases users.len(),
{
    if users.len() == 0 {
        Seq::empty()
    } else {
        let k = users.len() - 1;
        match id_of(ids, users[k].name@) {
            Some(id) => planned_updates(ids, users.drop_last()).push((id, k as usize)),
            None => planned_updates(ids, users.drop_last()),
        }
    }
}

/// The index of every account in memory whose name has no id yet, its first
/// occurrence only.
pub open spec fn planned_inserts(ids: Seq<(i64, String)>, users: Seq<AuthSqlBackendUser>) -> Seq<
    usize,
>
    decreases users.len(),
{
    if users.len() == 0 {
        Seq::empty()
    } else {
        let k = users.len() - 1;
        if id_of(ids, users[k].name@) is None && !names_user(users.drop_last(), users[k].name@) {
            planned_inserts(ids, users.drop_last()).push(k as usize)
        } else {
            planned_inserts(ids, users.drop_last())
        }
    }
}

/// A privilege row whose owner is still in memory but no longer holds it.
pub open spec fn is_stale(
    ids: Seq<(i64, String)>,
    users: Seq<AuthSqlBackendUser>,
    row: (i64, String),
) -> bool {
    match name_of(ids, row.0) {
        Some(n) => names_user(users, n) && !grants(users, n, row.1@),
        None => false,
    }
}

/// The stale privilege rows, in order.
pub open spec fn stale_rows(
    ids: Seq<(i64, String)>,
    privs: Seq<(i64, String)>,
    users: Seq<AuthSqlBackendUser>,
) -> Seq<(i64, Seq<char>)>
    decreases privs.len(),
{
    if privs.len() == 0 {
        Seq::empty()
    } else if is_stale(ids, users, privs.last()) {
        stale_rows(ids, privs.drop_last(), users).push((privs.last().0, privs.last().1@))
    } else {
        stale_rows(ids, privs.drop_last(), users)
    }
}

/// The privilege rows that stay, in order.
pub open spec fn kept_rows(
    ids: Seq<(i64, String)>,
    privs: Seq<(i64, String)>,
    users: Seq<AuthSqlBackendUser>,
) -> Seq<(i64, Seq<char>)>
    decreases privs.len(),
{
    if privs.len() == 0 {
        Seq::empty()
    } else if is_stale(ids, users, privs.last()) {
        kept_rows(ids, privs.drop_last(), users)
    } else {
        kept_rows(ids, privs.drop_last(), users).push((privs.last().0, privs.last().1@))
    }
}

/// Some row of the privilege table names `p`, whoever holds it.
pub open spec fn privilege_present(kept: Seq<(i64, Seq<char>)>, p: Seq<char>) -> bool {
    exists|j: int| 0 <= j < kept.len() && kept[j].1 == p
}

/// `(name, p)` for each privilege `p` of one account that no row names yet.
pub open spec fn user_grants(
    name: Seq<char>,
    privs: Seq<Seq<char>>,
    kept: Seq<(i64, Seq<char>)>,
) -> Seq<(Seq<char>, Seq<char>)>
    decreases privs.len(),
{
    if privs.len() == 0 {
        Seq::empty()
    } else if privilege_present(kept, privs.last()) {
        user_grants(name, privs.drop_last(), kept)
    } else {
        user_grants(name, privs.drop_last(), kept).push((name, privs.last()))
    }
}

/// The privilege rows to insert, account by account, each keyed by the name
/// of its account.
pub open spec fn planned_grants(kept: Seq<(i64, Seq<char>)>, users: Seq<AuthSqlBackendUser>) -> Seq<
    (Seq<char>, Seq<char>),
>
    decreases users.len(),
{
    if users.len() == 0 {
        Seq::empty()
    } else {
        planned_grants(kept, users.drop_last()) + user_grants(
            users.last().name@,
            texts(users.last().privileges@),
            kept,
        )
    }
}

/// The ids of the account rows whose name is no longer in memory.
pub open spec fn planned_removals(ids: Seq<(i64, String)>, users: Seq<AuthSqlBackendUser>) -> Seq<
    i64,
>
    decreases ids.len(),
{
    if ids.len() == 0 {
        Seq::empty()
    } else if names_user(users, ids.last().1@) {
        planned_removals(ids.drop_last(), users)
    } else {
        planned_removals(ids.drop_last(), users).push(ids.last().0)
    }
}

fn has_text_in(v: &Vec<String>, t: &str) -> (r: bool)
    ensures
        r == has_text(v@, t@),
{
    let mut i: usize = 0;
    while i < v.len()
        invariant
            i <= v@.len(),
            forall|j: int| 0 <= j < i ==> v@[j]@ != t@,
        decreases v@.len() - i,
    {
        if same_text(v[i].as_str(), t) {
            return true;
        }
        i = i + 1;
    }
    false
}

/// Whether one of the first `upto` accounts carries `name`.
fn user_named(users: &Vec<AuthSqlBackendUser>, upto: usize, name: &str) -> (r: bool)
    requires
        upto <= users@.len(),
    ensures
        r == names_user(users@.subrange(0, upto as int), name@),
{
    let ghost pre = users@.subrange(0, upto as int);
    let mut i: usize = 0;
    while i < upto
        invariant
            i <= upto <= users@.len(),
            pre == users@.subrange(0, upto as int),
            forall|j: int| 0 <= j < i ==> users@[j].name@ != name@,
        decreases upto - i,
    {
        if same_text(users[i].name.as_str(), name) {
            assert(pre[i as int] == users@[i as int]);
            return true;
        }
        i = i + 1;
    }
    assert forall|j: int| 0 <= j < pre.len() implies pre[j].name@ != name@ by {
        assert(pre[j] == users@[j]);
    }
    false
}

fn user_grants_privilege(users: &Vec<AuthSqlBackendUser>, name: &str, p: &str) -> (r: bool)
    ensures
        r == grants(users@, name@, p@),
{
    let mut i: usize = 0;
    while i < users.len()
        invariant
            i <= users@.len(),
            forall|j: int|
                0 <= j < i ==> !(users@[j].name@ == name@ && has_text(users@[j].privileges@, p@)),
        decreases users@.len() - i,
    {
        if same_text(users[i].name.as_str(), name) && has_text_in(&users[i].privileges, p) {
            return true;
        }
        i = i + 1;
    }
    false
}

/// The id that the `(id, name)` rows give `name`.
pub fn lookup_id(ids: &Vec<(i64, String)>, name: &str) -> (r: Option<i64>)
    ensures
        r == id_of(ids@, name@),
{
    let mut r: Option<i64> = None;
    let mut i: usize = 0;
    while i < ids.len()
        invariant
            i <= ids@.len(),
            r == id_of(ids@.subrange(0, i as int), name@),
        decreases ids@.len() - i,
    {
        assert(ids@.subrange(0, i + 1).drop_last() =~= ids@.subrange(0, i as int));
        if same_text(ids[i].1.as_str(), name) {
            r = Some(ids[i].0);
        }
        i = i + 1;
    }
    assert(ids@.subrange(0, i as int) =~= ids@);
    r
}

/// The position of the row that gives `id` its name.
fn lookup_name(ids: &Vec<(i64, String)>, id: i64) -> (r: Option<usize>)
    ensures
        r matches Some(j) ==> j < ids@.len() && name_of(ids@, id) == Some(ids@[j as int].1@),
        r is None ==> name_of(ids@, id) is None,
{
    let mut r: Option<usize> = None;
    let mut i: usize = 0;
    while i < ids.len()
        invariant
            i <= ids@.len(),
            r matches Some(j) ==> j < i && name_of(ids@.subrange(0, i as int), id) == Some(
                ids@[j as int].1@,
            ),
            r is None ==> name_of(ids@.subrange(0, i as int), id) is None,
        decreases ids@.len() - i,
    {
        assert(ids@.subrange(0, i + 1).drop_last() =~= ids@.subrange(0, i as int));
        if ids[i].0 == id {
            r = Some(i);
        }
        i = i + 1;
    }
    assert(ids@.subrange(0, i as int) =~= ids@);
    r
}

/// The updates of a save: `(id, index)` for each account in memory whose
/// name already has a row.
pub fn plan_updates(ids: &Vec<(i64, String)>, users: &Vec<AuthSqlBackendUser>) -> (r: Vec<
    (i64, usize),
>)
    ensures
        r@ == planned_updates(ids@, users@),
{
    let mut r: Vec<(i64, usize)> = Vec::new();
    let mut i: usize = 0;
    while i < users.len()
        invariant
            i <= users@.len(),
            r@ == planned_updates(ids@, users@.subrange(0, i as int)),
        decreases users@.len() - i,
    {
        assert(users@.subrange(0, i + 1).drop_last() =~= users@.subrange(0, i as int));
        if let Some(id) = lookup_id(ids, users[i].name.as_str()) {
            r.push((id, i));
        }
        i = i + 1;
    }
    assert(users@.subrange(0, i as int) =~= users@);
    r
}

/// The inserts of a save: the index of each account in memory whose name has
/// no row yet, first occurrences only.
pub fn plan_inserts(ids: &Vec<(i64, String)>, users: &Vec<AuthSqlBackendUser>) -> (r: Vec<usize>)
    ensures
        r@ == planned_inserts(ids@, users@),
{
    let mut r: Vec<usize> = Vec::new();
    let mut i: usize = 0;
    while i < users.len()
        invariant
            i <= users@.len(),
            r@ == planned_inserts(ids@, users@.subrange(0, i as int)),
        decreases users@.len() - i,
    {
        assert(users@.subrange(0, i + 1).drop_last() =~= users@.subrange(0, i as int));
        let name = users[i].name.as_str();
        if lookup_id(ids, name).is_none() && !user_named(users, i, name) {
            r.push(i);
        }
        i = i + 1;
    }
    assert(users@.subrange(0, i as int) =~= users@);
    r
}

/// Splits the privilege rows into those to delete and those that stay.
pub fn split_privileges(
    ids: &Vec<(i64, String)>,
    privs: &Vec<(i64, String)>,
    users: &Vec<AuthSqlBackendUser>,
) -> (r: (Vec<(i64, String)>, Vec<(i64, String)>))
    ensures
        pair_texts(r.0@) == stale_rows(ids@, privs@, users@),
        pair_texts(r.1@) == kept_rows(ids@, privs@, users@),
{
    let mut stale: Vec<(i64, String)> = Vec::new();
    let mut kept: Vec<(i64, String)> = Vec::new();
    let mut i: usize = 0;
    while i < privs.len()
        invariant
            i <= privs@.len(),
            pair_texts(stale@) == stale_rows(ids@, privs@.subrange(0, i as int), users@),
            pair_texts(kept@) == kept_rows(ids@, privs@.subrange(0, i as int), users@),
        decreases privs@.len() - i,
    {
        assert(privs@.subrange(0, i + 1).drop_last() =~= privs@.subrange(0, i as int));
        let row = &privs[i];
        let is_stale_row = match lookup_name(ids, row.0) {
            Some(j) => {
                let owner = ids[j].1.as_str();
                user_named(users, users.len(), owner) && !user_grants_privilege(
                    users,
                    owner,
                    row.1.as_str(),
                )
            },
            None => false,
        };
        assert(users@.subrange(0, users@.len() as int) =~= users@);
        let ghost s0 = stale@;
        let ghost k0 = kept@;
        if is_stale_row {
            stale.push((row.0, row.1.clone()));
            assert(pair_texts(stale@) =~= pair_texts(s0).push((row.0, row.1@)));
        } else {
            kept.push((row.0, row.1.clone()));
            assert(pair_texts(kept@) =~= pair_texts(k0).push((row.0, row.1@)));
        }
        i = i + 1;
    }
    assert(privs@.subrange(0, i as int) =~= privs@);
    (stale, kept)
}

fn privilege_named(kept: &Vec<(i64, String)>, p: &str) -> (r: bool)
    ensures
        r == privilege_present(pair_texts(kept@), p@),
{
    let mut i: usize = 0;
    while i < kept.len()
        invariant
            i <= kept@.len(),
            forall|j: int| 0 <= j < i ==> kept@[j].1@ != p@,
        decreases kept@.len() - i,
    {
        if same_text(kept[i].1.as_str(), p) {
            assert(pair_texts(kept@)[i as int].1 == p@);
            return true;
        }
        i = i + 1;
    }
    false
}

/// `(text, text)` rows with both parts as characters.
pub open spec fn text_pairs(v: Seq<(String, String)>) -> Seq<(Seq<char>, Seq<char>)> {
    v.map_values(|p: (String, String)| (p.0@, p.1@))
}

/// The privilege rows of a save: for each account in memory, each of its
/// privileges that no remaining row names yet.
pub fn plan_grants(kept: &Vec<(i64, String)>, users: &Vec<AuthSqlBackendUser>) -> (r: Vec<
    (String, String),
>)
    ensures
        text_pairs(r@) == planned_grants(pair_texts(kept@), users@),
{
    let ghost kv = pair_texts(kept@);
    let mut r: Vec<(String, String)> = Vec::new();
    let mut i: usize = 0;
    while i < users.len()
        invariant
            i <= users@.len(),
            kv == pair_texts(kept@),
            text_pairs(r@) == planned_grants(kv, users@.subrange(0, i as int)),
        decreases users@.len() - i,
    {
        assert(users@.subrange(0, i + 1).drop_last() =~= users@.subrange(0, i as int));
        let user = &users[i];
        let ghost base = text_pairs(r@);
        let ghost ps = texts(user.privileges@);
        let mut j: usize = 0;
        while j < user.privileges.len()
            invariant
                j <= user.privileges@.len(),
                ps == texts(user.privileges@),
                kv == pair_texts(kept@),
                text_pairs(r@) == base + user_grants(user.name@, ps.subrange(0, j as int), kv),
            decreases user.privileges@.len() - j,
        {
            assert(ps.subrange(0, j + 1).drop_last() =~= ps.subrange(0, j as int));
            let p = &user.privileges[j];
            if !privilege_named(kept, p.as_str()) {
                let ghost r0 = r@;
                r.push((user.name.clone(), p.clone()));
                assert(text_pairs(r@) =~= text_pairs(r0).push((user.name@, p@)));
            }
            j = j + 1;
        }
        assert(ps.subrange(0, j as int) =~= ps);
        i = i + 1;
    }
    assert(users@.subrange(0, i as int) =~= users@);
    r
}

/// The account rows of a save to delete: those whose name is no longer in
/// memory.
pub fn plan_removals(ids: &Vec<(i64, String)>, users: &Vec<AuthSqlBackendUser>) -> (r: Vec<i64>)
    ensures
        r@ == planned_removals(ids@, users@),
{
    let mut r: Vec<i64> = Vec::new();
    let mut i: usize = 0;
    assert(users@.subrange(0, users@.len() as int) =~= users@);
    while i < ids.len()
        invariant
            i <= ids@.len(),
            users@.subrange(0, users@.len() as int) == users@,
            r@ == planned_removals(ids@.subrange(0, i as int), users@),
        decreases ids@.len() - i,
    {
        assert(ids@.subrange(0, i + 1).drop_last() =~= ids@.subrange(0, i as int));
        if !user_named(users, users.len(), ids[i].1.as_str()) {
            r.push(ids[i].0);
        }
        i = i + 1;
    }
    assert(ids@.subrange(0, i as int) =~= ids@);
    r
}

/// The statements of one save, by kind, in the order in which they run:
/// account updates, account inserts, privilege deletions, privilege inserts,
/// account deletions.
pub struct SavePlan {
    /// `(id, index)`: rewrite the row `id` from the account at `index`.
    pub updates: Vec<(i64, usize)>,
    /// Insert a row for the account at each index.
    pub inserts: Vec<usize>,
    /// Delete each `(id, privilege)` row.
    pub revoked: Vec<(i64, String)>,
    /// Insert `(id of name, privilege)` for each `(name, privilege)`.
    pub grants: Vec<(String, String)>,
    /// Delete the account row of each id.
    pub removals: Vec<i64>,
}

proof fn lemma_update_indices(ids: Seq<(i64, String)>, users: Seq<AuthSqlBackendUser>)
    requires
        users.len() <= usize::MAX,
    ensures
        forall|i: int|
            0 <= i < planned_updates(ids, users).len() ==> planned_updates(ids, users)[i].1
                < users.len(),
    decreases users.len(),
{
    if users.len() > 0 {
        lemma_update_indices(ids, users.drop_last());
        let prev = planned_updates(ids, users.drop_last());
        assert forall|i: int| 0 <= i < planned_updates(ids, users).len() implies #[trigger] planned_updates(
            ids,
            users,
        )[i].1 < users.len() by {
            if i < prev.len() {
                assert(planned_updates(ids, users)[i] == prev[i]);
            }
        }
    }
}

proof fn lemma_insert_indices(ids: Seq<(i64, String)>, users: Seq<AuthSqlBackendUser>)
    requires
        users.len() <= usize::MAX,
    ensures
        forall|i: int|
            0 <= i < planned_inserts(ids, users).len() ==> planned_inserts(ids, users)[i]
                < users.len(),
    decreases users.len(),
{
    if users.len() > 0 {
        lemma_insert_indices(ids, users.drop_last());
        let prev = planned_inserts(ids, users.drop_last());
        assert forall|i: int| 0 <= i < planned_inserts(ids, users).len() implies #[trigger] planned_inserts(
            ids,
            users,
        )[i] < users.len() by {
            if i < prev.len() {
                assert(planned_inserts(ids, users)[i] == prev[i]);
            }
        }
    }
}

/// The plan of a save, from the `(id, name)` rows and the `(id, privilege)`
/// rows as they stand and the accounts in memory.
pub fn plan_save(
    ids: &Vec<(i64, String)>,
    privs: &Vec<(i64, String)>,
    users: &Vec<AuthSqlBackendUser>,
) -> (r: SavePlan)
    ensures
        r.updates@ == planned_updates(ids@, users@),
        r.inserts@ == planned_inserts(ids@, users@),
        pair_texts(r.revoked@) == stale_rows(ids@, privs@, users@),
        text_pairs(r.grants@) == planned_grants(kept_rows(ids@, privs@, users@), users@),
        r.removals@ == planned_removals(ids@, users@),
        forall|i: int| 0 <= i < r.updates@.len() ==> r.updates@[i].1 < users@.len(),
        forall|i: int| 0 <= i < r.inserts@.len() ==> r.inserts@[i] < users@.len(),
{
    let n = users.len();
    proof {
        lemma_update_indices(ids@, users@);
        lemma_insert_indices(ids@, users@);
    }
    let updates = plan_updates(ids, users);
    let inserts = plan_inserts(ids, users);
    let (revoked, kept) = split_privileges(ids, privs, users);
    let grants = plan_grants(&kept, users);
    let removals = plan_removals(ids, users);
    SavePlan { updates, inserts, revoked, grants, removals }
}

/// The privileges that the rows give account `id`, in row order.
pub open spec fn privileges_of(privs: Seq<(i64, String)>, id: i64) -> Seq<Seq<char>>
    decreases privs.len(),
{
    if privs.len() == 0 {
        Seq::empty()
    } else if privs.last().0 == id {
        privileges_of(privs.drop_last(), id).push(privs.last().1@)
    } else {
        privileges_of(privs.drop_last(), id)
    }
}

/// `users` is what a load of the account rows and the privilege rows gives:
/// one account per row, in order, each with the privileges of its id.
pub open spec fn loaded(
    accounts: Seq<AccountRow>,
    privs: Seq<(i64, String)>,
    users: Seq<AuthSqlBackendUser>,
) -> bool {
    &&& users.len() == accounts.len()
    &&& forall|k: int|
        0 <= k < users.len() ==> {
            &&& #[trigger] users[k].name@ == accounts[k].name@
            &&& users[k].password@ == accounts[k].password@
            &&& users[k].last_login == accounts[k].last_login
            &&& texts(users[k].privileges@) == privileges_of(privs, accounts[k].id)
        }
}

fn privileges_for(privs: &Vec<(i64, String)>, id: i64) -> (r: Vec<String>)
    ensures
        texts(r@) == privileges_of(privs@, id),
{
    let mut r: Vec<String> = Vec::new();
    let mut i: usize = 0;
    while i < privs.len()
        invariant
            i <= privs@.len(),
            texts(r@) == privileges_of(privs@.subrange(0, i as int), id),
        decreases privs@.len() - i,
    {
        assert(privs@.subrange(0, i + 1).drop_last() =~= privs@.subrange(0, i as int));
        if privs[i].0 == id {
            let ghost r0 = r@;
            r.push(privs[i].1.clone());
            assert(texts(r@) =~= texts(r0).push(privs@[i as int].1@));
        }
        i = i + 1;
    }
    assert(privs@.subrange(0, i as int) =~= privs@);
    r
}

/// The accounts that the account rows and privilege rows describe. A
/// privilege row whose id has no account row is left out.
pub fn load_users(accounts: &Vec<AccountRow>, privs: &Vec<(i64, String)>) -> (r: Vec<
    AuthSqlBackendUser,
>)
    ensures
        loaded(accounts@, privs@, r@),
{
    let mut r: Vec<AuthSqlBackendUser> = Vec::new();
    let mut i: usize = 0;
    while i < accounts.len()
        invariant
            i <= accounts@.len(),
            r@.len() == i,
            forall|k: int|
                0 <= k < i ==> {
                    &&& #[trigger] r@[k].name@ == accounts@[k].name@
                    &&& r@[k].password@ == accounts@[k].password@
                    &&& r@[k].last_login == accounts@[k].last_login
                    &&& texts(r@[k].privileges@) == privileges_of(privs@, accounts@[k].id)
                },
        decreases accounts@.len() - i,
    {
        let row = &accounts[i];
        let user = AuthSqlBackendUser {
            name: row.name.clone(),
            password: row.password.clone(),
            last_login: row.last_login,
            privileges: privileges_for(privs, row.id),
        };
        r.push(user);
        i = i + 1;
    }
    r
}

/// The `(id, name)` rows of the account rows.
pub open spec fn account_ids(accounts: Seq<AccountRow>) -> Seq<(i64, String)> {
    accounts.map_values(|a: AccountRow| (a.id, a.name))
}

/// Ids and names are unique among the account rows, as the table's keys
/// demand.
pub open spec fn well_keyed(accounts: Seq<AccountRow>) -> bool {
    forall|i: int, j: int|
        0 <= i < accounts.len() && 0 <= j < accounts.len() && i != j ==> accounts[i].id
            != accounts[j].id && accounts[i].name@ != accounts[j].name@
}

proof fn lemma_id_of_row(ids: Seq<(i64, String)>, k: int)
    requires
        0 <= k < ids.len(),
        forall|i: int, j: int|
            0 <= i < ids.len() && 0 <= j < ids.len() && i != j ==> ids[i].1@ != ids[j].1@,
    ensures
        id_of(ids, ids[k].1@) == Some(ids[k].0),
    decreases ids.len(),
{
    if k < ids.len() - 1 {
        assert(ids.drop_last()[k] == ids[k]);
        lemma_id_of_row(ids.drop_last(), k);
    }
}

proof fn lemma_name_of_row(ids: Seq<(i64, String)>, k: int)
    requires
        0 <= k < ids.len(),
        forall|i: int, j: int|
            0 <= i < ids.len() && 0 <= j < ids.len() && i != j ==> ids[i].0 != ids[j].0,
    ensures
        name_of(ids, ids[k].0) == Some(ids[k].1@),
    decreases ids.len(),
{
    if k < ids.len() - 1 {
        assert(ids.drop_last()[k] == ids[k]);
        lemma_name_of_row(ids.drop_last(), k);
    }
}

proof fn lemma_name_of_found(ids: Seq<(i64, String)>, id: i64)
    requires
        name_of(ids, id) is Some,
    ensures
        exists|k: int| 0 <= k < ids.len() && ids[k].0 == id,
    decreases ids.len(),
{
    if ids.last().0 != id {
        lemma_name_of_found(ids.drop_last(), id);
        let k = choose|k: int| 0 <= k < ids.drop_last().len() && ids.drop_last()[k].0 == id;
        assert(ids[k] == ids.drop_last()[k]);
    } else {
        assert(ids[ids.len() - 1].0 == id);
    }
}

proof fn lemma_row_privilege_listed(privs: Seq<(i64, String)>, t: int)
    requires
        0 <= t < privs.len(),
    ensures
        privileges_of(privs, privs[t].0).contains(privs[t].1@),
    decreases privs.len(),
{
    let id = privs[t].0;
    if t == privs.len() - 1 {
        assert(privileges_of(privs, id).last() == privs[t].1@);
    } else {
        assert(privs.drop_last()[t] == privs[t]);
        lemma_row_privilege_listed(privs.drop_last(), t);
        let i = choose|i: int|
            0 <= i < privileges_of(privs.drop_last(), id).len() && privileges_of(
                privs.drop_last(),
                id,
            )[i] == privs[t].1@;
        if privs.last().0 == id {
            assert(privileges_of(privs, id)[i] == privs[t].1@);
        }
    }
}

proof fn lemma_listed_privilege_has_row(privs: Seq<(i64, String)>, id: i64, i: int)
    requires
        0 <= i < privileges_of(privs, id).len(),
    ensures
        privilege_present(pair_texts(privs), privileges_of(privs, id)[i]),
    decreases privs.len(),
{
    let n = privs.len() - 1;
    if privs.last().0 == id && i == privileges_of(privs, id).len() - 1 {
        assert(pair_texts(privs)[n].1 == privs.last().1@);
    } else {
        lemma_listed_privilege_has_row(privs.drop_last(), id, i);
        let j = choose|j: int|
            0 <= j < pair_texts(privs.drop_last()).len() && pair_texts(privs.drop_last())[j].1
                == privileges_of(privs.drop_last(), id)[i];
        assert(pair_texts(privs)[j] == pair_texts(privs.drop_last())[j]);
    }
}

proof fn lemma_no_stale(ids: Seq<(i64, String)>, privs: Seq<(i64, String)>, users: Seq<AuthSqlBackendUser>)
    requires
        forall|t: int| 0 <= t < privs.len() ==> !is_stale(ids, users, #[trigger] privs[t]),
    ensures
        stale_rows(ids, privs, users).len() == 0,
        kept_rows(ids, privs, users) == pair_texts(privs),
    decreases privs.len(),
{
    if privs.len() > 0 {
        assert(!is_stale(ids, users, privs[privs.len() - 1]));
        assert forall|t: int| 0 <= t < privs.drop_last().len() implies !is_stale(
            ids,
            users,
            #[trigger] privs.drop_last()[t],
        ) by {
            assert(privs.drop_last()[t] == privs[t]);
        }
        lemma_no_stale(ids, privs.drop_last(), users);
        assert(pair_texts(privs) =~= pair_texts(privs.drop_last()).push(
            (privs.last().0, privs.last().1@),
        ));
    }
}

proof fn lemma_no_user_grants(name: Seq<char>, ps: Seq<Seq<char>>, kept: Seq<(i64, Seq<char>)>)
    requires
        forall|i: int| 0 <= i < ps.len() ==> privilege_present(kept, #[trigger] ps[i]),
    ensures
        user_grants(name, ps, kept).len() == 0,
    decreases ps.len(),
{
    if ps.len() > 0 {
        assert(privilege_present(kept, ps[ps.len() - 1]));
        assert forall|i: int| 0 <= i < ps.drop_last().len() implies privilege_present(
            kept,
            #[trigger] ps.drop_last()[i],
        ) by {
            assert(ps.drop_last()[i] == ps[i]);
        }
        lemma_no_user_grants(name, ps.drop_last(), kept);
    }
}

proof fn lemma_no_grants(kept: Seq<(i64, Seq<char>)>, users: Seq<AuthSqlBackendUser>)
    requires
        forall|k: int, i: int|
            0 <= k < users.len() && 0 <= i < users[k].privileges@.len() ==> privilege_present(
                kept,
                #[trigger] users[k].privileges@[i]@,
            ),
    ensures
        planned_grants(kept, users).len() == 0,
    decreases users.len(),
{
    if users.len() > 0 {
        let last = users.last();
        let ps = texts(last.privileges@);
        assert forall|i: int| 0 <= i < ps.len() implies privilege_present(kept, #[trigger] ps[i]) by {
            assert(users[users.len() - 1].privileges@[i]@ == ps[i]);
        }
        lemma_no_user_grants(last.name@, ps, kept);
        assert forall|k: int, i: int|
            0 <= k < users.drop_last().len() && 0 <= i < users.drop_last()[k].privileges@.len()
                implies privilege_present(kept, #[trigger] users.drop_last()[k].privileges@[i]@) by {
            assert(users.drop_last()[k] == users[k]);
        }
        lemma_no_grants(kept, users.drop_last());
    }
}

proof fn lemma_no_removals(ids: Seq<(i64, String)>, users: Seq<AuthSqlBackendUser>)
    requires
        forall|j: int| 0 <= j < ids.len() ==> names_user(users, #[trigger] ids[j].1@),
    ensures
        planned_removals(ids, users).len() == 0,
    decreases ids.len(),
{
    if ids.len() > 0 {
        assert(names_user(users, ids[ids.len() - 1].1@));
        assert forall|j: int| 0 <= j < ids.drop_last().len() implies names_user(
            users,
            #[trigger] ids.drop_last()[j].1@,
        ) by {
            assert(ids.drop_last()[j] == ids[j]);
        }
        lemma_no_removals(ids.drop_last(), users);
    }
}

proof fn lemma_all_updated(
    ids: Seq<(i64, String)>,
    users: Seq<AuthSqlBackendUser>,
    accounts: Seq<AccountRow>,
)
    requires
        users.len() <= accounts.len(),
        users.len() <= usize::MAX,
        forall|k: int| 0 <= k < users.len() ==> id_of(ids, #[trigger] users[k].name@) == Some(accounts[k].id),
    ensures
        planned_inserts(ids, users).len() == 0,
        planned_updates(ids, users).len() == users.len(),
        forall|k: int|
            0 <= k < users.len() ==> #[trigger] planned_updates(ids, users)[k] == (
                accounts[k].id,
                k as usize,
            ),
    decreases users.len(),
{
    if users.len() > 0 {
        let n = users.len() - 1;
        assert(id_of(ids, users[n].name@) == Some(accounts[n].id));
        assert forall|k: int| 0 <= k < users.drop_last().len() implies id_of(
            ids,
            #[trigger] users.drop_last()[k].name@,
        ) == Some(accounts[k].id) by {
            assert(users.drop_last()[k] == users[k]);
        }
        lemma_all_updated(ids, users.drop_last(), accounts);
    }
}

/// Saving right after a load changes nothing: when the accounts in memory
/// are what a load of the tables gives, the save inserts and deletes no row
/// of either table, and rewrites each account row with the name, password
/// and last login it already holds (the account at index `k` updates the
/// row of `accounts[k].id`).
pub proof fn lemma_save_after_load_is_quiet(
    accounts: Seq<AccountRow>,
    privs: Seq<(i64, String)>,
    users: Seq<AuthSqlBackendUser>,
)
    requires
        well_keyed(accounts),
        loaded(accounts, privs, users),
        users.len() <= usize::MAX,
    ensures
        planned_inserts(account_ids(accounts), users).len() == 0,
        stale_rows(account_ids(accounts), privs, users).len() == 0,
        planned_grants(kept_rows(account_ids(accounts), privs, users), users).len() == 0,
        planned_removals(account_ids(accounts), users).len() == 0,
        planned_updates(account_ids(accounts), users).len() == users.len(),
        forall|k: int|
            0 <= k < users.len() ==> planned_updates(account_ids(accounts), users)[k] == (
                accounts[k].id,
                k as usize,
            ),
{
    let ids = account_ids(accounts);
    assert forall|k: int| 0 <= k < users.len() implies id_of(ids, #[trigger] users[k].name@)
        == Some(accounts[k].id) by {
        assert(users[k].name@ == accounts[k].name@);
        lemma_id_of_row(ids, k);
    }
    lemma_all_updated(ids, users, accounts);
    assert forall|t: int| 0 <= t < privs.len() implies !is_stale(ids, users, #[trigger] privs[t]) by {
        let row = privs[t];
        if name_of(ids, row.0) is Some {
            lemma_name_of_found(ids, row.0);
            let k = choose|k: int| 0 <= k < ids.len() && ids[k].0 == row.0;
            lemma_name_of_row(ids, k);
            assert(users[k].name@ == accounts[k].name@);
            lemma_row_privilege_listed(privs, t);
            let i = choose|i: int|
                0 <= i < privileges_of(privs, row.0).len() && privileges_of(privs, row.0)[i]
                    == row.1@;
            assert(texts(users[k].privileges@)[i] == users[k].privileges@[i]@);
            assert(has_text(users[k].privileges@, row.1@));
            assert(grants(users, accounts[k].name@, row.1@));
        }
    }
    lemma_no_stale(ids, privs, users);
    assert forall|k: int, i: int|
        0 <= k < users.len() && 0 <= i < users[k].privileges@.len() implies privilege_present(
        pair_texts(privs),
        #[trigger] users[k].privileges@[i]@,
    ) by {
        assert(users[k].name@ == accounts[k].name@);
        assert(texts(users[k].privileges@)[i] == users[k].privileges@[i]@);
        lemma_listed_privilege_has_row(privs, accounts[k].id, i);
    }
    lemma_no_grants(pair_texts(privs), users);
    assert forall|j: int| 0 <= j < ids.len() implies names_user(users, #[trigger] ids[j].1@) by {
        assert(users[j].name@ == accounts[j].name@);
    }
    lemma_no_removals(ids, users);
}

/// Rewrites the row `id` from the account `u`.
pub open spec fn update_view(id: i64, u: AuthSqlBackendUser) -> (Seq<char>, Seq<ParamView>) {
    (
        "UPDATE auth SET name = ?, password = ?, last_login = ? WHERE id = ?"@,
        seq![
            ParamView::Text(u.name@),
            ParamView::Text(u.password@),
            ParamView::Int(u.last_login as i64),
            ParamView::Int(id),
        ],
    )
}

/// Inserts a row for the account `u`; the database gives it an id.
pub open spec fn insert_view(u: AuthSqlBackendUser) -> (Seq<char>, Seq<ParamView>) {
    (
        "INSERT INTO auth (name, password, last_login) VALUES (?, ?, ?)"@,
        seq![
            ParamView::Text(u.name@),
            ParamView::Text(u.password@),
            ParamView::Int(u.last_login as i64),
        ],
    )
}

/// Deletes the privilege row `(id, privilege)`.
pub open spec fn revoke_view(row: (i64, Seq<char>)) -> (Seq<char>, Seq<ParamView>) {
    (
        "DELETE FROM user_privileges WHERE id = ? AND privilege = ?"@,
        seq![ParamView::Int(row.0), ParamView::Text(row.1)],
    )
}

/// Inserts the privilege row of `(name, privilege)`, keyed by the id of the
/// account row named `name`.
pub open spec fn grant_view(g: (Seq<char>, Seq<char>)) -> (Seq<char>, Seq<ParamView>) {
    (
        "INSERT INTO user_privileges (id, privilege) SELECT id, ? FROM auth WHERE name = ?"@,
        seq![ParamView::Text(g.1), ParamView::Text(g.0)],
    )
}

/// Deletes the account row `id`.
pub open spec fn removal_view(id: i64) -> (Seq<char>, Seq<ParamView>) {
    ("DELETE FROM auth WHERE id = ?"@, seq![ParamView::Int(id)])
}

/// The statements of a plan, in the order in which a save runs them:
/// updates, inserts, privilege deletions, privilege inserts, account
/// deletions.
pub open spec fn plan_statement_views(plan: SavePlan, users: Seq<AuthSqlBackendUser>) -> Seq<
    (Seq<char>, Seq<ParamView>),
> {
    plan.updates@.map_values(|u: (i64, usize)| update_view(u.0, users[u.1 as int]))
        + plan.inserts@.map_values(|k: usize| insert_view(users[k as int]))
        + pair_texts(plan.revoked@).map_values(|r: (i64, Seq<char>)| revoke_view(r))
        + text_pairs(plan.grants@).map_values(|g: (Seq<char>, Seq<char>)| grant_view(g))
        + plan.removals@.map_values(|id: i64| removal_view(id))
}

fn text_param(s: &String) -> (r: SqlParam)
    ensures
        param_is_text(r, s@),
{
    SqlParam::Text(s.clone())
}

pub open spec fn param_is_text(p: SqlParam, t: Seq<char>) -> bool {
    p matches SqlParam::Text(s) && s@ == t
}

pub fn update_statement(id: i64, u: &AuthSqlBackendUser) -> (r: SqlStatement)
    ensures
        statement_view(r) == update_view(id, *u),
{
    let r = SqlStatement {
        sql: String::from_str("UPDATE auth SET name = ?, password = ?, last_login = ? WHERE id = ?"),
        params: vec![
            text_param(&u.name),
            text_param(&u.password),
            SqlParam::Int(u.last_login as i64),
            SqlParam::Int(id),
        ],
    };
    assert(statement_view(r).1 =~= update_view(id, *u).1);
    r
}

pub fn insert_statement(u: &AuthSqlBackendUser) -> (r: SqlStatement)
    ensures
        statement_view(r) == insert_view(*u),
{
    let r = SqlStatement {
        sql: String::from_str("INSERT INTO auth (name, password, last_login) VALUES (?, ?, ?)"),
        params: vec![
            text_param(&u.name),
            text_param(&u.password),
            SqlParam::Int(u.last_login as i64),
        ],
    };
    assert(statement_view(r).1 =~= insert_view(*u).1);
    r
}

pub fn revoke_statement(id: i64, privilege: &String) -> (r: SqlStatement)
    ensures
        statement_view(r) == revoke_view((id, privilege@)),
{
    let r = SqlStatement {
        sql: String::from_str("DELETE FROM user_privileges WHERE id = ? AND privilege = ?"),
        params: vec![SqlParam::Int(id), text_param(privilege)],
    };
    assert(statement_view(r).1 =~= revoke_view((id, privilege@)).1);
    r
}

pub fn grant_statement(name: &String, privilege: &String) -> (r: SqlStatement)
    ensures
        statement_view(r) == grant_view((name@, privilege@)),
{
    let r = SqlStatement {
        sql: String::from_str(
            "INSERT INTO user_privileges (id, privilege) SELECT id, ? FROM auth WHERE name = ?",
        ),
        params: vec![text_param(privilege), text_param(name)],
    };
    assert(statement_view(r).1 =~= grant_view((name@, privilege@)).1);
    r
}

pub fn removal_statement(id: i64) -> (r: SqlStatement)
    ensures
        statement_view(r) == removal_view(id),
{
    let r = SqlStatement {
        sql: String::from_str("DELETE FROM auth WHERE id = ?"),
        params: vec![SqlParam::Int(id)],
    };
    assert(statement_view(r).1 =~= removal_view(id).1);
    r
}

/// The statements of a save whose reads returned the `(id, name)` rows `ids`
/// and the privilege rows `privs`, over the accounts `users`.
pub open spec fn planned_statement_views(
    ids: Seq<(i64, String)>,
    privs: Seq<(i64, String)>,
    users: Seq<AuthSqlBackendUser>,
) -> Seq<(Seq<char>, Seq<ParamView>)> {
    planned_updates(ids, users).map_values(|u: (i64, usize)| update_view(u.0, users[u.1 as int]))
        + planned_inserts(ids, users).map_values(|k: usize| insert_view(users[k as int]))
        + stale_rows(ids, privs, users).map_values(|r: (i64, Seq<char>)| revoke_view(r))
        + planned_grants(kept_rows(ids, privs, users), users).map_values(
        |g: (Seq<char>, Seq<char>)| grant_view(g),
    ) + planned_removals(ids, users).map_values(|id: i64| removal_view(id))
}

fn update_statements(updates: &Vec<(i64, usize)>, users: &Vec<AuthSqlBackendUser>) -> (r: Vec<
    SqlStatement,
>)
    requires
        forall|i: int| 0 <= i < updates@.len() ==> updates@[i].1 < users@.len(),
    ensures
        statement_views(r@) == updates@.map_values(
            |u: (i64, usize)| update_view(u.0, users@[u.1 as int]),
        ),
{
    let mut r: Vec<SqlStatement> = Vec::new();
    let mut i: usize = 0;
    while i < updates.len()
        invariant
            i <= updates@.len(),
            forall|j: int| 0 <= j < updates@.len() ==> updates@[j].1 < users@.len(),
            r@.len() == i,
            forall|j: int|
                0 <= j < i ==> statement_view(#[trigger] r@[j]) == update_view(
                    updates@[j].0,
                    users@[updates@[j].1 as int],
                ),
        decreases updates@.len() - i,
    {
        let (id, k) = updates[i];
        r.push(update_statement(id, &users[k]));
        i = i + 1;
    }
    assert(statement_views(r@) =~= updates@.map_values(
        |u: (i64, usize)| update_view(u.0, users@[u.1 as int]),
    ));
    r
}

fn insert_statements(inserts: &Vec<usize>, users: &Vec<AuthSqlBackendUser>) -> (r: Vec<
    SqlStatement,
>)
    requires
        forall|i: int| 0 <= i < inserts@.len() ==> inserts@[i] < users@.len(),
    ensures
        statement_views(r@) == inserts@.map_values(|k: usize| insert_view(users@[k as int])),
{
    let mut r: Vec<SqlStatement> = Vec::new();
    let mut i: usize = 0;
    while i < inserts.len()
        invariant
            i <= inserts@.len(),
            forall|j: int| 0 <= j < inserts@.len() ==> inserts@[j] < users@.len(),
            r@.len() == i,
            forall|j: int|
                0 <= j < i ==> statement_view(#[trigger] r@[j]) == insert_view(
                    users@[inserts@[j] as int],
                ),
        decreases inserts@.len() - i,
    {
        r.push(insert_statement(&users[inserts[i]]));
        i = i + 1;
    }
    assert(statement_views(r@) =~= inserts@.map_values(|k: usize| insert_view(users@[k as int])));
    r
}

fn revoke_statements(revoked: &Vec<(i64, String)>) -> (r: Vec<SqlStatement>)
    ensures
        statement_views(r@) == pair_texts(revoked@).map_values(
            |row: (i64, Seq<char>)| revoke_view(row),
        ),
{
    let mut r: Vec<SqlStatement> = Vec::new();
    let mut i: usize = 0;
    while i < revoked.len()
        invariant
            i <= revoked@.len(),
            r@.len() == i,
            forall|j: int|
                0 <= j < i ==> statement_view(#[trigger] r@[j]) == revoke_view(
                    (revoked@[j].0, revoked@[j].1@),
                ),
        decreases revoked@.len() - i,
    {
        r.push(revoke_statement(revoked[i].0, &revoked[i].1));
        i = i + 1;
    }
    assert(statement_views(r@) =~= pair_texts(revoked@).map_values(
        |row: (i64, Seq<char>)| revoke_view(row),
    ));
    r
}

fn grant_statements(grants: &Vec<(String, String)>) -> (r: Vec<SqlStatement>)
    ensures
        statement_views(r@) == text_pairs(grants@).map_values(
            |g: (Seq<char>, Seq<char>)| grant_view(g),
        ),
{
    let mut r: Vec<SqlStatement> = Vec::new();
    let mut i: usize = 0;
    while i < grants.len()
        invariant
            i <= grants@.len(),
            r@.len() == i,
            forall|j: int|
                0 <= j < i ==> statement_view(#[trigger] r@[j]) == grant_view(
                    (grants@[j].0@, grants@[j].1@),
                ),
        decreases grants@.len() - i,
    {
        r.push(grant_statement(&grants[i].0, &grants[i].1));
        i = i + 1;
    }
    assert(statement_views(r@) =~= text_pairs(grants@).map_values(
        |g: (Seq<char>, Seq<char>)| grant_view(g),
    ));
    r
}

fn removal_statements(removals: &Vec<i64>) -> (r: Vec<SqlStatement>)
    ensures
        statement_views(r@) == removals@.map_values(|id: i64| removal_view(id)),
{
    let mut r: Vec<SqlStatement> = Vec::new();
    let mut i: usize = 0;
    while i < removals.len()
        invariant
            i <= removals@.len(),
            r@.len() == i,
            forall|j: int| 0 <= j < i ==> statement_view(#[trigger] r@[j]) == removal_view(removals@[j]),
        decreases removals@.len() - i,
    {
        r.push(removal_statement(removals[i]));
        i = i + 1;
    }
    assert(statement_views(r@) =~= removals@.map_values(|id: i64| removal_view(id)));
    r
}

/// The statements that carry out `plan` over the accounts `users`, in order.
pub fn plan_statements(plan: &SavePlan, users: &Vec<AuthSqlBackendUser>) -> (r: Vec<SqlStatement>)
    requires
        forall|i: int| 0 <= i < plan.updates@.len() ==> plan.updates@[i].1 < users@.len(),
        forall|i: int| 0 <= i < plan.inserts@.len() ==> plan.inserts@[i] < users@.len(),
    ensures
        statement_views(r@) == plan_statement_views(*plan, users@),
{
    let mut r = update_statements(&plan.updates, users);
    let mut inserts = insert_statements(&plan.inserts, users);
    let mut revokes = revoke_statements(&plan.revoked);
    let mut grants = grant_statements(&plan.grants);
    let mut removals = removal_statements(&plan.removals);
    let ghost (a, b, c, d, e) = (r@, inserts@, revokes@, grants@, removals@);
    r.append(&mut inserts);
    r.append(&mut revokes);
    r.append(&mut grants);
    r.append(&mut removals);
    assert(r@ =~= a + b + c + d + e);
    assert(statement_views(r@) =~= plan_statement_views(*plan, users@));
    r
}

/// The statements of the plan that `plan_save` makes from the same rows are
/// those of `planned_statement_views`.
pub proof fn lemma_plan_statement_views(
    plan: SavePlan,
    ids: Seq<(i64, String)>,
    privs: Seq<(i64, String)>,
    users: Seq<AuthSqlBackendUser>,
)
    requires
        plan.updates@ == planned_updates(ids, users),
        plan.inserts@ == planned_inserts(ids, users),
        pair_texts(plan.revoked@) == stale_rows(ids, privs, users),
        text_pairs(plan.grants@) == planned_grants(kept_rows(ids, privs, users), users),
        plan.removals@ == planned_removals(ids, users),
    ensures
        plan_statement_views(plan, users) == planned_statement_views(ids, privs, users),
{
    assert(plan_statement_views(plan, users) =~= planned_statement_views(ids, privs, users));
}

/// Saving right after a load hands the database one update per account row
/// and nothing else, each writing back the name, password and last login
/// that the row already holds.
pub proof fn lemma_save_after_load_statements(
    accounts: Seq<AccountRow>,
    privs: Seq<(i64, String)>,
    users: Seq<AuthSqlBackendUser>,
)
    requires
        well_keyed(accounts),
        loaded(accounts, privs, users),
        users.len() <= usize::MAX,
    ensures
        planned_statement_views(account_ids(accounts), privs, users) == accounts.map_values(
            |a: AccountRow|
                (
                    "UPDATE auth SET name = ?, password = ?, last_login = ? WHERE id = ?"@,
                    seq![
                        ParamView::Text(a.name@),
                        ParamView::Text(a.password@),
                        ParamView::Int(a.last_login as i64),
                        ParamView::Int(a.id),
                    ],
                ),
        ),
{
    lemma_save_after_load_is_quiet(accounts, privs, users);
    let ids = account_ids(accounts);
    let v = planned_statement_views(ids, privs, users);
    let ups = planned_updates(ids, users);
    let m = ups.map_values(|u: (i64, usize)| update_view(u.0, users[u.1 as int]));
    assert forall|k: int| 0 <= k < users.len() implies m[k] == update_view(
        accounts[k].id,
        users[k],
    ) by {
        assert(ups[k] == (accounts[k].id, k as usize));
    }
    assert forall|k: int| 0 <= k < users.len() implies update_view(accounts[k].id, users[k])
        =~= (
        "UPDATE auth SET name = ?, password = ?, last_login = ? WHERE id = ?"@,
        seq![
            ParamView::Text(accounts[k].name@),
            ParamView::Text(accounts[k].password@),
            ParamView::Int(accounts[k].last_login as i64),
            ParamView::Int(accounts[k].id),
        ],
    ) by {
        assert(users[k].name@ == accounts[k].name@);
    }
    assert(v =~= accounts.map_values(
        |a: AccountRow|
            (
                "UPDATE auth SET name = ?, password = ?, last_login = ? WHERE id = ?"@,
                seq![
                    ParamView::Text(a.name@),
                    ParamView::Text(a.password@),
                    ParamView::Int(a.last_login as i64),
                    ParamView::Int(a.id),
                ],
            ),
    ));
}

} // verus!
