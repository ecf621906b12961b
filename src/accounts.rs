//! The account store: player accounts in the tables
//! `auth (id, name, password, last_login)` and `user_privileges (id, privilege)`,
//! loaded into memory, edited there, and written back by a save that runs
//! the statements of `reconcile`'s plan in one transaction. The store keeps a
//! ghost journal of every exchange with the database, which its contracts
//! speak of.
use vstd::prelude::*;

use rusqlite::Connection;

use crate::map_store::database_error;
use crate::reconcile::{
    lemma_plan_statement_views, load_users, loaded, plan_save, plan_statements,
    planned_statement_views, AccountRow, AuthSqlBackendUser,
};
use crate::sql::{execute, open_in_memory, open_path, query_accounts, query_id_texts};
use crate::statement::{
    account_rows, added, extends, id_text_rows, lemma_extends_push, lemma_extends_trans, plain_statement, statement_view, statement_views,
    write_exchange, Exchange, ParamView, SqlStatement,
};
use crate::world::WorldError;

verus! {

pub open spec fn create_auth_view() -> (Seq<char>, Seq<ParamView>) {
    (
        "CREATE TABLE auth (id INTEGER PRIMARY KEY AUTOINCREMENT, name VARCHAR(32) UNIQUE, password VARCHAR(512), last_login INTEGER)"@,
        Seq::<ParamView>::empty(),
    )
}

pub open spec fn create_privileges_view() -> (Seq<char>, Seq<ParamView>) {
    (
        "CREATE TABLE user_privileges (id INTEGER, privilege VARCHAR(32), PRIMARY KEY (id, privilege), CONSTRAINT fk_id FOREIGN KEY (id) REFERENCES auth (id) ON DELETE CASCADE)"@,
        Seq::<ParamView>::empty(),
    )
}

pub open spec fn select_accounts_view() -> (Seq<char>, Seq<ParamView>) {
    ("SELECT id, name, password, last_login FROM auth"@, Seq::<ParamView>::empty())
}

pub open spec fn select_ids_view() -> (Seq<char>, Seq<ParamView>) {
    ("SELECT id, name FROM auth"@, Seq::<ParamView>::empty())
}

pub open spec fn select_privileges_view() -> (Seq<char>, Seq<ParamView>) {
    ("SELECT id, privilege FROM user_privileges"@, Seq::<ParamView>::empty())
}

pub open spec fn begin_view() -> (Seq<char>, Seq<ParamView>) {
    ("BEGIN"@, Seq::<ParamView>::empty())
}

pub open spec fn commit_view() -> (Seq<char>, Seq<ParamView>) {
    ("COMMIT"@, Seq::<ParamView>::empty())
}

pub open spec fn rollback_view() -> (Seq<char>, Seq<ParamView>) {
    ("ROLLBACK"@, Seq::<ParamView>::empty())
}

/// Statements that the database all accepted, in order.
pub open spec fn accepted_writes(v: Seq<(Seq<char>, Seq<ParamView>)>) -> Seq<Exchange> {
    v.map_values(|st: (Seq<char>, Seq<ParamView>)| write_exchange(st, true))
}

/// `a` is a load: the account rows, then the privilege rows, both read,
/// and `users` is what they give.
pub open spec fn load_exchanges(a: Seq<Exchange>, users: Seq<AuthSqlBackendUser>) -> bool {
    &&& a.len() == 2
    &&& a[0].statement == select_accounts_view() && a[0].accepted
    &&& a[1].statement == select_privileges_view() && a[1].accepted
    &&& exists|accounts: Seq<AccountRow>, privs: Seq<(i64, String)>|
        a[0].rows == account_rows(accounts) && a[1].rows == id_text_rows(privs) && loaded(
            accounts,
            privs,
            users,
        )
}

/// `a` is the body of a save of `users`: the `(id, name)` rows and the
/// privilege rows read, then every statement of the plan made from them,
/// each accepted.
pub open spec fn plan_exchanges(a: Seq<Exchange>, users: Seq<AuthSqlBackendUser>) -> bool {
    &&& a.len() >= 2
    &&& a[0].statement == select_ids_view() && a[0].accepted
    &&& a[1].statement == select_privileges_view() && a[1].accepted
    &&& exists|ids: Seq<(i64, String)>, privs: Seq<(i64, String)>|
        a[0].rows == id_text_rows(ids) && a[1].rows == id_text_rows(privs) && a.subrange(
            2,
            a.len() as int,
        ) == accepted_writes(planned_statement_views(ids, privs, users))
}

/// Some exchange of `a` was refused.
pub open spec fn some_refused(a: Seq<Exchange>) -> bool {
    exists|i: int| 0 <= i < a.len() && !a[i].accepted
}

/// Accounts held in memory over an SQLite database.
pub struct AuthSqlBackend {
    conn: Connection,
    pub users: Vec<AuthSqlBackendUser>,
    journal: Ghost<Seq<Exchange>>,
}

impl View for AuthSqlBackend {
    type V = Seq<AuthSqlBackendUser>;

    /// The accounts in memory.
    closed spec fn view(&self) -> Seq<AuthSqlBackendUser> {
        self.users@
    }
}

impl AuthSqlBackend {
    /// Every exchange with the database so far, in order.
    pub closed spec fn sent(&self) -> Seq<Exchange> {
        self.journal@
    }

    fn send(&mut self, st: SqlStatement) -> (r: Result<usize, rusqlite::Error>)
        ensures
            final(self).sent() == old(self).sent().push(write_exchange(statement_view(st), r is Ok)),
            final(self)@ == old(self)@,
    {
        let ghost v = statement_view(st);
        let r = execute(&self.conn, st);
        self.journal = Ghost(self.journal@.push(write_exchange(v, r is Ok)));
        r
    }

    fn fetch_pairs(&mut self, st: SqlStatement) -> (r: Result<Vec<(i64, String)>, rusqlite::Error>)
        ensures
            final(self).sent() == old(self).sent().push(
                Exchange {
                    statement: statement_view(st),
                    accepted: r is Ok,
                    rows: match r {
                        Ok(v) => id_text_rows(v@),
                        Err(_) => Seq::empty(),
                    },
                },
            ),
            final(self)@ == old(self)@,
    {
        let ghost v = statement_view(st);
        let r = query_id_texts(&self.conn, st);
        let ghost rows = if r is Ok {
            id_text_rows(r->Ok_0@)
        } else {
            Seq::empty()
        };
        self.journal = Ghost(
            self.journal@.push(Exchange { statement: v, accepted: r is Ok, rows }),
        );
        r
    }

    fn fetch_accounts(&mut self, st: SqlStatement) -> (r: Result<Vec<AccountRow>, rusqlite::Error>)
        ensures
            final(self).sent() == old(self).sent().push(
                Exchange {
                    statement: statement_view(st),
                    accepted: r is Ok,
                    rows: match r {
                        Ok(v) => account_rows(v@),
                        Err(_) => Seq::empty(),
                    },
                },
            ),
            final(self)@ == old(self)@,
    {
        let ghost v = statement_view(st);
        let r = query_accounts(&self.conn, st);
        let ghost rows = if r is Ok {
            account_rows(r->Ok_0@)
        } else {
            Seq::empty()
        };
        self.journal = Ghost(
            self.journal@.push(Exchange { statement: v, accepted: r is Ok, rows }),
        );
        r
    }

    /// A new database in memory with empty account tables, both created.
    pub fn open_memory() -> (r: Result<AuthSqlBackend, WorldError>)
        ensures
            r matches Ok(b) ==> b@.len() == 0 && b.sent() == seq![
                write_exchange(create_auth_view(), true),
                write_exchange(create_privileges_view(), true),
            ],
            r matches Err(e) ==> e is FileNotFound || e is DatabaseError,
    {
        let conn = match open_in_memory() {
            Ok(conn) => conn,
            Err(_) => {
                return Err(
                    WorldError::FileNotFound(
                        String::from_str("Failed to open SQLite3 database in memory"),
                    ),
                );
            },
        };
        let mut backend = AuthSqlBackend { conn, users: Vec::new(), journal: Ghost(Seq::empty()) };
        if backend.send(
            plain_statement(
                "CREATE TABLE auth (id INTEGER PRIMARY KEY AUTOINCREMENT, name VARCHAR(32) UNIQUE, password VARCHAR(512), last_login INTEGER)",
            ),
        ).is_err() {
            return Err(database_error("Failed to create auth table"));
        }
        if backend.send(
            plain_statement(
                "CREATE TABLE user_privileges (id INTEGER, privilege VARCHAR(32), PRIMARY KEY (id, privilege), CONSTRAINT fk_id FOREIGN KEY (id) REFERENCES auth (id) ON DELETE CASCADE)",
            ),
        ).is_err() {
            return Err(database_error("Failed to create user_privileges table"));
        }
        assert(backend.sent() =~= seq![
            write_exchange(create_auth_view(), true),
            write_exchange(create_privileges_view(), true),
        ]);
        Ok(backend)
    }

    /// Opens the database file at `file` and loads its accounts.
    pub fn open_file(file: &str) -> (r: Result<AuthSqlBackend, WorldError>)
        ensures
            r matches Ok(b) ==> load_exchanges(b.sent(), b@),
            r matches Err(e) ==> e is FileNotFound || e is DatabaseError,
    {
        let conn = match open_path(file) {
            Ok(conn) => conn,
            Err(_) => {
                return Err(
                    WorldError::FileNotFound(
                        String::from_str("Failed to open SQLite3 database file: ").concat(file),
                    ),
                );
            },
        };
        let mut backend = AuthSqlBackend { conn, users: Vec::new(), journal: Ghost(Seq::empty()) };
        match backend.reload() {
            Ok(()) => {
                assert(backend.sent() =~= added(Seq::empty(), backend.sent()));
                Ok(backend)
            },
            Err(e) => Err(e),
        }
    }

    /// The accounts in memory.
    pub fn users(&self) -> (r: &Vec<AuthSqlBackendUser>)
        ensures
            r@ == self@,
    {
        &self.users
    }

    /// Replaces the accounts in memory with what a read of the account rows
    /// and of the privilege rows gives; on failure they stay as they were.
    pub fn reload(&mut self) -> (r: Result<(), WorldError>)
        ensures
            extends(old(self).sent(), final(self).sent()),
            r is Ok ==> load_exchanges(added(old(self).sent(), final(self).sent()), final(self)@),
            r is Err ==> final(self)@ == old(self)@ && some_refused(
                added(old(self).sent(), final(self).sent()),
            ),
            r matches Err(e) ==> e is DatabaseError,
    {
        let ghost s0 = self.sent();
        let fetched = self.fetch_accounts(
            plain_statement("SELECT id, name, password, last_login FROM auth"),
        );
        let ghost s1 = self.sent();
        proof {
            lemma_extends_push(s0, s1.last());
            assert(s1 == s0.push(s1.last()));
        }
        let accounts = match fetched {
            Ok(rows) => rows,
            Err(_) => {
                assert(!added(s0, s1)[0].accepted);
                return Err(database_error("Failed to read accounts"));
            },
        };
        let fetched = self.fetch_pairs(plain_statement("SELECT id, privilege FROM user_privileges"));
        let ghost s2 = self.sent();
        proof {
            lemma_extends_push(s1, s2.last());
            assert(s2 == s1.push(s2.last()));
            lemma_extends_trans(s0, s1, s2);
        }
        let privs = match fetched {
            Ok(rows) => rows,
            Err(_) => {
                assert(!added(s0, s2)[1].accepted);
                return Err(database_error("Failed to read privileges"));
            },
        };
        let users = load_users(&accounts, &privs);
        self.users = users;
        proof {
            let a = added(s0, self.sent());
            assert(a[0].rows == account_rows(accounts@) && a[1].rows == id_text_rows(privs@)
                && loaded(accounts@, privs@, self@));
            assert(load_exchanges(a, self@));
        }
        Ok(())
    }

    /// Runs `statements` in order, stopping at the first that the database
    /// refuses.
    fn run_all(&mut self, statements: Vec<SqlStatement>) -> (r: Result<(), WorldError>)
        ensures
            final(self)@ == old(self)@,
            extends(old(self).sent(), final(self).sent()),
            r is Ok ==> added(old(self).sent(), final(self).sent()) == accepted_writes(
                statement_views(statements@),
            ),
            r is Err ==> some_refused(added(old(self).sent(), final(self).sent())),
            r matches Err(e) ==> e is DatabaseError,
    {
        let ghost start = self.sent();
        let ghost all = statements@;
        let mut rest = statements;
        let ghost mut k: int = 0;
        proof {
            assert(start.subrange(0, start.len() as int) =~= start);
            assert(added(start, start) =~= Seq::<Exchange>::empty());
            assert(accepted_writes(statement_views(all.subrange(0, 0))) =~= Seq::<Exchange>::empty());
        }
        while rest.len() > 0
            invariant
                self@ == old(self)@,
                start == old(self).sent(),
                0 <= k <= all.len(),
                rest@ == all.subrange(k as int, all.len() as int),
                extends(start, self.sent()),
                added(start, self.sent()) == accepted_writes(
                    statement_views(all.subrange(0, k as int)),
                ),
            decreases rest@.len(),
        {
            let st = rest.remove(0);
            let ghost before = self.sent();
            let outcome = self.send(st);
            proof {
                lemma_extends_push(before, self.sent().last());
                assert(self.sent() == before.push(self.sent().last()));
                lemma_extends_trans(start, before, self.sent());
            }
            if outcome.is_err() {
                proof {
                    let a = added(start, self.sent());
                    assert(!a[a.len() - 1].accepted);
                }
                return Err(database_error("Failed to run a statement of the save"));
            }
            proof {
                assert(all.subrange(0, k + 1) =~= all.subrange(0, k as int).push(all[k as int]));
                assert(statement_views(all.subrange(0, k + 1)) =~= statement_views(
                    all.subrange(0, k as int),
                ).push(statement_view(all[k as int])));
                assert(accepted_writes(statement_views(all.subrange(0, k + 1))) =~= accepted_writes(
                    statement_views(all.subrange(0, k as int)),
                ).push(write_exchange(statement_view(all[k as int]), true)));
                assert(added(start, self.sent()) =~= accepted_writes(
                    statement_views(all.subrange(0, k + 1)),
                ));
                k = k + 1;
            }
        }
        assert(all.subrange(0, k as int) =~= all);
        Ok(())
    }

    /// Makes the tables match the accounts in memory, in one transaction:
    /// after `BEGIN`, the `(id, name)` rows and the privilege rows are read,
    /// and the statements of the plan made from them are run, then
    /// `COMMIT`. When the database refuses any of these, the save sends
    /// `ROLLBACK` and fails. The accounts in memory are left as they are.
    pub fn save(&mut self) -> (r: Result<(), WorldError>)
        ensures
            final(self)@ == old(self)@,
            extends(old(self).sent(), final(self).sent()),
            r is Ok ==> ({
                let a = added(old(self).sent(), final(self).sent());
                &&& a.len() >= 4
                &&& a[0] == write_exchange(begin_view(), true)
                &&& plan_exchanges(a.subrange(1, a.len() - 1), old(self)@)
                &&& a.last() == write_exchange(commit_view(), true)
            }),
            r is Err ==> some_refused(added(old(self).sent(), final(self).sent())),
            r is Err && added(old(self).sent(), final(self).sent()).len() > 1 ==> added(
                old(self).sent(),
                final(self).sent(),
            ).last().statement == rollback_view(),
            r matches Err(e) ==> e is DatabaseError,
    {
        let ghost s0 = self.sent();
        let begun = self.send(plain_statement("BEGIN"));
        let ghost s1 = self.sent();
        proof {
            lemma_extends_push(s0, s1.last());
            assert(s1 == s0.push(s1.last()));
        }
        if begun.is_err() {
            assert(!added(s0, s1)[0].accepted);
            return Err(database_error("Failed to begin transaction"));
        }
        let outcome = self.save_in_transaction();
        let ghost s2 = self.sent();
        proof {
            lemma_extends_trans(s0, s1, s2);
        }
        match outcome {
            Ok(()) => {
                let committed = self.send(plain_statement("COMMIT"));
                let ghost s3 = self.sent();
                proof {
                    lemma_extends_push(s2, s3.last());
                    assert(s3 == s2.push(s3.last()));
                    lemma_extends_trans(s0, s2, s3);
                }
                if committed.is_err() {
                    let _ = self.send(plain_statement("ROLLBACK"));
                    proof {
                        lemma_extends_push(s3, self.sent().last());
                        assert(self.sent() == s3.push(self.sent().last()));
                        lemma_extends_trans(s0, s3, self.sent());
                        let a = added(s0, self.sent());
                        assert(!a[a.len() - 2].accepted);
                    }
                    return Err(database_error("Failed to commit transaction"));
                }
                proof {
                    let a = added(s0, s3);
                    assert(a.subrange(1, a.len() - 1) =~= added(s1, s2));
                }
                Ok(())
            },
            Err(e) => {
                let _ = self.send(plain_statement("ROLLBACK"));
                proof {
                    lemma_extends_push(s2, self.sent().last());
                    assert(self.sent() == s2.push(self.sent().last()));
                    lemma_extends_trans(s0, s2, self.sent());
                    let a = added(s0, self.sent());
                    let body = added(s1, s2);
                    let i = choose|i: int| 0 <= i < body.len() && !body[i].accepted;
                    assert(a[i + 1] == body[i]);
                }
                Err(e)
            },
        }
    }

    fn save_in_transaction(&mut self) -> (r: Result<(), WorldError>)
        ensures
            final(self)@ == old(self)@,
            extends(old(self).sent(), final(self).sent()),
            r is Ok ==> plan_exchanges(added(old(self).sent(), final(self).sent()), old(self)@),
            r is Err ==> some_refused(added(old(self).sent(), final(self).sent())),
            r matches Err(e) ==> e is DatabaseError,
    {
        let ghost s0 = self.sent();
        let fetched = self.fetch_pairs(plain_statement("SELECT id, name FROM auth"));
        let ghost s1 = self.sent();
        proof {
            lemma_extends_push(s0, s1.last());
            assert(s1 == s0.push(s1.last()));
        }
        let ids = match fetched {
            Ok(rows) => rows,
            Err(_) => {
                assert(!added(s0, s1)[0].accepted);
                return Err(database_error("Failed to read account ids"));
            },
        };
        let fetched = self.fetch_pairs(plain_statement("SELECT id, privilege FROM user_privileges"));
        let ghost s2 = self.sent();
        proof {
            lemma_extends_push(s1, s2.last());
            assert(s2 == s1.push(s2.last()));
            lemma_extends_trans(s0, s1, s2);
        }
        let privs = match fetched {
            Ok(rows) => rows,
            Err(_) => {
                assert(!added(s0, s2)[1].accepted);
                return Err(database_error("Failed to read privileges"));
            },
        };
        let plan = plan_save(&ids, &privs, &self.users);
        let statements = plan_statements(&plan, &self.users);
        proof {
            lemma_plan_statement_views(plan, ids@, privs@, self@);
        }
        let outcome = self.run_all(statements);
        proof {
            lemma_extends_trans(s0, s2, self.sent());
            let a = added(s0, self.sent());
            let b = added(s2, self.sent());
            assert(a =~= added(s0, s2) + b);
            assert(a.subrange(2, a.len() as int) =~= b);
            if outcome is Err {
                let i = choose|i: int| 0 <= i < b.len() && !b[i].accepted;
                assert(a[i + 2] == b[i]);
            } else {
                assert(a[0].rows == id_text_rows(ids@) && a[1].rows == id_text_rows(privs@)
                    && a.subrange(2, a.len() as int) == accepted_writes(
                    planned_statement_views(ids@, privs@, self@),
                ));
            }
        }
        outcome
    }
}

} // verus!
