//! Accounts in the plain-text format, one `name:password:privilege,...`
//! line per account.
use vstd::prelude::*;
use vstd::string::*;

use crate::text::{
    after, find_char, first_index, pieces, same_text, split_pieces, texts, trim, trim_range,
};

verus! {

/// An account: its name, its password, its last login and its privileges.
pub trait User: Sized {
    spec fn name_of(&self) -> Seq<char>;

    spec fn password_of(&self) -> Seq<char>;

    spec fn last_login_of(&self) -> i32;

    spec fn privileges_of(&self) -> Seq<Seq<char>>;

    fn name(&self) -> (r: String)
        ensures
            r@ == self.name_of(),
    ;

    fn password(&self) -> (r: String)
        ensures
            r@ == self.password_of(),
    ;

    fn last_login(&self) -> (r: i32)
        ensures
            r == self.last_login_of(),
    ;

    fn privileges(&self) -> (r: Vec<String>)
        ensures
            texts(r@) == self.privileges_of(),
    ;

    fn set_id(&mut self, id: String);

    fn set_name(&mut self, name: String)
        ensures
            final(self).name_of() == name@,
            final(self).password_of() == old(self).password_of(),
            final(self).last_login_of() == old(self).last_login_of(),
            final(self).privileges_of() == old(self).privileges_of(),
    ;

    fn set_password(&mut self, password: String)
        ensures
            final(self).password_of() == password@,
            final(self).name_of() == old(self).name_of(),
            final(self).last_login_of() == old(self).last_login_of(),
            final(self).privileges_of() == old(self).privileges_of(),
    ;

    fn set_last_login(&mut self, last_login: i32)
        ensures
            final(self).last_login_of() == last_login,
            final(self).name_of() == old(self).name_of(),
            final(self).password_of() == old(self).password_of(),
            final(self).privileges_of() == old(self).privileges_of(),
    ;

    fn set_privileges(&mut self, privileges: Vec<String>)
        ensures
            final(self).privileges_of() == texts(privileges@),
            final(self).name_of() == old(self).name_of(),
            final(self).password_of() == old(self).password_of(),
            final(self).last_login_of() == old(self).last_login_of(),
    ;
}

/// The position of the first account named `id` among `users`.
pub open spec fn first_named<U: User>(users: Seq<U>, id: Seq<char>, k: int) -> bool {
    &&& 0 <= k < users.len()
    &&& users[k].name_of() == id
    &&& forall|j: int| 0 <= j < k ==> users[j].name_of() != id
}

/// A store of accounts that hands them out by name.
pub trait Auth<U: User> {
    spec fn accounts(&self) -> Seq<U>;

    fn users(&self) -> (r: &Vec<U>)
        ensures
            r@ == self.accounts(),
    ;

    /// The first account named `id`.
    fn get_user(&self, id: String) -> (r: Option<&U>)
        ensures
            r matches Some(u) ==> exists|k: int|
                first_named(self.accounts(), id@, k) && self.accounts()[k] == *u,
            r is None ==> forall|k: int|
                0 <= k < self.accounts().len() ==> self.accounts()[k].name_of() != id@,
    ;

    /// Appends a new account named `id` and returns it.
    fn add_user(&mut self, id: String) -> (r: Option<&U>)
        ensures
            final(self).accounts().len() == old(self).accounts().len() + 1,
            forall|k: int|
                0 <= k < old(self).accounts().len() ==> final(self).accounts()[k] == old(
                    self,
                ).accounts()[k],
            final(self).accounts().last().name_of() == id@,
            r matches Some(u) && *u == final(self).accounts().last(),
    ;
}

/// A store of accounts with read access to all of them.
pub trait AuthBackend<U: User> {
    spec fn accounts(&self) -> Seq<U>;

    fn users(&self) -> (r: &Vec<U>)
        ensures
            r@ == self.accounts(),
    ;
}

/// An account of the text format.
pub struct AuthTxtBackendUser {
    pub name: String,
    pub password: String,
    pub privileges: Vec<String>,
    pub last_login: i32,
}

impl User for AuthTxtBackendUser {
    open spec fn name_of(&self) -> Seq<char> {
        self.name@
    }

    open spec fn password_of(&self) -> Seq<char> {
        self.password@
    }

    open spec fn last_login_of(&self) -> i32 {
        self.last_login
    }

    open spec fn privileges_of(&self) -> Seq<Seq<char>> {
        texts(self.privileges@)
    }

    fn name(&self) -> (r: String) {
        self.name.clone()
    }

    fn password(&self) -> (r: String) {
        self.password.clone()
    }

    fn last_login(&self) -> (r: i32) {
        self.last_login
    }

    fn privileges(&self) -> (r: Vec<String>) {
        let mut r: Vec<String> = Vec::new();
        let mut i: usize = 0;
        while i < self.privileges.len()
            invariant
                i <= self.privileges@.len(),
                texts(r@) == texts(self.privileges@.subrange(0, i as int)),
            decreases self.privileges@.len() - i,
        {
            let ghost r0 = r@;
            r.push(self.privileges[i].clone());
            assert(texts(r@) =~= texts(r0).push(self.privileges@[i as int]@));
            assert(texts(self.privileges@.subrange(0, i + 1)) =~= texts(
                self.privileges@.subrange(0, i as int),
            ).push(self.privileges@[i as int]@));
            i = i + 1;
        }
        assert(self.privileges@.subrange(0, i as int) =~= self.privileges@);
        r
    }

    /// The text format keeps no ids: nothing changes.
    fn set_id(&mut self, id: String) {
    }

    fn set_name(&mut self, name: String) {
        self.name = name;
    }

    fn set_password(&mut self, password: String) {
        self.password = password;
    }

    fn set_last_login(&mut self, last_login: i32) {
        self.last_login = last_login;
    }

    fn set_privileges(&mut self, privileges: Vec<String>) {
        self.privileges = privileges;
    }
}

/// The account of one trimmed, non-empty line: the name before the first
/// `:`, the password up to the next `:`, and the privileges after it, split
/// at each `,`; name, password and the privilege list are trimmed.
pub open spec fn parse_account(line: Seq<char>) -> (Seq<char>, Seq<char>, Seq<Seq<char>>) {
    let e = first_index(line, ':') as int;
    let rest = trim(after(line, e));
    let f = first_index(rest, ':') as int;
    (trim(line.subrange(0, e)), trim(rest.subrange(0, f)), pieces(trim(after(rest, f)), ','))
}

/// The accounts of a sequence of lines, blank lines skipped.
pub open spec fn line_accounts(lines: Seq<Seq<char>>) -> Seq<(Seq<char>, Seq<char>, Seq<Seq<char>>)>
    decreases lines.len(),
{
    if lines.len() == 0 {
        Seq::empty()
    } else if trim(lines[0]).len() == 0 {
        line_accounts(lines.drop_first())
    } else {
        seq![parse_account(trim(lines[0]))] + line_accounts(lines.drop_first())
    }
}

/// The accounts of a text, in the order of its lines.
pub open spec fn parse_accounts(s: Seq<char>) -> Seq<(Seq<char>, Seq<char>, Seq<Seq<char>>)> {
    line_accounts(pieces(s, '\n'))
}

/// Name, password and privileges of an account of the text format.
pub open spec fn account_view(u: AuthTxtBackendUser) -> (Seq<char>, Seq<char>, Seq<Seq<char>>) {
    (u.name@, u.password@, texts(u.privileges@))
}

pub open spec fn account_views(v: Seq<AuthTxtBackendUser>) -> Seq<(Seq<char>, Seq<char>, Seq<Seq<char>>)> {
    v.map_values(|u: AuthTxtBackendUser| account_view(u))
}

/// The account of the trimmed, non-empty line `s[a..b]`.
fn parse_account_line(s: &str, a: usize, b: usize) -> (r: AuthTxtBackendUser)
    requires
        a <= b <= s@.len(),
    ensures
        account_view(r) == parse_account(s@.subrange(a as int, b as int)),
        r.last_login == 0,
{
    let ghost line = s@.subrange(a as int, b as int);
    let e = find_char(s, a, b, ':');
    let (na, nb) = trim_range(s, a, e);
    assert(line.subrange(0, e - a) =~= s@.subrange(a as int, e as int));
    let (ra0, rb0) = if e < b {
        (e + 1, b)
    } else {
        (b, b)
    };
    assert(after(line, e - a) =~= s@.subrange(ra0 as int, rb0 as int));
    let (ra, rb) = trim_range(s, ra0, rb0);
    let ghost rest = s@.subrange(ra as int, rb as int);
    let f = find_char(s, ra, rb, ':');
    let (pa, pb) = trim_range(s, ra, f);
    assert(rest.subrange(0, f - ra) =~= s@.subrange(ra as int, f as int));
    let (la0, lb0) = if f < rb {
        (f + 1, rb)
    } else {
        (rb, rb)
    };
    assert(after(rest, f - ra) =~= s@.subrange(la0 as int, lb0 as int));
    let (la, lb) = trim_range(s, la0, lb0);
    AuthTxtBackendUser {
        name: String::from_str(s.substring_char(na, nb)),
        password: String::from_str(s.substring_char(pa, pb)),
        privileges: split_pieces(s, la, lb, ','),
        last_login: 0,
    }
}

/// Accounts read from the text format.
pub struct AuthTxtBackend {
    pub users: Vec<AuthTxtBackendUser>,
}

impl AuthTxtBackend {
    /// Parses one account per non-blank line; a last login is not part of
    /// the format and is 0.
    pub fn from(serialized: &str) -> (r: AuthTxtBackend)
        ensures
            account_views(r.users@) == parse_accounts(serialized@),
            forall|k: int| 0 <= k < r.users@.len() ==> r.users@[k].last_login == 0,
    {
        let n = serialized.unicode_len();
        let ghost s = serialized@;
        let mut users: Vec<AuthTxtBackendUser> = Vec::new();
        let mut pos: usize = 0;
        assert(s.subrange(0, n as int) =~= s);
        loop
            invariant_except_break
                pos <= n == s.len(),
                s == serialized@,
                account_views(users@) + line_accounts(pieces(s.subrange(pos as int, n as int), '\n'))
                    == parse_accounts(s),
                forall|k: int| 0 <= k < users@.len() ==> users@[k].last_login == 0,
            ensures
                account_views(users@) == parse_accounts(s),
                forall|k: int| 0 <= k < users@.len() ==> users@[k].last_login == 0,
            decreases n - pos,
        {
            let e = find_char(serialized, pos, n, '\n');
            let ghost rest = s.subrange(pos as int, n as int);
            let ghost line = s.subrange(pos as int, e as int);
            let ghost tail = if e < n {
                pieces(s.subrange(e + 1, n as int), '\n')
            } else {
                Seq::<Seq<char>>::empty()
            };
            proof {
                assert(rest.subrange(0, e - pos) =~= line);
                if e < n {
                    assert(rest.subrange(e - pos + 1, rest.len() as int) =~= s.subrange(
                        e + 1,
                        n as int,
                    ));
                } else {
                    assert(rest =~= line);
                }
                assert(pieces(rest, '\n') =~= seq![line] + tail);
                assert((seq![line] + tail).drop_first() =~= tail);
            }
            let (a, b) = trim_range(serialized, pos, e);
            let ghost before = users@;
            if a < b {
                let user = parse_account_line(serialized, a, b);
                users.push(user);
                assert(account_views(users@) =~= account_views(before) + seq![
                    parse_account(trim(line)),
                ]);
            }
            if e == n {
                assert(line_accounts(tail) =~= Seq::<(Seq<char>, Seq<char>, Seq<Seq<char>>)>::empty());
                assert(account_views(users@) =~= account_views(before) + line_accounts(
                    pieces(rest, '\n'),
                ));
                break;
            }
            assert(account_views(users@) + line_accounts(tail) =~= account_views(before)
                + line_accounts(pieces(rest, '\n')));
            pos = e + 1;
        }
        AuthTxtBackend { users }
    }
}

impl Auth<AuthTxtBackendUser> for AuthTxtBackend {
    open spec fn accounts(&self) -> Seq<AuthTxtBackendUser> {
        self.users@
    }

    fn users(&self) -> (r: &Vec<AuthTxtBackendUser>) {
        &self.users
    }

    fn get_user(&self, id: String) -> (r: Option<&AuthTxtBackendUser>) {
        let mut i: usize = 0;
        while i < self.users.len()
            invariant
                i <= self.users@.len(),
                forall|j: int| 0 <= j < i ==> self.users@[j].name@ != id@,
            decreases self.users@.len() - i,
        {
            if same_text(self.users[i].name.as_str(), id.as_str()) {
                let u = &self.users[i];
                assert(first_named(self.accounts(), id@, i as int) && self.accounts()[i as int]
                    == *u);
                return Some(u);
            }
            i = i + 1;
        }
        None
    }

    /// The new account has no password, no privileges and a last login of 0.
    fn add_user(&mut self, id: String) -> (r: Option<&AuthTxtBackendUser>) {
        let user = AuthTxtBackendUser {
            name: id,
            password: String::new(),
            privileges: Vec::new(),
            last_login: 0,
        };
        self.users.push(user);
        self.users.last()
    }
}

} // verus!
