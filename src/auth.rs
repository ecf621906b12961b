//! The interface of a player account and of a store of accounts, for
//! backends to implement.
use vstd::prelude::*;

use crate::text::{same_text, texts};

verus! {

/// A player account.
pub trait User: Sized {
    spec fn name_of(&self) -> Seq<char>;

    spec fn privileges_of(&self) -> Seq<Seq<char>>;

    fn name(&self) -> (r: String)
        ensures
            r@ == self.name_of(),
    ;

    fn password(&self) -> String;

    fn last_login(&self) -> i32;

    fn privileges(&self) -> (r: Vec<String>)
        ensures
            texts(r@) == self.privileges_of(),
    ;

    fn set_id(&mut self, id: String);

    fn set_name(&mut self, name: String)
        ensures
            final(self).name_of() == name@,
    ;

    fn set_password(&mut self, password: String);

    fn set_last_login(&mut self, last_login: i32);

    fn set_privileges(&mut self, privileges: Vec<String>)
        ensures
            final(self).privileges_of() == texts(privileges@),
    ;

    /// Whether `privilege` is among the account's privileges.
    fn has_privilege(&self, privilege: &str) -> (r: bool)
        ensures
            r == self.privileges_of().contains(privilege@),
    {
        let privileges = self.privileges();
        let ghost ps = texts(privileges@);
        let mut i: usize = 0;
        while i < privileges.len()
            invariant
                i <= privileges@.len(),
                ps == texts(privileges@),
                ps == self.privileges_of(),
                forall|j: int| 0 <= j < i ==> ps[j] != privilege@,
            decreases privileges@.len() - i,
        {
            if same_text(privileges[i].as_str(), privilege) {
                assert(ps[i as int] == privilege@);
                return true;
            }
            i = i + 1;
        }
        false
    }

    fn check_password(&self, password: &str) -> bool;
}

/// A store of accounts.
pub trait AuthBackend<U: User> {
    spec fn accounts(&self) -> Seq<U>;

    fn users(&self) -> (r: &Vec<U>)
        ensures
            r@ == self.accounts(),
    ;

    /// The first account named `id`.
    fn get_user(&self, id: String) -> (r: Option<&U>)
        ensures
            r matches Some(u) ==> exists|k: int|
                0 <= k < self.accounts().len() && self.accounts()[k] == *u && u.name_of() == id@
                    && forall|j: int| 0 <= j < k ==> self.accounts()[j].name_of() != id@,
            r is None ==> forall|k: int|
                0 <= k < self.accounts().len() ==> self.accounts()[k].name_of() != id@,
    {
        let users = self.users();
        let mut i: usize = 0;
        while i < users.len()
            invariant
                i <= users@.len(),
                users@ == self.accounts(),
                forall|j: int| 0 <= j < i ==> self.accounts()[j].name_of() != id@,
            decreases users@.len() - i,
        {
            let name = users[i].name();
            if same_text(name.as_str(), id.as_str()) {
                let u = &users[i];
                assert(0 <= i < self.accounts().len() && self.accounts()[i as int] == *u
                    && u.name_of() == id@);
                return Some(u);
            }
            i = i + 1;
        }
        None
    }
}

} // verus!
