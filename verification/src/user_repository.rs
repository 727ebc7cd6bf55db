//! The in-memory user repository: registration, listing and deletion of
//! user accounts.

use vstd::prelude::*;
use crate::errors::UrlError;
use crate::user::{
    account_fresh, accounts_wf, lemma_account_insert_wf, lemma_accounts_wf_filter, UserAccount,
    UserAccountModel, UserDto, UserDtoCreate, UserDtoCreateResponse,
};

verus! {

/// The in-memory user store.
pub struct UserRepository {
    pub users: Vec<UserAccount>,
}

impl View for UserRepository {
    type V = Seq<UserAccountModel>;

    open spec fn view(&self) -> Seq<UserAccountModel> {
        self.users@.map_values(|a: UserAccount| a@)
    }
}

impl UserRepository {
    /// Well-formedness: unique emails and unique API keys.
    pub open spec fn wf(&self) -> bool {
        accounts_wf(self@)
    }

    /// An empty user store.
    pub fn new() -> (r: Self)
        ensures
            r.wf(),
            r@.len() == 0,
    {
        UserRepository { users: Vec::new() }
    }

    /// Registers a user under the given credential; fails with
    /// `DuplicateKey` when the email or the API key is taken.
    pub fn create_user(&mut self, user_dto: UserDtoCreate, api_key: String) -> (r: Result<
        UserDtoCreateResponse,
        UrlError,
    >)
        requires
            old(self).wf(),
            old(self)@.len() < i32::MAX,
        ensures
            final(self).wf(),
            account_fresh(old(self)@, user_dto@.email, api_key@) ==> (r matches Ok(resp)
                && resp@.user == user_dto@ && resp@.api_key == api_key@ && final(self)@ == old(
                self,
            )@.push(
                UserAccountModel {
                    id: old(self)@.len() as int + 1,
                    username: user_dto@.username,
                    email: user_dto@.email,
                    api_key: api_key@,
                },
            )),
            !account_fresh(old(self)@, user_dto@.email, api_key@) ==> r == Err::<
                UserDtoCreateResponse,
                UrlError,
            >(UrlError::DuplicateKey) && final(self)@ == old(self)@,
    {
        let ghost acc = self@;
        let n: usize = self.users.len();
        let mut i: usize = 0;
        while i < n
            invariant
                old(self).wf(),
                *self == *old(self),
                i <= n,
                n == self.users@.len(),
                acc == self@,
                forall|j: int|
                    0 <= j < i ==> (#[trigger] acc[j]).email != user_dto@.email && acc[j].api_key
                        != api_key@,
            decreases n - i,
        {
            if self.users[i].email == user_dto.email || self.users[i].api_key == api_key {
                assert(acc[i as int].email == user_dto@.email || acc[i as int].api_key
                    == api_key@);
                assert(!account_fresh(acc, user_dto@.email, api_key@));
                return Err(UrlError::DuplicateKey);
            }
            i = i + 1;
        }
        let id: i32 = (n as i32) + 1;
        let ghost a = UserAccountModel {
            id: acc.len() as int + 1,
            username: user_dto@.username,
            email: user_dto@.email,
            api_key: api_key@,
        };
        proof {
            assert(account_fresh(acc, user_dto@.email, api_key@));
            lemma_account_insert_wf(acc, a);
        }
        self.users.push(
            UserAccount {
                id,
                username: user_dto.username.clone(),
                email: user_dto.email.clone(),
                api_key: api_key.clone(),
            },
        );
        proof {
            assert(self@ =~= acc.push(a));
        }
        Ok(UserDtoCreateResponse { user: user_dto, api_key })
    }

    /// All users, as outward DTOs in table order.
    pub fn get_users(&self) -> (r: Result<Vec<UserDto>, UrlError>)
        ensures
            r matches Ok(v) && v@.len() == self@.len() && (forall|i: int|
                0 <= i < self@.len() ==> (#[trigger] v@[i])@.id == self@[i].id && v@[i]@.username
                    == self@[i].username && v@[i]@.email == self@[i].email),
    {
        let n: usize = self.users.len();
        let mut out: Vec<UserDto> = Vec::new();
        let mut i: usize = 0;
        while i < n
            invariant
                i <= n,
                n == self.users@.len(),
                out@.len() == i,
                forall|j: int|
                    0 <= j < i ==> (#[trigger] out@[j])@.id == self@[j].id && out@[j]@.username
                        == self@[j].username && out@[j]@.email == self@[j].email,
            decreases n - i,
        {
            let id64: i64 = self.users[i].id as i64;
            out.push(
                UserDto {
                    id: id64,
                    username: self.users[i].username.clone(),
                    email: self.users[i].email.clone(),
                },
            );
            i = i + 1;
        }
        Ok(out)
    }

    /// Removes every account with this id; the others keep their order.
    pub fn delete_user(&mut self, id: i32) -> (r: Result<(), UrlError>)
        requires
            old(self).wf(),
        ensures
            final(self).wf(),
            r == Ok::<(), UrlError>(()),
            final(self)@ == old(self)@.filter(|a: UserAccountModel| a.id != id as int),
    {
        let ghost acc = self@;
        let ghost p = |a: UserAccountModel| a.id != id as int;
        let n: usize = self.users.len();
        let mut kept: Vec<UserAccount> = Vec::new();
        proof {
            reveal(Seq::filter);
            assert(acc.subrange(0, 0).filter(p) =~= Seq::<UserAccountModel>::empty());
            assert(kept@.map_values(|a: UserAccount| a@) =~= Seq::<UserAccountModel>::empty());
        }
        let mut i: usize = 0;
        while i < n
            invariant
                old(self).wf(),
                *self == *old(self),
                i <= n,
                n == self.users@.len(),
                acc == self@,
                p == (|a: UserAccountModel| a.id != id as int),
                kept@.map_values(|a: UserAccount| a@) == acc.subrange(0, i as int).filter(p),
            decreases n - i,
        {
            let ghost pre = acc.subrange(0, i as int);
            let ghost pre1 = acc.subrange(0, i as int + 1);
            let ghost km = kept@.map_values(|a: UserAccount| a@);
            if self.users[i].id != id {
                kept.push(self.users[i].clone());
            }
            proof {
                reveal(Seq::filter);
                assert(pre1.drop_last() =~= pre);
                assert(pre1.last() == acc[i as int]);
                if p(acc[i as int]) {
                    assert(pre1.filter(p) == pre.filter(p).push(acc[i as int]));
                    assert(kept@.map_values(|a: UserAccount| a@) =~= km.push(acc[i as int]));
                } else {
                    assert(pre1.filter(p) == pre.filter(p));
                }
            }
            i = i + 1;
        }
        proof {
            assert(acc.subrange(0, n as int) =~= acc);
            lemma_accounts_wf_filter(acc, p);
        }
        self.users = kept;
        Ok(())
    }
}

} // verus!
