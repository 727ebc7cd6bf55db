//! User accounts: the registered-user row with its opaque API-key
//! credential, and the outward user shapes.

use vstd::prelude::*;
use crate::model::{find_first, lemma_find_first_is, lemma_find_first_none};

verus! {

/// A registered user as the domain exposes it.
#[derive(Debug)]
pub struct User {
    pub id: i64,
    pub username: String,
    pub email: String,
}

/// Mathematical image of a [`User`].
pub struct UserModel {
    pub id: int,
    pub username: Seq<char>,
    pub email: Seq<char>,
}

impl View for User {
    type V = UserModel;

    open spec fn view(&self) -> UserModel {
        UserModel { id: self.id as int, username: self.username@, email: self.email@ }
    }
}

impl Clone for User {
    /// A field-for-field copy.
    fn clone(&self) -> (r: Self)
        ensures
            r@ == self@,
    {
        User { id: self.id, username: self.username.clone(), email: self.email.clone() }
    }
}

/// A stored user account: the user row together with its opaque API-key
/// credential.
#[derive(Debug)]
pub struct UserAccount {
    pub id: i32,
    pub username: String,
    pub email: String,
    pub api_key: String,
}

/// Mathematical image of a [`UserAccount`].
pub struct UserAccountModel {
    pub id: int,
    pub username: Seq<char>,
    pub email: Seq<char>,
    pub api_key: Seq<char>,
}

impl View for UserAccount {
    type V = UserAccountModel;

    open spec fn view(&self) -> UserAccountModel {
        UserAccountModel {
            id: self.id as int,
            username: self.username@,
            email: self.email@,
            api_key: self.api_key@,
        }
    }
}

impl Clone for UserAccount {
    /// A field-for-field copy.
    fn clone(&self) -> (r: Self)
        ensures
            r@ == self@,
    {
        UserAccount {
            id: self.id,
            username: self.username.clone(),
            email: self.email.clone(),
            api_key: self.api_key.clone(),
        }
    }
}

/// Whether the account carries this API key.
pub open spec fn api_key_matches(a: UserAccountModel, api_key: Seq<char>) -> bool {
    a.api_key == api_key
}

/// Index of the first account holding this API key, or `-1`.
pub open spec fn find_account_idx(accounts: Seq<UserAccountModel>, api_key: Seq<char>) -> int {
    find_first(accounts, |a: UserAccountModel| api_key_matches(a, api_key))
}

/// The first account with this API key is determined by its
/// characterization.
pub proof fn lemma_find_account_idx_is(accounts: Seq<UserAccountModel>, api_key: Seq<char>, i: int)
    requires
        0 <= i < accounts.len(),
        api_key_matches(accounts[i], api_key),
        forall|j: int| 0 <= j < i ==> !api_key_matches(#[trigger] accounts[j], api_key),
    ensures
        find_account_idx(accounts, api_key) == i,
{
    lemma_find_first_is(accounts, |a: UserAccountModel| api_key_matches(a, api_key), i);
}

/// No account carries this API key exactly when the finder answers `-1`.
pub proof fn lemma_find_account_idx_none(accounts: Seq<UserAccountModel>, api_key: Seq<char>)
    requires
        forall|i: int| 0 <= i < accounts.len() ==> !api_key_matches(#[trigger] accounts[i], api_key),
    ensures
        find_account_idx(accounts, api_key) == -1,
{
    lemma_find_first_none(accounts, |a: UserAccountModel| api_key_matches(a, api_key));
}

/// Whether the account carries this email address.
pub open spec fn email_matches(a: UserAccountModel, email: Seq<char>) -> bool {
    a.email == email
}

/// Well-formedness of the account table: email addresses and API keys
/// are each unique.
pub open spec fn accounts_wf(accounts: Seq<UserAccountModel>) -> bool {
    forall|i: int, j: int|
        #![trigger accounts[i], accounts[j]]
        0 <= i < j < accounts.len() ==> accounts[i].email != accounts[j].email
            && accounts[i].api_key != accounts[j].api_key
}

/// Whether a new account with this email and API key may enter the
/// table: neither credential is taken.
pub open spec fn account_fresh(
    accounts: Seq<UserAccountModel>,
    email: Seq<char>,
    api_key: Seq<char>,
) -> bool {
    forall|i: int|
        0 <= i < accounts.len() ==> (#[trigger] accounts[i]).email != email && accounts[i].api_key
            != api_key
}

/// Adding a fresh account keeps the table well-formed.
pub proof fn lemma_account_insert_wf(
    accounts: Seq<UserAccountModel>,
    a: UserAccountModel,
)
    requires
        accounts_wf(accounts),
        account_fresh(accounts, a.email, a.api_key),
    ensures
        accounts_wf(accounts.push(a)),
{
    let a2 = accounts.push(a);
    assert forall|i: int, j: int|
        #![trigger a2[i], a2[j]]
        0 <= i < j < a2.len() implies a2[i].email != a2[j].email && a2[i].api_key
        != a2[j].api_key by {
        assert(a2[i] == accounts[i]);
        if j == a2.len() - 1 {
            assert(a2[j] == a);
        } else {
            assert(a2[j] == accounts[j]);
        }
    }
}

/// Filtering the account table keeps it well-formed.
pub proof fn lemma_accounts_wf_filter(
    accounts: Seq<UserAccountModel>,
    p: spec_fn(UserAccountModel) -> bool,
)
    requires
        accounts_wf(accounts),
    ensures
        accounts_wf(accounts.filter(p)),
    decreases accounts.len(),
{
    reveal(Seq::filter);
    if accounts.len() > 0 {
        let d = accounts.drop_last();
        let last = accounts.last();
        assert(accounts_wf(d)) by {
            assert forall|i: int, j: int|
                #![trigger d[i], d[j]]
                0 <= i < j < d.len() implies d[i].email != d[j].email && d[i].api_key
                != d[j].api_key by {
                assert(d[i] == accounts[i] && d[j] == accounts[j]);
            }
        }
        lemma_accounts_wf_filter(d, p);
        if p(last) {
            let fd = d.filter(p);
            assert forall|i: int| 0 <= i < fd.len() implies (#[trigger] fd[i]).email != last.email
                && fd[i].api_key != last.api_key by {
                assert(fd.contains(fd[i]));
                d.lemma_filter_contains_rev(p, fd[i]);
                let k = choose|k: int| 0 <= k < d.len() && d[k] == fd[i];
                assert(accounts[k] == d[k]);
                assert(accounts[k].email != accounts[accounts.len() - 1].email);
            }
            lemma_account_insert_wf(fd, last);
            assert(accounts.filter(p) == fd.push(last));
        } else {
            assert(accounts.filter(p) == d.filter(p));
        }
    }
}

/// Outward shape of a registered user.
#[derive(Debug)]
pub struct UserDto {
    pub id: i64,
    pub username: String,
    pub email: String,
}

/// Mathematical image of a [`UserDto`].
pub struct UserDtoModel {
    pub id: int,
    pub username: Seq<char>,
    pub email: Seq<char>,
}

impl View for UserDto {
    type V = UserDtoModel;

    open spec fn view(&self) -> UserDtoModel {
        UserDtoModel { id: self.id as int, username: self.username@, email: self.email@ }
    }
}

impl Clone for UserDto {
    /// A field-for-field copy.
    fn clone(&self) -> (r: Self)
        ensures
            r@ == self@,
    {
        UserDto { id: self.id, username: self.username.clone(), email: self.email.clone() }
    }
}

/// Registration request: the name and email of the user to create.
#[derive(Debug)]
pub struct UserDtoCreate {
    pub username: String,
    pub email: String,
}

/// Mathematical image of a [`UserDtoCreate`].
pub struct UserDtoCreateModel {
    pub username: Seq<char>,
    pub email: Seq<char>,
}

impl View for UserDtoCreate {
    type V = UserDtoCreateModel;

    open spec fn view(&self) -> UserDtoCreateModel {
        UserDtoCreateModel { username: self.username@, email: self.email@ }
    }
}

impl Clone for UserDtoCreate {
    /// A field-for-field copy.
    fn clone(&self) -> (r: Self)
        ensures
            r@ == self@,
    {
        UserDtoCreate { username: self.username.clone(), email: self.email.clone() }
    }
}

/// Registration response: the created user and the credential minted for
/// it.
#[derive(Debug)]
pub struct UserDtoCreateResponse {
    pub user: UserDtoCreate,
    pub api_key: String,
}

/// Mathematical image of a [`UserDtoCreateResponse`].
pub struct UserDtoCreateResponseModel {
    pub user: UserDtoCreateModel,
    pub api_key: Seq<char>,
}

impl View for UserDtoCreateResponse {
    type V = UserDtoCreateResponseModel;

    open spec fn view(&self) -> UserDtoCreateResponseModel {
        UserDtoCreateResponseModel { user: self.user@, api_key: self.api_key@ }
    }
}

impl Clone for UserDtoCreateResponse {
    /// A field-for-field copy.
    fn clone(&self) -> (r: Self)
        ensures
            r@ == self@,
    {
        UserDtoCreateResponse { user: self.user.clone(), api_key: self.api_key.clone() }
    }
}

} // verus!
