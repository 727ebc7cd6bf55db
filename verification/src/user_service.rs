//! The user service: registration minting a fresh API-key credential,
//! listing, and deletion.

use vstd::prelude::*;
use crate::errors::UrlError;
use crate::keygen::create_api_key;
use crate::text::alphanumeric_seq;
use crate::user::{
    email_matches, UserAccountModel, UserDto, UserDtoCreate, UserDtoCreateResponse,
};
use crate::user_repository::UserRepository;

verus! {

/// The user service: owns the user store and mints credentials at
/// registration.
pub struct UserService {
    pub user_repository: UserRepository,
}

impl UserService {
    /// Wraps a repository.
    pub fn new(user_repository: UserRepository) -> (r: Self)
        ensures
            r.user_repository == user_repository,
    {
        UserService { user_repository }
    }

    /// Well-formedness of the underlying store.
    pub open spec fn wf(&self) -> bool {
        self.user_repository.wf()
    }

    /// Registration: draws a fresh 32-character alphanumeric API key
    /// and registers the user under it. A taken email always fails with
    /// `DuplicateKey`; a fresh email fails only when the drawn key
    /// collides with an existing credential.
    pub fn create_user(&mut self, user: UserDtoCreate) -> (r: Result<
        UserDtoCreateResponse,
        UrlError,
    >)
        requires
            old(self).wf(),
            old(self).user_repository@.len() < i32::MAX,
        ensures
            final(self).wf(),
            r matches Ok(resp) ==> resp@.user == user@ && resp@.api_key.len() == 32
                && alphanumeric_seq(resp@.api_key) && final(self).user_repository@ == old(
                self,
            ).user_repository@.push(
                UserAccountModel {
                    id: old(self).user_repository@.len() as int + 1,
                    username: user@.username,
                    email: user@.email,
                    api_key: resp@.api_key,
                },
            ),
            r matches Err(e) ==> e == UrlError::DuplicateKey && final(self).user_repository@
                == old(self).user_repository@,
            (exists|i: int|
                0 <= i < old(self).user_repository@.len() && email_matches(
                    #[trigger] old(self).user_repository@[i],
                    user@.email,
                )) ==> (r matches Err(e)),
    {
        let api_key = create_api_key();
        self.user_repository.create_user(user, api_key)
    }

    /// All users, as outward DTOs in table order.
    pub fn get_users(&self) -> (r: Result<Vec<UserDto>, UrlError>)
        ensures
            r matches Ok(v) && v@.len() == self.user_repository@.len() && (forall|i: int|
                0 <= i < self.user_repository@.len() ==> (#[trigger] v@[i])@.id
                    == self.user_repository@[i].id && v@[i]@.username
                    == self.user_repository@[i].username && v@[i]@.email
                    == self.user_repository@[i].email),
    {
        self.user_repository.get_users()
    }

    /// Removes every account with this id; the others keep their order.
    pub fn delete_user(&mut self, id: i32) -> (r: Result<(), UrlError>)
        requires
            old(self).wf(),
        ensures
            final(self).wf(),
            r == Ok::<(), UrlError>(()),
            final(self).user_repository@ == old(self).user_repository@.filter(
                |a: UserAccountModel| a.id != id as int,
            ),
    {
        self.user_repository.delete_user(id)
    }
}

} // verus!
