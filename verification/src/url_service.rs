//! The URL service: the allocation entry point that resolves the
//! caller's credential, and the redemption, inspection and deletion
//! paths over the repository.

use vstd::prelude::*;
use crate::dtos::{CustomError, URLBaseDto, URLInfoDto};
use crate::errors::UrlError;
use crate::mappers::{info_dto_model, map_url_to_dto};
use crate::model::{
    allocate_model, find_active_idx, find_secret_idx, lemma_find_key_idx_of_active,
    AllocOutcome,
};
use crate::schema::UrlModel;
use crate::url_repository::URLRepository;
use crate::user::find_account_idx;

verus! {

/// The URL service: owns the repository and drives the allocation and
/// redemption protocols over it.
pub struct URLService {
    pub url_repository: URLRepository,
}

impl URLService {
    /// Wraps a repository.
    pub fn new(url_repository: URLRepository) -> (r: Self)
        ensures
            r.url_repository == url_repository,
    {
        URLService { url_repository }
    }

    /// Well-formedness of the underlying repository.
    pub open spec fn wf(&self) -> bool {
        self.url_repository.wf()
    }

    /// The allocation entry point: resolves the caller's API key to its
    /// user and runs the allocation protocol for the requested target.
    /// An unknown credential fails with code 400; an exhausted pool
    /// with code 500.
    pub fn create_url(&mut self, url_base: URLBaseDto) -> (r: Result<URLInfoDto, CustomError>)
        requires
            old(self).wf(),
            old(self).url_repository@.store.used.len() < i32::MAX,
        ensures
            final(self).wf(),
            final(self).url_repository@.accounts == old(self).url_repository@.accounts,
            final(self).url_repository@.config == old(self).url_repository@.config,
            ({
                let accounts = old(self).url_repository@.accounts;
                let a = find_account_idx(accounts, url_base@.api_key);
                if a == -1 {
                    &&& r matches Err(e) && e@.code == 400 && e@.message == "No valid API_KEY"@
                    &&& final(self).url_repository@ == old(self).url_repository@
                } else {
                    let step = allocate_model(
                        old(self).url_repository@.store,
                        accounts[a].id,
                        url_base@.target_url,
                    );
                    &&& final(self).url_repository@.store == step.0
                    &&& match step.1 {
                        AllocOutcome::Existing(u) => r matches Ok(dto) && dto@ == info_dto_model(
                            u,
                            old(self).url_repository@.config,
                        ),
                        AllocOutcome::Fresh(u) => r matches Ok(dto) && dto@ == info_dto_model(
                            u,
                            old(self).url_repository@.config,
                        ),
                        AllocOutcome::Exhausted => r matches Err(e) && e@.code == 500 && e@.message
                            == "Error creating URL"@,
                    }
                }
            }),
    {
        let user_id = match self.url_repository.get_user_by_apy_key(url_base.api_key.clone()) {
            Ok(id) => id,
            Err(_) => {
                return Err(CustomError::new(400, "No valid API_KEY"));
            },
        };
        match self.url_repository.create_url(url_base.target_url, user_id) {
            Ok(dto) => Ok(dto),
            Err(_) => Err(CustomError::new(500, "Error creating URL")),
        }
    }

    /// Redemption: resolves an active public key to its target URL and
    /// counts the click. Unknown and inactive keys fail alike with
    /// `NotFound`, leaving everything unchanged.
    pub fn forward_to_target_url(&mut self, url_key: String) -> (r: Result<String, UrlError>)
        requires
            old(self).wf(),
            find_active_idx(old(self).url_repository@.store.urls, url_key@) != -1 ==> old(
                self,
            ).url_repository@.store.urls[find_active_idx(
                old(self).url_repository@.store.urls,
                url_key@,
            )].clicks < i32::MAX,
        ensures
            final(self).wf(),
            ({
                let urls = old(self).url_repository@.store.urls;
                let k = find_active_idx(urls, url_key@);
                if k == -1 {
                    &&& r == Err::<String, UrlError>(UrlError::NotFound)
                    &&& final(self).url_repository@ == old(self).url_repository@
                } else {
                    &&& r matches Ok(t) && t@ == urls[k].target_url
                    &&& final(self).url_repository@.store.urls == urls.update(
                        k,
                        UrlModel { clicks: urls[k].clicks + 1, ..urls[k] },
                    )
                    &&& final(self).url_repository@.store.generated == old(
                        self,
                    ).url_repository@.store.generated
                    &&& final(self).url_repository@.store.used == old(
                        self,
                    ).url_repository@.store.used
                    &&& final(self).url_repository@.accounts == old(self).url_repository@.accounts
                    &&& final(self).url_repository@.config == old(self).url_repository@.config
                }
            }),
    {
        let ghost urls = self.url_repository@.store.urls;
        let url = match self.url_repository.get_db_url_by_key(url_key.clone()) {
            Ok(u) => u,
            Err(e) => {
                return Err(e);
            },
        };
        proof {
            lemma_find_key_idx_of_active(urls, url_key@);
        }
        match self.url_repository.increment_clicks(url_key) {
            Ok(_) => Ok(url.target_url),
            Err(e) => Err(e),
        }
    }

    /// Admin inspection by secret key: the info DTO of the row, active
    /// or not; `NotFound` if no row carries the secret.
    pub fn get_url_info(&self, secret_key: String) -> (r: Result<URLInfoDto, UrlError>)
        ensures
            ({
                let urls = self.url_repository@.store.urls;
                let k = find_secret_idx(urls, secret_key@);
                if k == -1 {
                    r == Err::<URLInfoDto, UrlError>(UrlError::NotFound)
                } else {
                    r matches Ok(dto) && dto@ == info_dto_model(
                        urls[k],
                        self.url_repository@.config,
                    )
                }
            }),
    {
        match self.url_repository.get_db_url_by_secret_key(secret_key) {
            Ok(u) => Ok(map_url_to_dto(&u, self.url_repository.config.clone())),
            Err(e) => Err(e),
        }
    }

    /// Admin deletion by secret key: removes the row and answers its
    /// info DTO; `NotFound` if no row carries the secret.
    pub fn delete_url(&mut self, secret_key: String) -> (r: Result<URLInfoDto, UrlError>)
        requires
            old(self).wf(),
        ensures
            final(self).wf(),
            ({
                let urls = old(self).url_repository@.store.urls;
                let k = find_secret_idx(urls, secret_key@);
                if k == -1 {
                    &&& r == Err::<URLInfoDto, UrlError>(UrlError::NotFound)
                    &&& final(self).url_repository@ == old(self).url_repository@
                } else {
                    &&& r matches Ok(dto) && dto@ == info_dto_model(
                        urls[k],
                        old(self).url_repository@.config,
                    )
                    &&& final(self).url_repository@.store.urls == urls.remove(k)
                    &&& final(self).url_repository@.store.generated == old(
                        self,
                    ).url_repository@.store.generated
                    &&& final(self).url_repository@.store.used == old(
                        self,
                    ).url_repository@.store.used
                    &&& final(self).url_repository@.accounts == old(self).url_repository@.accounts
                    &&& final(self).url_repository@.config == old(self).url_repository@.config
                }
            }),
    {
        match self.url_repository.delete_by_secret_key(secret_key) {
            Ok(u) => Ok(map_url_to_dto(&u, self.url_repository.config.clone())),
            Err(e) => Err(e),
        }
    }
}

} // verus!
