//! The in-memory URL repository: the verified store behind the key
//! pool, the URL table, the audit trail, and the account lookup that
//! the allocation entry point needs.

use vstd::prelude::*;
use vstd::string::*;
use crate::config::{AppConfig, ConfigModel};
use crate::dtos::URLInfoDto;
use crate::errors::UrlError;
use crate::mappers::{info_dto_model, map_url_to_dto};
use crate::keygen::{generate_candidate_key, KEY_SEGMENT_LEN};
use crate::model::{
    allocate_model, candidate_fresh, find_active_idx, find_key_idx, find_secret_idx, find_url_idx,
    key_active_matches, key_matches, lemma_allocate_preserves_wf, lemma_candidate_insert_wf,
    lemma_find_active_idx_is, lemma_find_active_idx_none, lemma_find_key_idx_is,
    lemma_find_key_idx_none, lemma_find_secret_idx_is, lemma_find_secret_idx_none,
    lemma_find_url_idx_is, lemma_find_url_idx_none, lemma_insert_url_wf, lemma_remove_url_wf,
    lemma_update_clicks_wf, minted_row, secret_matches, store_wf, url_insertable, url_matches,
    AllocOutcome, StoreModel,
};
use crate::schema::{GeneratedKey, URL, UrlModel, UsedKey, UsedKeyModel};
use crate::text::{
    find_underscore, has_underscore, lemma_lex_lt_trans, lemma_lex_min_seq_unique,
    lemma_lex_total, lex_leq, lex_min_seq, pub_part, split_public_key, str_lt,
};
use crate::user::{
    account_fresh, accounts_wf, api_key_matches, find_account_idx, lemma_account_insert_wf,
    lemma_find_account_idx_is, lemma_find_account_idx_none, UserAccount, UserAccountModel,
};

verus! {

/// Builds the URL row that backs a fresh allocation: active, with no
/// clicks yet, keyed by the drawn candidate.
pub fn get_response_url(target_url: String, key: &str, secret_key: &String, user_id: i32) -> (r:
    URL)
    ensures
        r@.key == key@,
        r@.secret_key == secret_key@,
        r@.target_url == target_url@,
        r@.is_active,
        r@.clicks == 0,
        r@.user_id == user_id as int,
{
    URL {
        target_url: target_url.clone(),
        key: key.to_owned(),
        secret_key: secret_key.clone(),
        is_active: true,
        clicks: 0,
        user_id,
    }
}

/// The same row builder, kept under the name the storage adapter uses.
pub fn get_response_url_local(target_url: String, key: &str, secret_key: &String, user_id: i32) -> (
    r: URL)
    ensures
        r@.key == key@,
        r@.secret_key == secret_key@,
        r@.target_url == target_url@,
        r@.is_active,
        r@.clicks == 0,
        r@.user_id == user_id as int,
{
    URL {
        target_url: target_url.clone(),
        key: key.to_owned(),
        secret_key: secret_key.clone(),
        is_active: true,
        clicks: 0,
        user_id,
    }
}

/// The in-memory URL store: URL rows, the pool of unconsumed keys, the
/// audit trail of consumed keys, the account table consulted to resolve
/// API keys, and the configuration used to render outward DTOs.
pub struct URLRepository {
    pub urls: Vec<URL>,
    pub generated_keys: Vec<GeneratedKey>,
    pub used_keys: Vec<UsedKey>,
    pub users: Vec<UserAccount>,
    pub config: AppConfig,
}

/// Mathematical image of the repository: the store tables, the account
/// table, and the configuration.
pub struct RepoModel {
    pub store: StoreModel,
    pub accounts: Seq<UserAccountModel>,
    pub config: ConfigModel,
}

impl View for URLRepository {
    type V = RepoModel;

    open spec fn view(&self) -> RepoModel {
        RepoModel {
            store: StoreModel {
                urls: self.urls@.map_values(|u: URL| u@),
                generated: self.generated_keys@.map_values(|g: GeneratedKey| g@),
                used: self.used_keys@.map_values(|k: UsedKey| k@),
            },
            accounts: self.users@.map_values(|a: UserAccount| a@),
            config: self.config@,
        }
    }
}

impl URLRepository {
    /// Well-formedness: the no-reuse store invariant, and unique account
    /// credentials.
    pub open spec fn wf(&self) -> bool {
        store_wf(self@.store) && accounts_wf(self@.accounts)
    }

    /// An empty repository under the given configuration.
    pub fn new(config: AppConfig) -> (r: Self)
        ensures
            r.wf(),
            r@.store.urls.len() == 0,
            r@.store.generated.len() == 0,
            r@.store.used.len() == 0,
            r@.accounts.len() == 0,
            r@.config == config@,
    {
        URLRepository {
            urls: Vec::new(),
            generated_keys: Vec::new(),
            used_keys: Vec::new(),
            users: Vec::new(),
            config,
        }
    }

    /// Adds a candidate key to the pool if it is a two-segment key and
    /// neither its value nor its public part is in use anywhere;
    /// answers whether it entered.
    pub fn insert_generated_key(&mut self, key_value: String) -> (inserted: bool)
        requires
            old(self).wf(),
        ensures
            final(self).wf(),
            inserted == candidate_fresh(old(self)@.store, key_value@),
            inserted ==> final(self)@.store.generated == old(self)@.store.generated.push(
                key_value@,
            ) && final(self)@.store.urls == old(self)@.store.urls && final(self)@.store.used == old(
                self,
            )@.store.used,
            !inserted ==> final(self)@ == old(self)@,
            final(self)@.accounts == old(self)@.accounts,
            final(self)@.config == old(self)@.config,
    {
        let ghost m = self@.store;
        let n: usize = key_value.as_str().unicode_len();
        let ui = find_underscore(key_value.as_str());
        if ui >= n {
            assert(!has_underscore(key_value@));
            return false;
        }
        assert(has_underscore(key_value@));
        let pv = split_public_key(&key_value);

        let gn: usize = self.generated_keys.len();
        let mut i: usize = 0;
        while i < gn
            invariant
                old(self).wf(),
                *self == *old(self),
                i <= gn,
                gn == self.generated_keys@.len(),
                m == self@.store,
                forall|j: int|
                    0 <= j < i ==> #[trigger] m.generated[j] != key_value@ && pub_part(
                        m.generated[j],
                    ) != pub_part(key_value@),
                pv@ == pub_part(key_value@),
            decreases gn - i,
        {
            let gpv = split_public_key(&self.generated_keys[i].key_value);
            if self.generated_keys[i].key_value == key_value || gpv == pv {
                assert(m.generated[i as int] == key_value@ || pub_part(m.generated[i as int])
                    == pub_part(key_value@));
                assert(!candidate_fresh(m, key_value@));
                return false;
            }
            i = i + 1;
        }

        let un: usize = self.urls.len();
        let mut j: usize = 0;
        while j < un
            invariant
                old(self).wf(),
                *self == *old(self),
                j <= un,
                un == self.urls@.len(),
                m == self@.store,
                forall|k: int|
                    0 <= k < j ==> key_value@ != (#[trigger] m.urls[k]).secret_key && pub_part(
                        key_value@,
                    ) != m.urls[k].key,
                pv@ == pub_part(key_value@),
            decreases un - j,
        {
            if self.urls[j].secret_key == key_value || self.urls[j].key == pv {
                assert(key_value@ == m.urls[j as int].secret_key || pub_part(key_value@)
                    == m.urls[j as int].key);
                assert(!candidate_fresh(m, key_value@));
                return false;
            }
            j = j + 1;
        }

        let kn: usize = self.used_keys.len();
        let mut k: usize = 0;
        while k < kn
            invariant
                old(self).wf(),
                *self == *old(self),
                k <= kn,
                kn == self.used_keys@.len(),
                m == self@.store,
                forall|t: int|
                    0 <= t < k ==> pub_part(key_value@) != (#[trigger] m.used[t]).key_value,
                pv@ == pub_part(key_value@),
            decreases kn - k,
        {
            if self.used_keys[k].key_value == pv {
                assert(pub_part(key_value@) == m.used[k as int].key_value);
                assert(!candidate_fresh(m, key_value@));
                return false;
            }
            k = k + 1;
        }

        proof {
            assert(candidate_fresh(m, key_value@));
            lemma_candidate_insert_wf(m, key_value@);
        }
        let ghost kv = key_value@;
        self.generated_keys.push(GeneratedKey { key_value });
        proof {
            assert(self@.store.generated =~= m.generated.push(kv));
            assert(self@.store.urls =~= m.urls);
            assert(self@.store.used =~= m.used);
            assert(self@.store =~= StoreModel { generated: m.generated.push(kv), ..m });
        }
        true
    }

    /// Index of the lexicographically smallest pool value.
    fn min_key_index(&self) -> (bi: usize)
        requires
            self@.store.generated.len() > 0,
        ensures
            (bi as int) < self@.store.generated.len(),
            self@.store.generated[bi as int] == lex_min_seq(self@.store.generated),
    {
        let ghost g = self@.store.generated;
        let n: usize = self.generated_keys.len();
        let mut bi: usize = 0;
        let mut i: usize = 1;
        while i < n
            invariant
                bi < i <= n,
                n == self.generated_keys@.len(),
                g == self@.store.generated,
                forall|j: int| 0 <= j < i ==> lex_leq(g[bi as int], #[trigger] g[j]),
            decreases n - i,
        {
            if str_lt(&self.generated_keys[i].key_value, &self.generated_keys[bi].key_value) {
                proof {
                    assert forall|j: int| 0 <= j <= i implies lex_leq(g[i as int], #[trigger] g[j])
                        by {
                        if j < i {
                            if g[bi as int] == g[j] {
                            } else {
                                lemma_lex_lt_trans(g[i as int], g[bi as int], g[j]);
                            }
                        }
                    }
                }
                bi = i;
            } else {
                proof {
                    lemma_lex_total(g[bi as int], g[i as int]);
                }
            }
            i = i + 1;
        }
        proof {
            assert(g.contains(g[bi as int])) by {
                assert(0 <= (bi as int) < g.len() && g[bi as int] == g[bi as int]);
            }
            lemma_lex_min_seq_unique(g, g[bi as int]);
        }
        bi
    }

    /// The lexicographically smallest unconsumed key, without removing
    /// it; fails with `PoolExhausted` when the pool is empty.
    pub fn get_generated_key(&self) -> (r: Result<String, UrlError>)
        ensures
            self@.store.generated.len() == 0 ==> r == Err::<String, UrlError>(
                UrlError::PoolExhausted,
            ),
            self@.store.generated.len() > 0 ==> (r matches Ok(v) && v@ == lex_min_seq(
                self@.store.generated,
            )),
    {
        if self.generated_keys.len() == 0 {
            return Err(UrlError::PoolExhausted);
        }
        let bi = self.min_key_index();
        Ok(self.generated_keys[bi].key_value.clone())
    }

    /// The allocation protocol. An existing row of this user for this
    /// target is returned unchanged. Otherwise the lexicographically
    /// smallest pool key is consumed: a row is minted from it and
    /// inserted, the consumption is recorded in the audit trail, and the
    /// key leaves the pool — all in this one call. When a key is needed
    /// and the pool is empty, the request fails with `PoolExhausted` and
    /// nothing changes.
    pub fn create_url(&mut self, target_url: String, user_id: i32) -> (r: Result<
        URLInfoDto,
        UrlError,
    >)
        requires
            old(self).wf(),
            old(self)@.store.used.len() < i32::MAX,
        ensures
            final(self).wf(),
            final(self)@.store == allocate_model(
                old(self)@.store,
                user_id as int,
                target_url@,
            ).0,
            final(self)@.accounts == old(self)@.accounts,
            final(self)@.config == old(self)@.config,
            match allocate_model(old(self)@.store, user_id as int, target_url@).1 {
                AllocOutcome::Existing(u) => r matches Ok(dto) && dto@ == info_dto_model(
                    u,
                    old(self)@.config,
                ),
                AllocOutcome::Fresh(u) => r matches Ok(dto) && dto@ == info_dto_model(
                    u,
                    old(self)@.config,
                ),
                AllocOutcome::Exhausted => r == Err::<URLInfoDto, UrlError>(
                    UrlError::PoolExhausted,
                ),
            },
    {
        let ghost m = self@.store;
        let ghost uid = user_id as int;
        let ghost t = target_url@;

        // idempotence: the user's existing row for this target wins
        let n: usize = self.urls.len();
        let mut i: usize = 0;
        while i < n
            invariant
                old(self).wf(),
                *self == *old(self),
                i <= n,
                n == self.urls@.len(),
                m == self@.store,
                uid == user_id as int,
                t == target_url@,
                forall|j: int| 0 <= j < i ==> !url_matches(#[trigger] m.urls[j], uid, t),
            decreases n - i,
        {
            if self.urls[i].user_id == user_id && self.urls[i].target_url == target_url {
                proof {
                    assert(url_matches(m.urls[i as int], uid, t));
                    lemma_find_url_idx_is(m.urls, uid, t, i as int);
                }
                let dto = map_url_to_dto(&self.urls[i], self.config.clone());
                return Ok(dto);
            }
            i = i + 1;
        }
        proof {
            lemma_find_url_idx_none(m.urls, uid, t);
        }

        // draw the smallest pool key
        if self.generated_keys.len() == 0 {
            return Err(UrlError::PoolExhausted);
        }
        let bi = self.min_key_index();
        let secret_key = self.generated_keys[bi].key_value.clone();
        let ghost secret = secret_key@;

        // the left segment becomes the public key
        let key = split_public_key(&secret_key);

        // mint and insert the row, record the consumed key, and remove
        // it from the pool
        let db_url = get_response_url_local(target_url, key.as_str(), &secret_key, user_id);
        let dto = map_url_to_dto(&db_url, self.config.clone());
        let ghost row = db_url@;
        proof {
            assert(row == minted_row(secret, uid, t));
        }
        self.urls.push(db_url);
        let next_id: usize = self.used_keys.len();
        let used = UsedKey { id: (next_id as i32) + 1, key_value: key, user_id };
        self.used_keys.push(used);
        self.generated_keys.remove(bi);
        proof {
            let g = m.generated;
            assert(g.contains(secret)) by {
                assert(0 <= (bi as int) < g.len() && g[bi as int] == secret);
            }
            g.index_of_first_ensures(secret);
            let fi = g.index_of_first(secret).unwrap();
            if fi != bi as int {
                assert(g[fi] == g[bi as int]);
                assert(false);
            }
            assert(g.remove_value(secret) == g.remove(bi as int));

            let m2 = allocate_model(m, uid, t).0;
            assert(self@.store.urls =~= m.urls.push(row));
            assert(self@.store.generated =~= g.remove(bi as int));
            assert(self@.store.used =~= m.used.push(
                UsedKeyModel { id: m.used.len() as int + 1, key_value: pub_part(secret), user_id: uid },
            ));
            assert(self@.store =~= m2);
            lemma_allocate_preserves_wf(m, uid, t);
            assert(self@.accounts =~= old(self)@.accounts);
        }
        Ok(dto)
    }

    /// The active row holding this public key. An unknown key and a
    /// deactivated key fail alike, with `NotFound`.
    pub fn get_db_url_by_key(&self, url_key: String) -> (r: Result<URL, UrlError>)
        ensures
            find_active_idx(self@.store.urls, url_key@) == -1 ==> r == Err::<URL, UrlError>(
                UrlError::NotFound,
            ),
            find_active_idx(self@.store.urls, url_key@) != -1 ==> (r matches Ok(u) && u@
                == self@.store.urls[find_active_idx(self@.store.urls, url_key@)]),
    {
        let n: usize = self.urls.len();
        let mut i: usize = 0;
        while i < n
            invariant
                i <= n,
                n == self.urls@.len(),
                forall|j: int|
                    0 <= j < i ==> !key_active_matches(#[trigger] self@.store.urls[j], url_key@),
            decreases n - i,
        {
            if self.urls[i].is_active && self.urls[i].key == url_key {
                proof {
                    lemma_find_active_idx_is(self@.store.urls, url_key@, i as int);
                }
                return Ok(self.urls[i].clone());
            }
            i = i + 1;
        }
        proof {
            lemma_find_active_idx_none(self@.store.urls, url_key@);
        }
        Err(UrlError::NotFound)
    }

    /// The first row of this user for this target, used to keep
    /// allocation idempotent; `NotFound` if the user has none.
    pub fn get_db_url_by_user_and_target_url(&self, user_id: i32, target_url: String) -> (r: Result<
        URL,
        UrlError,
    >)
        ensures
            find_url_idx(self@.store.urls, user_id as int, target_url@) == -1 ==> r == Err::<
                URL,
                UrlError,
            >(UrlError::NotFound),
            find_url_idx(self@.store.urls, user_id as int, target_url@) != -1 ==> (r matches Ok(u)
                && u@ == self@.store.urls[find_url_idx(
                self@.store.urls,
                user_id as int,
                target_url@,
            )]),
    {
        let n: usize = self.urls.len();
        let mut i: usize = 0;
        while i < n
            invariant
                i <= n,
                n == self.urls@.len(),
                forall|j: int|
                    0 <= j < i ==> !url_matches(
                        #[trigger] self@.store.urls[j],
                        user_id as int,
                        target_url@,
                    ),
            decreases n - i,
        {
            if self.urls[i].user_id == user_id && self.urls[i].target_url == target_url {
                proof {
                    lemma_find_url_idx_is(self@.store.urls, user_id as int, target_url@, i as int);
                }
                return Ok(self.urls[i].clone());
            }
            i = i + 1;
        }
        proof {
            lemma_find_url_idx_none(self@.store.urls, user_id as int, target_url@);
        }
        Err(UrlError::NotFound)
    }

    /// The row holding this secret key, active or not: admin access
    /// works on deactivated rows too. `NotFound` if no row carries it.
    pub fn get_db_url_by_secret_key(&self, secret_key: String) -> (r: Result<URL, UrlError>)
        ensures
            find_secret_idx(self@.store.urls, secret_key@) == -1 ==> r == Err::<URL, UrlError>(
                UrlError::NotFound,
            ),
            find_secret_idx(self@.store.urls, secret_key@) != -1 ==> (r matches Ok(u) && u@
                == self@.store.urls[find_secret_idx(self@.store.urls, secret_key@)]),
    {
        let n: usize = self.urls.len();
        let mut i: usize = 0;
        while i < n
            invariant
                i <= n,
                n == self.urls@.len(),
                forall|j: int|
                    0 <= j < i ==> !secret_matches(#[trigger] self@.store.urls[j], secret_key@),
            decreases n - i,
        {
            if self.urls[i].secret_key == secret_key {
                proof {
                    lemma_find_secret_idx_is(self@.store.urls, secret_key@, i as int);
                }
                return Ok(self.urls[i].clone());
            }
            i = i + 1;
        }
        proof {
            lemma_find_secret_idx_none(self@.store.urls, secret_key@);
        }
        Err(UrlError::NotFound)
    }

    /// Removes and returns the row holding this secret key; `NotFound`
    /// if no row carries it.
    pub fn delete_by_secret_key(&mut self, secret_key: String) -> (r: Result<URL, UrlError>)
        requires
            old(self).wf(),
        ensures
            final(self).wf(),
            find_secret_idx(old(self)@.store.urls, secret_key@) == -1 ==> r == Err::<URL, UrlError>(
                UrlError::NotFound,
            ) && final(self)@ == old(self)@,
            find_secret_idx(old(self)@.store.urls, secret_key@) != -1 ==> (r matches Ok(u) && u@
                == old(self)@.store.urls[find_secret_idx(old(self)@.store.urls, secret_key@)]
                && final(self)@.store.urls == old(self)@.store.urls.remove(
                find_secret_idx(old(self)@.store.urls, secret_key@),
            ) && final(self)@.store.generated == old(self)@.store.generated
                && final(self)@.store.used == old(self)@.store.used && final(self)@.accounts == old(
                self,
            )@.accounts && final(self)@.config == old(self)@.config),
    {
        let ghost m = self@.store;
        let n: usize = self.urls.len();
        let mut i: usize = 0;
        while i < n
            invariant
                old(self).wf(),
                *self == *old(self),
                i <= n,
                n == self.urls@.len(),
                m == self@.store,
                forall|j: int| 0 <= j < i ==> !secret_matches(#[trigger] m.urls[j], secret_key@),
            decreases n - i,
        {
            if self.urls[i].secret_key == secret_key {
                proof {
                    lemma_find_secret_idx_is(m.urls, secret_key@, i as int);
                    lemma_remove_url_wf(m, i as int);
                }
                let removed = self.urls.remove(i);
                proof {
                    assert(self@.store.urls =~= m.urls.remove(i as int));
                    assert(self@.store =~= StoreModel { urls: m.urls.remove(i as int), ..m });
                    assert(self@.accounts =~= old(self)@.accounts);
                }
                return Ok(removed);
            }
            i = i + 1;
        }
        proof {
            lemma_find_secret_idx_none(m.urls, secret_key@);
        }
        Err(UrlError::NotFound)
    }

    /// Adds one click to the row holding this public key, active or
    /// not; `NotFound` if no row carries it.
    pub fn increment_clicks(&mut self, url_key: String) -> (r: Result<(), UrlError>)
        requires
            old(self).wf(),
            find_key_idx(old(self)@.store.urls, url_key@) != -1 ==> old(self)@.store.urls[
                find_key_idx(old(self)@.store.urls, url_key@)].clicks < i32::MAX,
        ensures
            final(self).wf(),
            find_key_idx(old(self)@.store.urls, url_key@) == -1 ==> r == Err::<(), UrlError>(
                UrlError::NotFound,
            ) && final(self)@ == old(self)@,
            find_key_idx(old(self)@.store.urls, url_key@) != -1 ==> r == Ok::<(), UrlError>(())
                && final(self)@.store.urls == old(self)@.store.urls.update(
                find_key_idx(old(self)@.store.urls, url_key@),
                UrlModel {
                    clicks: old(self)@.store.urls[find_key_idx(old(self)@.store.urls, url_key@)].clicks
                        + 1,
                    ..old(self)@.store.urls[find_key_idx(old(self)@.store.urls, url_key@)]
                },
            ) && final(self)@.store.generated == old(self)@.store.generated
                && final(self)@.store.used == old(self)@.store.used && final(self)@.accounts == old(
                self,
            )@.accounts && final(self)@.config == old(self)@.config,
    {
        let ghost m = self@.store;
        let n: usize = self.urls.len();
        let mut i: usize = 0;
        while i < n
            invariant
                old(self).wf(),
                *self == *old(self),
                i <= n,
                n == self.urls@.len(),
                m == self@.store,
                find_key_idx(m.urls, url_key@) != -1 ==> m.urls[find_key_idx(m.urls, url_key@)].clicks
                    < i32::MAX,
                forall|j: int| 0 <= j < i ==> !key_matches(#[trigger] m.urls[j], url_key@),
            decreases n - i,
        {
            if self.urls[i].key == url_key {
                proof {
                    lemma_find_key_idx_is(m.urls, url_key@, i as int);
                }
                let c: i32 = self.urls[i].clicks;
                self.urls[i].clicks = c + 1;
                proof {
                    let u2 = UrlModel { clicks: m.urls[i as int].clicks + 1, ..m.urls[i as int] };
                    assert(self.urls@[i as int]@ == u2);
                    assert(self@.store.urls =~= m.urls.update(i as int, u2));
                    lemma_update_clicks_wf(m, i as int, u2);
                    assert(self@.store =~= StoreModel { urls: m.urls.update(i as int, u2), ..m });
                    assert(self@.accounts =~= old(self)@.accounts);
                }
                return Ok(());
            }
            i = i + 1;
        }
        proof {
            lemma_find_key_idx_none(m.urls, url_key@);
        }
        Err(UrlError::NotFound)
    }

    /// Resolves an API-key credential to the owning user id; an unknown
    /// key fails with `InvalidCredential`.
    pub fn get_user_by_apy_key(&self, api_key: String) -> (r: Result<i32, UrlError>)
        ensures
            find_account_idx(self@.accounts, api_key@) == -1 ==> r == Err::<i32, UrlError>(
                UrlError::InvalidCredential,
            ),
            find_account_idx(self@.accounts, api_key@) != -1 ==> (r matches Ok(id) && id as int
                == self@.accounts[find_account_idx(self@.accounts, api_key@)].id),
    {
        let n: usize = self.users.len();
        let mut i: usize = 0;
        while i < n
            invariant
                i <= n,
                n == self.users@.len(),
                forall|j: int|
                    0 <= j < i ==> !api_key_matches(#[trigger] self@.accounts[j], api_key@),
            decreases n - i,
        {
            if self.users[i].api_key == api_key {
                proof {
                    lemma_find_account_idx_is(self@.accounts, api_key@, i as int);
                }
                return Ok(self.users[i].id);
            }
            i = i + 1;
        }
        proof {
            lemma_find_account_idx_none(self@.accounts, api_key@);
        }
        Err(UrlError::InvalidCredential)
    }

    /// Inserts a row directly, as seeding does; fails with
    /// `DuplicateKey` when its public key or secret key is already in
    /// use among the rows or the pool.
    pub fn insert_url(&mut self, url: URL) -> (r: Result<URL, UrlError>)
        requires
            old(self).wf(),
        ensures
            final(self).wf(),
            url_insertable(old(self)@.store, url@) ==> (r matches Ok(u) && u@ == url@
                && final(self)@.store.urls == old(self)@.store.urls.push(url@)
                && final(self)@.store.generated == old(self)@.store.generated
                && final(self)@.store.used == old(self)@.store.used
                && final(self)@.accounts == old(self)@.accounts
                && final(self)@.config == old(self)@.config),
            !url_insertable(old(self)@.store, url@) ==> r == Err::<URL, UrlError>(
                UrlError::DuplicateKey,
            ) && final(self)@ == old(self)@,
    {
        let ghost m = self@.store;
        let n: usize = self.urls.len();
        let mut i: usize = 0;
        while i < n
            invariant
                old(self).wf(),
                *self == *old(self),
                i <= n,
                n == self.urls@.len(),
                m == self@.store,
                forall|j: int|
                    0 <= j < i ==> (#[trigger] m.urls[j]).key != url@.key && m.urls[j].secret_key
                        != url@.secret_key,
            decreases n - i,
        {
            if self.urls[i].key == url.key || self.urls[i].secret_key == url.secret_key {
                assert(m.urls[i as int].key == url@.key || m.urls[i as int].secret_key
                    == url@.secret_key);
                assert(!url_insertable(m, url@));
                return Err(UrlError::DuplicateKey);
            }
            i = i + 1;
        }

        let gn: usize = self.generated_keys.len();
        let mut g: usize = 0;
        while g < gn
            invariant
                old(self).wf(),
                *self == *old(self),
                g <= gn,
                gn == self.generated_keys@.len(),
                m == self@.store,
                forall|j: int|
                    0 <= j < g ==> #[trigger] m.generated[j] != url@.secret_key && pub_part(
                        m.generated[j],
                    ) != url@.key,
            decreases gn - g,
        {
            let gpv = split_public_key(&self.generated_keys[g].key_value);
            if self.generated_keys[g].key_value == url.secret_key || gpv == url.key {
                assert(m.generated[g as int] == url@.secret_key || pub_part(m.generated[g as int])
                    == url@.key);
                assert(!url_insertable(m, url@));
                return Err(UrlError::DuplicateKey);
            }
            g = g + 1;
        }

        proof {
            assert(url_insertable(m, url@));
            lemma_insert_url_wf(m, url@);
        }
        let ghost uv = url@;
        let stored = url.clone();
        self.urls.push(stored);
        proof {
            assert(self@.store.urls =~= m.urls.push(uv));
            assert(self@.store =~= StoreModel { urls: m.urls.push(uv), ..m });
            assert(self@.accounts =~= old(self)@.accounts);
        }
        Ok(url)
    }

    /// Registers a user account with the given credential; fails with
    /// `DuplicateKey` when the email or the API key is taken. Answers
    /// the id assigned to the account.
    pub fn insert_user(&mut self, username: String, email: String, api_key: String) -> (r: Result<
        i32,
        UrlError,
    >)
        requires
            old(self).wf(),
            old(self)@.accounts.len() < i32::MAX,
        ensures
            final(self).wf(),
            account_fresh(old(self)@.accounts, email@, api_key@) ==> (r matches Ok(id) && id as int
                == old(self)@.accounts.len() + 1 && final(self)@.accounts
                == old(self)@.accounts.push(
                UserAccountModel {
                    id: old(self)@.accounts.len() as int + 1,
                    username: username@,
                    email: email@,
                    api_key: api_key@,
                },
            ) && final(self)@.store == old(self)@.store
                && final(self)@.config == old(self)@.config),
            !account_fresh(old(self)@.accounts, email@, api_key@) ==> r == Err::<i32, UrlError>(
                UrlError::DuplicateKey,
            ) && final(self)@ == old(self)@,
    {
        let ghost acc = self@.accounts;
        let n: usize = self.users.len();
        let mut i: usize = 0;
        while i < n
            invariant
                old(self).wf(),
                *self == *old(self),
                i <= n,
                n == self.users@.len(),
                acc == self@.accounts,
                forall|j: int|
                    0 <= j < i ==> (#[trigger] acc[j]).email != email@ && acc[j].api_key
                        != api_key@,
            decreases n - i,
        {
            if self.users[i].email == email || self.users[i].api_key == api_key {
                assert(acc[i as int].email == email@ || acc[i as int].api_key == api_key@);
                assert(!account_fresh(acc, email@, api_key@));
                return Err(UrlError::DuplicateKey);
            }
            i = i + 1;
        }

        let id: i32 = (n as i32) + 1;
        let ghost a = UserAccountModel {
            id: acc.len() as int + 1,
            username: username@,
            email: email@,
            api_key: api_key@,
        };
        proof {
            assert(account_fresh(acc, email@, api_key@));
            lemma_account_insert_wf(acc, a);
        }
        self.users.push(UserAccount { id, username, email, api_key });
        proof {
            assert(self@.accounts =~= acc.push(a));
            assert(self@.store =~= old(self)@.store);
        }
        Ok(id)
    }

    /// Replenishes the pool toward `target_size` with generated
    /// candidate keys, never past it and never touching anything else.
    /// Collisions are skipped, so one call may stop short of the
    /// target.
    pub fn replenish(&mut self, target_size: usize)
        requires
            old(self).wf(),
        ensures
            final(self).wf(),
            old(self)@.store.generated.is_prefix_of(final(self)@.store.generated),
            old(self)@.store.generated.len() >= target_size ==> final(self)@ == old(self)@,
            final(self)@.store.generated.len() <= target_size || final(self)@.store.generated.len()
                == old(self)@.store.generated.len(),
            final(self)@.store.urls == old(self)@.store.urls,
            final(self)@.store.used == old(self)@.store.used,
            final(self)@.accounts == old(self)@.accounts,
            final(self)@.config == old(self)@.config,
    {
        let mut attempts: usize = 0;
        while attempts < target_size && self.generated_keys.len() < target_size
            invariant
                self.wf(),
                attempts <= target_size,
                old(self)@.store.generated.is_prefix_of(self@.store.generated),
                old(self)@.store.generated.len() >= target_size ==> self@ == old(self)@,
                self@.store.generated.len() <= target_size || self@.store.generated.len() == old(
                    self,
                )@.store.generated.len(),
                self@.store.urls == old(self)@.store.urls,
                self@.store.used == old(self)@.store.used,
                self@.accounts == old(self)@.accounts,
                self@.config == old(self)@.config,
            decreases target_size - attempts,
        {
            let ghost before = self@.store.generated;
            let cand = generate_candidate_key(KEY_SEGMENT_LEN);
            let inserted = self.insert_generated_key(cand);
            proof {
                if inserted {
                    assert(before.is_prefix_of(self@.store.generated)) by {
                        assert(self@.store.generated.subrange(0, before.len() as int) =~= before);
                    }
                    assert(old(self)@.store.generated.is_prefix_of(self@.store.generated)) by {
                        let og = old(self)@.store.generated;
                        assert(og.subrange(0, og.len() as int) =~= og);
                        assert(self@.store.generated.subrange(0, og.len() as int) =~= og);
                    }
                }
            }
            attempts = attempts + 1;
        }
    }
}

} // verus!
