//! The mathematical model of the URL store and of the allocation
//! protocol: what the tables hold, what well-formedness means, and what
//! one allocation step does to them.

use vstd::prelude::*;
use crate::schema::{UrlModel, UsedKeyModel};
use crate::text::{has_underscore, lemma_lex_min_seq, lex_min_seq, pub_part};

verus! {

/// The three tables of the URL store: short-URL rows, the pool of
/// unconsumed candidate keys, and the audit trail of consumed keys.
pub struct StoreModel {
    pub urls: Seq<UrlModel>,
    pub generated: Seq<Seq<char>>,
    pub used: Seq<UsedKeyModel>,
}

/// Whether the row belongs to the given user and targets the given URL.
pub open spec fn url_matches(u: UrlModel, user_id: int, target_url: Seq<char>) -> bool {
    u.user_id == user_id && u.target_url == target_url
}

/// Index of the first row of `urls` for the given user and target, or
/// `-1` if none exists.
pub open spec fn find_url_idx(urls: Seq<UrlModel>, user_id: int, target_url: Seq<char>) -> int
    decreases urls.len(),
{
    if urls.len() == 0 {
        -1
    } else if url_matches(urls[0], user_id, target_url) {
        0
    } else {
        let rest = find_url_idx(urls.drop_first(), user_id, target_url);
        if rest == -1 {
            -1
        } else {
            1 + rest
        }
    }
}

/// When `find_url_idx` answers `-1` no row matches; otherwise it points
/// at a matching row and nothing before it matches.
pub proof fn lemma_find_url_idx(urls: Seq<UrlModel>, user_id: int, target_url: Seq<char>)
    ensures
        find_url_idx(urls, user_id, target_url) == -1 ==> forall|i: int|
            0 <= i < urls.len() ==> !url_matches(#[trigger] urls[i], user_id, target_url),
        find_url_idx(urls, user_id, target_url) != -1 ==> 0 <= find_url_idx(
            urls,
            user_id,
            target_url,
        ) < urls.len() && url_matches(urls[find_url_idx(urls, user_id, target_url)], user_id, target_url),
        find_url_idx(urls, user_id, target_url) != -1 ==> forall|i: int|
            0 <= i < find_url_idx(urls, user_id, target_url) ==> !url_matches(
                #[trigger] urls[i],
                user_id,
                target_url,
            ),
    decreases urls.len(),
{
    if urls.len() != 0 && !url_matches(urls[0], user_id, target_url) {
        let d = urls.drop_first();
        lemma_find_url_idx(d, user_id, target_url);
        let k = find_url_idx(urls, user_id, target_url);
        let kd = find_url_idx(d, user_id, target_url);
        if k == -1 {
            assert forall|i: int| 0 <= i < urls.len() implies !url_matches(
                #[trigger] urls[i],
                user_id,
                target_url,
            ) by {
                if i >= 1 {
                    assert(urls[i] == d[i - 1]);
                }
            }
        } else {
            assert(k == 1 + kd);
            assert(urls[k] == d[kd]);
            assert forall|i: int| 0 <= i < k implies !url_matches(
                #[trigger] urls[i],
                user_id,
                target_url,
            ) by {
                if i >= 1 {
                    assert(urls[i] == d[i - 1]);
                }
            }
        }
    }
}

/// The first-match index is determined by its characterization.
pub proof fn lemma_find_url_idx_is(
    urls: Seq<UrlModel>,
    user_id: int,
    target_url: Seq<char>,
    i: int,
)
    requires
        0 <= i < urls.len(),
        url_matches(urls[i], user_id, target_url),
        forall|j: int| 0 <= j < i ==> !url_matches(#[trigger] urls[j], user_id, target_url),
    ensures
        find_url_idx(urls, user_id, target_url) == i,
{
    lemma_find_url_idx(urls, user_id, target_url);
    let k = find_url_idx(urls, user_id, target_url);
    if k == -1 {
        assert(!url_matches(urls[i], user_id, target_url));
    } else if k < i {
        assert(!url_matches(urls[k], user_id, target_url));
    } else if i < k {
        assert(!url_matches(urls[i], user_id, target_url));
    }
}

/// No row matches exactly when `find_url_idx` answers `-1`.
pub proof fn lemma_find_url_idx_none(urls: Seq<UrlModel>, user_id: int, target_url: Seq<char>)
    requires
        forall|i: int| 0 <= i < urls.len() ==> !url_matches(#[trigger] urls[i], user_id, target_url),
    ensures
        find_url_idx(urls, user_id, target_url) == -1,
{
    lemma_find_url_idx(urls, user_id, target_url);
    let k = find_url_idx(urls, user_id, target_url);
    if k != -1 {
        assert(!url_matches(urls[k], user_id, target_url));
    }
}

/// Index of the first element of `s` satisfying `p`, or `-1` if none
/// does.
pub open spec fn find_first<A>(s: Seq<A>, p: spec_fn(A) -> bool) -> int
    decreases s.len(),
{
    if s.len() == 0 {
        -1
    } else if p(s[0]) {
        0
    } else {
        let rest = find_first(s.drop_first(), p);
        if rest == -1 {
            -1
        } else {
            1 + rest
        }
    }
}

/// When `find_first` answers `-1` no element satisfies `p`; otherwise it
/// points at a satisfying element and nothing before it satisfies `p`.
pub proof fn lemma_find_first<A>(s: Seq<A>, p: spec_fn(A) -> bool)
    ensures
        find_first(s, p) == -1 ==> forall|i: int| 0 <= i < s.len() ==> !p(#[trigger] s[i]),
        find_first(s, p) != -1 ==> 0 <= find_first(s, p) < s.len() && p(s[find_first(s, p)]),
        find_first(s, p) != -1 ==> forall|i: int| 0 <= i < find_first(s, p) ==> !p(
            #[trigger] s[i],
        ),
    decreases s.len(),
{
    if s.len() != 0 && !p(s[0]) {
        let d = s.drop_first();
        lemma_find_first(d, p);
        let k = find_first(s, p);
        let kd = find_first(d, p);
        if k == -1 {
            assert forall|i: int| 0 <= i < s.len() implies !p(#[trigger] s[i]) by {
                if i >= 1 {
                    assert(s[i] == d[i - 1]);
                }
            }
        } else {
            assert(k == 1 + kd);
            assert(s[k] == d[kd]);
            assert forall|i: int| 0 <= i < k implies !p(#[trigger] s[i]) by {
                if i >= 1 {
                    assert(s[i] == d[i - 1]);
                }
            }
        }
    }
}

/// The first-match index is determined by its characterization.
pub proof fn lemma_find_first_is<A>(s: Seq<A>, p: spec_fn(A) -> bool, i: int)
    requires
        0 <= i < s.len(),
        p(s[i]),
        forall|j: int| 0 <= j < i ==> !p(#[trigger] s[j]),
    ensures
        find_first(s, p) == i,
{
    lemma_find_first(s, p);
    let k = find_first(s, p);
    if k == -1 {
        assert(!p(s[i]));
    } else if k < i {
        assert(!p(s[k]));
    } else if i < k {
        assert(!p(s[i]));
    }
}

/// Nothing matches exactly when `find_first` answers `-1`.
pub proof fn lemma_find_first_none<A>(s: Seq<A>, p: spec_fn(A) -> bool)
    requires
        forall|i: int| 0 <= i < s.len() ==> !p(#[trigger] s[i]),
    ensures
        find_first(s, p) == -1,
{
    lemma_find_first(s, p);
    let k = find_first(s, p);
    if k != -1 {
        assert(!p(s[k]));
    }
}

/// Whether the row carries this public key and is open for redemption.
pub open spec fn key_active_matches(u: UrlModel, key: Seq<char>) -> bool {
    u.key == key && u.is_active
}

/// Whether the row carries this public key, active or not.
pub open spec fn key_matches(u: UrlModel, key: Seq<char>) -> bool {
    u.key == key
}

/// Whether the row carries this secret key.
pub open spec fn secret_matches(u: UrlModel, secret_key: Seq<char>) -> bool {
    u.secret_key == secret_key
}

/// Index of the first active row with this public key, or `-1`.
pub open spec fn find_active_idx(urls: Seq<UrlModel>, key: Seq<char>) -> int {
    find_first(urls, |u: UrlModel| key_active_matches(u, key))
}

/// Index of the first row with this public key, active or not, or `-1`.
pub open spec fn find_key_idx(urls: Seq<UrlModel>, key: Seq<char>) -> int {
    find_first(urls, |u: UrlModel| key_matches(u, key))
}

/// Index of the first row with this secret key, or `-1`.
pub open spec fn find_secret_idx(urls: Seq<UrlModel>, secret_key: Seq<char>) -> int {
    find_first(urls, |u: UrlModel| secret_matches(u, secret_key))
}

/// The first active row with this key is determined by its
/// characterization.
pub proof fn lemma_find_active_idx_is(urls: Seq<UrlModel>, key: Seq<char>, i: int)
    requires
        0 <= i < urls.len(),
        key_active_matches(urls[i], key),
        forall|j: int| 0 <= j < i ==> !key_active_matches(#[trigger] urls[j], key),
    ensures
        find_active_idx(urls, key) == i,
{
    lemma_find_first_is(urls, |u: UrlModel| key_active_matches(u, key), i);
}

/// No active row carries this key exactly when the finder answers `-1`.
pub proof fn lemma_find_active_idx_none(urls: Seq<UrlModel>, key: Seq<char>)
    requires
        forall|i: int| 0 <= i < urls.len() ==> !key_active_matches(#[trigger] urls[i], key),
    ensures
        find_active_idx(urls, key) == -1,
{
    lemma_find_first_none(urls, |u: UrlModel| key_active_matches(u, key));
}

/// A non-`-1` active-key finder answer points at an active row with the
/// key.
pub proof fn lemma_find_active_idx(urls: Seq<UrlModel>, key: Seq<char>)
    ensures
        find_active_idx(urls, key) != -1 ==> 0 <= find_active_idx(urls, key) < urls.len()
            && key_active_matches(urls[find_active_idx(urls, key)], key),
{
    lemma_find_first(urls, |u: UrlModel| key_active_matches(u, key));
}

/// The first row with this key is determined by its characterization.
pub proof fn lemma_find_key_idx_is(urls: Seq<UrlModel>, key: Seq<char>, i: int)
    requires
        0 <= i < urls.len(),
        key_matches(urls[i], key),
        forall|j: int| 0 <= j < i ==> !key_matches(#[trigger] urls[j], key),
    ensures
        find_key_idx(urls, key) == i,
{
    lemma_find_first_is(urls, |u: UrlModel| key_matches(u, key), i);
}

/// No row carries this key exactly when the finder answers `-1`.
pub proof fn lemma_find_key_idx_none(urls: Seq<UrlModel>, key: Seq<char>)
    requires
        forall|i: int| 0 <= i < urls.len() ==> !key_matches(#[trigger] urls[i], key),
    ensures
        find_key_idx(urls, key) == -1,
{
    lemma_find_first_none(urls, |u: UrlModel| key_matches(u, key));
}

/// The first row with this secret key is determined by its
/// characterization.
pub proof fn lemma_find_secret_idx_is(urls: Seq<UrlModel>, secret_key: Seq<char>, i: int)
    requires
        0 <= i < urls.len(),
        secret_matches(urls[i], secret_key),
        forall|j: int| 0 <= j < i ==> !secret_matches(#[trigger] urls[j], secret_key),
    ensures
        find_secret_idx(urls, secret_key) == i,
{
    lemma_find_first_is(urls, |u: UrlModel| secret_matches(u, secret_key), i);
}

/// No row carries this secret key exactly when the finder answers `-1`.
pub proof fn lemma_find_secret_idx_none(urls: Seq<UrlModel>, secret_key: Seq<char>)
    requires
        forall|i: int| 0 <= i < urls.len() ==> !secret_matches(#[trigger] urls[i], secret_key),
    ensures
        find_secret_idx(urls, secret_key) == -1,
{
    lemma_find_first_none(urls, |u: UrlModel| secret_matches(u, secret_key));
}

/// When keys are unique and an active row holds the key, the plain key
/// search finds that same row.
pub proof fn lemma_find_key_idx_of_active(urls: Seq<UrlModel>, key: Seq<char>)
    requires
        forall|i: int, j: int|
            #![trigger urls[i], urls[j]]
            0 <= i < j < urls.len() ==> urls[i].key != urls[j].key,
        find_active_idx(urls, key) != -1,
    ensures
        find_key_idx(urls, key) == find_active_idx(urls, key),
{
    lemma_find_active_idx(urls, key);
    let ka = find_active_idx(urls, key);
    assert forall|j: int| 0 <= j < ka implies !key_matches(#[trigger] urls[j], key) by {
        if urls[j].key == key {
            assert(urls[j].key != urls[ka].key);
        }
    }
    lemma_find_key_idx_is(urls, key, ka);
}

/// Outcome of one allocation request.
pub enum AllocOutcome {
    /// The user already had a row for this target: it is returned
    /// unchanged.
    Existing(UrlModel),
    /// A pool key was consumed to mint this new row.
    Fresh(UrlModel),
    /// The pool was empty; nothing changed.
    Exhausted,
}

/// The row minted from the drawn candidate `secret`: its left segment as
/// public key, the full value as secret key, active, with no clicks yet.
pub open spec fn minted_row(secret: Seq<char>, user_id: int, target_url: Seq<char>) -> UrlModel {
    UrlModel {
        key: pub_part(secret),
        secret_key: secret,
        target_url: target_url,
        is_active: true,
        clicks: 0,
        user_id: user_id,
    }
}

/// One allocation step. If the user already has a row for the target it
/// is returned and nothing changes. Otherwise the lexicographically
/// smallest pool key is consumed: a row is minted from it, the key
/// leaves the pool, and its public part is recorded in the audit trail —
/// all in the same step. An empty pool fails the request and changes
/// nothing.
pub open spec fn allocate_model(m: StoreModel, user_id: int, target_url: Seq<char>) -> (
    StoreModel,
    AllocOutcome,
) {
    let k = find_url_idx(m.urls, user_id, target_url);
    if k != -1 {
        (m, AllocOutcome::Existing(m.urls[k]))
    } else if m.generated.len() == 0 {
        (m, AllocOutcome::Exhausted)
    } else {
        let secret = lex_min_seq(m.generated);
        let row = minted_row(secret, user_id, target_url);
        let m2 = StoreModel {
            urls: m.urls.push(row),
            generated: m.generated.remove_value(secret),
            used: m.used.push(
                UsedKeyModel {
                    id: m.used.len() as int + 1,
                    key_value: pub_part(secret),
                    user_id: user_id,
                },
            ),
        };
        (m2, AllocOutcome::Fresh(row))
    }
}

/// Well-formedness of the store — the invariant that no key value is
/// ever reused:
/// - pool values are pairwise distinct two-segment keys whose public
///   parts are pairwise distinct as well;
/// - URL rows carry pairwise distinct public keys and pairwise distinct
///   secret keys;
/// - no pool value collides with a secret key in use, and no pool
///   value's public part collides with a public key in use or already
///   consumed.
pub open spec fn store_wf(m: StoreModel) -> bool {
    &&& (forall|i: int, j: int|
        #![trigger m.generated[i], m.generated[j]]
        0 <= i < j < m.generated.len() ==> m.generated[i] != m.generated[j] && pub_part(
            m.generated[i],
        ) != pub_part(m.generated[j]))
    &&& (forall|i: int| 0 <= i < m.generated.len() ==> has_underscore(#[trigger] m.generated[i]))
    &&& (forall|i: int, j: int|
        #![trigger m.urls[i], m.urls[j]]
        0 <= i < j < m.urls.len() ==> m.urls[i].key != m.urls[j].key && m.urls[i].secret_key
            != m.urls[j].secret_key)
    &&& (forall|i: int, j: int|
        #![trigger m.generated[i], m.urls[j]]
        0 <= i < m.generated.len() && 0 <= j < m.urls.len() ==> m.generated[i]
            != m.urls[j].secret_key && pub_part(m.generated[i]) != m.urls[j].key)
    &&& (forall|i: int, j: int|
        #![trigger m.generated[i], m.used[j]]
        0 <= i < m.generated.len() && 0 <= j < m.used.len() ==> pub_part(m.generated[i])
            != m.used[j].key_value)
}

/// Whether the candidate value `v` may still enter the pool: it is a
/// two-segment key, and neither it nor its public part collides with any
/// pool value, any row in use, or any consumed key.
pub open spec fn candidate_fresh(m: StoreModel, v: Seq<char>) -> bool {
    &&& has_underscore(v)
    &&& (forall|i: int|
        0 <= i < m.generated.len() ==> #[trigger] m.generated[i] != v && pub_part(m.generated[i])
            != pub_part(v))
    &&& (forall|j: int|
        0 <= j < m.urls.len() ==> v != (#[trigger] m.urls[j]).secret_key && pub_part(v)
            != m.urls[j].key)
    &&& (forall|j: int| 0 <= j < m.used.len() ==> pub_part(v) != (#[trigger] m.used[j]).key_value)
}

/// Adding a fresh candidate to the pool keeps the store well-formed.
pub proof fn lemma_candidate_insert_wf(m: StoreModel, v: Seq<char>)
    requires
        store_wf(m),
        candidate_fresh(m, v),
    ensures
        store_wf(StoreModel { generated: m.generated.push(v), ..m }),
{
    let g2 = m.generated.push(v);
    let m2 = StoreModel { generated: g2, ..m };
    assert forall|i: int, j: int|
        #![trigger g2[i], g2[j]]
        0 <= i < j < g2.len() implies g2[i] != g2[j] && pub_part(g2[i]) != pub_part(g2[j]) by {
        assert(g2[i] == m.generated[i]);
        if j == g2.len() - 1 {
            assert(g2[j] == v);
        } else {
            assert(g2[j] == m.generated[j]);
        }
    }
    assert forall|i: int| 0 <= i < g2.len() implies has_underscore(#[trigger] g2[i]) by {
        if i < g2.len() - 1 {
            assert(g2[i] == m.generated[i]);
        }
    }
    assert forall|i: int, j: int|
        #![trigger g2[i], m2.urls[j]]
        0 <= i < g2.len() && 0 <= j < m2.urls.len() implies g2[i] != m2.urls[j].secret_key
        && pub_part(g2[i]) != m2.urls[j].key by {
        if i < g2.len() - 1 {
            assert(g2[i] == m.generated[i]);
        } else {
            assert(g2[i] == v);
        }
    }
    assert forall|i: int, j: int|
        #![trigger g2[i], m2.used[j]]
        0 <= i < g2.len() && 0 <= j < m2.used.len() implies pub_part(g2[i])
        != m2.used[j].key_value by {
        if i < g2.len() - 1 {
            assert(g2[i] == m.generated[i]);
        } else {
            assert(g2[i] == v);
        }
    }
}

/// Whether a row may be inserted directly: its public key and its secret
/// key are both unused among the rows and the pool.
pub open spec fn url_insertable(m: StoreModel, u: UrlModel) -> bool {
    &&& (forall|j: int|
        0 <= j < m.urls.len() ==> (#[trigger] m.urls[j]).key != u.key && m.urls[j].secret_key
            != u.secret_key)
    &&& (forall|i: int|
        0 <= i < m.generated.len() ==> #[trigger] m.generated[i] != u.secret_key && pub_part(
            m.generated[i],
        ) != u.key)
}

/// Inserting an insertable row keeps the store well-formed.
pub proof fn lemma_insert_url_wf(m: StoreModel, u: UrlModel)
    requires
        store_wf(m),
        url_insertable(m, u),
    ensures
        store_wf(StoreModel { urls: m.urls.push(u), ..m }),
{
    let u2 = m.urls.push(u);
    assert forall|i: int, j: int|
        #![trigger u2[i], u2[j]]
        0 <= i < j < u2.len() implies u2[i].key != u2[j].key && u2[i].secret_key
        != u2[j].secret_key by {
        assert(u2[i] == m.urls[i]);
        if j == u2.len() - 1 {
            assert(u2[j] == u);
        } else {
            assert(u2[j] == m.urls[j]);
        }
    }
    assert forall|i: int, j: int|
        #![trigger m.generated[i], u2[j]]
        0 <= i < m.generated.len() && 0 <= j < u2.len() implies m.generated[i] != u2[j].secret_key
        && pub_part(m.generated[i]) != u2[j].key by {
        if j < u2.len() - 1 {
            assert(u2[j] == m.urls[j]);
        } else {
            assert(u2[j] == u);
        }
    }
}

/// Removing a row keeps the store well-formed.
pub proof fn lemma_remove_url_wf(m: StoreModel, k: int)
    requires
        store_wf(m),
        0 <= k < m.urls.len(),
    ensures
        store_wf(StoreModel { urls: m.urls.remove(k), ..m }),
{
    let u2 = m.urls.remove(k);
    m.urls.remove_ensures(k);
    assert forall|i: int| 0 <= i < u2.len() implies u2[i] == (if i < k {
        m.urls[i]
    } else {
        m.urls[i + 1]
    }) by {
        if i < k {
            assert(u2[i] == m.urls[i]);
        } else {
            assert(u2[i] == m.urls[i + 1]);
        }
    }
    assert forall|i: int, j: int|
        #![trigger u2[i], u2[j]]
        0 <= i < j < u2.len() implies u2[i].key != u2[j].key && u2[i].secret_key
        != u2[j].secret_key by {
        let i0: int = if i < k {
            i
        } else {
            i + 1
        };
        let j0: int = if j < k {
            j
        } else {
            j + 1
        };
        assert(u2[i] == m.urls[i0] && u2[j] == m.urls[j0]);
        assert(0 <= i0 < j0 < m.urls.len());
    }
    assert forall|i: int, j: int|
        #![trigger m.generated[i], u2[j]]
        0 <= i < m.generated.len() && 0 <= j < u2.len() implies m.generated[i] != u2[j].secret_key
        && pub_part(m.generated[i]) != u2[j].key by {
        let j0: int = if j < k {
            j
        } else {
            j + 1
        };
        assert(u2[j] == m.urls[j0]);
    }
}

/// Bumping the click counter of a row keeps the store well-formed: no
/// key value changes.
pub proof fn lemma_update_clicks_wf(m: StoreModel, k: int, u: UrlModel)
    requires
        store_wf(m),
        0 <= k < m.urls.len(),
        u.key == m.urls[k].key,
        u.secret_key == m.urls[k].secret_key,
    ensures
        store_wf(StoreModel { urls: m.urls.update(k, u), ..m }),
{
    let u2 = m.urls.update(k, u);
    assert forall|i: int, j: int|
        #![trigger u2[i], u2[j]]
        0 <= i < j < u2.len() implies u2[i].key != u2[j].key && u2[i].secret_key
        != u2[j].secret_key by {
        assert(u2[i].key == m.urls[i].key && u2[i].secret_key == m.urls[i].secret_key);
        assert(u2[j].key == m.urls[j].key && u2[j].secret_key == m.urls[j].secret_key);
    }
    assert forall|i: int, j: int|
        #![trigger m.generated[i], u2[j]]
        0 <= i < m.generated.len() && 0 <= j < u2.len() implies m.generated[i] != u2[j].secret_key
        && pub_part(m.generated[i]) != u2[j].key by {
        assert(u2[j].key == m.urls[j].key && u2[j].secret_key == m.urls[j].secret_key);
    }
}

/// One allocation step keeps the store well-formed.
pub proof fn lemma_allocate_preserves_wf(m: StoreModel, user_id: int, target_url: Seq<char>)
    requires
        store_wf(m),
    ensures
        store_wf(allocate_model(m, user_id, target_url).0),
{
    let k = find_url_idx(m.urls, user_id, target_url);
    if k == -1 && m.generated.len() != 0 {
        let g = m.generated;
        let secret = lex_min_seq(g);
        lemma_lex_min_seq(g);
        let fi = g.index_of_first(secret).unwrap();
        g.index_of_first_ensures(secret);
        let g2 = g.remove_value(secret);
        assert(g2 == g.remove(fi));
        g.remove_ensures(fi);
        let row = minted_row(secret, user_id, target_url);
        let m2 = allocate_model(m, user_id, target_url).0;
        assert(m2.generated == g2);
        assert(m2.urls == m.urls.push(row));

        assert forall|i: int| 0 <= i < g2.len() implies g2[i] == (if i < fi {
            g[i]
        } else {
            g[i + 1]
        }) && has_underscore(g2[i]) by {
            if i < fi {
                assert(g2[i] == g[i]);
            } else {
                assert(g2[i] == g[i + 1]);
            }
        }

        // pool values and their public parts stay pairwise distinct
        assert forall|i: int, j: int|
            #![trigger g2[i], g2[j]]
            0 <= i < j < g2.len() implies g2[i] != g2[j] && pub_part(g2[i]) != pub_part(
            g2[j],
        ) by {
            let i0: int = if i < fi {
                i
            } else {
                i + 1
            };
            let j0: int = if j < fi {
                j
            } else {
                j + 1
            };
            assert(g2[i] == g[i0] && g2[j] == g[j0]);
            assert(0 <= i0 < j0 < g.len());
        }

        // URL keys and secret keys stay pairwise distinct: the minted row
        // draws both of its values from the pool, which was disjoint from
        // everything in use
        assert forall|i: int, j: int|
            #![trigger m2.urls[i], m2.urls[j]]
            0 <= i < j < m2.urls.len() implies m2.urls[i].key != m2.urls[j].key
            && m2.urls[i].secret_key != m2.urls[j].secret_key by {
            if j == m2.urls.len() - 1 {
                assert(m2.urls[j] == row);
                assert(m2.urls[i] == m.urls[i]);
                assert(g[fi] == secret);
                assert(g[fi] != m.urls[i].secret_key && pub_part(g[fi]) != m.urls[i].key);
            } else {
                assert(m2.urls[i] == m.urls[i] && m2.urls[j] == m.urls[j]);
            }
        }

        // remaining pool values stay clear of the rows, the minted row
        // included
        assert forall|i: int, j: int|
            #![trigger g2[i], m2.urls[j]]
            0 <= i < g2.len() && 0 <= j < m2.urls.len() implies g2[i] != m2.urls[j].secret_key
            && pub_part(g2[i]) != m2.urls[j].key by {
            let i0: int = if i < fi {
                i
            } else {
                i + 1
            };
            assert(g2[i] == g[i0]);
            assert(i0 != fi);
            if j == m2.urls.len() - 1 {
                assert(m2.urls[j] == row);
                if i0 < fi {
                    assert(g[i0] != g[fi] && pub_part(g[i0]) != pub_part(g[fi]));
                } else {
                    assert(g[fi] != g[i0] && pub_part(g[fi]) != pub_part(g[i0]));
                }
            } else {
                assert(m2.urls[j] == m.urls[j]);
                assert(g[i0] != m.urls[j].secret_key && pub_part(g[i0]) != m.urls[j].key);
            }
        }

        // remaining pool values stay clear of the audit trail, the new
        // entry included
        assert forall|i: int, j: int|
            #![trigger g2[i], m2.used[j]]
            0 <= i < g2.len() && 0 <= j < m2.used.len() implies pub_part(g2[i])
            != m2.used[j].key_value by {
            let i0: int = if i < fi {
                i
            } else {
                i + 1
            };
            assert(g2[i] == g[i0]);
            assert(i0 != fi);
            if j == m2.used.len() - 1 {
                assert(m2.used[j].key_value == pub_part(secret));
                if i0 < fi {
                    assert(g[i0] != g[fi] && pub_part(g[i0]) != pub_part(g[fi]));
                } else {
                    assert(g[fi] != g[i0] && pub_part(g[fi]) != pub_part(g[i0]));
                }
            } else {
                assert(m2.used[j] == m.used[j]);
                assert(pub_part(g[i0]) != m.used[j].key_value);
            }
        }
    }
}

} // verus!
