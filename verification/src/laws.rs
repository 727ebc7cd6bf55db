//! Laws of the allocation protocol, proved over its model: uniqueness
//! of minted keys, idempotence of repeated requests, conservation of
//! the pool, and the behavior of an exhausted pool.

use vstd::prelude::*;
use crate::model::{
    allocate_model, find_url_idx, lemma_allocate_preserves_wf, lemma_find_url_idx,
    lemma_find_url_idx_is, lemma_find_url_idx_none, store_wf, url_matches, AllocOutcome,
    StoreModel,
};

verus! {

/// *Uniqueness.* In a well-formed store the URL rows — one per
/// successful allocation — carry pairwise distinct public keys and
/// pairwise distinct secret keys.
pub proof fn lemma_allocation_uniqueness(m: StoreModel)
    requires
        store_wf(m),
    ensures
        forall|i: int, j: int|
            #![trigger m.urls[i], m.urls[j]]
            0 <= i < j < m.urls.len() ==> m.urls[i].key != m.urls[j].key && m.urls[i].secret_key
                != m.urls[j].secret_key,
{
}

/// *Uniqueness across steps.* Two consecutive fresh allocations mint
/// rows with distinct public keys and distinct secret keys.
pub proof fn lemma_two_fresh_allocations_distinct(
    m: StoreModel,
    uid1: int,
    t1: Seq<char>,
    uid2: int,
    t2: Seq<char>,
)
    requires
        store_wf(m),
        allocate_model(m, uid1, t1).1 is Fresh,
        allocate_model(allocate_model(m, uid1, t1).0, uid2, t2).1 is Fresh,
    ensures
        allocate_model(m, uid1, t1).1->Fresh_0.key != allocate_model(
            allocate_model(m, uid1, t1).0,
            uid2,
            t2,
        ).1->Fresh_0.key,
        allocate_model(m, uid1, t1).1->Fresh_0.secret_key != allocate_model(
            allocate_model(m, uid1, t1).0,
            uid2,
            t2,
        ).1->Fresh_0.secret_key,
{
    let step1 = allocate_model(m, uid1, t1);
    let m1 = step1.0;
    let u1 = step1.1->Fresh_0;
    let step2 = allocate_model(m1, uid2, t2);
    let m2 = step2.0;
    let u2 = step2.1->Fresh_0;
    lemma_allocate_preserves_wf(m, uid1, t1);
    lemma_allocate_preserves_wf(m1, uid2, t2);
    let n1 = m1.urls.len() - 1;
    let n2 = m2.urls.len() - 1;
    assert(m2.urls[n1] == u1);
    assert(m2.urls[n2] == u2);
}

/// *Idempotence.* A successful allocation followed by the very same
/// request returns the identical row and leaves the store unchanged.
pub proof fn lemma_allocate_idempotent(m: StoreModel, user_id: int, target_url: Seq<char>)
    requires
        store_wf(m),
        !(allocate_model(m, user_id, target_url).1 is Exhausted),
    ensures
        ({
            let first = allocate_model(m, user_id, target_url);
            let second = allocate_model(first.0, user_id, target_url);
            &&& second.0 == first.0
            &&& match (first.1, second.1) {
                (AllocOutcome::Existing(u1), AllocOutcome::Existing(u2)) => u1 == u2,
                (AllocOutcome::Fresh(u1), AllocOutcome::Existing(u2)) => u1 == u2,
                _ => false,
            }
        }),
{
    let first = allocate_model(m, user_id, target_url);
    let k = find_url_idx(m.urls, user_id, target_url);
    if k != -1 {
        assert(first.0 == m);
    } else {
        let m1 = first.0;
        let u1 = first.1->Fresh_0;
        let n = m.urls.len() as int;
        assert(m1.urls[n] == u1);
        assert(url_matches(u1, user_id, target_url));
        lemma_find_url_idx(m.urls, user_id, target_url);
        assert forall|j: int| 0 <= j < n implies !url_matches(
            #[trigger] m1.urls[j],
            user_id,
            target_url,
        ) by {
            assert(m1.urls[j] == m.urls[j]);
        }
        lemma_find_url_idx_is(m1.urls, user_id, target_url, n);
    }
}

/// *Exhaustion.* With an empty pool and no existing row for the pair,
/// allocation fails as exhausted and changes nothing: no URL row, no
/// audit row, no pool entry moves.
pub proof fn lemma_exhaustion(m: StoreModel, user_id: int, target_url: Seq<char>)
    requires
        m.generated.len() == 0,
        find_url_idx(m.urls, user_id, target_url) == -1,
    ensures
        allocate_model(m, user_id, target_url).0 == m,
        allocate_model(m, user_id, target_url).1 is Exhausted,
{
}

/// The store after running a sequence of allocation requests, first
/// request first.
pub open spec fn allocate_all(m: StoreModel, reqs: Seq<(int, Seq<char>)>) -> StoreModel
    decreases reqs.len(),
{
    if reqs.len() == 0 {
        m
    } else {
        allocate_all(allocate_model(m, reqs[0].0, reqs[0].1).0, reqs.drop_first())
    }
}

/// The outcome of each request in a run, in request order.
pub open spec fn allocate_outcomes(m: StoreModel, reqs: Seq<(int, Seq<char>)>) -> Seq<AllocOutcome>
    decreases reqs.len(),
{
    if reqs.len() == 0 {
        Seq::empty()
    } else {
        seq![allocate_model(m, reqs[0].0, reqs[0].1).1] + allocate_outcomes(
            allocate_model(m, reqs[0].0, reqs[0].1).0,
            reqs.drop_first(),
        )
    }
}

/// *Pool conservation.* Starting well-formed, with none of the
/// requested pairs present and a pool of at least N keys, a run of N
/// pairwise-distinct requests succeeds freshly at every step, consumes
/// exactly N pool keys, and appends exactly N audit rows and N URL
/// rows.
pub proof fn lemma_pool_conservation(m: StoreModel, reqs: Seq<(int, Seq<char>)>)
    requires
        store_wf(m),
        reqs.len() <= m.generated.len(),
        forall|i: int, j: int|
            #![trigger reqs[i], reqs[j]]
            0 <= i < j < reqs.len() ==> reqs[i] != reqs[j],
        forall|i: int, k: int|
            #![trigger reqs[i], m.urls[k]]
            0 <= i < reqs.len() && 0 <= k < m.urls.len() ==> !url_matches(
                m.urls[k],
                reqs[i].0,
                reqs[i].1,
            ),
    ensures
        store_wf(allocate_all(m, reqs)),
        allocate_all(m, reqs).generated.len() == m.generated.len() - reqs.len(),
        allocate_all(m, reqs).used.len() == m.used.len() + reqs.len(),
        allocate_all(m, reqs).urls.len() == m.urls.len() + reqs.len(),
        allocate_outcomes(m, reqs).len() == reqs.len(),
        forall|i: int|
            0 <= i < reqs.len() ==> #[trigger] allocate_outcomes(m, reqs)[i] is Fresh,
    decreases reqs.len(),
{
    if reqs.len() > 0 {
        let uid0 = reqs[0].0;
        let t0 = reqs[0].1;
        assert forall|k: int| 0 <= k < m.urls.len() implies !url_matches(
            #[trigger] m.urls[k],
            uid0,
            t0,
        ) by {
            assert(reqs[0] == reqs[0]);
        }
        lemma_find_url_idx_none(m.urls, uid0, t0);
        let step = allocate_model(m, uid0, t0);
        let m1 = step.0;
        let row = step.1->Fresh_0;
        lemma_allocate_preserves_wf(m, uid0, t0);
        let rest = reqs.drop_first();
        assert(m1.generated.len() == m.generated.len() - 1) by {
            let secret = crate::text::lex_min_seq(m.generated);
            crate::text::lemma_lex_min_seq(m.generated);
            m.generated.index_of_first_ensures(secret);
            let fi = m.generated.index_of_first(secret).unwrap();
            m.generated.remove_ensures(fi);
        }

        assert forall|i: int, j: int|
            #![trigger rest[i], rest[j]]
            0 <= i < j < rest.len() implies rest[i] != rest[j] by {
            assert(rest[i] == reqs[i + 1] && rest[j] == reqs[j + 1]);
        }
        assert forall|i: int, k: int|
            #![trigger rest[i], m1.urls[k]]
            0 <= i < rest.len() && 0 <= k < m1.urls.len() implies !url_matches(
            m1.urls[k],
            rest[i].0,
            rest[i].1,
        ) by {
            assert(rest[i] == reqs[i + 1]);
            if k < m1.urls.len() - 1 {
                assert(m1.urls[k] == m.urls[k]);
            } else {
                assert(m1.urls[k] == row);
                assert(url_matches(row, uid0, t0));
                assert(reqs[i + 1] != reqs[0]);
            }
        }
        lemma_pool_conservation(m1, rest);
        assert(allocate_all(m, reqs) == allocate_all(m1, rest));
        let outs = allocate_outcomes(m, reqs);
        let outs1 = allocate_outcomes(m1, rest);
        assert(outs == seq![step.1] + outs1);
        assert forall|i: int| 0 <= i < reqs.len() implies #[trigger] outs[i] is Fresh by {
            if i == 0 {
                assert(outs[0] == step.1);
            } else {
                assert(outs[i] == outs1[i - 1]);
            }
        }
    }
}

/// *Drain.* A run of exactly as many pairwise-distinct fresh requests
/// as the pool holds succeeds at every step, empties the pool, and the
/// minted rows — like all rows — carry pairwise distinct keys.
pub proof fn lemma_drain_pool(m: StoreModel, reqs: Seq<(int, Seq<char>)>)
    requires
        store_wf(m),
        reqs.len() == m.generated.len(),
        forall|i: int, j: int|
            #![trigger reqs[i], reqs[j]]
            0 <= i < j < reqs.len() ==> reqs[i] != reqs[j],
        forall|i: int, k: int|
            #![trigger reqs[i], m.urls[k]]
            0 <= i < reqs.len() && 0 <= k < m.urls.len() ==> !url_matches(
                m.urls[k],
                reqs[i].0,
                reqs[i].1,
            ),
    ensures
        allocate_all(m, reqs).generated.len() == 0,
        forall|i: int|
            0 <= i < reqs.len() ==> #[trigger] allocate_outcomes(m, reqs)[i] is Fresh,
        forall|i: int, j: int|
            #![trigger allocate_all(m, reqs).urls[i], allocate_all(m, reqs).urls[j]]
            0 <= i < j < allocate_all(m, reqs).urls.len() ==> allocate_all(m, reqs).urls[i].key
                != allocate_all(m, reqs).urls[j].key && allocate_all(m, reqs).urls[i].secret_key
                != allocate_all(m, reqs).urls[j].secret_key,
{
    lemma_pool_conservation(m, reqs);
    lemma_allocation_uniqueness(allocate_all(m, reqs));
}

} // verus!
