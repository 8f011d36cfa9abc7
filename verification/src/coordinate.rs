//! The retrieval coordinator's decisions and its merge step.
//!
//! The coordinator either reuses the cached offer sequence or
//! refreshes from the remote API. The refresh decision is a pure
//! function of three facts the collaborators supply: whether a cache
//! could be loaded, whether the favorites set changed, and whether the
//! cache is still within its time-to-live. The merge step joins the
//! per-dealer results, orders them by cost per unit, and drops
//! duplicate promotions.

use vstd::prelude::*;
use crate::aggregate::concat_all;
use crate::aggregate::dedup;
use crate::aggregate::lemma_dedup_covers;
use crate::aggregate::lemma_dedup_dup_free;
use crate::aggregate::lemma_dedup_membership;
use crate::aggregate::lemma_dedup_sorted;
use crate::aggregate::models_of;
use crate::aggregate::sort_by_cost;
use crate::aggregate::spec_concat_models;
use crate::aggregate::spec_dup_free;
use crate::aggregate::spec_dup_in;
use crate::aggregate::spec_sorted_by_cost;
use crate::offer::Offer;
use crate::offer::views;

verus! {

/// The refresh rule of the decision table: refresh exactly when no
/// cache could be loaded, or the favorites changed, or the cache is
/// stale.
pub open spec fn spec_should_refresh(
    cache_present: bool,
    favorites_changed: bool,
    cache_fresh: bool,
) -> bool {
    !cache_present || favorites_changed || !cache_fresh
}

/// Decides between reusing the cache and refreshing from remote.
pub fn should_refresh(cache_present: bool, favorites_changed: bool, cache_fresh: bool) -> (r:
    bool)
    ensures
        r == spec_should_refresh(cache_present, favorites_changed, cache_fresh),
{
    !cache_present || favorites_changed || !cache_fresh
}

/// Law: a change of the favorites set always pre-empts the cache,
/// whatever its state.
pub proof fn lemma_favorites_change_preempts(cache_present: bool, cache_fresh: bool)
    ensures
        spec_should_refresh(cache_present, true, cache_fresh),
{
}

/// Law: a present, fresh cache with unchanged favorites is reused —
/// the only row of the decision table that avoids the network.
pub proof fn lemma_fresh_cache_reused(
    cache_present: bool,
    favorites_changed: bool,
    cache_fresh: bool,
)
    ensures
        !spec_should_refresh(cache_present, favorites_changed, cache_fresh) <==> (cache_present
            && !favorites_changed && cache_fresh),
{
}

/// Merges the per-dealer offer vectors: joins them, orders by
/// ascending cost per unit, and drops duplicate promotions, keeping
/// the cheapest representative.
pub fn merge_offers(results: Vec<Vec<Offer>>) -> (r: Vec<Offer>)
    ensures
        spec_dup_free(views(r@)),
        spec_sorted_by_cost(views(r@)),
        forall|t: int|
            0 <= t < views(r@).len() ==> spec_concat_models(models_of(results@)).contains(
                #[trigger] views(r@)[t],
            ),
        forall|t: int|
            0 <= t < spec_concat_models(models_of(results@)).len() ==> spec_dup_in(
                views(r@),
                #[trigger] spec_concat_models(models_of(results@))[t],
            ),
        (forall|t: int|
            0 <= t < spec_concat_models(models_of(results@)).len()
                ==> (#[trigger] spec_concat_models(models_of(results@))[t]).spec_valid())
            ==> forall|t: int|
            0 <= t < views(r@).len() ==> (#[trigger] views(r@)[t]).spec_valid(),
{
    let ghost all_models = spec_concat_models(models_of(results@));
    let all = concat_all(results);
    let sorted = sort_by_cost(&all);
    let out = dedup(&sorted);
    proof {
        broadcast use vstd::seq_lib::group_to_multiset_ensures;

        lemma_dedup_dup_free(views(sorted@));
        lemma_dedup_sorted(views(sorted@));
        lemma_dedup_membership(views(sorted@));
        lemma_dedup_covers(views(sorted@));
        assert forall|t: int| 0 <= t < views(out@).len() implies all_models.contains(
            #[trigger] views(out@)[t],
        ) by {
            assert(views(sorted@).contains(views(out@)[t]));
            assert(views(sorted@).to_multiset().count(views(out@)[t]) > 0);
            assert(all_models.to_multiset().count(views(out@)[t]) > 0);
        };
        assert forall|t: int| 0 <= t < all_models.len() implies spec_dup_in(
            views(out@),
            #[trigger] all_models[t],
        ) by {
            assert(all_models.contains(all_models[t]));
            assert(all_models.to_multiset().count(all_models[t]) > 0);
            assert(views(sorted@).to_multiset().count(all_models[t]) > 0);
            assert(views(sorted@).contains(all_models[t]));
            let w = choose|w: int|
                0 <= w < views(sorted@).len() && views(sorted@)[w] == all_models[t];
            assert(spec_dup_in(views(out@), views(sorted@)[w]));
        };
        if forall|t: int|
            0 <= t < all_models.len() ==> (#[trigger] all_models[t]).spec_valid() {
            assert forall|t: int| 0 <= t < views(out@).len() implies (#[trigger] views(
                out@,
            )[t]).spec_valid() by {
                assert(all_models.contains(views(out@)[t]));
                let w = choose|w: int|
                    0 <= w < all_models.len() && all_models[w] == views(out@)[t];
                assert(all_models[w].spec_valid());
            };
        }
    }
    out
}

} // verus!
