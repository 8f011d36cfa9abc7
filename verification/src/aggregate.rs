//! Aggregation of normalized offers: mapping a hotspot list through
//! the normalizer, deduplicating across catalogs, and ordering by
//! cost per unit.

use vstd::prelude::*;
use vstd::multiset::Multiset;
use vstd::seq_lib::lemma_multiset_commutative;
use crate::json::Json;
use crate::normalize::create_offer;
use crate::normalize::spec_normalize;
use crate::offer::Offer;
use crate::offer::OfferModel;
use crate::offer::views;

verus! {

/// The offers that one hotspot list yields, in list order: each node
/// normalized, malformed or invalid records dropped.
pub open spec fn spec_normalize_all(s: Seq<Json>, dealer: Seq<char>) -> Seq<OfferModel>
    decreases s.len(),
{
    if s.len() == 0 {
        Seq::empty()
    } else {
        match spec_normalize(s[0], dealer) {
            Some(m) => seq![m] + spec_normalize_all(s.skip(1), dealer),
            None => spec_normalize_all(s.skip(1), dealer),
        }
    }
}

/// Normalizes every hotspot of one catalog for the named dealer,
/// dropping malformed records silently.
pub fn offers_from_hotspots(hotspots: &Vec<Json>, dealer_name: &str) -> (r: Vec<Offer>)
    ensures
        views(r@) == spec_normalize_all(hotspots@, dealer_name@),
{
    let n = hotspots.len();
    let mut out: Vec<Offer> = Vec::new();
    proof {
        assert(hotspots@.skip(0) =~= hotspots@);
        assert(views(out@) + spec_normalize_all(hotspots@, dealer_name@) =~= spec_normalize_all(
            hotspots@,
            dealer_name@,
        ));
    }
    for i in 0..n
        invariant
            n == hotspots@.len(),
            spec_normalize_all(hotspots@, dealer_name@) == views(out@) + spec_normalize_all(
                hotspots@.skip(i as int),
                dealer_name@,
            ),
    {
        let ghost pre = hotspots@.skip(i as int);
        let ghost old_out = out@;
        proof {
            assert(pre[0] == hotspots@[i as int]);
            assert(pre.skip(1) =~= hotspots@.skip(i + 1));
        }
        match create_offer(&hotspots[i], dealer_name) {
            Some(o) => {
                out.push(o);
                proof {
                    assert(views(out@) =~= views(old_out) + seq![out@[out@.len() - 1]@]);
                    assert(views(old_out) + spec_normalize_all(pre, dealer_name@) =~= views(out@)
                        + spec_normalize_all(hotspots@.skip(i + 1), dealer_name@));
                }
            },
            None => {},
        }
    }
    proof {
        assert(spec_normalize_all(hotspots@.skip(n as int), dealer_name@) =~= Seq::empty());
        assert(views(out@) + Seq::<OfferModel>::empty() =~= views(out@));
    }
    out
}

/// The offers of one dealer: each catalog's hotspot list normalized,
/// the results joined in catalog order.
pub open spec fn spec_normalize_lists(s: Seq<Seq<Json>>, dealer: Seq<char>) -> Seq<OfferModel>
    decreases s.len(),
{
    if s.len() == 0 {
        Seq::empty()
    } else {
        spec_normalize_all(s[0], dealer) + spec_normalize_lists(s.skip(1), dealer)
    }
}

/// Composes one dealer's retrieval: normalizes the hotspot list of
/// each of its catalogs and joins the results, the dealer's display
/// name attached to every record.
pub fn offers_for_dealer(hotspot_lists: &Vec<Vec<Json>>, dealer_name: &str) -> (r: Vec<Offer>)
    ensures
        views(r@) == spec_normalize_lists(
            hotspot_lists@.map_values(|v: Vec<Json>| v@),
            dealer_name@,
        ),
{
    let ghost lists = hotspot_lists@.map_values(|v: Vec<Json>| v@);
    let n = hotspot_lists.len();
    let mut out: Vec<Offer> = Vec::new();
    proof {
        assert(lists.skip(0) =~= lists);
        assert(views(out@) + spec_normalize_lists(lists, dealer_name@) =~= spec_normalize_lists(
            lists,
            dealer_name@,
        ));
    }
    for i in 0..n
        invariant
            n == hotspot_lists@.len(),
            lists == hotspot_lists@.map_values(|v: Vec<Json>| v@),
            spec_normalize_lists(lists, dealer_name@) == views(out@) + spec_normalize_lists(
                lists.skip(i as int),
                dealer_name@,
            ),
    {
        let ghost old_out = out@;
        let mut part = offers_from_hotspots(&hotspot_lists[i], dealer_name);
        let ghost part_models = views(part@);
        out.append(&mut part);
        proof {
            assert(lists.skip(i as int)[0] == lists[i as int]);
            assert(lists[i as int] == hotspot_lists@[i as int]@);
            assert(lists.skip(i as int).skip(1) =~= lists.skip(i + 1));
            assert(views(out@) =~= views(old_out) + part_models);
            assert(views(old_out) + (part_models + spec_normalize_lists(
                lists.skip(i + 1),
                dealer_name@,
            )) =~= views(out@) + spec_normalize_lists(lists.skip(i + 1), dealer_name@));
        }
    }
    proof {
        assert(spec_normalize_lists(lists.skip(n as int), dealer_name@) =~= Seq::empty());
        assert(views(out@) + Seq::<OfferModel>::empty() =~= views(out@));
    }
    out
}

/// Law: every record a hotspot list yields satisfies the offer
/// invariant, because the normalizer drops any that does not.
pub proof fn lemma_normalize_all_valid(s: Seq<Json>, dealer: Seq<char>)
    ensures
        forall|t: int|
            0 <= t < spec_normalize_all(s, dealer).len() ==> (#[trigger] spec_normalize_all(
                s,
                dealer,
            )[t]).spec_valid(),
    decreases s.len(),
{
    if s.len() == 0 {
    } else {
        lemma_normalize_all_valid(s.skip(1), dealer);
        crate::normalize::lemma_normalized_valid(s[0], dealer);
        let r = spec_normalize_all(s, dealer);
        let rest = spec_normalize_all(s.skip(1), dealer);
        match spec_normalize(s[0], dealer) {
            Some(m) => {
                assert(r == seq![m] + rest);
                assert forall|t: int| 0 <= t < r.len() implies (#[trigger] r[t]).spec_valid() by {
                    if t == 0 {
                        assert(r[0] == m);
                    } else {
                        assert(r[t] == rest[t - 1]);
                    }
                };
            },
            None => {
                assert(r == rest);
            },
        }
    }
}

/// Law: every record a dealer's whole retrieval yields satisfies the
/// offer invariant.
pub proof fn lemma_normalize_lists_valid(s: Seq<Seq<Json>>, dealer: Seq<char>)
    ensures
        forall|t: int|
            0 <= t < spec_normalize_lists(s, dealer).len() ==> (#[trigger] spec_normalize_lists(
                s,
                dealer,
            )[t]).spec_valid(),
    decreases s.len(),
{
    if s.len() == 0 {
    } else {
        lemma_normalize_lists_valid(s.skip(1), dealer);
        lemma_normalize_all_valid(s[0], dealer);
        let r = spec_normalize_lists(s, dealer);
        let head = spec_normalize_all(s[0], dealer);
        let rest = spec_normalize_lists(s.skip(1), dealer);
        assert(r == head + rest);
        assert forall|t: int| 0 <= t < r.len() implies (#[trigger] r[t]).spec_valid() by {
            if t < head.len() {
                assert(r[t] == head[t]);
            } else {
                assert(r[t] == rest[t - head.len()]);
            }
        };
    }
}

/// Whether `m` is a duplicate of some member of `s`.
pub open spec fn spec_dup_in(s: Seq<OfferModel>, m: OfferModel) -> bool {
    exists|k: int| 0 <= k < s.len() && s[k].spec_is_dup(m)
}

/// No two members of `s` are duplicates of one another.
pub open spec fn spec_dup_free(s: Seq<OfferModel>) -> bool {
    forall|a: int, b: int| 0 <= a < b < s.len() ==> !s[a].spec_is_dup(s[b])
}

/// Walks `s` in order, keeping each member that duplicates nothing
/// kept so far.
pub open spec fn spec_dedup_from(s: Seq<OfferModel>, kept: Seq<OfferModel>) -> Seq<OfferModel>
    decreases s.len(),
{
    if s.len() == 0 {
        kept
    } else if spec_dup_in(kept, s[0]) {
        spec_dedup_from(s.skip(1), kept)
    } else {
        spec_dedup_from(s.skip(1), kept.push(s[0]))
    }
}

/// The first-occurrence deduplication of `s`.
pub open spec fn spec_dedup(s: Seq<OfferModel>) -> Seq<OfferModel> {
    spec_dedup_from(s, Seq::empty())
}

/// Whether `o` duplicates some record of `kept`.
fn contains_dup(kept: &Vec<Offer>, o: &Offer) -> (r: bool)
    ensures
        r == spec_dup_in(views(kept@), o@),
{
    let m = kept.len();
    for k in 0..m
        invariant
            m == kept@.len(),
            forall|t: int| 0 <= t < k ==> !(#[trigger] views(kept@)[t]).spec_is_dup(o@),
    {
        if kept[k].is_dup(o) {
            proof {
                assert(views(kept@)[k as int] == kept@[k as int]@);
            }
            return true;
        }
        proof {
            assert(views(kept@)[k as int] == kept@[k as int]@);
        }
    }
    false
}

/// Drops every record that duplicates an earlier one, keeping first
/// occurrences in their order.
pub fn dedup(offers: &Vec<Offer>) -> (r: Vec<Offer>)
    ensures
        views(r@) == spec_dedup(views(offers@)),
{
    let n = offers.len();
    let mut out: Vec<Offer> = Vec::new();
    proof {
        assert(views(offers@).skip(0) =~= views(offers@));
        assert(views(out@) =~= Seq::<OfferModel>::empty());
    }
    for i in 0..n
        invariant
            n == offers@.len(),
            spec_dedup(views(offers@)) == spec_dedup_from(
                views(offers@).skip(i as int),
                views(out@),
            ),
    {
        let ghost pre = views(offers@).skip(i as int);
        let ghost old_out = out@;
        proof {
            assert(pre[0] == views(offers@)[i as int]);
            assert(views(offers@)[i as int] == offers@[i as int]@);
            assert(pre.skip(1) =~= views(offers@).skip(i + 1));
        }
        if !contains_dup(&out, &offers[i]) {
            let o = offers[i].clone();
            out.push(o);
            proof {
                assert(views(out@) =~= views(old_out).push(offers@[i as int]@));
            }
        }
    }
    proof {
        assert(views(offers@).skip(n as int) =~= Seq::<OfferModel>::empty());
    }
    out
}

/// Ascending order of derived cost per unit.
pub open spec fn spec_sorted_by_cost(s: Seq<OfferModel>) -> bool {
    forall|a: int, b: int| 0 <= a < b < s.len() ==> s[a].cost_per_unit <= s[b].cost_per_unit
}

/// Inserting a record in the middle of a sequence adds exactly it to
/// the sequence's multiset.
proof fn lemma_insert_mid_multiset(s: Seq<OfferModel>, p: int, x: OfferModel)
    requires
        0 <= p <= s.len(),
    ensures
        (s.take(p) + seq![x] + s.skip(p)).to_multiset() =~= s.to_multiset().insert(x),
{
    broadcast use vstd::seq_lib::group_to_multiset_ensures;

    let t = s.take(p);
    let k = s.skip(p);
    lemma_multiset_commutative(t + seq![x], k);
    lemma_multiset_commutative(t, seq![x]);
    lemma_multiset_commutative(t, k);
    assert(t + k =~= s);
    assert(seq![x] =~= Seq::<OfferModel>::empty().push(x));
    assert(seq![x].to_multiset() =~= Seq::<OfferModel>::empty().to_multiset().insert(x));
    assert(Seq::<OfferModel>::empty().to_multiset() =~= Multiset::<OfferModel>::empty());
}

/// Orders records by ascending cost per unit, by insertion into a
/// growing sorted copy; records of equal cost keep their relative
/// order, so the result is deterministic in the input.
pub fn sort_by_cost(offers: &Vec<Offer>) -> (r: Vec<Offer>)
    ensures
        spec_sorted_by_cost(views(r@)),
        views(r@).to_multiset() == views(offers@).to_multiset(),
{
    let n = offers.len();
    let mut out: Vec<Offer> = Vec::new();
    proof {
        broadcast use vstd::seq_lib::group_to_multiset_ensures;

        assert(views(out@) =~= Seq::<OfferModel>::empty());
        assert(views(offers@).take(0) =~= Seq::<OfferModel>::empty());
    }
    for i in 0..n
        invariant
            n == offers@.len(),
            spec_sorted_by_cost(views(out@)),
            views(out@).to_multiset() == views(offers@).take(i as int).to_multiset(),
    {
        let o = offers[i].clone();
        let m = out.len();
        let mut p: usize = 0;
        while p < m && out[p].cost_per_unit <= o.cost_per_unit
            invariant
                m == out@.len(),
                p <= m,
                o@.cost_per_unit == offers@[i as int]@.cost_per_unit,
                forall|t: int|
                    0 <= t < p ==> (#[trigger] views(out@)[t]).cost_per_unit <= o@.cost_per_unit,
            decreases m - p,
        {
            proof {
                assert(views(out@)[p as int] == out@[p as int]@);
            }
            p += 1;
        }
        let ghost old_out = views(out@);
        proof {
            assert(p < m ==> out@[p as int]@.cost_per_unit > o@.cost_per_unit);
        }
        out.insert(p, o);
        proof {
            broadcast use vstd::seq_lib::group_to_multiset_ensures;

            assert(views(out@) =~= old_out.take(p as int) + seq![o@] + old_out.skip(p as int));
            lemma_insert_mid_multiset(old_out, p as int, o@);
            assert(spec_sorted_by_cost(views(out@))) by {
                let nv = views(out@);
                assert forall|a: int, b: int| 0 <= a < b < nv.len() implies nv[a].cost_per_unit
                    <= nv[b].cost_per_unit by {
                    if a < p && b < p {
                        assert(nv[a] == old_out[a] && nv[b] == old_out[b]);
                    } else if a < p && b == p {
                        assert(nv[a] == old_out[a]);
                    } else if a < p && b > p {
                        assert(nv[a] == old_out[a] && nv[b] == old_out[b - 1]);
                        if p <= b - 1 {
                            assert(old_out[a].cost_per_unit <= old_out[b - 1].cost_per_unit);
                        }
                    } else if a == p && b > p {
                        assert(nv[b] == old_out[b - 1]);
                        if p < m {
                            assert(old_out[p as int].cost_per_unit <= old_out[b
                                - 1].cost_per_unit);
                        }
                    } else {
                        assert(nv[a] == old_out[a - 1] && nv[b] == old_out[b - 1]);
                    }
                };
            };
            assert(views(offers@).take(i + 1) =~= views(offers@).take(i as int).push(
                offers@[i as int]@,
            ));
            assert(views(offers@).take(i + 1).to_multiset() =~= views(offers@).take(
                i as int,
            ).to_multiset().insert(offers@[i as int]@));
            assert(o@ =~= offers@[i as int]@);
            assert(views(out@).to_multiset() =~= views(offers@).take(i + 1).to_multiset());
        }
    }
    proof {
        assert(views(offers@).take(n as int) =~= views(offers@));
    }
    out
}

/// Law: deduplication leaves no two records that are duplicates of
/// one another, by upstream id or by dealer, heading and window.
pub proof fn lemma_dedup_from_dup_free(s: Seq<OfferModel>, kept: Seq<OfferModel>)
    requires
        spec_dup_free(kept),
    ensures
        spec_dup_free(spec_dedup_from(s, kept)),
    decreases s.len(),
{
    if s.len() == 0 {
    } else if spec_dup_in(kept, s[0]) {
        lemma_dedup_from_dup_free(s.skip(1), kept);
    } else {
        let pushed = kept.push(s[0]);
        assert forall|a: int, b: int| 0 <= a < b < pushed.len() implies !pushed[a].spec_is_dup(
            pushed[b],
        ) by {
            if b < kept.len() {
                assert(!kept[a].spec_is_dup(kept[b]));
            } else {
                assert(pushed[b] == s[0]);
                assert(!kept[a].spec_is_dup(s[0]));
            }
        };
        lemma_dedup_from_dup_free(s.skip(1), pushed);
    }
}

/// Law: the deduplicated sequence is free of duplicates.
pub proof fn lemma_dedup_dup_free(s: Seq<OfferModel>)
    ensures
        spec_dup_free(spec_dedup(s)),
{
    lemma_dedup_from_dup_free(s, Seq::empty());
}

/// What was already kept stays, as a prefix, through the rest of the
/// walk.
proof fn lemma_dedup_from_keeps(s: Seq<OfferModel>, kept: Seq<OfferModel>)
    ensures
        spec_dedup_from(s, kept).len() >= kept.len(),
        forall|t: int| 0 <= t < kept.len() ==> spec_dedup_from(s, kept)[t] == kept[t],
    decreases s.len(),
{
    if s.len() == 0 {
    } else if spec_dup_in(kept, s[0]) {
        lemma_dedup_from_keeps(s.skip(1), kept);
        assert(spec_dedup_from(s, kept) == spec_dedup_from(s.skip(1), kept));
    } else {
        let pushed = kept.push(s[0]);
        lemma_dedup_from_keeps(s.skip(1), pushed);
        assert(spec_dedup_from(s, kept) == spec_dedup_from(s.skip(1), pushed));
        assert forall|t: int| 0 <= t < kept.len() implies spec_dedup_from(s, kept)[t]
            == kept[t] by {
            assert(spec_dedup_from(s.skip(1), pushed)[t] == pushed[t]);
            assert(pushed[t] == kept[t]);
        };
    }
}

/// Law: nothing is lost — every input record has a duplicate
/// representative in the deduplicated sequence.
pub proof fn lemma_dedup_from_covers(s: Seq<OfferModel>, kept: Seq<OfferModel>)
    ensures
        forall|t: int|
            0 <= t < s.len() ==> spec_dup_in(spec_dedup_from(s, kept), #[trigger] s[t]),
    decreases s.len(),
{
    if s.len() == 0 {
    } else {
        let r = spec_dedup_from(s, kept);
        if spec_dup_in(kept, s[0]) {
            lemma_dedup_from_covers(s.skip(1), kept);
            let k = choose|k: int| 0 <= k < kept.len() && kept[k].spec_is_dup(s[0]);
            lemma_dedup_from_keeps(s.skip(1), kept);
            assert(r[k] == kept[k]);
            assert(spec_dup_in(r, s[0]));
        } else {
            let pushed = kept.push(s[0]);
            lemma_dedup_from_covers(s.skip(1), pushed);
            lemma_dedup_from_keeps(s.skip(1), pushed);
            assert(r == spec_dedup_from(s.skip(1), pushed));
            assert(spec_dedup_from(s.skip(1), pushed)[kept.len() as int] == pushed[kept.len() as int]);
            assert(r[kept.len() as int] == s[0]);
            assert(s[0].spec_is_dup(s[0]));
            assert(spec_dup_in(r, s[0]));
        }
        assert forall|t: int| 0 <= t < s.len() implies spec_dup_in(r, #[trigger] s[t]) by {
            if t > 0 {
                assert(s.skip(1)[t - 1] == s[t]);
            }
        };
    }
}

/// Law: every input record has a duplicate representative in the
/// deduplicated sequence.
pub proof fn lemma_dedup_covers(s: Seq<OfferModel>)
    ensures
        forall|t: int| 0 <= t < s.len() ==> spec_dup_in(spec_dedup(s), #[trigger] s[t]),
{
    lemma_dedup_from_covers(s, Seq::empty());
}

/// Every record of the deduplicated sequence was kept before or is an
/// input record.
proof fn lemma_dedup_from_membership(s: Seq<OfferModel>, kept: Seq<OfferModel>)
    ensures
        forall|t: int|
            0 <= t < spec_dedup_from(s, kept).len() ==> (kept + s).contains(
                #[trigger] spec_dedup_from(s, kept)[t],
            ),
    decreases s.len(),
{
    let r = spec_dedup_from(s, kept);
    if s.len() == 0 {
        assert(r == kept);
        assert forall|t: int| 0 <= t < r.len() implies (kept + s).contains(#[trigger] r[t]) by {
            assert((kept + s)[t] == r[t]);
        };
    } else if spec_dup_in(kept, s[0]) {
        let r2 = spec_dedup_from(s.skip(1), kept);
        assert(r == r2);
        lemma_dedup_from_membership(s.skip(1), kept);
        assert forall|t: int| 0 <= t < r.len() implies (kept + s).contains(#[trigger] r[t]) by {
            assert((kept + s.skip(1)).contains(r2[t]));
            let w = choose|w: int|
                0 <= w < (kept + s.skip(1)).len() && (kept + s.skip(1))[w] == r2[t];
            if w < kept.len() {
                assert((kept + s)[w] == r2[t]);
            } else {
                assert((kept + s)[w + 1] == r2[t]);
            }
        };
    } else {
        let pushed = kept.push(s[0]);
        let r2 = spec_dedup_from(s.skip(1), pushed);
        assert(r == r2);
        lemma_dedup_from_membership(s.skip(1), pushed);
        assert(pushed + s.skip(1) =~= kept + s);
        assert forall|t: int| 0 <= t < r.len() implies (kept + s).contains(#[trigger] r[t]) by {
            assert((pushed + s.skip(1)).contains(r2[t]));
        };
    }
}

/// Law: every record of the deduplicated sequence was an input
/// record.
pub proof fn lemma_dedup_membership(s: Seq<OfferModel>)
    ensures
        forall|t: int|
            0 <= t < spec_dedup(s).len() ==> s.contains(#[trigger] spec_dedup(s)[t]),
{
    lemma_dedup_from_membership(s, Seq::empty());
    assert(Seq::<OfferModel>::empty() + s =~= s);
}

/// Law: deduplication keeps first occurrences in their order, so an
/// input ordered by cost per unit yields an output ordered the same
/// way.
proof fn lemma_dedup_from_sorted(s: Seq<OfferModel>, kept: Seq<OfferModel>)
    requires
        spec_sorted_by_cost(kept + s),
    ensures
        spec_sorted_by_cost(spec_dedup_from(s, kept)),
    decreases s.len(),
{
    if s.len() == 0 {
        assert(kept + s =~= kept);
    } else if spec_dup_in(kept, s[0]) {
        assert(spec_sorted_by_cost(kept + s.skip(1))) by {
            let c = kept + s.skip(1);
            assert forall|a: int, b: int| 0 <= a < b < c.len() implies c[a].cost_per_unit
                <= c[b].cost_per_unit by {
                let full = kept + s;
                let a2 = if a < kept.len() { a } else { a + 1 };
                let b2 = if b < kept.len() { b } else { b + 1 };
                assert(c[a] == full[a2] && c[b] == full[b2]);
                assert(full[a2].cost_per_unit <= full[b2].cost_per_unit);
            };
        };
        lemma_dedup_from_sorted(s.skip(1), kept);
    } else {
        assert(kept.push(s[0]) + s.skip(1) =~= kept + s);
        lemma_dedup_from_sorted(s.skip(1), kept.push(s[0]));
    }
}

/// Law: deduplicating a cost-ordered sequence keeps it cost-ordered.
pub proof fn lemma_dedup_sorted(s: Seq<OfferModel>)
    requires
        spec_sorted_by_cost(s),
    ensures
        spec_sorted_by_cost(spec_dedup(s)),
{
    assert(Seq::<OfferModel>::empty() + s =~= s);
    lemma_dedup_from_sorted(s, Seq::empty());
}

/// The images of a sequence of offer vectors.
pub open spec fn models_of(s: Seq<Vec<Offer>>) -> Seq<Seq<OfferModel>> {
    s.map_values(|v: Vec<Offer>| views(v@))
}

/// All the sequences of `s`, joined in order.
pub open spec fn spec_concat_models(s: Seq<Seq<OfferModel>>) -> Seq<OfferModel>
    decreases s.len(),
{
    if s.len() == 0 {
        Seq::empty()
    } else {
        s[0] + spec_concat_models(s.skip(1))
    }
}

/// Joins the per-dealer result vectors into one, in order.
pub fn concat_all(results: Vec<Vec<Offer>>) -> (r: Vec<Offer>)
    ensures
        views(r@) == spec_concat_models(models_of(results@)),
{
    let ghost orig = results@;
    let mut rem = results;
    let mut out: Vec<Offer> = Vec::new();
    proof {
        assert(models_of(orig).skip(0) =~= models_of(orig));
        assert(views(out@) + spec_concat_models(models_of(orig)) =~= spec_concat_models(
            models_of(orig),
        ));
    }
    while rem.len() > 0
        invariant
            rem@ =~= orig.skip(orig.len() - rem@.len()),
            rem@.len() <= orig.len(),
            spec_concat_models(models_of(orig)) == views(out@) + spec_concat_models(
                models_of(rem@),
            ),
        decreases rem@.len(),
    {
        let ghost old_rem = rem@;
        let ghost old_out = out@;
        let mut first = rem.remove(0);
        let ghost moved = first@;
        out.append(&mut first);
        proof {
            assert(rem@ =~= old_rem.skip(1));
            assert(out@ =~= old_out + moved);
            assert(models_of(old_rem)[0] == views(moved));
            assert(models_of(old_rem).skip(1) =~= models_of(rem@));
            assert(spec_concat_models(models_of(old_rem)) == views(moved) + spec_concat_models(
                models_of(rem@),
            ));
            assert(views(out@) =~= views(old_out) + views(moved));
            assert(views(old_out) + (views(moved) + spec_concat_models(models_of(rem@)))
                =~= views(out@) + spec_concat_models(models_of(rem@)));
            assert(orig.skip(orig.len() - old_rem.len()).skip(1) =~= orig.skip(
                orig.len() - rem@.len(),
            ));
        }
    }
    proof {
        assert(spec_concat_models(models_of(rem@)) =~= Seq::<OfferModel>::empty());
        assert(views(out@) + Seq::<OfferModel>::empty() =~= views(out@));
    }
    out
}

} // verus!
