//! The on-disk offer cache, as a JSON document.
//!
//! One complete retrieval result is persisted wholesale as a JSON
//! array with one object per offer, dates in `YYYY-MM-DD` form. The
//! codec here builds and reads that document as a [`Json`] tree; the
//! boundary of the application moves the tree to and from the cache
//! file's bytes. Encoding then decoding recovers every record
//! exactly, which the encoder's contract states against the decoder's
//! specification.

use vstd::prelude::*;
use crate::date::format_date;
use crate::date::lemma_date_round_trip;
use crate::date::parse_date;
use crate::json::Json;
use crate::json::spec_lookup;
use crate::normalize::s_date;
use crate::normalize::s_milli;
use crate::normalize::s_str;
use crate::normalize::s_u64;
use crate::offer::Offer;
use crate::offer::OfferModel;
use crate::offer::views;

verus! {

/// The offer record a cache object node denotes: every attribute
/// present and well-typed, and the whole record satisfying the offer
/// invariant; anything less is a schema mismatch.
pub open spec fn spec_parse_offer(j: Json) -> Option<OfferModel> {
    let id = s_str(j.spec_get("id"@));
    let name = s_str(j.spec_get("name"@));
    let dealer = s_str(j.spec_get("dealer"@));
    let price = s_milli(j.spec_get("price"@));
    let cpu = s_milli(j.spec_get("cost_per_unit"@));
    let unit = s_str(j.spec_get("unit"@));
    let min_size = s_milli(j.spec_get("min_size"@));
    let max_size = s_milli(j.spec_get("max_size"@));
    let min_amount = s_u64(j.spec_get("min_amount"@));
    let max_amount = s_u64(j.spec_get("max_amount"@));
    let run_from = s_date(s_str(j.spec_get("run_from"@)));
    let run_till = s_date(s_str(j.spec_get("run_till"@)));
    if id is Some && name is Some && dealer is Some && price is Some && cpu is Some && unit
        is Some && min_size is Some && max_size is Some && min_amount is Some && max_amount
        is Some && run_from is Some && run_till is Some && min_amount->0 <= u32::MAX
        && max_amount->0 <= u32::MAX {
        let m = OfferModel {
            id: id->0,
            name: name->0,
            dealer: dealer->0,
            price: price->0,
            cost_per_unit: cpu->0,
            unit: unit->0,
            min_size: min_size->0,
            max_size: max_size->0,
            min_amount: min_amount->0 as u32,
            max_amount: max_amount->0 as u32,
            run_from: run_from->0,
            run_till: run_till->0,
        };
        if m.spec_valid() {
            Some(m)
        } else {
            None
        }
    } else {
        None
    }
}

/// A lookup lands on position `i` when no earlier member bears the
/// key.
proof fn lemma_lookup_at(entries: Seq<(String, Json)>, key: Seq<char>, i: int)
    requires
        0 <= i < entries.len(),
        entries[i].0@ == key,
        forall|j: int| 0 <= j < i ==> entries[j].0@ != key,
    ensures
        spec_lookup(entries, key) == Some(entries[i].1),
    decreases i,
{
    if i == 0 {
    } else {
        lemma_lookup_at(entries.skip(1), key, i - 1);
        assert(entries.skip(1)[i - 1] == entries[i]);
        assert forall|j: int| 0 <= j < i - 1 implies entries.skip(1)[j].0@ != key by {
            assert(entries.skip(1)[j] == entries[j + 1]);
        };
    }
}

/// Encodes one offer as a cache object node. Decoding the node per
/// [`spec_parse_offer`] recovers exactly the record's image.
pub fn offer_to_json(o: &Offer) -> (r: Json)
    requires
        o@.spec_valid(),
    ensures
        spec_parse_offer(r) == Some(o@),
{
    let mut members: Vec<(String, Json)> = Vec::new();
    members.push((String::from_str("id"), Json::Str(o.id.clone())));
    members.push((String::from_str("name"), Json::Str(o.name.clone())));
    members.push((String::from_str("dealer"), Json::Str(o.dealer.clone())));
    members.push((String::from_str("price"), Json::Milli(o.price)));
    members.push((String::from_str("cost_per_unit"), Json::Milli(o.cost_per_unit)));
    members.push((String::from_str("unit"), Json::Str(o.unit.clone())));
    members.push((String::from_str("min_size"), Json::Milli(o.min_size)));
    members.push((String::from_str("max_size"), Json::Milli(o.max_size)));
    members.push((String::from_str("min_amount"), Json::UInt(o.min_amount as u64)));
    members.push((String::from_str("max_amount"), Json::UInt(o.max_amount as u64)));
    members.push((String::from_str("run_from"), Json::Str(format_date(&o.run_from))));
    members.push((String::from_str("run_till"), Json::Str(format_date(&o.run_till))));
    let ghost entries = members@;
    let r = Json::Obj(members);
    proof {
        reveal_strlit("id");
        reveal_strlit("name");
        reveal_strlit("dealer");
        reveal_strlit("price");
        reveal_strlit("cost_per_unit");
        reveal_strlit("unit");
        reveal_strlit("min_size");
        reveal_strlit("max_size");
        reveal_strlit("min_amount");
        reveal_strlit("max_amount");
        reveal_strlit("run_from");
        reveal_strlit("run_till");
        assert("id"@.len() == 2 && "name"@.len() == 4 && "dealer"@.len() == 6 && "price"@.len()
            == 5 && "cost_per_unit"@.len() == 13 && "unit"@.len() == 4 && "min_size"@.len() == 8
            && "max_size"@.len() == 8 && "min_amount"@.len() == 10 && "max_amount"@.len() == 10
            && "run_from"@.len() == 8 && "run_till"@.len() == 8);
        assert("name"@[0] == 'n' && "unit"@[0] == 'u');
        assert("name"@ != "unit"@);
        assert("min_size"@[1] == 'i' && "max_size"@[1] == 'a');
        assert("min_size"@ != "max_size"@);
        assert("min_size"@[0] == 'm' && "max_size"@[0] == 'm' && "run_from"@[0] == 'r'
            && "run_till"@[0] == 'r');
        assert("min_size"@ != "run_from"@ && "min_size"@ != "run_till"@);
        assert("max_size"@ != "run_from"@ && "max_size"@ != "run_till"@);
        assert("run_from"@[4] == 'f' && "run_till"@[4] == 't');
        assert("run_from"@ != "run_till"@);
        assert("min_amount"@[1] == 'i' && "max_amount"@[1] == 'a');
        assert("min_amount"@ != "max_amount"@);
        lemma_lookup_at(entries, "id"@, 0);
        lemma_lookup_at(entries, "name"@, 1);
        lemma_lookup_at(entries, "dealer"@, 2);
        lemma_lookup_at(entries, "price"@, 3);
        lemma_lookup_at(entries, "cost_per_unit"@, 4);
        lemma_lookup_at(entries, "unit"@, 5);
        lemma_lookup_at(entries, "min_size"@, 6);
        lemma_lookup_at(entries, "max_size"@, 7);
        lemma_lookup_at(entries, "min_amount"@, 8);
        lemma_lookup_at(entries, "max_amount"@, 9);
        lemma_lookup_at(entries, "run_from"@, 10);
        lemma_lookup_at(entries, "run_till"@, 11);
        lemma_date_round_trip(o.run_from);
        lemma_date_round_trip(o.run_till);
        assert(spec_parse_offer(r)->0 =~= o@);
    }
    r
}

/// Decodes one cache object node into a validated offer.
pub fn parse_offer(j: &Json) -> (r: Option<Offer>)
    ensures
        match r {
            Some(o) => spec_parse_offer(*j) == Some(o@),
            None => spec_parse_offer(*j) is None,
        },
{
    let id = match j.get("id") {
        Some(v) => match v.as_str() {
            Some(s) => s,
            None => { return None },
        },
        None => { return None },
    };
    let name = match j.get("name") {
        Some(v) => match v.as_str() {
            Some(s) => s,
            None => { return None },
        },
        None => { return None },
    };
    let dealer = match j.get("dealer") {
        Some(v) => match v.as_str() {
            Some(s) => s,
            None => { return None },
        },
        None => { return None },
    };
    let price = match j.get("price") {
        Some(v) => match v.as_milli() {
            Some(n) => n,
            None => { return None },
        },
        None => { return None },
    };
    let cpu = match j.get("cost_per_unit") {
        Some(v) => match v.as_milli() {
            Some(n) => n,
            None => { return None },
        },
        None => { return None },
    };
    let unit = match j.get("unit") {
        Some(v) => match v.as_str() {
            Some(s) => s,
            None => { return None },
        },
        None => { return None },
    };
    let min_size = match j.get("min_size") {
        Some(v) => match v.as_milli() {
            Some(n) => n,
            None => { return None },
        },
        None => { return None },
    };
    let max_size = match j.get("max_size") {
        Some(v) => match v.as_milli() {
            Some(n) => n,
            None => { return None },
        },
        None => { return None },
    };
    let min_amount_raw = match j.get("min_amount") {
        Some(v) => match v.as_u64() {
            Some(n) => n,
            None => { return None },
        },
        None => { return None },
    };
    let max_amount_raw = match j.get("max_amount") {
        Some(v) => match v.as_u64() {
            Some(n) => n,
            None => { return None },
        },
        None => { return None },
    };
    let run_from = match j.get("run_from") {
        Some(v) => match v.as_str() {
            Some(s) => match parse_date(s.as_str()) {
                Some(d) => d,
                None => { return None },
            },
            None => { return None },
        },
        None => { return None },
    };
    let run_till = match j.get("run_till") {
        Some(v) => match v.as_str() {
            Some(s) => match parse_date(s.as_str()) {
                Some(d) => d,
                None => { return None },
            },
            None => { return None },
        },
        None => { return None },
    };
    if min_amount_raw > u32::MAX as u64 || max_amount_raw > u32::MAX as u64 {
        return None;
    }
    let candidate = Offer {
        id: id.clone(),
        name: name.clone(),
        dealer: dealer.clone(),
        price,
        cost_per_unit: cpu,
        unit: unit.clone(),
        min_size,
        max_size,
        min_amount: min_amount_raw as u32,
        max_amount: max_amount_raw as u32,
        run_from,
        run_till,
    };
    proof {
        let m = OfferModel {
            id: id@,
            name: name@,
            dealer: dealer@,
            price: price,
            cost_per_unit: cpu,
            unit: unit@,
            min_size: min_size,
            max_size: max_size,
            min_amount: min_amount_raw as u32,
            max_amount: max_amount_raw as u32,
            run_from: run_from,
            run_till: run_till,
        };
        assert(m =~= candidate@);
        assert(spec_parse_offer(*j) == if m.spec_valid() {
            Some(m)
        } else {
            None::<OfferModel>
        });
    }
    if candidate.valid() {
        Some(candidate)
    } else {
        None
    }
}

/// Encodes a retrieval result as the cache document: a JSON array of
/// offer objects. Decoding every element per [`spec_parse_offer`]
/// recovers exactly the records' images, in order.
pub fn offers_to_json(offers: &Vec<Offer>) -> (r: Json)
    requires
        forall|k: int| 0 <= k < offers@.len() ==> (#[trigger] offers@[k]@).spec_valid(),
    ensures
        r.spec_as_arr() is Some,
        r.spec_as_arr()->0.len() == offers@.len(),
        forall|k: int|
            0 <= k < offers@.len() ==> spec_parse_offer(#[trigger] r.spec_as_arr()->0[k])
                == Some(offers@[k]@),
{
    let n = offers.len();
    let mut elems: Vec<Json> = Vec::new();
    for i in 0..n
        invariant
            n == offers@.len(),
            forall|k: int| 0 <= k < offers@.len() ==> (#[trigger] offers@[k]@).spec_valid(),
            elems@.len() == i,
            forall|k: int|
                0 <= k < i ==> spec_parse_offer(#[trigger] elems@[k]) == Some(offers@[k]@),
    {
        let e = offer_to_json(&offers[i]);
        elems.push(e);
    }
    Json::Arr(elems)
}

/// Decodes the cache document: a JSON array, every element of which
/// must be a valid offer object, or nothing — a corrupt cache is a
/// cache miss.
pub fn offers_from_json(j: &Json) -> (r: Option<Vec<Offer>>)
    ensures
        match r {
            Some(os) => {
                &&& j.spec_as_arr() is Some
                &&& os@.len() == j.spec_as_arr()->0.len()
                &&& forall|k: int|
                    0 <= k < os@.len() ==> spec_parse_offer(#[trigger] j.spec_as_arr()->0[k])
                        == Some(os@[k]@)
            },
            None => j.spec_as_arr() is None || exists|k: int|
                0 <= k < j.spec_as_arr()->0.len() && spec_parse_offer(
                    #[trigger] j.spec_as_arr()->0[k],
                ) is None,
        },
{
    let elems = match j.as_arr() {
        Some(v) => v,
        None => { return None },
    };
    let n = elems.len();
    let mut out: Vec<Offer> = Vec::new();
    for i in 0..n
        invariant
            n == elems@.len(),
            j.spec_as_arr() == Some(elems@),
            out@.len() == i,
            forall|k: int|
                0 <= k < i ==> spec_parse_offer(#[trigger] elems@[k]) == Some(out@[k]@),
    {
        match parse_offer(&elems[i]) {
            Some(o) => { out.push(o) },
            None => { return None },
        }
    }
    Some(out)
}

/// Law: the cache round-trips — encoding any sequence of valid
/// records and decoding it again yields records with exactly the
/// original images, in order.
pub fn cache_round_trip(offers: &Vec<Offer>) -> (r: Option<Vec<Offer>>)
    requires
        forall|k: int| 0 <= k < offers@.len() ==> (#[trigger] offers@[k]@).spec_valid(),
    ensures
        r is Some,
        views(r->0@) == views(offers@),
{
    let doc = offers_to_json(offers);
    let back = offers_from_json(&doc);
    proof {
        assert(back is Some);
        let os = back->0;
        assert forall|k: int| 0 <= k < os@.len() implies views(os@)[k] == views(offers@)[k] by {
            assert(views(os@)[k] == os@[k]@);
            assert(views(offers@)[k] == offers@[k]@);
            assert(spec_parse_offer(doc.spec_as_arr()->0[k]) == Some(os@[k]@));
            assert(spec_parse_offer(doc.spec_as_arr()->0[k]) == Some(offers@[k]@));
        };
        assert(views(os@) =~= views(offers@));
    }
    back
}

} // verus!
