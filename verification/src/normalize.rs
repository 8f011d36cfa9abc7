//! The offer normalizer: from one loosely-typed hotspot node to at
//! most one validated [`Offer`].
//!
//! The extraction path is fixed and deliberately brittle: a missing or
//! wrong-typed field aborts the record, never the pipeline. A record
//! that fails the offer invariant, or whose fixed-point arithmetic
//! would leave the machine range, is likewise dropped silently.

use vstd::prelude::*;
use crate::date::Date;
use crate::date::parse_date;
use crate::date::spec_parse_date;
use crate::json::Json;
use crate::offer::Offer;
use crate::offer::OfferModel;
use crate::offer::cost_per_unit;
use crate::offer::spec_cost_per_unit;

verus! {

/// Member lookup carried through an optional node.
pub open spec fn sget(j: Option<Json>, key: Seq<char>) -> Option<Json> {
    match j {
        Some(v) => v.spec_get(key),
        None => None,
    }
}

/// String content carried through an optional node.
pub open spec fn s_str(j: Option<Json>) -> Option<Seq<char>> {
    match j {
        Some(v) => v.spec_as_str(),
        None => None,
    }
}

/// Fixed-point number content carried through an optional node.
pub open spec fn s_milli(j: Option<Json>) -> Option<i64> {
    match j {
        Some(v) => v.spec_as_milli(),
        None => None,
    }
}

/// Integer content carried through an optional node.
pub open spec fn s_u64(j: Option<Json>) -> Option<u64> {
    match j {
        Some(v) => v.spec_as_u64(),
        None => None,
    }
}

/// Date content carried through an optional string.
pub open spec fn s_date(s: Option<Seq<char>>) -> Option<Date> {
    match s {
        Some(cs) => spec_parse_date(cs),
        None => None,
    }
}

/// Scales a raw quantity by the SI factor, both in thousandths.
/// A negative or overflowing quantity is malformed data.
pub open spec fn spec_scale(a: i64, b: i64) -> Option<i64> {
    if 0 <= a && 0 <= b && a * b <= i64::MAX {
        Some((a * b / 1000) as i64)
    } else {
        None
    }
}

/// A piece count, which must fit its field.
pub open spec fn spec_amount(n: u64) -> Option<u32> {
    if n <= u32::MAX {
        Some(n as u32)
    } else {
        None
    }
}

/// The whole normalization, step by step: extract every field of the nested
/// upstream shape, scale the sizes by the SI factor, derive the cost
/// per unit, and keep the record only if the offer invariant holds.
pub open spec fn spec_normalize(h: Json, dealer: Seq<char>) -> Option<OfferModel> {
    let offer = h.spec_get("offer"@);
    let quantity = sget(offer, "quantity"@);
    let si = sget(sget(quantity, "unit"@), "si"@);
    let id = s_str(sget(offer, "id"@));
    let name = s_str(sget(offer, "heading"@));
    let price = s_milli(sget(sget(offer, "pricing"@), "price"@));
    let min_amount_raw = s_u64(sget(sget(quantity, "pieces"@), "from"@));
    let max_amount_raw = s_u64(sget(sget(quantity, "pieces"@), "to"@));
    let factor = s_milli(sget(si, "factor"@));
    let size_from = s_milli(sget(sget(quantity, "size"@), "from"@));
    let size_to = s_milli(sget(sget(quantity, "size"@), "to"@));
    let unit = s_str(sget(si, "symbol"@));
    let run_from = s_date(s_str(sget(offer, "run_from"@)));
    let run_till = s_date(s_str(sget(offer, "run_till"@)));
    if id is Some && name is Some && price is Some && min_amount_raw is Some && max_amount_raw
        is Some && factor is Some && size_from is Some && size_to is Some && unit is Some
        && run_from is Some && run_till is Some {
        let min_amount = spec_amount(min_amount_raw->0);
        let max_amount = spec_amount(max_amount_raw->0);
        let min_size = spec_scale(size_from->0, factor->0);
        let max_size = spec_scale(size_to->0, factor->0);
        if min_amount is Some && max_amount is Some && min_size is Some && max_size is Some && 0
            <= price->0 && (crate::offer::spec_unit_divides(unit->0, max_size->0) ==> price->0
            * 1000 <= i64::MAX) {
            let m = OfferModel {
                id: id->0,
                name: name->0,
                dealer,
                price: price->0,
                cost_per_unit: spec_cost_per_unit(price->0, unit->0, max_size->0) as i64,
                unit: unit->0,
                min_size: min_size->0,
                max_size: max_size->0,
                min_amount: min_amount->0,
                max_amount: max_amount->0,
                run_from: run_from->0,
                run_till: run_till->0,
            };
            if m.spec_valid() {
                Some(m)
            } else {
                None
            }
        } else {
            None
        }
    } else {
        None
    }
}

/// Law: every record the normalizer emits satisfies the offer
/// invariant — ordered validity window of real days, ordered
/// quantity and piece-count ranges, a piece count of at least one, a
/// non-negative price, a non-empty unit.
pub proof fn lemma_normalized_valid(h: Json, dealer: Seq<char>)
    ensures
        spec_normalize(h, dealer) matches Some(m) ==> m.spec_valid(),
{
}

/// Law: every record the normalizer emits derives its cost per unit
/// by the fixed rule: `price / max_size` (scaled, floor) for the
/// dividing base units `kg` and `l` with a positive size, the plain
/// price per piece otherwise.
pub proof fn lemma_normalized_cost_rule(h: Json, dealer: Seq<char>)
    ensures
        spec_normalize(h, dealer) matches Some(m) ==> {
            &&& ((m.unit == "kg"@ || m.unit == "l"@) && m.max_size > 0) ==> m.cost_per_unit
                == m.price * 1000 / (m.max_size as int)
            &&& !((m.unit == "kg"@ || m.unit == "l"@) && m.max_size > 0) ==> m.cost_per_unit
                == m.price
        },
{
}

/// Scales a raw quantity by the SI factor, both in thousandths.
fn scale(a: i64, b: i64) -> (r: Option<i64>)
    ensures
        r == spec_scale(a, b),
{
    if a < 0 || b < 0 {
        return None;
    }
    match a.checked_mul(b) {
        Some(p) => {
            let q = p / 1000;
            assert(0 <= p / 1000 <= p) by {
                vstd::arithmetic::div_mod::lemma_div_is_ordered_by_denominator(p as int, 1, 1000);
                vstd::arithmetic::div_mod::lemma_div_pos_is_pos(p as int, 1000);
            };
            Some(q)
        },
        None => None,
    }
}

/// Normalizes one hotspot node into at most one validated offer of
/// the named dealer. Returns exactly what [`spec_normalize`] says.
pub fn create_offer(hotspot: &Json, dealer_name: &str) -> (r: Option<Offer>)
    ensures
        match r {
            Some(o) => spec_normalize(*hotspot, dealer_name@) == Some(o@),
            None => spec_normalize(*hotspot, dealer_name@) is None,
        },
{
    let offer = match hotspot.get("offer") {
        Some(v) => v,
        None => { return None },
    };
    let quantity = match offer.get("quantity") {
        Some(v) => v,
        None => { return None },
    };
    let unit_node = match quantity.get("unit") {
        Some(v) => v,
        None => { return None },
    };
    let si = match unit_node.get("si") {
        Some(v) => v,
        None => { return None },
    };
    let id = match offer.get("id") {
        Some(v) => match v.as_str() {
            Some(s) => s,
            None => { return None },
        },
        None => { return None },
    };
    let name = match offer.get("heading") {
        Some(v) => match v.as_str() {
            Some(s) => s,
            None => { return None },
        },
        None => { return None },
    };
    let pricing = match offer.get("pricing") {
        Some(v) => v,
        None => { return None },
    };
    let price = match pricing.get("price") {
        Some(v) => match v.as_milli() {
            Some(p) => p,
            None => { return None },
        },
        None => { return None },
    };
    let pieces = match quantity.get("pieces") {
        Some(v) => v,
        None => { return None },
    };
    let min_amount_raw = match pieces.get("from") {
        Some(v) => match v.as_u64() {
            Some(n) => n,
            None => { return None },
        },
        None => { return None },
    };
    let max_amount_raw = match pieces.get("to") {
        Some(v) => match v.as_u64() {
            Some(n) => n,
            None => { return None },
        },
        None => { return None },
    };
    let factor = match si.get("factor") {
        Some(v) => match v.as_milli() {
            Some(n) => n,
            None => { return None },
        },
        None => { return None },
    };
    let size_node = match quantity.get("size") {
        Some(v) => v,
        None => { return None },
    };
    let size_from = match size_node.get("from") {
        Some(v) => match v.as_milli() {
            Some(n) => n,
            None => { return None },
        },
        None => { return None },
    };
    let size_to = match size_node.get("to") {
        Some(v) => match v.as_milli() {
            Some(n) => n,
            None => { return None },
        },
        None => { return None },
    };
    let unit = match si.get("symbol") {
        Some(v) => match v.as_str() {
            Some(s) => s,
            None => { return None },
        },
        None => { return None },
    };
    let run_from = match offer.get("run_from") {
        Some(v) => match v.as_str() {
            Some(s) => match parse_date(s.as_str()) {
                Some(d) => d,
                None => { return None },
            },
            None => { return None },
        },
        None => { return None },
    };
    let run_till = match offer.get("run_till") {
        Some(v) => match v.as_str() {
            Some(s) => match parse_date(s.as_str()) {
                Some(d) => d,
                None => { return None },
            },
            None => { return None },
        },
        None => { return None },
    };
    if min_amount_raw > u32::MAX as u64 || max_amount_raw > u32::MAX as u64 {
        return None;
    }
    let min_amount: u32 = min_amount_raw as u32;
    let max_amount: u32 = max_amount_raw as u32;
    let min_size = match scale(size_from, factor) {
        Some(v) => v,
        None => { return None },
    };
    let max_size = match scale(size_to, factor) {
        Some(v) => v,
        None => { return None },
    };
    if price < 0 {
        return None;
    }
    let cpu = match cost_per_unit(price, unit.as_str(), max_size) {
        Some(v) => v,
        None => { return None },
    };
    let candidate = Offer {
        id: id.clone(),
        name: name.clone(),
        dealer: String::from_str(dealer_name),
        price,
        cost_per_unit: cpu,
        unit: unit.clone(),
        min_size,
        max_size,
        min_amount,
        max_amount,
        run_from,
        run_till,
    };
    proof {
        let m = OfferModel {
            id: id@,
            name: name@,
            dealer: dealer_name@,
            price: price,
            cost_per_unit: spec_cost_per_unit(price, unit@, max_size) as i64,
            unit: unit@,
            min_size: min_size,
            max_size: max_size,
            min_amount: min_amount,
            max_amount: max_amount,
            run_from: run_from,
            run_till: run_till,
        };
        assert(m =~= candidate@);
        assert(spec_normalize(*hotspot, dealer_name@) == if m.spec_valid() {
            Some(m)
        } else {
            None::<OfferModel>
        });
    }
    if candidate.valid() {
        Some(candidate)
    } else {
        None
    }
}

} // verus!
