//! The normalized product-promotion record.
//!
//! An offer is the core output of the pipeline: one promotion of one
//! dealer, with its price, quantity range, validity window and derived
//! cost per base unit. Money and quantities are carried in thousandths
//! (fixed point), so the record is made of plain integers and strings.
//!
//! Every contract speaks of [`OfferModel`], the mathematical image of
//! a record under [`View`]: strings become character sequences, all
//! other fields are carried as they are.

use vstd::prelude::*;
use crate::date::Date;

verus! {

/// One normalized product promotion.
///
/// `price`, `cost_per_unit`, `min_size` and `max_size` are in
/// thousandths: a price of 10500 is 10.5 currency units, a size of 500
/// is 0.5 of the base unit.
pub struct Offer {
    /// Upstream-assigned opaque identifier.
    pub id: String,
    /// Display heading of the promotion.
    pub name: String,
    /// Display name of the owning dealer.
    pub dealer: String,
    /// Promotional price, in thousandths of the local currency unit.
    pub price: i64,
    /// Derived cost per base unit (or per piece), in thousandths.
    pub cost_per_unit: i64,
    /// Base unit symbol after SI normalization, such as `kg` or `l`.
    pub unit: String,
    /// Smallest quantity, in thousandths of the base unit.
    pub min_size: i64,
    /// Largest quantity, in thousandths of the base unit.
    pub max_size: i64,
    /// Smallest piece count.
    pub min_amount: u32,
    /// Largest piece count.
    pub max_amount: u32,
    /// First day of the validity window.
    pub run_from: Date,
    /// Last day of the validity window.
    pub run_till: Date,
}

/// The mathematical image of an [`Offer`].
#[verifier::ext_equal]
pub struct OfferModel {
    pub id: Seq<char>,
    pub name: Seq<char>,
    pub dealer: Seq<char>,
    pub price: i64,
    pub cost_per_unit: i64,
    pub unit: Seq<char>,
    pub min_size: i64,
    pub max_size: i64,
    pub min_amount: u32,
    pub max_amount: u32,
    pub run_from: Date,
    pub run_till: Date,
}

impl View for Offer {
    type V = OfferModel;

    open spec fn view(&self) -> OfferModel {
        OfferModel {
            id: self.id@,
            name: self.name@,
            dealer: self.dealer@,
            price: self.price,
            cost_per_unit: self.cost_per_unit,
            unit: self.unit@,
            min_size: self.min_size,
            max_size: self.max_size,
            min_amount: self.min_amount,
            max_amount: self.max_amount,
            run_from: self.run_from,
            run_till: self.run_till,
        }
    }
}

/// The images of a sequence of records.
pub open spec fn views(s: Seq<Offer>) -> Seq<OfferModel> {
    s.map_values(|o: Offer| o@)
}

/// Whether the cost-per-unit rule divides: only for the base units
/// `kg` and `l`, and only by a positive size.
pub open spec fn spec_unit_divides(unit: Seq<char>, max_size: i64) -> bool {
    (unit == "kg"@ || unit == "l"@) && max_size > 0
}

/// The derived cost per base unit: `price / max_size` where the unit
/// divides, the plain price per piece otherwise. All in thousandths,
/// so the quotient is scaled by 1000.
pub open spec fn spec_cost_per_unit(price: i64, unit: Seq<char>, max_size: i64) -> int {
    if spec_unit_divides(unit, max_size) {
        price * 1000 / (max_size as int)
    } else {
        price as int
    }
}

/// Computes the cost per base unit, in thousandths. `None` only when
/// the scaled dividend would not fit the fixed-point range.
pub fn cost_per_unit(price: i64, unit: &str, max_size: i64) -> (r: Option<i64>)
    requires
        0 <= price,
    ensures
        match r {
            Some(v) => v == spec_cost_per_unit(price, unit@, max_size) && (spec_unit_divides(
                unit@,
                max_size,
            ) ==> price * 1000 <= i64::MAX),
            None => spec_unit_divides(unit@, max_size) && price * 1000 > i64::MAX,
        },
{
    let divides = (crate::json::str_eq(unit, "kg") || crate::json::str_eq(unit, "l"))
        && max_size > 0;
    if divides {
        match price.checked_mul(1000) {
            Some(scaled) => {
                let q = scaled / max_size;
                assert(scaled / max_size <= scaled && 0 <= scaled / max_size) by {
                    vstd::arithmetic::div_mod::lemma_div_is_ordered_by_denominator(
                        scaled as int,
                        1,
                        max_size as int,
                    );
                    vstd::arithmetic::div_mod::lemma_div_pos_is_pos(
                        scaled as int,
                        max_size as int,
                    );
                };
                Some(q)
            },
            None => None,
        }
    } else {
        Some(price)
    }
}

impl OfferModel {
    /// The record invariant every offer of the pipeline satisfies:
    /// an ordered validity window of real calendar days, ordered
    /// quantity and piece-count ranges, a piece count of at least one,
    /// a non-negative price and quantities, a non-empty unit, and a
    /// cost per unit derived by the fixed rule.
    pub open spec fn spec_valid(self) -> bool {
        &&& self.run_from.spec_valid()
        &&& self.run_till.spec_valid()
        &&& self.run_from.spec_le(self.run_till)
        &&& 0 <= self.min_size <= self.max_size
        &&& 1 <= self.min_amount <= self.max_amount
        &&& 0 <= self.price
        &&& self.unit.len() > 0
        &&& self.cost_per_unit == spec_cost_per_unit(self.price, self.unit, self.max_size)
    }

    /// The deduplication identity: two offers are the same promotion
    /// when their upstream ids match, or when dealer, heading and
    /// validity window all match (the upstream re-issues identical
    /// promotions under fresh ids across overlapping catalogs).
    pub open spec fn spec_is_dup(self, other: OfferModel) -> bool {
        ||| self.id == other.id
        ||| (self.dealer == other.dealer && self.name == other.name && self.run_from
            == other.run_from && self.run_till == other.run_till)
    }
}

impl Offer {
    /// Checks the record invariant.
    pub fn valid(&self) -> (r: bool)
        ensures
            r == self@.spec_valid(),
    {
        &&& self.run_from.valid()
        &&& self.run_till.valid()
        &&& self.run_from.le(&self.run_till)
        &&& 0 <= self.min_size
        &&& self.min_size <= self.max_size
        &&& 1 <= self.min_amount
        &&& self.min_amount <= self.max_amount
        &&& 0 <= self.price
        &&& !self.unit.as_str().is_empty()
        &&& {
            let divides = (crate::json::str_eq(self.unit.as_str(), "kg")
                || crate::json::str_eq(self.unit.as_str(), "l")) && self.max_size > 0;
            if divides {
                let scaled: i128 = (self.price as i128) * 1000;
                let q: i128 = scaled / (self.max_size as i128);
                (self.cost_per_unit as i128) == q
            } else {
                self.cost_per_unit == self.price
            }
        }
    }

    /// Decides the deduplication identity.
    pub fn is_dup(&self, other: &Offer) -> (r: bool)
        ensures
            r == self@.spec_is_dup(other@),
    {
        self.id == other.id || (self.dealer == other.dealer && self.name == other.name
            && self.run_from == other.run_from && self.run_till == other.run_till)
    }
}

impl PartialEq for Offer {
    /// Offer identity: `==` means "the same promotion" in the sense
    /// of the deduplication identity, not field-by-field equality.
    fn eq(&self, other: &Offer) -> (r: bool) {
        self.is_dup(other)
    }
}

impl vstd::std_specs::cmp::PartialEqSpecImpl for Offer {
    open spec fn obeys_eq_spec() -> bool {
        true
    }

    open spec fn eq_spec(&self, other: &Offer) -> bool {
        self@.spec_is_dup(other@)
    }
}

impl Clone for Offer {
    /// A field-by-field copy, with the same image.
    fn clone(&self) -> (r: Offer)
        ensures
            r@ == self@,
    {
        let r = Offer {
            id: self.id.clone(),
            name: self.name.clone(),
            dealer: self.dealer.clone(),
            price: self.price,
            cost_per_unit: self.cost_per_unit,
            unit: self.unit.clone(),
            min_size: self.min_size,
            max_size: self.max_size,
            min_amount: self.min_amount,
            max_amount: self.max_amount,
            run_from: self.run_from,
            run_till: self.run_till,
        };
        proof {
            assert(r@ =~= self@);
        }
        r
    }
}

} // verus!
