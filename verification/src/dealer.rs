//! The closed registry of supported grocery chains: each dealer has a
//! stable opaque identifier issued by the upstream catalog API and a
//! human-readable display name.

use vstd::prelude::*;

verus! {

/// A retail grocery chain known to the aggregator.
#[derive(Clone, Copy, PartialEq, Eq, Structural, Debug)]
pub enum Dealer {
    Rema1000,
    Netto,
}

impl Dealer {
    /// The opaque dealer identifier used by the upstream catalog API.
    pub fn id(&self) -> (r: String)
        ensures
            *self == Dealer::Rema1000 ==> r@ == "11deC"@,
            *self == Dealer::Netto ==> r@ == "9ba51"@,
    {
        match self {
            Dealer::Rema1000 => String::from_str("11deC"),
            Dealer::Netto => String::from_str("9ba51"),
        }
    }

    /// The display name attached to every offer of this dealer.
    pub fn name(&self) -> (r: String)
        ensures
            *self == Dealer::Rema1000 ==> r@ == "Rema 1000"@,
            *self == Dealer::Netto ==> r@ == "Netto"@,
    {
        match self {
            Dealer::Rema1000 => String::from_str("Rema 1000"),
            Dealer::Netto => String::from_str("Netto"),
        }
    }
}

} // verus!
