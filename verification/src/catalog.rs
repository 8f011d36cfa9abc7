//! Weekly catalog descriptors.
//!
//! A catalog is one promotional booklet of one dealer. The upstream
//! `/catalogs` endpoint answers with a JSON array of descriptors; the
//! decode is all-or-nothing, as the pipeline treats a malformed
//! catalog listing as the dealer contributing nothing this cycle.

use vstd::prelude::*;
use crate::date::Date;
use crate::date::parse_date;
use crate::json::Json;
use crate::normalize::s_date;
use crate::normalize::s_str;

verus! {

/// One weekly promotional booklet of one dealer.
pub struct Catalog {
    /// Upstream-assigned opaque catalog identifier.
    pub id: String,
    /// First day of the booklet's validity window.
    pub run_from: Date,
    /// Last day of the booklet's validity window.
    pub run_till: Date,
    /// Upstream identifier of the owning dealer.
    pub dealer_id: String,
}

/// The mathematical image of a [`Catalog`].
#[verifier::ext_equal]
pub struct CatalogModel {
    pub id: Seq<char>,
    pub run_from: Date,
    pub run_till: Date,
    pub dealer_id: Seq<char>,
}

impl View for Catalog {
    type V = CatalogModel;

    open spec fn view(&self) -> CatalogModel {
        CatalogModel {
            id: self.id@,
            run_from: self.run_from,
            run_till: self.run_till,
            dealer_id: self.dealer_id@,
        }
    }
}

/// The catalog descriptor a JSON node denotes: the four consumed
/// fields must be present and well-typed, the dates as the date
/// portion of ISO-8601 strings.
pub open spec fn spec_parse_catalog(j: Json) -> Option<CatalogModel> {
    let id = s_str(j.spec_get("id"@));
    let run_from = s_date(s_str(j.spec_get("run_from"@)));
    let run_till = s_date(s_str(j.spec_get("run_till"@)));
    let dealer_id = s_str(j.spec_get("dealer_id"@));
    if id is Some && run_from is Some && run_till is Some && dealer_id is Some {
        Some(
            CatalogModel {
                id: id->0,
                run_from: run_from->0,
                run_till: run_till->0,
                dealer_id: dealer_id->0,
            },
        )
    } else {
        None
    }
}

/// Parses one catalog descriptor.
pub fn parse_catalog(j: &Json) -> (r: Option<Catalog>)
    ensures
        match r {
            Some(c) => spec_parse_catalog(*j) == Some(c@),
            None => spec_parse_catalog(*j) is None,
        },
{
    let id = match j.get("id") {
        Some(v) => match v.as_str() {
            Some(s) => s,
            None => { return None },
        },
        None => { return None },
    };
    let run_from = match j.get("run_from") {
        Some(v) => match v.as_str() {
            Some(s) => match parse_date(s.as_str()) {
                Some(d) => d,
                None => { return None },
            },
            None => { return None },
        },
        None => { return None },
    };
    let run_till = match j.get("run_till") {
        Some(v) => match v.as_str() {
            Some(s) => match parse_date(s.as_str()) {
                Some(d) => d,
                None => { return None },
            },
            None => { return None },
        },
        None => { return None },
    };
    let dealer_id = match j.get("dealer_id") {
        Some(v) => match v.as_str() {
            Some(s) => s,
            None => { return None },
        },
        None => { return None },
    };
    let c = Catalog { id: id.clone(), run_from, run_till, dealer_id: dealer_id.clone() };
    proof {
        assert(spec_parse_catalog(*j)->0 =~= c@);
    }
    Some(c)
}

/// Decodes the `/catalogs` response body: a JSON array of catalog
/// descriptors, all of which must parse, or nothing.
pub fn parse_catalogs(j: &Json) -> (r: Option<Vec<Catalog>>)
    ensures
        match r {
            Some(cs) => {
                &&& j.spec_as_arr() is Some
                &&& cs@.len() == j.spec_as_arr()->0.len()
                &&& forall|k: int|
                    0 <= k < cs@.len() ==> spec_parse_catalog(#[trigger] j.spec_as_arr()->0[k])
                        == Some(cs@[k]@)
            },
            None => j.spec_as_arr() is None || exists|k: int|
                0 <= k < j.spec_as_arr()->0.len() && spec_parse_catalog(
                    #[trigger] j.spec_as_arr()->0[k],
                ) is None,
        },
{
    let elems = match j.as_arr() {
        Some(v) => v,
        None => { return None },
    };
    let n = elems.len();
    let mut out: Vec<Catalog> = Vec::new();
    for i in 0..n
        invariant
            n == elems@.len(),
            j.spec_as_arr() == Some(elems@),
            out@.len() == i,
            forall|k: int|
                0 <= k < i ==> spec_parse_catalog(#[trigger] elems@[k]) == Some(out@[k]@),
    {
        match parse_catalog(&elems[i]) {
            Some(c) => { out.push(c) },
            None => { return None },
        }
    }
    Some(out)
}

} // verus!
