//! Core of a grocery-offer aggregator: normalizes loosely-typed catalog
//! JSON into validated offer records, derives cost per base unit,
//! deduplicates across catalogs, and decides when the on-disk cache may
//! be reused instead of refreshing from the remote API.

mod aggregate;
mod cache;
mod catalog;
mod coordinate;
mod date;
mod dealer;
mod json;
mod normalize;
mod offer;

pub use aggregate::concat_all;
pub use aggregate::dedup;
pub use aggregate::lemma_dedup_covers;
pub use aggregate::lemma_dedup_dup_free;
pub use aggregate::lemma_dedup_from_covers;
pub use aggregate::lemma_dedup_from_dup_free;
pub use aggregate::lemma_dedup_membership;
pub use aggregate::lemma_dedup_sorted;
pub use aggregate::lemma_normalize_all_valid;
pub use aggregate::lemma_normalize_lists_valid;
pub use aggregate::models_of;
pub use aggregate::offers_for_dealer;
pub use aggregate::offers_from_hotspots;
pub use aggregate::sort_by_cost;
pub use aggregate::spec_concat_models;
pub use aggregate::spec_dedup;
pub use aggregate::spec_dedup_from;
pub use aggregate::spec_dup_free;
pub use aggregate::spec_dup_in;
pub use aggregate::spec_normalize_all;
pub use aggregate::spec_normalize_lists;
pub use aggregate::spec_sorted_by_cost;
pub use cache::cache_round_trip;
pub use cache::offer_to_json;
pub use cache::offers_from_json;
pub use cache::offers_to_json;
pub use cache::parse_offer;
pub use cache::spec_parse_offer;
pub use catalog::Catalog;
pub use catalog::CatalogModel;
pub use catalog::parse_catalog;
pub use catalog::parse_catalogs;
pub use catalog::spec_parse_catalog;
pub use coordinate::lemma_favorites_change_preempts;
pub use coordinate::lemma_fresh_cache_reused;
pub use coordinate::merge_offers;
pub use coordinate::should_refresh;
pub use coordinate::spec_should_refresh;
pub use date::Date;
pub use date::days_in_month;
pub use date::format_date;
pub use date::lemma_date_round_trip;
pub use date::parse_date;
pub use date::spec_date_of_chars;
pub use date::spec_date_shape;
pub use date::spec_days_in_month;
pub use date::spec_digit_char;
pub use date::spec_digit_val;
pub use date::spec_format_date;
pub use date::spec_is_digit;
pub use date::spec_is_leap_year;
pub use date::spec_parse_date;
pub use dealer::Dealer;
pub use json::Json;
pub use json::spec_lookup;
pub use json::str_eq;
pub use normalize::create_offer;
pub use normalize::lemma_normalized_cost_rule;
pub use normalize::lemma_normalized_valid;
pub use normalize::spec_normalize;
pub use offer::Offer;
pub use offer::OfferModel;
pub use offer::cost_per_unit;
pub use offer::spec_cost_per_unit;
pub use offer::spec_unit_divides;
pub use offer::views;
