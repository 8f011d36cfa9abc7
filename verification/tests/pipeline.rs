use better_tilbudsavis::create_offer;
use better_tilbudsavis::dedup;
use better_tilbudsavis::merge_offers;
use better_tilbudsavis::offers_for_dealer;
use better_tilbudsavis::offers_from_hotspots;
use better_tilbudsavis::parse_catalogs;
use better_tilbudsavis::should_refresh;
use better_tilbudsavis::Dealer;
use better_tilbudsavis::Json;
use better_tilbudsavis::Offer;

fn obj(members: Vec<(&str, Json)>) -> Json {
    Json::Obj(members.into_iter().map(|(k, v)| (String::from(k), v)).collect())
}

fn s(v: &str) -> Json {
    Json::Str(String::from(v))
}

/// One hotspot node in the upstream shape. Prices and sizes are given
/// in thousandths, as the boundary converts wire numbers.
fn hotspot(
    id: &str,
    heading: &str,
    price_milli: Option<i64>,
    size_from: i64,
    size_to: i64,
    factor_milli: i64,
    symbol: &str,
    run_from: &str,
    run_till: &str,
) -> Json {
    let mut pricing: Vec<(&str, Json)> = Vec::new();
    if let Some(p) = price_milli {
        pricing.push(("price", Json::Milli(p)));
    }
    let quantity = obj(vec![
        ("pieces", obj(vec![("from", Json::UInt(1)), ("to", Json::UInt(1))])),
        ("size", obj(vec![("from", Json::Milli(size_from)), ("to", Json::Milli(size_to))])),
        (
            "unit",
            obj(vec![(
                "si",
                obj(vec![("factor", Json::Milli(factor_milli)), ("symbol", s(symbol))]),
            )]),
        ),
    ]);
    let offer = obj(vec![
        ("id", s(id)),
        ("heading", s(heading)),
        ("pricing", obj(pricing)),
        ("quantity", quantity),
        ("run_from", s(run_from)),
        ("run_till", s(run_till)),
    ]);
    obj(vec![("offer", offer)])
}

#[test]
fn happy_path_one_dealer() {
    // Three well-formed hotspots: 0.5 kg and 1.0 kg items, one per piece.
    let hotspots = vec![
        hotspot(
            "a1",
            "Smoer",
            Some(10_000),
            500_000,
            500_000,
            1,
            "kg",
            "2024-01-01T00:00:00+0100",
            "2024-01-07T00:00:00+0100",
        ),
        hotspot(
            "a2",
            "Mel",
            Some(8_000),
            1_000_000,
            1_000_000,
            1,
            "kg",
            "2024-01-01T00:00:00+0100",
            "2024-01-07T00:00:00+0100",
        ),
        hotspot(
            "a3",
            "Agurk",
            Some(6_000),
            1_000,
            1_000,
            1_000,
            "stk",
            "2024-01-01T00:00:00+0100",
            "2024-01-07T00:00:00+0100",
        ),
    ];
    let offers = offers_from_hotspots(&hotspots, "Rema 1000");
    assert_eq!(offers.len(), 3);
    // price / 0.5 kg: 10.0 / 0.5 = 20.0 per kg
    assert_eq!(offers[0].cost_per_unit, 20_000);
    // price / 1.0 kg: 8.0 / 1.0 = 8.0 per kg
    assert_eq!(offers[1].cost_per_unit, 8_000);
    // per piece: cost is the price itself
    assert_eq!(offers[2].cost_per_unit, 6_000);
    assert_eq!(offers[0].id, "a1");
    assert_eq!(offers[0].name, "Smoer");
    assert_eq!(offers[0].dealer, "Rema 1000");
    assert_eq!(offers[0].unit, "kg");
    assert_eq!(offers[0].price, 10_000);
    assert_eq!(offers[0].min_size, 500);
    assert_eq!(offers[0].max_size, 500);
    assert_eq!(offers[0].min_amount, 1);
    assert_eq!(offers[0].max_amount, 1);
    assert_eq!((offers[0].run_from.year, offers[0].run_from.month, offers[0].run_from.day), (2024, 1, 1));
    assert_eq!((offers[0].run_till.year, offers[0].run_till.month, offers[0].run_till.day), (2024, 1, 7));
}

#[test]
fn malformed_hotspot_dropped_silently() {
    // Same as the happy path, but one hotspot misses offer.pricing.price.
    let hotspots = vec![
        hotspot(
            "a1",
            "Smoer",
            Some(10_000),
            500_000,
            500_000,
            1,
            "kg",
            "2024-01-01T00:00:00+0100",
            "2024-01-07T00:00:00+0100",
        ),
        hotspot(
            "a2",
            "Mel",
            None,
            1_000_000,
            1_000_000,
            1,
            "kg",
            "2024-01-01T00:00:00+0100",
            "2024-01-07T00:00:00+0100",
        ),
    ];
    let offers = offers_from_hotspots(&hotspots, "Rema 1000");
    assert_eq!(offers.len(), 1);
    assert_eq!(offers[0].id, "a1");
}

#[test]
fn create_offer_rejects_inverted_window() {
    let h = hotspot(
        "a1",
        "Smoer",
        Some(10_000),
        500_000,
        500_000,
        1,
        "kg",
        "2024-01-07T00:00:00+0100",
        "2024-01-01T00:00:00+0100",
    );
    assert!(create_offer(&h, "Rema 1000").is_none());
}

#[test]
fn create_offer_rejects_negative_price() {
    let h = hotspot(
        "a1",
        "Smoer",
        Some(-1),
        500_000,
        500_000,
        1,
        "kg",
        "2024-01-01T00:00:00+0100",
        "2024-01-07T00:00:00+0100",
    );
    assert!(create_offer(&h, "Rema 1000").is_none());
}

#[test]
fn zero_size_falls_back_to_per_piece() {
    // A dividing unit with size zero must not divide.
    let h = hotspot(
        "a1",
        "Smoer",
        Some(10_000),
        0,
        0,
        1,
        "kg",
        "2024-01-01T00:00:00+0100",
        "2024-01-07T00:00:00+0100",
    );
    let o = create_offer(&h, "Rema 1000").unwrap();
    assert_eq!(o.cost_per_unit, 10_000);
}

#[test]
fn litre_unit_divides() {
    let h = hotspot(
        "m1",
        "Maelk",
        Some(12_000),
        2_000,
        2_000,
        1_000,
        "l",
        "2024-01-01T00:00:00+0100",
        "2024-01-07T00:00:00+0100",
    );
    let o = create_offer(&h, "Netto").unwrap();
    // 12.0 over 2 litres: 6.0 per litre
    assert_eq!(o.cost_per_unit, 6_000);
}

#[test]
fn dedup_by_upstream_id() {
    let hotspots = vec![
        hotspot(
            "same",
            "Smoer",
            Some(10_000),
            500_000,
            500_000,
            1,
            "kg",
            "2024-01-01T00:00:00+0100",
            "2024-01-07T00:00:00+0100",
        ),
        hotspot(
            "same",
            "Andet navn",
            Some(9_000),
            500_000,
            500_000,
            1,
            "kg",
            "2024-01-01T00:00:00+0100",
            "2024-01-07T00:00:00+0100",
        ),
    ];
    let offers = offers_from_hotspots(&hotspots, "Rema 1000");
    assert_eq!(offers.len(), 2);
    let deduped = dedup(&offers);
    assert_eq!(deduped.len(), 1);
    assert_eq!(deduped[0].id, "same");
    assert_eq!(deduped[0].name, "Smoer");
}

#[test]
fn dedup_across_catalogs_same_window() {
    // Two catalogs of one dealer re-issue the same promotion under
    // different upstream ids: one offer must survive.
    let catalog_one = vec![hotspot(
        "id-1",
        "Smoer",
        Some(10_000),
        500_000,
        500_000,
        1,
        "kg",
        "2024-01-01T00:00:00+0100",
        "2024-01-07T00:00:00+0100",
    )];
    let catalog_two = vec![hotspot(
        "id-2",
        "Smoer",
        Some(10_000),
        500_000,
        500_000,
        1,
        "kg",
        "2024-01-01T00:00:00+0100",
        "2024-01-07T00:00:00+0100",
    )];
    let per_dealer = offers_for_dealer(&vec![catalog_one, catalog_two], "Rema 1000");
    assert_eq!(per_dealer.len(), 2);
    let merged = merge_offers(vec![per_dealer]);
    assert_eq!(merged.len(), 1);
    assert_eq!(merged[0].name, "Smoer");
}

#[test]
fn merge_orders_by_cost_per_unit() {
    let hotspots = vec![
        hotspot(
            "a1",
            "Dyr",
            Some(30_000),
            1_000_000,
            1_000_000,
            1,
            "kg",
            "2024-01-01T00:00:00+0100",
            "2024-01-07T00:00:00+0100",
        ),
        hotspot(
            "a2",
            "Billig",
            Some(5_000),
            1_000_000,
            1_000_000,
            1,
            "kg",
            "2024-01-01T00:00:00+0100",
            "2024-01-07T00:00:00+0100",
        ),
        hotspot(
            "a3",
            "Mellem",
            Some(12_000),
            1_000_000,
            1_000_000,
            1,
            "kg",
            "2024-01-01T00:00:00+0100",
            "2024-01-07T00:00:00+0100",
        ),
    ];
    let offers = offers_from_hotspots(&hotspots, "Rema 1000");
    let merged = merge_offers(vec![offers]);
    assert_eq!(merged.len(), 3);
    assert_eq!(merged[0].name, "Billig");
    assert_eq!(merged[1].name, "Mellem");
    assert_eq!(merged[2].name, "Dyr");
    assert!(merged[0].cost_per_unit <= merged[1].cost_per_unit);
    assert!(merged[1].cost_per_unit <= merged[2].cost_per_unit);
}

#[test]
fn merge_keeps_cheapest_duplicate() {
    // Ordering happens before deduplication, so of two duplicate
    // promotions the cheaper survives.
    let expensive = hotspot(
        "id-1",
        "Smoer",
        Some(12_000),
        500_000,
        500_000,
        1,
        "kg",
        "2024-01-01T00:00:00+0100",
        "2024-01-07T00:00:00+0100",
    );
    let cheap = hotspot(
        "id-2",
        "Smoer",
        Some(9_000),
        500_000,
        500_000,
        1,
        "kg",
        "2024-01-01T00:00:00+0100",
        "2024-01-07T00:00:00+0100",
    );
    let offers = offers_from_hotspots(&vec![expensive, cheap], "Rema 1000");
    let merged = merge_offers(vec![offers]);
    assert_eq!(merged.len(), 1);
    assert_eq!(merged[0].id, "id-2");
    assert_eq!(merged[0].price, 9_000);
}

#[test]
fn merge_output_is_pairwise_distinct() {
    let mut hotspots = Vec::new();
    for (id, name) in
        [("a", "Smoer"), ("b", "Smoer"), ("c", "Mel"), ("a", "Ost"), ("d", "Agurk")]
    {
        hotspots.push(hotspot(
            id,
            name,
            Some(10_000),
            500_000,
            500_000,
            1,
            "kg",
            "2024-01-01T00:00:00+0100",
            "2024-01-07T00:00:00+0100",
        ));
    }
    let offers = offers_from_hotspots(&hotspots, "Rema 1000");
    let merged = merge_offers(vec![offers]);
    for i in 0..merged.len() {
        for j in 0..merged.len() {
            if i != j {
                let a = &merged[i];
                let b = &merged[j];
                let id_match = a.id == b.id;
                let tuple_match = a.dealer == b.dealer && a.name == b.name
                    && a.run_from == b.run_from && a.run_till == b.run_till;
                assert!(!id_match && !tuple_match);
            }
        }
    }
    assert_eq!(merged.len(), 3);
}

#[test]
fn empty_upstream_yields_empty_result() {
    // A non-OK status leaves no catalogs and no offers; the merge of
    // nothing is the empty sequence, without a panic.
    let merged = merge_offers(vec![]);
    assert_eq!(merged.len(), 0);
    let merged_one_dealer = merge_offers(vec![Vec::<Offer>::new()]);
    assert_eq!(merged_one_dealer.len(), 0);
}

#[test]
fn parse_catalogs_well_formed() {
    let body = Json::Arr(vec![
        obj(vec![
            ("id", s("cat1")),
            ("run_from", s("2024-01-01T00:00:00+0100")),
            ("run_till", s("2024-01-07T00:00:00+0100")),
            ("dealer_id", s("11deC")),
        ]),
        obj(vec![
            ("id", s("cat2")),
            ("run_from", s("2024-01-08")),
            ("run_till", s("2024-01-14")),
            ("dealer_id", s("11deC")),
        ]),
    ]);
    let catalogs = parse_catalogs(&body).unwrap();
    assert_eq!(catalogs.len(), 2);
    assert_eq!(catalogs[0].id, "cat1");
    assert_eq!(catalogs[0].dealer_id, "11deC");
    assert_eq!((catalogs[1].run_from.year, catalogs[1].run_from.month, catalogs[1].run_from.day), (2024, 1, 8));
}

#[test]
fn parse_catalogs_all_or_nothing() {
    let body = Json::Arr(vec![
        obj(vec![
            ("id", s("cat1")),
            ("run_from", s("2024-01-01")),
            ("run_till", s("2024-01-07")),
            ("dealer_id", s("11deC")),
        ]),
        obj(vec![("id", s("cat2"))]),
    ]);
    assert!(parse_catalogs(&body).is_none());
    assert!(parse_catalogs(&Json::Null).is_none());
}

#[test]
fn refresh_decision_table() {
    // no cache: refresh, whatever the rest says
    assert!(should_refresh(false, false, true));
    assert!(should_refresh(false, true, false));
    // favorites changed: refresh even over a fresh cache
    assert!(should_refresh(true, true, true));
    // stale cache: refresh
    assert!(should_refresh(true, false, false));
    // present, unchanged, fresh: the one row that reuses the cache
    assert!(!should_refresh(true, false, true));
}

#[test]
fn dealer_registry_ids() {
    assert_eq!(Dealer::Rema1000.id(), "11deC");
    assert_eq!(Dealer::Netto.id(), "9ba51");
    assert_eq!(Dealer::Rema1000.name(), "Rema 1000");
    assert_eq!(Dealer::Netto.name(), "Netto");
}

#[test]
fn json_lookup_behaviour() {
    let j = obj(vec![("a", Json::UInt(1)), ("b", Json::Null)]);
    assert!(j.get("a").is_some());
    assert!(j.get("missing").is_none());
    assert!(Json::Null.get("a").is_none());
    assert_eq!(j.get("a").unwrap().as_u64(), Some(1));
    assert_eq!(Json::Milli(2_500).as_milli(), Some(2_500));
    assert_eq!(Json::UInt(3).as_milli(), Some(3_000));
    assert_eq!(Json::Milli(2_500).as_u64(), None);
}
