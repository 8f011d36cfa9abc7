use better_tilbudsavis::days_in_month;
use better_tilbudsavis::format_date;
use better_tilbudsavis::cache_round_trip;
use better_tilbudsavis::offers_from_json;
use better_tilbudsavis::offers_to_json;
use better_tilbudsavis::parse_date;
use better_tilbudsavis::parse_offer;
use better_tilbudsavis::Date;
use better_tilbudsavis::Json;
use better_tilbudsavis::Offer;

fn sample_offer(id: &str, name: &str, price: i64) -> Offer {
    Offer {
        id: String::from(id),
        name: String::from(name),
        dealer: String::from("Rema 1000"),
        price,
        cost_per_unit: price * 1000 / 500,
        unit: String::from("kg"),
        min_size: 500,
        max_size: 500,
        min_amount: 1,
        max_amount: 2,
        run_from: Date { year: 2024, month: 1, day: 1 },
        run_till: Date { year: 2024, month: 1, day: 7 },
    }
}

fn same_offer(a: &Offer, b: &Offer) -> bool {
    a.id == b.id && a.name == b.name && a.dealer == b.dealer && a.price == b.price
        && a.cost_per_unit == b.cost_per_unit && a.unit == b.unit && a.min_size == b.min_size
        && a.max_size == b.max_size && a.min_amount == b.min_amount
        && a.max_amount == b.max_amount && a.run_from == b.run_from && a.run_till == b.run_till
}

#[test]
fn parse_date_takes_portion_before_t() {
    let d = parse_date("2024-03-15T23:59:59+0100").unwrap();
    assert_eq!((d.year, d.month, d.day), (2024, 3, 15));
    let bare = parse_date("2024-03-15").unwrap();
    assert_eq!((bare.year, bare.month, bare.day), (2024, 3, 15));
}

#[test]
fn parse_date_rejects_malformed_text() {
    assert!(parse_date("2024-3-15").is_none());
    assert!(parse_date("2024-03-15x rest").is_none());
    assert!(parse_date("24-03-15").is_none());
    assert!(parse_date("").is_none());
    assert!(parse_date("not a date").is_none());
}

#[test]
fn parse_date_checks_the_calendar() {
    // 2024 is a leap year, 2023 is not.
    assert!(parse_date("2024-02-29").is_some());
    assert!(parse_date("2023-02-29").is_none());
    assert!(parse_date("2024-04-31").is_none());
    assert!(parse_date("2024-00-10").is_none());
    assert!(parse_date("2024-13-01").is_none());
    assert!(parse_date("2024-01-00").is_none());
    assert_eq!(days_in_month(2024, 2), 29);
    assert_eq!(days_in_month(1900, 2), 28);
    assert_eq!(days_in_month(2000, 2), 29);
    assert_eq!(days_in_month(2024, 4), 30);
    assert_eq!(days_in_month(2024, 12), 31);
}

#[test]
fn format_then_parse_is_identity() {
    let d = Date { year: 2024, month: 2, day: 29 };
    let text = format_date(&d);
    assert_eq!(text, "2024-02-29");
    let back = parse_date(&text).unwrap();
    assert_eq!(back, d);
}

#[test]
fn date_order_is_chronological() {
    let early = Date { year: 2024, month: 1, day: 31 };
    let late = Date { year: 2024, month: 2, day: 1 };
    assert!(early.le(&late));
    assert!(!late.le(&early));
    assert!(early.le(&early));
}

#[test]
fn cache_round_trip_preserves_offers() {
    let offers = vec![sample_offer("a1", "Smoer", 10_000), sample_offer("a2", "Mel", 8_000)];
    let doc = offers_to_json(&offers);
    let back = offers_from_json(&doc).unwrap();
    assert_eq!(back.len(), 2);
    assert!(same_offer(&back[0], &offers[0]));
    assert!(same_offer(&back[1], &offers[1]));
    let again = cache_round_trip(&offers).unwrap();
    assert_eq!(again.len(), 2);
    assert!(same_offer(&again[0], &offers[0]));
}

#[test]
fn cache_rejects_corrupt_records() {
    let offers = vec![sample_offer("a1", "Smoer", 10_000)];
    let doc = offers_to_json(&offers);
    // A document that is no array is a schema mismatch.
    assert!(offers_from_json(&Json::Null).is_none());
    // Any element that is no valid offer object spoils the decode.
    if let Json::Arr(mut elems) = doc {
        elems.push(Json::Bool(true));
        assert!(offers_from_json(&Json::Arr(elems)).is_none());
    } else {
        panic!("cache document must be an array");
    }
}

#[test]
fn cache_record_must_satisfy_the_invariant() {
    // An otherwise well-typed record with an inverted window is
    // refused by the decoder.
    let good = sample_offer("a2", "Mel", 8_000);
    let doc_good = offers_to_json(&vec![good]);
    if let Json::Arr(elems) = doc_good {
        assert!(parse_offer(&elems[0]).is_some());
    }
    // Encode the bad record by hand: the encoder itself demands valid
    // input, so build the object from the good one and break a field.
    let doc = offers_to_json(&vec![sample_offer("a1", "Smoer", 10_000)]);
    if let Json::Arr(elems) = doc {
        if let Json::Obj(mut members) = elems.into_iter().next().unwrap() {
            for m in members.iter_mut() {
                if m.0 == "run_till" {
                    m.1 = Json::Str(String::from("2023-12-31"));
                }
            }
            assert!(parse_offer(&Json::Obj(members)).is_none());
        } else {
            panic!("cache record must be an object");
        }
    }
}
