use base64::Engine;

use kalandra_kapital::cache::RequestCache;
use kalandra_kapital::price::{ConversionRate, CurrencyOrbType};
use kalandra_kapital::trade_api::{
    bulk_fingerprint, encode_exchange_request, encode_search_query, encode_search_request,
    get_bulk_pricing, get_search_pricing, search_fingerprint, TradeSearchFilter, TradeSearchQuery,
    TradeSortDirection, TradeSortMode, TradeStatus,
};
use kalandra_kapital::trade_decode::{
    bulk_min_unit_price, decode_exchange_payload, decode_fetch_payload, decode_search_payload,
    min_listed_price, TradeApiError,
};

fn rate215() -> ConversionRate {
    ConversionRate::new(215)
}

fn plain_query(item_type: Option<&str>, term: Option<&str>) -> TradeSearchQuery {
    TradeSearchQuery {
        status: TradeStatus::online,
        item_type: item_type.map(|s| s.to_string()),
        term: term.map(|s| s.to_string()),
        filters: Vec::new(),
    }
}

const EXCHANGE_PAYLOAD: &str = r#"{"result":{"aa":{"listing":{"offers":[{"exchange":{"currency":"divine","amount":2},"item":{"currency":"serrated-fossil","amount":500,"stock":1000}}]}},"bb":{"listing":{"offers":[{"exchange":{"currency":"divine","amount":1},"item":{"currency":"serrated-fossil","amount":200,"stock":300}}]}}},"total":2}"#;

#[test]
fn sort_mode_constructors_set_one_field() {
    let m = TradeSortMode::have(TradeSortDirection::asc);
    assert!(m.have.is_some());
    assert!(m.price.is_none());
    let m = TradeSortMode::price(TradeSortDirection::desc);
    assert!(m.have.is_none());
    assert!(m.price.is_some());
}

#[test]
fn exchange_request_body_is_exact() {
    let body = encode_exchange_request(b"divine", b"serrated-fossil");
    assert_eq!(
        String::from_utf8(body).unwrap(),
        r#"{"query":{"status":"online","have":["divine"],"want":["serrated-fossil"],"minimum":null},"sort":{"have":"asc"},"engine":"new"}"#
    );
}

#[test]
fn search_query_object_omits_absent_fields() {
    let q = plain_query(None, None);
    assert_eq!(
        String::from_utf8(encode_search_query(&q)).unwrap(),
        r#"{"status":"online","filters":[]}"#
    );
    let q = plain_query(Some("Vivid Vulture"), Some("memory"));
    assert_eq!(
        String::from_utf8(encode_search_query(&q)).unwrap(),
        r#"{"status":"online","type":"Vivid Vulture","term":"memory","filters":[]}"#
    );
}

#[test]
fn search_query_escapes_embedded_quotes() {
    let q = plain_query(Some("a\"b\\c"), None);
    assert_eq!(
        String::from_utf8(encode_search_query(&q)).unwrap(),
        r#"{"status":"online","type":"a\"b\\c","filters":[]}"#
    );
}

#[test]
fn search_query_renders_each_filter() {
    let mut q = plain_query(None, None);
    q.filters = vec![TradeSearchFilter {}, TradeSearchFilter {}];
    assert_eq!(
        String::from_utf8(encode_search_query(&q)).unwrap(),
        r#"{"status":"online","filters":[{},{}]}"#
    );
}

#[test]
fn search_request_wraps_query_with_price_sort() {
    let q = plain_query(Some("Vivid Vulture"), None);
    assert_eq!(
        String::from_utf8(encode_search_request(&q)).unwrap(),
        r#"{"query":{"status":"online","type":"Vivid Vulture","filters":[]},"sort":{"price":"asc"}}"#
    );
}

#[test]
fn bulk_fingerprint_joins_identifiers() {
    assert_eq!(
        bulk_fingerprint(b"divine", b"serrated-fossil"),
        b"divine->serrated-fossil".to_vec()
    );
}

#[test]
fn search_fingerprint_is_base64_of_the_query_object() {
    let q = plain_query(Some("Vivid Vulture"), None);
    let expected = base64::engine::general_purpose::STANDARD
        .encode(encode_search_query(&q))
        .into_bytes();
    assert_eq!(search_fingerprint(&q), expected);
}

#[test]
fn exchange_payload_decodes_listings() {
    let parse = decode_exchange_payload(EXCHANGE_PAYLOAD.as_bytes()).unwrap();
    assert_eq!(parse.results.len(), 2);
    assert_eq!(parse.skipped, 0);
    assert_eq!(parse.total, 2);
    let offer = &parse.results[0].listing.offers[0];
    assert_eq!(offer.exchange.currency, "divine");
    assert_eq!(offer.exchange.amount_micro, 2_000_000);
    assert_eq!(offer.item.amount_micro, 500_000_000);
    assert_eq!(offer.item.stock, 1000);
}

#[test]
fn exchange_entries_of_other_shapes_are_skipped_and_counted() {
    let payload = r#"{"result":{"aa":{"listing":{"offers":[{"exchange":{"currency":"divine","amount":2},"item":{"currency":"x","amount":500,"stock":1}}]}},"zz":{"other":"shape"}},"total":2}"#;
    let parse = decode_exchange_payload(payload.as_bytes()).unwrap();
    assert_eq!(parse.results.len(), 1);
    assert_eq!(parse.skipped, 1);
}

#[test]
fn error_envelope_becomes_api_error() {
    let payload = r#"{"code":3,"message":"Invalid query"}"#;
    match decode_exchange_payload(payload.as_bytes()) {
        Err(TradeApiError::Api { code, message }) => {
            assert_eq!(code, 3);
            assert_eq!(message, "Invalid query");
        },
        other => panic!("expected an API error, got {:?}", other),
    }
}

#[test]
fn unrecognizable_payload_becomes_decode_error_with_raw_bytes() {
    let payload = b"not json at all";
    match decode_search_payload(payload) {
        Err(TradeApiError::Decode(raw)) => assert_eq!(raw, payload.to_vec()),
        other => panic!("expected a decode error, got {:?}", other),
    }
}

#[test]
fn bulk_minimum_takes_the_best_unit_price() {
    // paid 2 for 500 (0.004 each) against paid 1 for 200 (0.005 each)
    let parse = decode_exchange_payload(EXCHANGE_PAYLOAD.as_bytes()).unwrap();
    assert_eq!(bulk_min_unit_price(&parse.results), Some(4_000));
}

#[test]
fn degenerate_offers_yield_no_quote() {
    let payload = r#"{"result":{"aa":{"listing":{"offers":[{"exchange":{"currency":"divine","amount":2},"item":{"currency":"x","amount":0,"stock":1}}]}},"bb":{"listing":{"offers":[]}}},"total":2}"#;
    let parse = decode_exchange_payload(payload.as_bytes()).unwrap();
    assert_eq!(bulk_min_unit_price(&parse.results), None);
}

#[test]
fn get_bulk_pricing_resolves_and_caches() {
    let rate = rate215();
    let mut cache = RequestCache::new();
    let price = get_bulk_pricing(
        &mut cache,
        "divine",
        "serrated-fossil",
        |body: Vec<u8>| -> Result<Vec<u8>, String> {
            assert!(String::from_utf8(body).unwrap().contains("serrated-fossil"));
            Ok(EXCHANGE_PAYLOAD.as_bytes().to_vec())
        },
        &rate,
    )
    .unwrap();
    assert_eq!(price.amount_micro, 4_000);
    assert_eq!(price.currency_orb, CurrencyOrbType::Divine);
    assert_eq!(cache.len(), 1);
    // second resolution is served from the cache; the transport must not run
    let price2 = get_bulk_pricing(
        &mut cache,
        "divine",
        "serrated-fossil",
        |_body: Vec<u8>| -> Result<Vec<u8>, String> {
            panic!("cache hit must not reach the network")
        },
        &rate,
    )
    .unwrap();
    assert_eq!(price2.amount_micro, 4_000);
    assert_eq!(cache.len(), 1);
}

#[test]
fn bulk_identifiers_with_separator_bytes_are_rejected() {
    let rate = rate215();
    let mut cache = RequestCache::new();
    let r = get_bulk_pricing(
        &mut cache,
        "div,ine",
        "fossil",
        |_body: Vec<u8>| -> Result<Vec<u8>, String> { panic!("must not be called") },
        &rate,
    );
    assert!(matches!(r, Err(TradeApiError::InvalidIdentifier)));
    assert_eq!(cache.len(), 0);
}

#[test]
fn bulk_transport_failure_is_a_transport_error() {
    let rate = rate215();
    let mut cache = RequestCache::new();
    let r = get_bulk_pricing(
        &mut cache,
        "divine",
        "fossil",
        |_body: Vec<u8>| -> Result<Vec<u8>, String> { Err("timed out".to_string()) },
        &rate,
    );
    match r {
        Err(TradeApiError::Transport(m)) => assert_eq!(m, "timed out"),
        other => panic!("expected a transport error, got {:?}", other),
    }
}

const FETCH_PAYLOAD: &str = r#"{"result":[{"id":"r1","listing":{"price":{"amount":5,"currency":"chaos"}}},{"id":"r2","listing":{"price":{"amount":0.02,"currency":"divine"}}},{"id":"r3","listing":{"price":{"amount":3,"currency":"unknown"}}}]}"#;

#[test]
fn fetch_payload_decodes_strictly() {
    let results = decode_fetch_payload(FETCH_PAYLOAD.as_bytes()).unwrap();
    assert_eq!(results.len(), 3);
    assert_eq!(results[1].id, "r2");
    assert_eq!(results[1].listing.price.amount_micro, 20_000);
    assert_eq!(results[1].listing.price.currency, "divine");
}

#[test]
fn minimum_listed_price_drops_unknown_currencies() {
    // 5 chaos (= 0.0233 divine) against 0.02 divine; the unknown entry is dropped
    let rate = rate215();
    let results = decode_fetch_payload(FETCH_PAYLOAD.as_bytes()).unwrap();
    let p = min_listed_price(&results, &rate).unwrap();
    assert_eq!(p.amount_micro, 20_000);
    assert_eq!(p.currency_orb, CurrencyOrbType::Divine);
}

#[test]
fn only_unknown_currencies_is_no_quote() {
    let rate = rate215();
    let payload = r#"{"result":[{"id":"r1","listing":{"price":{"amount":3,"currency":"exalted"}}}]}"#;
    let results = decode_fetch_payload(payload.as_bytes()).unwrap();
    assert!(min_listed_price(&results, &rate).is_none());
}

#[test]
fn get_search_pricing_runs_both_phases_and_caches() {
    let rate = rate215();
    let mut cache = RequestCache::new();
    let query = plain_query(Some("Vivid Vulture"), None);
    let price = get_search_pricing(
        &mut cache,
        &query,
        |body: Vec<u8>| -> Result<Vec<u8>, String> {
            assert!(String::from_utf8(body).unwrap().contains("Vivid Vulture"));
            Ok(br#"{"id":"abc","result":["r1","r2","r3"],"total":3}"#.to_vec())
        },
        |ids: Vec<String>, qid: String| -> Result<Vec<u8>, String> {
            assert_eq!(ids, vec!["r1".to_string(), "r2".to_string(), "r3".to_string()]);
            assert_eq!(qid, "abc");
            Ok(FETCH_PAYLOAD.as_bytes().to_vec())
        },
        &rate,
    )
    .unwrap();
    assert_eq!(price.amount_micro, 20_000);
    assert_eq!(price.currency_orb, CurrencyOrbType::Divine);
    assert_eq!(cache.len(), 1);
    // a hit short-circuits both phases
    let price2 = get_search_pricing(
        &mut cache,
        &query,
        |_body: Vec<u8>| -> Result<Vec<u8>, String> { panic!("search phase must not run") },
        |_ids: Vec<String>, _qid: String| -> Result<Vec<u8>, String> {
            panic!("fetch phase must not run")
        },
        &rate,
    )
    .unwrap();
    assert_eq!(price2.amount_micro, 20_000);
    assert_eq!(cache.len(), 1);
}

#[test]
fn search_fetch_fan_out_is_capped_at_ten() {
    let rate = rate215();
    let mut cache = RequestCache::new();
    let query = plain_query(None, Some("fossil"));
    let ids: Vec<String> = (0..15).map(|i| format!("r{}", i)).collect();
    let search_payload = format!(
        r#"{{"id":"qq","result":[{}],"total":15}}"#,
        ids.iter().map(|i| format!("\"{}\"", i)).collect::<Vec<_>>().join(",")
    );
    let _ = get_search_pricing(
        &mut cache,
        &query,
        move |_body: Vec<u8>| -> Result<Vec<u8>, String> { Ok(search_payload.into_bytes()) },
        |ids: Vec<String>, _qid: String| -> Result<Vec<u8>, String> {
            assert_eq!(ids.len(), 10);
            assert_eq!(ids[9], "r9");
            Ok(FETCH_PAYLOAD.as_bytes().to_vec())
        },
        &rate,
    )
    .unwrap();
}

#[test]
fn empty_search_result_is_no_quote_without_a_fetch() {
    let rate = rate215();
    let mut cache = RequestCache::new();
    let query = plain_query(None, Some("nothing"));
    let r = get_search_pricing(
        &mut cache,
        &query,
        |_body: Vec<u8>| -> Result<Vec<u8>, String> {
            Ok(br#"{"id":"qq","result":[],"total":0}"#.to_vec())
        },
        |_ids: Vec<String>, _qid: String| -> Result<Vec<u8>, String> {
            panic!("fetch phase must not run for an empty result")
        },
        &rate,
    );
    assert!(matches!(r, Err(TradeApiError::NoQuote)));
    assert_eq!(cache.len(), 0);
}

#[test]
fn search_api_error_envelope_propagates() {
    let rate = rate215();
    let mut cache = RequestCache::new();
    let query = plain_query(None, Some("x"));
    let r = get_search_pricing(
        &mut cache,
        &query,
        |_body: Vec<u8>| -> Result<Vec<u8>, String> {
            Ok(br#"{"code":2,"message":"rate limited"}"#.to_vec())
        },
        |_ids: Vec<String>, _qid: String| -> Result<Vec<u8>, String> {
            panic!("fetch phase must not run")
        },
        &rate,
    );
    match r {
        Err(TradeApiError::Api { code, message }) => {
            assert_eq!(code, 2);
            assert_eq!(message, "rate limited");
        },
        other => panic!("expected an API error, got {:?}", other),
    }
}
