//! Decoding marketplace payloads and reducing them to quotes.
//!
//! Every decoder's contract is exact over the named reading of the payload
//! (`json_doc_of`): it succeeds precisely when the reading has the expected
//! shape, and the result is that reading. Decoding is tolerant in the
//! documented way: first the expected success shape is tried; failing
//! that, the known error envelope `{code, message}`; failing both, the raw
//! payload is surfaced as a decode error. Within a bulk-exchange response,
//! entries that do not parse as a well-formed listing are skipped and
//! counted, not fatal — the response legitimately mixes shapes. Fetch
//! responses are decoded strictly.

use vstd::prelude::*;
use vstd::string::*;

use crate::bytes::bytes_of;
use crate::decimal::{dec_micro, parse_decimal_micro, wf_decimal};
use crate::jsonval::{
    arr_of, i64_reading, json_as_array, json_as_bool, json_as_i64, json_as_str, json_as_u64,
    json_get, json_number_text, json_object_values, json_parse, json_doc_of, model_of, obj_get,
    obj_has, text_of, u64_reading, value_in_object, JsonModel,
};
use crate::price::{ConversionRate, CurrencyOrbType, Price, SAFE_AMOUNT_MICRO};

verus! {

/// The error kinds of the pricing engine.
#[derive(Clone, Debug)]
pub enum TradeApiError {
    /// Network or connection failure, with the transport's message.
    Transport(String),
    /// The payload matches no known response shape; carries the raw payload
    /// for diagnostics.
    Decode(Vec<u8>),
    /// A well-formed error envelope returned by the marketplace.
    Api { code: i64, message: String },
    /// The persisted cache could not be read or written (reported by the
    /// embedding application; reads fall through to the network instead).
    CacheIo(String),
    /// A resolver produced zero usable listings.
    NoQuote,
    /// A query identifier contains a cache-file separator byte (`,` or line
    /// feed) and would corrupt the persisted cache; rejected outright
    /// rather than silently mangled.
    InvalidIdentifier,
}

/// What one side of a bulk exchange offers: a currency and an amount in
/// micro-units.
#[derive(Clone, Debug)]
pub struct TradeExchangeExchange {
    pub currency: String,
    pub amount_micro: i64,
}

/// What the listing hands out in return, with its stock.
#[derive(Clone, Debug)]
pub struct TradeExchangeItem {
    pub currency: String,
    pub amount_micro: i64,
    pub stock: u64,
}

/// One paid/received pair within a listing.
#[derive(Clone, Debug)]
pub struct TradeExchangeOffer {
    pub exchange: TradeExchangeExchange,
    pub item: TradeExchangeItem,
}

/// One marketplace listing: its offers.
#[derive(Clone, Debug)]
pub struct TradeExchangeListing {
    pub offers: Vec<TradeExchangeOffer>,
}

/// One entry of a bulk-exchange response that parsed as a listing.
#[derive(Clone, Debug)]
pub struct TradeExchangeResult {
    pub listing: TradeExchangeListing,
}

/// A decoded bulk-exchange response: the entries that parsed as listings,
/// an explicit count of skipped entries (for observability, not silence),
/// and the reported total.
#[derive(Clone, Debug)]
pub struct TradeExchangeParse {
    pub results: Vec<TradeExchangeResult>,
    pub skipped: usize,
    pub total: u64,
}

/// The identifiers a search returned, with the query id the fetch phase
/// needs.
#[derive(Clone, Debug)]
pub struct TradeSearchIds {
    pub id: String,
    pub result: Vec<String>,
    pub total: u64,
}

/// A listed price: amount in micro-units of a named currency.
#[derive(Clone, Debug)]
pub struct TradeSearchPrice {
    pub amount_micro: i64,
    pub currency: String,
}

/// The listing part of a fetched search result.
#[derive(Clone, Debug)]
pub struct TradeSearchListing {
    pub price: TradeSearchPrice,
}

/// One fetched search result.
#[derive(Clone, Debug)]
pub struct TradeSearchResult {
    pub id: String,
    pub listing: TradeSearchListing,
}

/// Amounts a decoded offer may carry.
pub open spec fn wf_exchange_offer(o: TradeExchangeOffer) -> bool {
    &&& 0 <= o.exchange.amount_micro <= SAFE_AMOUNT_MICRO
    &&& 0 <= o.item.amount_micro <= SAFE_AMOUNT_MICRO
}

/// Every offer of the listing is well-formed.
pub open spec fn wf_exchange_result(r: TradeExchangeResult) -> bool {
    forall|i: int|
        0 <= i < r.listing.offers@.len() ==> wf_exchange_offer(#[trigger] r.listing.offers@[i])
}

/// A fetched result's price amount is representable.
pub open spec fn wf_fetch_result(r: TradeSearchResult) -> bool {
    0 <= r.listing.price.amount_micro <= SAFE_AMOUNT_MICRO
}

/// The micro-unit reading of a price-amount number: defined exactly when
/// the number's decimal text is a well-formed nonnegative decimal whose
/// value is representable.
pub open spec fn amount_reading(m: JsonModel) -> Option<int> {
    match m {
        JsonModel::Number(t) => if wf_decimal(t) && dec_micro(t) <= SAFE_AMOUNT_MICRO {
            Some(dec_micro(t))
        } else {
            None
        },
        _ => None,
    }
}

/// The reading of one offer object has the expected shape.
pub open spec fn offer_shape_ok(m: JsonModel) -> bool {
    let ex = obj_get(m, "exchange"@);
    let it = obj_get(m, "item"@);
    &&& obj_has(m, "exchange"@)
    &&& obj_has(ex, "currency"@) && obj_get(ex, "currency"@) is Text
    &&& obj_has(ex, "amount"@) && amount_reading(obj_get(ex, "amount"@)) is Some
    &&& obj_has(m, "item"@)
    &&& obj_has(it, "currency"@) && obj_get(it, "currency"@) is Text
    &&& obj_has(it, "amount"@) && amount_reading(obj_get(it, "amount"@)) is Some
    &&& obj_has(it, "stock"@) && u64_reading(obj_get(it, "stock"@)) is Some
}

/// `o` is the reading of the offer object `m`.
pub open spec fn offer_matches(m: JsonModel, o: TradeExchangeOffer) -> bool {
    let ex = obj_get(m, "exchange"@);
    let it = obj_get(m, "item"@);
    &&& offer_shape_ok(m)
    &&& o.exchange.currency@ == text_of(obj_get(ex, "currency"@))
    &&& amount_reading(obj_get(ex, "amount"@)) == Some(o.exchange.amount_micro as int)
    &&& o.item.currency@ == text_of(obj_get(it, "currency"@))
    &&& amount_reading(obj_get(it, "amount"@)) == Some(o.item.amount_micro as int)
    &&& u64_reading(obj_get(it, "stock"@)) == Some(o.item.stock as int)
}

/// The reading of one exchange-response entry is a listing.
pub open spec fn listing_shape_ok(m: JsonModel) -> bool {
    let offers = obj_get(obj_get(m, "listing"@), "offers"@);
    &&& obj_has(m, "listing"@)
    &&& obj_has(obj_get(m, "listing"@), "offers"@)
    &&& offers is Array
    &&& forall|i: int| 0 <= i < arr_of(offers).len() ==> offer_shape_ok(#[trigger] arr_of(offers)[i])
}

/// `x` is the reading of the listing entry `m`.
pub open spec fn listing_matches(m: JsonModel, x: TradeExchangeResult) -> bool {
    let offers = obj_get(obj_get(m, "listing"@), "offers"@);
    &&& listing_shape_ok(m)
    &&& x.listing.offers@.len() == arr_of(offers).len()
    &&& forall|i: int|
        0 <= i < x.listing.offers@.len() ==> offer_matches(
            arr_of(offers)[i],
            #[trigger] x.listing.offers@[i],
        )
}

/// `x` reads off some entry value of the response's `result` object.
pub open spec fn listing_from_response(doc: JsonModel, x: TradeExchangeResult) -> bool {
    exists|vm: JsonModel| value_in_object(obj_get(doc, "result"@), vm) && listing_matches(vm, x)
}

/// Some decoded listing among `results` reads off `vm`.
pub open spec fn listing_kept(vm: JsonModel, results: Seq<TradeExchangeResult>) -> bool {
    exists|t: int| 0 <= t < results.len() && listing_matches(vm, results[t])
}

/// The received amount and unit price a listing reading carries (callers
/// guard with `listing_shape_ok` and a nonempty offer list).
pub open spec fn model_unit_price(vm: JsonModel) -> int {
    let o = arr_of(obj_get(obj_get(vm, "listing"@), "offers"@))[0];
    amount_reading(obj_get(obj_get(o, "exchange"@), "amount"@))->Some_0 * 1_000_000 / (
    amount_reading(obj_get(obj_get(o, "item"@), "amount"@))->Some_0)
}

/// A listing reading the bulk reduction can use.
pub open spec fn model_usable(vm: JsonModel) -> bool {
    let offers = arr_of(obj_get(obj_get(vm, "listing"@), "offers"@));
    &&& offers.len() > 0
    &&& amount_reading(obj_get(obj_get(offers[0], "item"@), "amount"@))->Some_0 > 0
    &&& model_unit_price(vm) <= SAFE_AMOUNT_MICRO
}

/// A decoded listing is usable exactly when its reading is, with the same
/// unit price.
pub proof fn lemma_listing_price_matches(vm: JsonModel, x: TradeExchangeResult)
    requires
        listing_matches(vm, x),
    ensures
        spec_usable(x) == model_usable(vm),
        spec_usable(x) ==> spec_unit_price(x) == model_unit_price(vm),
{
    let offers = arr_of(obj_get(obj_get(vm, "listing"@), "offers"@));
    if x.listing.offers@.len() > 0 {
        assert(offer_matches(offers[0], x.listing.offers@[0]));
    }
}

/// The reading of the error envelope `{code, message}`, when the document
/// has that shape.
pub open spec fn envelope_reading(m: JsonModel) -> Option<(int, Seq<char>)> {
    if obj_has(m, "code"@) && i64_reading(obj_get(m, "code"@)) is Some && obj_has(m, "message"@)
        && obj_get(m, "message"@) is Text {
        Some((i64_reading(obj_get(m, "code"@))->Some_0, text_of(obj_get(m, "message"@))))
    } else {
        None
    }
}

/// The reading of a bulk-exchange response has the expected shape (entry
/// tolerance is at the entry level, not here).
pub open spec fn exchange_shape_ok(doc: JsonModel) -> bool {
    &&& !(doc is Invalid)
    &&& obj_has(doc, "result"@) && obj_get(doc, "result"@) is Object
    &&& obj_has(doc, "total"@) && u64_reading(obj_get(doc, "total"@)) is Some
}

/// The reading of a search response has the expected shape.
pub open spec fn search_shape_ok(doc: JsonModel) -> bool {
    let res = obj_get(doc, "result"@);
    &&& !(doc is Invalid)
    &&& obj_has(doc, "id"@) && obj_get(doc, "id"@) is Text
    &&& obj_has(doc, "result"@) && res is Array
    &&& (forall|i: int| 0 <= i < arr_of(res).len() ==> (#[trigger] arr_of(res)[i]) is Text)
    &&& obj_has(doc, "total"@) && u64_reading(obj_get(doc, "total"@)) is Some
}

/// `x` is the reading of the search response `doc`.
pub open spec fn search_matches(doc: JsonModel, x: TradeSearchIds) -> bool {
    let res = obj_get(doc, "result"@);
    &&& search_shape_ok(doc)
    &&& x.id@ == text_of(obj_get(doc, "id"@))
    &&& x.result@.len() == arr_of(res).len()
    &&& (forall|i: int|
        0 <= i < x.result@.len() ==> (#[trigger] x.result@[i])@ == text_of(arr_of(res)[i]))
    &&& u64_reading(obj_get(doc, "total"@)) == Some(x.total as int)
}

/// The reading of one fetched search result has the expected shape.
pub open spec fn fetch_entry_shape_ok(e: JsonModel) -> bool {
    let price = obj_get(obj_get(e, "listing"@), "price"@);
    &&& obj_has(e, "id"@) && obj_get(e, "id"@) is Text
    &&& obj_has(e, "listing"@) && obj_has(obj_get(e, "listing"@), "price"@)
    &&& obj_has(price, "amount"@) && amount_reading(obj_get(price, "amount"@)) is Some
    &&& obj_has(price, "currency"@) && obj_get(price, "currency"@) is Text
}

/// `x` is the reading of the fetched result `e`.
pub open spec fn fetch_entry_matches(e: JsonModel, x: TradeSearchResult) -> bool {
    let price = obj_get(obj_get(e, "listing"@), "price"@);
    &&& fetch_entry_shape_ok(e)
    &&& x.id@ == text_of(obj_get(e, "id"@))
    &&& amount_reading(obj_get(price, "amount"@)) == Some(x.listing.price.amount_micro as int)
    &&& x.listing.price.currency@ == text_of(obj_get(price, "currency"@))
}

/// The reading of a fetch response has the expected shape, every entry
/// included (fetch decoding is strict).
pub open spec fn fetch_shape_ok(doc: JsonModel) -> bool {
    let res = obj_get(doc, "result"@);
    &&& !(doc is Invalid)
    &&& obj_has(doc, "result"@) && res is Array
    &&& forall|i: int| 0 <= i < arr_of(res).len() ==> fetch_entry_shape_ok(#[trigger] arr_of(res)[i])
}

/// Decode the price amount held by a JSON number value.
fn decode_amount(v: &serde_json::Value) -> (r: Option<i64>)
    ensures
        r is Some <==> amount_reading(model_of(*v)) is Some,
        r matches Some(a) ==> amount_reading(model_of(*v)) == Some(a as int) && 0 <= a
            <= SAFE_AMOUNT_MICRO,
{
    match json_number_text(v) {
        Some(t) => parse_decimal_micro(t.as_slice()),
        None => None,
    }
}

/// Decode one offer object; `None` exactly when its reading lacks the
/// offer shape.
fn decode_offer(v: &serde_json::Value) -> (r: Option<TradeExchangeOffer>)
    ensures
        r is Some <==> offer_shape_ok(model_of(*v)),
        r matches Some(o) ==> offer_matches(model_of(*v), o) && wf_exchange_offer(o),
{
    let exchange_v = match json_get(v, "exchange") {
        Some(x) => x,
        None => { return None },
    };
    let ex_currency = match json_get(exchange_v, "currency") {
        Some(x) => match json_as_str(x) {
            Some(s) => s,
            None => { return None },
        },
        None => { return None },
    };
    let ex_amount = match json_get(exchange_v, "amount") {
        Some(x) => match decode_amount(x) {
            Some(a) => a,
            None => { return None },
        },
        None => { return None },
    };
    let item_v = match json_get(v, "item") {
        Some(x) => x,
        None => { return None },
    };
    let it_currency = match json_get(item_v, "currency") {
        Some(x) => match json_as_str(x) {
            Some(s) => s,
            None => { return None },
        },
        None => { return None },
    };
    let it_amount = match json_get(item_v, "amount") {
        Some(x) => match decode_amount(x) {
            Some(a) => a,
            None => { return None },
        },
        None => { return None },
    };
    let stock = match json_get(item_v, "stock") {
        Some(x) => match json_as_u64(x) {
            Some(s) => s,
            None => { return None },
        },
        None => { return None },
    };
    Some(
        TradeExchangeOffer {
            exchange: TradeExchangeExchange { currency: ex_currency, amount_micro: ex_amount },
            item: TradeExchangeItem { currency: it_currency, amount_micro: it_amount, stock },
        },
    )
}

/// Decode one bulk-exchange response entry as a listing; `None` exactly
/// when its reading is of another shape (such entries are skipped and
/// counted by the caller).
#[verifier::loop_isolation(false)]
fn decode_exchange_value(v: &serde_json::Value) -> (r: Option<TradeExchangeResult>)
    ensures
        r is Some <==> listing_shape_ok(model_of(*v)),
        r matches Some(x) ==> listing_matches(model_of(*v), x) && wf_exchange_result(x),
{
    let listing_v = match json_get(v, "listing") {
        Some(x) => x,
        None => { return None },
    };
    let offers_v = match json_get(listing_v, "offers") {
        Some(x) => x,
        None => { return None },
    };
    let arr = match json_as_array(offers_v) {
        Some(x) => x,
        None => { return None },
    };
    let ghost offers_m = arr_of(model_of(*offers_v));
    let mut offers: Vec<TradeExchangeOffer> = Vec::new();
    let n = arr.len();
    let mut i: usize = 0;
    while i < n
        invariant
            n == arr@.len(),
            n == offers_m.len(),
            0 <= i <= n,
            forall|j: int| 0 <= j < n ==> model_of(#[trigger] arr@[j]) == offers_m[j],
            offers@.len() == i,
            forall|j: int|
                0 <= j < i ==> offer_matches(offers_m[j], #[trigger] offers@[j])
                    && wf_exchange_offer(offers@[j]),
        decreases n - i,
    {
        match decode_offer(&arr[i]) {
            Some(o) => offers.push(o),
            None => {
                proof {
                    assert(!offer_shape_ok(offers_m[i as int]));
                }
                return None;
            },
        }
        i += 1;
    }
    proof {
        let m = model_of(*v);
        assert(obj_has(m, "listing"@));
        assert(model_of(*listing_v) == obj_get(m, "listing"@));
        assert(obj_has(obj_get(m, "listing"@), "offers"@));
        assert(model_of(*offers_v) == obj_get(obj_get(m, "listing"@), "offers"@));
        assert(obj_get(obj_get(m, "listing"@), "offers"@) is Array);
        assert(offers_m == arr_of(obj_get(obj_get(m, "listing"@), "offers"@)));
        assert forall|t: int| 0 <= t < offers_m.len() implies offer_shape_ok(
            #[trigger] arr_of(obj_get(obj_get(m, "listing"@), "offers"@))[t],
        ) by {
            assert(offer_matches(offers_m[t], offers@[t]));
        }
        assert(listing_shape_ok(m));
    }
    Some(TradeExchangeResult { listing: TradeExchangeListing { offers } })
}

/// The reading of the error envelope, when the document has that shape.
fn decode_error_envelope(v: &serde_json::Value) -> (r: Option<(i64, String)>)
    ensures
        r is Some <==> envelope_reading(model_of(*v)) is Some,
        r matches Some(cm) ==> envelope_reading(model_of(*v)) == Some((cm.0 as int, cm.1@)),
{
    let code = match json_get(v, "code") {
        Some(x) => match json_as_i64(x) {
            Some(c) => c,
            None => { return None },
        },
        None => { return None },
    };
    let message = match json_get(v, "message") {
        Some(x) => match json_as_str(x) {
            Some(m) => m,
            None => { return None },
        },
        None => { return None },
    };
    Some((code, message))
}

/// Classify a payload whose success shape did not decode: a well-formed
/// error envelope becomes an API error; anything else a decode error
/// carrying the raw payload.
fn classify_failure(doc: &serde_json::Value, payload: &[u8]) -> (r: TradeApiError)
    ensures
        r is Api || r is Decode,
        r is Api <==> envelope_reading(model_of(*doc)) is Some,
        r matches TradeApiError::Api { code, message } ==> envelope_reading(model_of(*doc))
            == Some((code as int, message@)),
        r matches TradeApiError::Decode(raw) ==> raw@ == payload@,
{
    match decode_error_envelope(doc) {
        Some((code, message)) => TradeApiError::Api { code, message },
        None => TradeApiError::Decode(bytes_of(payload)),
    }
}

/// Decode a bulk-exchange payload. Succeeds exactly when the payload's
/// reading has the response shape; entries that read as listings are kept
/// in order, the rest are counted as skipped. On shape failure the error
/// envelope and then the raw payload are surfaced.
#[verifier::loop_isolation(false)]
pub fn decode_exchange_payload(payload: &[u8]) -> (r: Result<TradeExchangeParse, TradeApiError>)
    ensures
        r is Ok <==> exchange_shape_ok(json_doc_of(payload@)),
        r matches Ok(p) ==> ({
            let doc = json_doc_of(payload@);
            &&& u64_reading(obj_get(doc, "total"@)) == Some(p.total as int)
            &&& forall|i: int|
                0 <= i < p.results@.len() ==> #[trigger] listing_from_response(
                    doc,
                    p.results@[i],
                )
            // and no listing of the response is dropped: every entry value
            // that reads as a listing is kept
            &&& forall|vm: JsonModel|
                value_in_object(obj_get(doc, "result"@), vm) && listing_shape_ok(vm)
                    ==> #[trigger] listing_kept(vm, p.results@)
        }),
        r matches Ok(p) ==> forall|i: int|
            0 <= i < p.results@.len() ==> wf_exchange_result(#[trigger] p.results@[i]),
        r matches Err(e) ==> (e is Api || e is Decode),
        r matches Err(TradeApiError::Api { code, message }) ==> envelope_reading(
            json_doc_of(payload@),
        ) == Some((code as int, message@)),
        r matches Err(TradeApiError::Decode(raw)) ==> raw@ == payload@ && (json_doc_of(payload@)
            is Invalid || envelope_reading(json_doc_of(payload@)) is None),
{
    let doc = match json_parse(payload) {
        Some(d) => d,
        None => { return Err(TradeApiError::Decode(bytes_of(payload))) },
    };
    let ghost doc_m = json_doc_of(payload@);
    let vals = match json_get(&doc, "result") {
        Some(rv) => match json_object_values(rv) {
            Some(vs) => vs,
            None => { return Err(classify_failure(&doc, payload)) },
        },
        None => { return Err(classify_failure(&doc, payload)) },
    };
    let total = match json_get(&doc, "total") {
        Some(tv) => match json_as_u64(tv) {
            Some(t) => t,
            None => { return Err(classify_failure(&doc, payload)) },
        },
        None => { return Err(classify_failure(&doc, payload)) },
    };
    let mut results: Vec<TradeExchangeResult> = Vec::new();
    let mut skipped: usize = 0;
    let n = vals.len();
    let mut i: usize = 0;
    while i < n
        invariant
            n == vals@.len(),
            0 <= i <= n,
            skipped <= i,
            forall|j: int| 0 <= j < n ==> value_in_object(obj_get(doc_m, "result"@), model_of(#[trigger] vals@[j])),
            forall|t: int|
                0 <= t < results@.len() ==> #[trigger] listing_from_response(doc_m, results@[t]),
            forall|t: int| 0 <= t < results@.len() ==> wf_exchange_result(#[trigger] results@[t]),
            forall|j: int|
                0 <= j < i && listing_shape_ok(model_of(#[trigger] vals@[j])) ==> listing_kept(
                    model_of(vals@[j]),
                    results@,
                ),
        decreases n - i,
    {
        let ghost results_before = results@;
        match decode_exchange_value(&vals[i]) {
            Some(x) => {
                proof {
                    assert(listing_matches(model_of(vals@[i as int]), x));
                    assert(value_in_object(obj_get(doc_m, "result"@), model_of(vals@[i as int])));
                    assert(listing_from_response(doc_m, x));
                }
                results.push(x);
                proof {
                    assert(results@[results@.len() - 1] == x);
                    assert(listing_kept(model_of(vals@[i as int]), results@));
                }
            },
            None => skipped += 1,
        }
        proof {
            assert forall|j: int|
                0 <= j < i + 1 && listing_shape_ok(model_of(#[trigger] vals@[j])) implies
                listing_kept(model_of(vals@[j]), results@) by {
                if j < i {
                    assert(listing_kept(model_of(vals@[j]), results_before));
                    let t = choose|t: int|
                        0 <= t < results_before.len() && listing_matches(
                            model_of(vals@[j]),
                            results_before[t],
                        );
                    assert(results@[t] == results_before[t]);
                    assert(listing_kept(model_of(vals@[j]), results@));
                } else {
                    assert(listing_shape_ok(model_of(vals@[i as int])));
                }
            }
        }
        i += 1;
    }
    proof {
        assert forall|vm: JsonModel|
            value_in_object(obj_get(json_doc_of(payload@), "result"@), vm) && listing_shape_ok(
            vm,
        ) implies listing_kept(vm, results@) by {
            let k = choose|k: Seq<char>|
                crate::jsonval::obj_has(obj_get(doc_m, "result"@), k) && obj_get(
                    obj_get(doc_m, "result"@),
                    k,
                ) == vm;
            let idx = choose|idx: int|
                0 <= idx < vals@.len() && model_of(vals@[idx]) == obj_get(
                    obj_get(doc_m, "result"@),
                    k,
                );
            assert(listing_kept(model_of(vals@[idx]), results@));
        }
    }
    Ok(TradeExchangeParse { results, skipped, total })
}

/// Decode a search payload into the returned identifiers. Succeeds exactly
/// when the payload's reading has the response shape; with the envelope /
/// raw fallback on shape failure.
#[verifier::loop_isolation(false)]
pub fn decode_search_payload(payload: &[u8]) -> (r: Result<TradeSearchIds, TradeApiError>)
    ensures
        r is Ok <==> search_shape_ok(json_doc_of(payload@)),
        r matches Ok(x) ==> search_matches(json_doc_of(payload@), x),
        r matches Err(e) ==> (e is Api || e is Decode),
        r matches Err(TradeApiError::Api { code, message }) ==> envelope_reading(
            json_doc_of(payload@),
        ) == Some((code as int, message@)),
        r matches Err(TradeApiError::Decode(raw)) ==> raw@ == payload@ && (json_doc_of(payload@)
            is Invalid || envelope_reading(json_doc_of(payload@)) is None),
{
    let doc = match json_parse(payload) {
        Some(d) => d,
        None => { return Err(TradeApiError::Decode(bytes_of(payload))) },
    };
    let ghost doc_m = json_doc_of(payload@);
    let id = match json_get(&doc, "id") {
        Some(x) => match json_as_str(x) {
            Some(s) => s,
            None => { return Err(classify_failure(&doc, payload)) },
        },
        None => { return Err(classify_failure(&doc, payload)) },
    };
    let arr = match json_get(&doc, "result") {
        Some(x) => match json_as_array(x) {
            Some(a) => a,
            None => { return Err(classify_failure(&doc, payload)) },
        },
        None => { return Err(classify_failure(&doc, payload)) },
    };
    let total = match json_get(&doc, "total") {
        Some(x) => match json_as_u64(x) {
            Some(t) => t,
            None => { return Err(classify_failure(&doc, payload)) },
        },
        None => { return Err(classify_failure(&doc, payload)) },
    };
    let ghost res_m = arr_of(obj_get(doc_m, "result"@));
    let mut result: Vec<String> = Vec::new();
    let n = arr.len();
    let mut i: usize = 0;
    while i < n
        invariant
            n == arr@.len(),
            n == res_m.len(),
            0 <= i <= n,
            forall|j: int| 0 <= j < n ==> model_of(#[trigger] arr@[j]) == res_m[j],
            result@.len() == i,
            forall|j: int| 0 <= j < i ==> (#[trigger] result@[j])@ == text_of(res_m[j]),
            forall|j: int| 0 <= j < i ==> res_m[j] is Text,
        decreases n - i,
    {
        match json_as_str(&arr[i]) {
            Some(s) => result.push(s),
            None => {
                proof {
                    assert(!(res_m[i as int] is Text));
                }
                return Err(classify_failure(&doc, payload));
            },
        }
        i += 1;
    }
    Ok(TradeSearchIds { id, result, total })
}

/// Decode one fetched search result; `None` exactly when its reading
/// lacks the entry shape.
fn decode_fetch_entry(v: &serde_json::Value) -> (r: Option<TradeSearchResult>)
    ensures
        r is Some <==> fetch_entry_shape_ok(model_of(*v)),
        r matches Some(x) ==> fetch_entry_matches(model_of(*v), x) && wf_fetch_result(x),
{
    let id = match json_get(v, "id") {
        Some(x) => match json_as_str(x) {
            Some(s) => s,
            None => { return None },
        },
        None => { return None },
    };
    let price_v = match json_get(v, "listing") {
        Some(l) => match json_get(l, "price") {
            Some(p) => p,
            None => { return None },
        },
        None => { return None },
    };
    let amount = match json_get(price_v, "amount") {
        Some(x) => match decode_amount(x) {
            Some(a) => a,
            None => { return None },
        },
        None => { return None },
    };
    let currency = match json_get(price_v, "currency") {
        Some(x) => match json_as_str(x) {
            Some(s) => s,
            None => { return None },
        },
        None => { return None },
    };
    Some(
        TradeSearchResult {
            id,
            listing: TradeSearchListing {
                price: TradeSearchPrice { amount_micro: amount, currency },
            },
        },
    )
}

/// Decode a fetch payload into priced results, strictly: it succeeds
/// exactly when the payload's reading has the response shape with every
/// entry well-formed; with the envelope / raw fallback on shape failure.
#[verifier::loop_isolation(false)]
pub fn decode_fetch_payload(payload: &[u8]) -> (r: Result<Vec<TradeSearchResult>, TradeApiError>)
    ensures
        r is Ok <==> fetch_shape_ok(json_doc_of(payload@)),
        r matches Ok(v) ==> ({
            let res = arr_of(obj_get(json_doc_of(payload@), "result"@));
            &&& v@.len() == res.len()
            &&& forall|i: int| 0 <= i < v@.len() ==> fetch_entry_matches(res[i], #[trigger] v@[i])
        }),
        r matches Ok(v) ==> forall|i: int| 0 <= i < v@.len() ==> wf_fetch_result(#[trigger] v@[i]),
        r matches Err(e) ==> (e is Api || e is Decode),
        r matches Err(TradeApiError::Api { code, message }) ==> envelope_reading(
            json_doc_of(payload@),
        ) == Some((code as int, message@)),
        r matches Err(TradeApiError::Decode(raw)) ==> raw@ == payload@ && (json_doc_of(payload@)
            is Invalid || envelope_reading(json_doc_of(payload@)) is None),
{
    let doc = match json_parse(payload) {
        Some(d) => d,
        None => { return Err(TradeApiError::Decode(bytes_of(payload))) },
    };
    let ghost doc_m = json_doc_of(payload@);
    let arr = match json_get(&doc, "result") {
        Some(x) => match json_as_array(x) {
            Some(a) => a,
            None => { return Err(classify_failure(&doc, payload)) },
        },
        None => { return Err(classify_failure(&doc, payload)) },
    };
    let ghost res_m = arr_of(obj_get(doc_m, "result"@));
    let mut out: Vec<TradeSearchResult> = Vec::new();
    let n = arr.len();
    let mut i: usize = 0;
    while i < n
        invariant
            n == arr@.len(),
            n == res_m.len(),
            0 <= i <= n,
            forall|j: int| 0 <= j < n ==> model_of(#[trigger] arr@[j]) == res_m[j],
            out@.len() == i,
            forall|j: int|
                0 <= j < i ==> fetch_entry_matches(res_m[j], #[trigger] out@[j]) && wf_fetch_result(
                    out@[j],
                ),
        decreases n - i,
    {
        match decode_fetch_entry(&arr[i]) {
            Some(x) => out.push(x),
            None => {
                proof {
                    assert(!fetch_entry_shape_ok(
                        arr_of(obj_get(json_doc_of(payload@), "result"@))[i as int],
                    ));
                    assert(!fetch_shape_ok(json_doc_of(payload@)));
                }
                return Err(classify_failure(&doc, payload));
            },
        }
        i += 1;
    }
    proof {
        assert forall|t: int|
            0 <= t < res_m.len() implies fetch_entry_shape_ok(
            #[trigger] arr_of(obj_get(json_doc_of(payload@), "result"@))[t],
        ) by {
            assert(fetch_entry_matches(res_m[t], out@[t]));
        }
        assert(fetch_shape_ok(json_doc_of(payload@)));
        assert forall|t: int|
            0 <= t < out@.len() implies fetch_entry_matches(
            arr_of(obj_get(json_doc_of(payload@), "result"@))[t],
            #[trigger] out@[t],
        ) by {
            assert(fetch_entry_matches(res_m[t], out@[t]));
        }
    }
    Ok(out)
}

/// Unit price of a listing's first offer: micro-units paid per whole unit
/// received (amounts are micro-scaled, so the ratio is scaled back up).
pub open spec fn spec_unit_price(r: TradeExchangeResult) -> int {
    r.listing.offers@[0].exchange.amount_micro * 1_000_000 / (
    r.listing.offers@[0].item.amount_micro as int)
}

/// A listing the bulk reduction can use: it has an offer, the received
/// amount is positive (no division by zero), and the unit price is
/// representable.
pub open spec fn spec_usable(r: TradeExchangeResult) -> bool {
    &&& r.listing.offers@.len() > 0
    &&& r.listing.offers@[0].item.amount_micro > 0
    &&& spec_unit_price(r) <= SAFE_AMOUNT_MICRO
}

/// The minimum unit price over all usable listings: the best deal for the
/// buyer. `None` exactly when no listing is usable (empty, degenerate or
/// out of range); among equal minima the earliest listing decides.
pub fn bulk_min_unit_price(results: &Vec<TradeExchangeResult>) -> (r: Option<i64>)
    requires
        forall|i: int| 0 <= i < results@.len() ==> wf_exchange_result(#[trigger] results@[i]),
    ensures
        match r {
            Some(m) => {
                &&& 0 <= m <= SAFE_AMOUNT_MICRO
                &&& exists|i: int|
                    0 <= i < results@.len() && spec_usable(#[trigger] results@[i])
                        && spec_unit_price(results@[i]) == m && (forall|j: int|
                        0 <= j < i && spec_usable(#[trigger] results@[j]) ==> spec_unit_price(
                            results@[j],
                        ) > m)
                &&& forall|j: int|
                    0 <= j < results@.len() && spec_usable(#[trigger] results@[j]) ==> m
                        <= spec_unit_price(results@[j])
            },
            None => forall|i: int| 0 <= i < results@.len() ==> !spec_usable(#[trigger] results@[i]),
        },
{
    let mut best: Option<i64> = None;
    let ghost mut best_at: int = 0;
    let n = results.len();
    let mut i: usize = 0;
    while i < n
        invariant
            n == results@.len(),
            0 <= i <= n,
            forall|k: int| 0 <= k < n ==> wf_exchange_result(#[trigger] results@[k]),
            match best {
                Some(m) => {
                    &&& 0 <= m <= SAFE_AMOUNT_MICRO
                    &&& 0 <= best_at < i
                    &&& spec_usable(results@[best_at])
                    &&& spec_unit_price(results@[best_at]) == m
                    &&& forall|j: int|
                        0 <= j < best_at && spec_usable(#[trigger] results@[j]) ==> spec_unit_price(
                            results@[j],
                        ) > m
                    &&& forall|j: int|
                        0 <= j < i && spec_usable(#[trigger] results@[j]) ==> m <= spec_unit_price(
                            results@[j],
                        )
                },
                None => forall|j: int| 0 <= j < i ==> !spec_usable(#[trigger] results@[j]),
            },
        decreases n - i,
    {
        let entry = &results[i];
        if entry.listing.offers.len() > 0 {
            let paid = entry.listing.offers[0].exchange.amount_micro;
            let recv = entry.listing.offers[0].item.amount_micro;
            if recv > 0 {
                let q: i128 = (paid as i128) * 1_000_000 / (recv as i128);
                proof {
                    vstd::arithmetic::div_mod::lemma_div_pos_is_pos(paid * 1_000_000, recv as int);
                }
                if q <= SAFE_AMOUNT_MICRO as i128 {
                    let u = q as i64;
                    let better = match best {
                        Some(m) => u < m,
                        None => true,
                    };
                    if better {
                        best = Some(u);
                        proof {
                            best_at = i as int;
                        }
                    }
                }
            }
        }
        i += 1;
    }
    best
}

/// The currency unit a listed price's text names, when recognized.
pub open spec fn spec_currency_of(c: Seq<char>) -> Option<CurrencyOrbType> {
    if c == "divine"@ {
        Some(CurrencyOrbType::Divine)
    } else if c == "chaos"@ {
        Some(CurrencyOrbType::Chaos)
    } else {
        None
    }
}

/// Recognize a currency name; anything else is dropped by the reduction,
/// not an error.
pub fn currency_of(c: &String) -> (r: Option<CurrencyOrbType>)
    ensures
        r == spec_currency_of(c@),
{
    let divine: String = String::from_str("divine");
    if *c == divine {
        return Some(CurrencyOrbType::Divine);
    }
    let chaos: String = String::from_str("chaos");
    if *c == chaos {
        return Some(CurrencyOrbType::Chaos);
    }
    None
}

/// A fetched result whose currency is recognized.
pub open spec fn spec_recognized(r: TradeSearchResult) -> bool {
    spec_currency_of(r.listing.price.currency@) is Some
}

/// The price a recognized result lists.
pub open spec fn spec_listed_price(r: TradeSearchResult) -> Price {
    Price {
        amount_micro: r.listing.price.amount_micro,
        currency_orb: spec_currency_of(r.listing.price.currency@)->Some_0,
    }
}

/// A fetched-result reading whose listed currency is recognized.
pub open spec fn spec_entry_recognized(e: JsonModel) -> bool {
    spec_currency_of(
        text_of(obj_get(obj_get(obj_get(e, "listing"@), "price"@), "currency"@)),
    ) is Some
}

/// The price a recognized fetched-result reading lists.
pub open spec fn spec_entry_price(e: JsonModel) -> Price {
    let price = obj_get(obj_get(e, "listing"@), "price"@);
    Price {
        amount_micro: amount_reading(obj_get(price, "amount"@))->Some_0 as i64,
        currency_orb: spec_currency_of(text_of(obj_get(price, "currency"@)))->Some_0,
    }
}

/// A decoded record lists exactly the price its reading lists.
pub proof fn lemma_entry_price_matches(e: JsonModel, x: TradeSearchResult)
    requires
        fetch_entry_matches(e, x),
    ensures
        spec_recognized(x) == spec_entry_recognized(e),
        spec_recognized(x) ==> spec_listed_price(x) == spec_entry_price(e),
{
}

/// The minimum listed price by canonical ordering, over results whose
/// currency is recognized; unrecognized currencies are dropped. `None`
/// exactly when nothing recognizable is left; among canonically equal
/// minima the earliest result decides.
pub fn min_listed_price(results: &Vec<TradeSearchResult>, rate: &ConversionRate) -> (r: Option<
    Price,
>)
    requires
        rate.wf(),
        forall|i: int| 0 <= i < results@.len() ==> wf_fetch_result(#[trigger] results@[i]),
    ensures
        match r {
            Some(p) => {
                &&& p.wf(*rate)
                &&& p.amount_micro >= 0
                &&& exists|i: int|
                    0 <= i < results@.len() && spec_recognized(#[trigger] results@[i]) && p
                        == spec_listed_price(results@[i]) && (forall|j: int|
                        0 <= j < i && spec_recognized(#[trigger] results@[j]) ==> spec_listed_price(
                            results@[j],
                        ).chaos_micro(*rate) > p.chaos_micro(*rate))
                &&& forall|j: int|
                    0 <= j < results@.len() && spec_recognized(#[trigger] results@[j])
                        ==> p.chaos_micro(*rate) <= spec_listed_price(results@[j]).chaos_micro(
                        *rate,
                    )
            },
            None => forall|i: int|
                0 <= i < results@.len() ==> !spec_recognized(#[trigger] results@[i]),
        },
{
    let mut best: Option<Price> = None;
    let ghost mut best_at: int = 0;
    let n = results.len();
    let mut i: usize = 0;
    while i < n
        invariant
            rate.wf(),
            n == results@.len(),
            0 <= i <= n,
            forall|k: int| 0 <= k < n ==> wf_fetch_result(#[trigger] results@[k]),
            match best {
                Some(p) => {
                    &&& p.wf(*rate)
                    &&& p.amount_micro >= 0
                    &&& 0 <= best_at < i
                    &&& spec_recognized(results@[best_at])
                    &&& p == spec_listed_price(results@[best_at])
                    &&& forall|j: int|
                        0 <= j < best_at && spec_recognized(#[trigger] results@[j])
                            ==> spec_listed_price(results@[j]).chaos_micro(*rate) > p.chaos_micro(
                            *rate,
                        )
                    &&& forall|j: int|
                        0 <= j < i && spec_recognized(#[trigger] results@[j]) ==> p.chaos_micro(
                            *rate,
                        ) <= spec_listed_price(results@[j]).chaos_micro(*rate)
                },
                None => forall|j: int| 0 <= j < i ==> !spec_recognized(#[trigger] results@[j]),
            },
        decreases n - i,
    {
        let entry = &results[i];
        match currency_of(&entry.listing.price.currency) {
            Some(unit) => {
                let cand = Price::new(entry.listing.price.amount_micro, unit);
                proof {
                    assert(cand == spec_listed_price(results@[i as int]));
                }
                let better = match &best {
                    Some(p) => cand.lt(p, rate),
                    None => true,
                };
                if better {
                    best = Some(cand);
                    proof {
                        best_at = i as int;
                    }
                }
            },
            None => (),
        }
        i += 1;
    }
    best
}

} // verus!
