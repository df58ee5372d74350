//! Marketplace query protocol: query types, the exact request bodies and
//! cache fingerprints both protocols use, and the two quote resolvers.
//!
//! The resolvers own every decision — fingerprints, caching, tolerant
//! payload decoding, reduction to one quote — while the actual HTTP round
//! trips are injected as transport closures by the embedding application.

use vstd::prelude::*;
use vstd::string::*;

use crate::b64::{b64_bytes_of, b64_clean, b64_encode};
use crate::bytes::{bytes_of, contains_byte, push_bytes};
use crate::cache::{spec_lookup, RequestCache};
use crate::codec::clean_key;
use crate::price::{ConversionRate, CurrencyOrbType, Price, SAFE_AMOUNT_MICRO};
use crate::jsonval::{arr_of, json_doc_of, obj_get, value_in_object, JsonModel};
use crate::trade_decode::{
    bulk_min_unit_price, currency_of, decode_exchange_payload, decode_fetch_payload,
    decode_search_payload, exchange_shape_ok, fetch_entry_matches, fetch_shape_ok,
    lemma_entry_price_matches, lemma_listing_price_matches, listing_from_response, listing_kept,
    listing_matches, listing_shape_ok, min_listed_price, model_unit_price, model_usable,
    search_matches, spec_currency_of, spec_entry_price, spec_entry_recognized, spec_listed_price,
    spec_recognized, spec_unit_price, spec_usable, TradeApiError, TradeSearchIds,
};

verus! {

/// Connection status filter a query asks the marketplace for.
#[allow(non_camel_case_types)]
#[derive(Clone, Copy, PartialEq, Eq, Structural, Debug)]
pub enum TradeStatus {
    online,
    onlineleague,
    any,
}

/// Sort direction for a query.
#[allow(non_camel_case_types)]
#[derive(Clone, Copy, PartialEq, Eq, Structural, Debug)]
pub enum TradeSortDirection {
    asc,
    desc,
}

/// Which field a query sorts by; at most one is set.
#[derive(Clone, Copy, Debug)]
pub struct TradeSortMode {
    pub have: Option<TradeSortDirection>,
    pub price: Option<TradeSortDirection>,
}

impl TradeSortMode {
    /// Sort by "have" quantity.
    pub fn have(dir: TradeSortDirection) -> (r: TradeSortMode)
        ensures
            r.have == Some(dir),
            r.price is None,
    {
        TradeSortMode { have: Some(dir), price: None }
    }

    /// Sort by price.
    pub fn price(dir: TradeSortDirection) -> (r: TradeSortMode)
        ensures
            r.have is None,
            r.price == Some(dir),
    {
        TradeSortMode { have: None, price: Some(dir) }
    }
}

/// One search filter. The marketplace accepts an object per filter; the
/// strategies this tool evaluates use none yet, so the filter carries no
/// fields of its own.
#[derive(Clone, Debug)]
pub struct TradeSearchFilter {}

/// A named/filtered item search.
#[derive(Clone, Debug)]
pub struct TradeSearchQuery {
    pub status: TradeStatus,
    pub item_type: Option<String>,
    pub term: Option<String>,
    pub filters: Vec<TradeSearchFilter>,
}

/// The hex digit for a nibble, lower case.
pub open spec fn spec_hex_digit(n: u8) -> u8 {
    if n < 10 {
        (48 + n) as u8
    } else {
        (87 + n) as u8
    }
}

/// How one byte appears inside a JSON string: `"` and `\` are escaped,
/// control bytes become `\u00XX`, everything else stands as itself (UTF-8
/// continuation bytes are above the control range, so this is correct for
/// multi-byte characters).
pub open spec fn spec_escaped_byte(b: u8) -> Seq<u8> {
    if b == 34 {
        seq![92u8, 34u8]
    } else if b == 92 {
        seq![92u8, 92u8]
    } else if b < 32 {
        seq![92u8, 117u8, 48u8, 48u8, spec_hex_digit(b / 16), spec_hex_digit(b % 16)]
    } else {
        seq![b]
    }
}

/// A byte sequence escaped for use inside a JSON string literal.
pub open spec fn spec_json_escaped(s: Seq<u8>) -> Seq<u8>
    decreases s.len(),
{
    if s.len() == 0 {
        Seq::empty()
    } else {
        spec_escaped_byte(s[0]) + spec_json_escaped(s.drop_first())
    }
}

/// Escaping a longer string escapes the extra byte at the end.
proof fn lemma_json_escaped_push(s: Seq<u8>, b: u8)
    ensures
        spec_json_escaped(s.push(b)) == spec_json_escaped(s) + spec_escaped_byte(b),
    decreases s.len(),
{
    let t = s.push(b);
    assert(t.len() == s.len() + 1);
    assert(spec_json_escaped(t) == spec_escaped_byte(t[0]) + spec_json_escaped(t.drop_first()));
    if s.len() == 0 {
        assert(t[0] == b);
        assert(t.drop_first() =~= Seq::<u8>::empty());
        assert(spec_json_escaped(Seq::<u8>::empty()) == Seq::<u8>::empty());
        assert(spec_json_escaped(s) + spec_escaped_byte(b) =~= spec_escaped_byte(b)
            + Seq::<u8>::empty());
    } else {
        lemma_json_escaped_push(s.drop_first(), b);
        assert(t.drop_first() =~= s.drop_first().push(b));
        assert(t[0] == s[0]);
        assert(spec_json_escaped(s) == spec_escaped_byte(s[0]) + spec_json_escaped(s.drop_first()));
        assert(spec_json_escaped(s) + spec_escaped_byte(b) =~= spec_escaped_byte(s[0]) + (
        spec_json_escaped(s.drop_first()) + spec_escaped_byte(b)));
    }
}

/// Append `s`, escaped for a JSON string literal, to `out`.
pub fn push_json_escaped(out: &mut Vec<u8>, s: &[u8])
    ensures
        final(out)@ == old(out)@ + spec_json_escaped(s@),
{
    let n = s.len();
    let mut i: usize = 0;
    proof {
        assert(s@.take(0) =~= Seq::<u8>::empty());
        assert(out@ =~= out@ + spec_json_escaped(s@.take(0)));
    }
    while i < n
        invariant
            n == s@.len(),
            0 <= i <= n,
            out@ == old(out)@ + spec_json_escaped(s@.take(i as int)),
        decreases n - i,
    {
        let b = s[i];
        let ghost before = out@;
        if b == 34 {
            out.push(92);
            out.push(34);
        } else if b == 92 {
            out.push(92);
            out.push(92);
        } else if b < 32 {
            out.push(92);
            out.push(117);
            out.push(48);
            out.push(48);
            let hi = b / 16;
            let lo = b % 16;
            out.push(if hi < 10 {
                48 + hi
            } else {
                87 + hi
            });
            out.push(if lo < 10 {
                48 + lo
            } else {
                87 + lo
            });
        } else {
            out.push(b);
        }
        proof {
            assert(out@ =~= before + spec_escaped_byte(s@[i as int]));
            assert(s@.take(i + 1 as int) =~= s@.take(i as int).push(s@[i as int]));
            lemma_json_escaped_push(s@.take(i as int), s@[i as int]);
            assert(out@ =~= old(out)@ + spec_json_escaped(s@.take(i + 1 as int)));
        }
        i += 1;
    }
    proof {
        assert(s@.take(n as int) =~= s@);
    }
}

/// The text the protocol uses for a status.
pub open spec fn spec_status_bytes(st: TradeStatus) -> Seq<u8> {
    match st {
        TradeStatus::online => "online".spec_bytes(),
        TradeStatus::onlineleague => "onlineleague".spec_bytes(),
        TradeStatus::any => "any".spec_bytes(),
    }
}

/// Append the status text.
fn push_status(out: &mut Vec<u8>, st: TradeStatus)
    ensures
        final(out)@ == old(out)@ + spec_status_bytes(st),
{
    match st {
        TradeStatus::online => push_bytes(out, "online".as_bytes()),
        TradeStatus::onlineleague => push_bytes(out, "onlineleague".as_bytes()),
        TradeStatus::any => push_bytes(out, "any".as_bytes()),
    }
}

/// The body of a bulk-exchange request: give one `have` currency, receive
/// one `want` item, online listings only, sorted ascending by "have"
/// quantity, no minimum stock.
pub open spec fn spec_exchange_body(have: Seq<u8>, want: Seq<u8>) -> Seq<u8> {
    "{\"query\":{\"status\":\"online\",\"have\":[\"".spec_bytes() + spec_json_escaped(have)
        + "\"],\"want\":[\"".spec_bytes() + spec_json_escaped(want)
        + "\"],\"minimum\":null},\"sort\":{\"have\":\"asc\"},\"engine\":\"new\"}".spec_bytes()
}

/// Encode the bulk-exchange request body.
pub fn encode_exchange_request(have: &[u8], want: &[u8]) -> (r: Vec<u8>)
    ensures
        r@ == spec_exchange_body(have@, want@),
{
    let mut out: Vec<u8> = Vec::new();
    push_bytes(&mut out, "{\"query\":{\"status\":\"online\",\"have\":[\"".as_bytes());
    push_json_escaped(&mut out, have);
    push_bytes(&mut out, "\"],\"want\":[\"".as_bytes());
    push_json_escaped(&mut out, want);
    push_bytes(
        &mut out,
        "\"],\"minimum\":null},\"sort\":{\"have\":\"asc\"},\"engine\":\"new\"}".as_bytes(),
    );
    proof {
        assert(out@ =~= spec_exchange_body(have@, want@));
    }
    out
}

/// `n` empty filter objects, comma-separated.
pub open spec fn spec_filters_bytes(n: int) -> Seq<u8>
    decreases n,
{
    if n <= 0 {
        Seq::empty()
    } else if n == 1 {
        "{}".spec_bytes()
    } else {
        "{},".spec_bytes() + spec_filters_bytes(n - 1)
    }
}

/// Append `n` empty filter objects.
fn push_filters(out: &mut Vec<u8>, n: usize)
    ensures
        final(out)@ == old(out)@ + spec_filters_bytes(n as int),
{
    let mut left = n;
    while left > 0
        invariant
            left <= n,
            out@ + spec_filters_bytes(left as int) == old(out)@ + spec_filters_bytes(n as int),
        decreases left,
    {
        let ghost before = out@;
        if left == 1 {
            push_bytes(out, "{}".as_bytes());
            proof {
                assert(out@ =~= before + spec_filters_bytes(1));
            }
        } else {
            push_bytes(out, "{},".as_bytes());
            proof {
                assert(out@ =~= before + "{},".spec_bytes());
                assert(out@ + spec_filters_bytes(left - 1 as int) =~= before + spec_filters_bytes(
                    left as int,
                ));
            }
        }
        left -= 1;
    }
    proof {
        assert(spec_filters_bytes(0) =~= Seq::<u8>::empty());
        assert(old(out)@ + spec_filters_bytes(n as int) =~= (old(out)@ + spec_filters_bytes(
            n as int,
        )) + Seq::<u8>::empty());
        assert(out@ + spec_filters_bytes(0) =~= out@);
    }
}

/// The query object of a search, exactly as it is serialized: the source of
/// the search fingerprint. Optional fields are omitted when absent.
pub open spec fn spec_search_query_bytes(q: TradeSearchQuery) -> Seq<u8> {
    "{\"status\":\"".spec_bytes() + spec_status_bytes(q.status) + "\"".spec_bytes() + (match q
        .item_type {
        Some(t) => ",\"type\":\"".spec_bytes() + spec_json_escaped(
            vstd::utf8::encode_utf8(t@),
        ) + "\"".spec_bytes(),
        None => Seq::<u8>::empty(),
    }) + (match q.term {
        Some(t) => ",\"term\":\"".spec_bytes() + spec_json_escaped(
            vstd::utf8::encode_utf8(t@),
        ) + "\"".spec_bytes(),
        None => Seq::<u8>::empty(),
    }) + ",\"filters\":[".spec_bytes() + spec_filters_bytes(q.filters.len() as int)
        + "]}".spec_bytes()
}

/// Encode the search query object (the fingerprint source).
pub fn encode_search_query(q: &TradeSearchQuery) -> (r: Vec<u8>)
    ensures
        r@ == spec_search_query_bytes(*q),
{
    let mut out: Vec<u8> = Vec::new();
    push_bytes(&mut out, "{\"status\":\"".as_bytes());
    push_status(&mut out, q.status);
    push_bytes(&mut out, "\"".as_bytes());
    match &q.item_type {
        Some(t) => {
            push_bytes(&mut out, ",\"type\":\"".as_bytes());
            push_json_escaped(&mut out, t.as_str().as_bytes());
            push_bytes(&mut out, "\"".as_bytes());
        },
        None => (),
    }
    match &q.term {
        Some(t) => {
            push_bytes(&mut out, ",\"term\":\"".as_bytes());
            push_json_escaped(&mut out, t.as_str().as_bytes());
            push_bytes(&mut out, "\"".as_bytes());
        },
        None => (),
    }
    push_bytes(&mut out, ",\"filters\":[".as_bytes());
    push_filters(&mut out, q.filters.len());
    push_bytes(&mut out, "]}".as_bytes());
    proof {
        assert(out@ =~= spec_search_query_bytes(*q));
    }
    out
}

/// The body of the search request: the query object, sorted ascending by
/// price.
pub open spec fn spec_search_body(q: TradeSearchQuery) -> Seq<u8> {
    "{\"query\":".spec_bytes() + spec_search_query_bytes(q)
        + ",\"sort\":{\"price\":\"asc\"}}".spec_bytes()
}

/// Encode the search request body.
pub fn encode_search_request(q: &TradeSearchQuery) -> (r: Vec<u8>)
    ensures
        r@ == spec_search_body(*q),
{
    let mut out: Vec<u8> = Vec::new();
    push_bytes(&mut out, "{\"query\":".as_bytes());
    let obj = encode_search_query(q);
    push_bytes(&mut out, obj.as_slice());
    push_bytes(&mut out, ",\"sort\":{\"price\":\"asc\"}}".as_bytes());
    proof {
        assert(out@ =~= spec_search_body(*q));
    }
    out
}

/// The bulk cache fingerprint: the two identifiers joined by `->`.
/// Identifiers that contain a cache-file separator byte are rejected by
/// the resolver instead of being silently mangled.
pub open spec fn spec_bulk_fingerprint(have: Seq<u8>, want: Seq<u8>) -> Seq<u8> {
    have + "->".spec_bytes() + want
}

/// Compute the bulk fingerprint.
pub fn bulk_fingerprint(have: &[u8], want: &[u8]) -> (r: Vec<u8>)
    ensures
        r@ == spec_bulk_fingerprint(have@, want@),
{
    let mut out: Vec<u8> = Vec::new();
    push_bytes(&mut out, have);
    push_bytes(&mut out, "->".as_bytes());
    push_bytes(&mut out, want);
    proof {
        assert(out@ =~= spec_bulk_fingerprint(have@, want@));
    }
    out
}

/// The search cache fingerprint: base64 of the serialized query object,
/// which keeps it free of the cache file separators.
pub open spec fn spec_search_fingerprint(q: TradeSearchQuery) -> Seq<u8> {
    b64_bytes_of(spec_search_query_bytes(q))
}

/// Compute the search fingerprint.
pub fn search_fingerprint(q: &TradeSearchQuery) -> (r: Vec<u8>)
    ensures
        r@ == spec_search_fingerprint(*q),
        b64_clean(r@),
{
    let obj = encode_search_query(q);
    b64_encode(obj.as_slice())
}

/// How many result identifiers the fetch phase takes, at most.
pub const SEARCH_FETCH_CAP: usize = 10;

/// The currency unit a bulk quote is tagged with: the `have` currency when
/// it is recognized, divine otherwise (the unit bulk queries are normally
/// paid in).
pub open spec fn spec_bulk_unit(have: Seq<char>) -> CurrencyOrbType {
    match spec_currency_of(have) {
        Some(u) => u,
        None => CurrencyOrbType::Divine,
    }
}

/// `p`'s amount is a minimum usable unit price of the payload's reading:
/// the payload reads as an exchange response, some entry value reads as a
/// usable listing with exactly that unit price, and no entry value reads
/// as a usable listing with a smaller one.
pub open spec fn bulk_priced_from_payload(pl: Seq<u8>, p: Price) -> bool {
    let doc = json_doc_of(pl);
    &&& exchange_shape_ok(doc)
    &&& exists|vm: JsonModel|
        #[trigger] value_in_object(obj_get(doc, "result"@), vm) && listing_shape_ok(vm)
            && model_usable(vm) && p.amount_micro == model_unit_price(vm)
    &&& forall|vm: JsonModel|
        #[trigger] value_in_object(obj_get(doc, "result"@), vm) && listing_shape_ok(vm)
            && model_usable(vm) ==> p.amount_micro <= model_unit_price(vm)
}

/// Resolve a bulk-exchange quote: give `have`, receive `want`.
///
/// The cache is consulted under the `have->want` fingerprint first; on a
/// miss the transport is invoked once with the encoded request body and its
/// payload is cached raw, decodable or not, exactly as fetched. The decoded
/// listings are reduced to the minimum unit price (paid per one unit
/// received), tagged with the `have` currency.
///
/// Identifiers holding a cache-file separator byte are rejected as
/// `InvalidIdentifier` before anything else happens.
pub fn get_bulk_pricing<F: FnOnce(Vec<u8>) -> Result<Vec<u8>, String>>(
    cache: &mut RequestCache,
    have: &str,
    want: &str,
    transport: F,
    rate: &ConversionRate,
) -> (r: Result<Price, TradeApiError>)
    requires
        rate.wf(),
        forall|b: Vec<u8>|
            b@ == spec_exchange_body(have.spec_bytes(), want.spec_bytes()) ==> call_requires(
                transport,
                (b,),
            ),
    ensures
        ({
            let fp = spec_bulk_fingerprint(have.spec_bytes(), want.spec_bytes());
            let ok_ids = clean_key(have.spec_bytes()) && clean_key(want.spec_bytes());
            &&& (r matches Err(e) && e is InvalidIdentifier) <==> !ok_ids
            &&& !ok_ids ==> final(cache)@ == old(cache)@
            &&& r matches Ok(p) ==> {
                &&& p.wf(*rate)
                &&& 0 <= p.amount_micro <= SAFE_AMOUNT_MICRO
                &&& p.currency_orb == spec_bulk_unit(have@)
            }
            &&& spec_lookup(old(cache)@, fp) is Some ==> final(cache)@ == old(cache)@
            // anything ever stored under the fingerprint was fetched by the
            // transport, and nothing else changes
            &&& (final(cache)@ == old(cache)@ || (exists|pl: Vec<u8>|
                bulk_fetch_returned(
                    transport,
                    have.spec_bytes(),
                    want.spec_bytes(),
                    Result::Ok(pl),
                ) && final(cache)@ == old(cache)@.push((fp, pl@))))
            // a transport failure propagates with its message, stores nothing,
            // and only happens on a miss
            &&& (r matches Err(e) ==> (e matches TradeApiError::Transport(m) ==> {
                &&& final(cache)@ == old(cache)@
                &&& spec_lookup(old(cache)@, fp) is None
                &&& bulk_fetch_returned(
                    transport,
                    have.spec_bytes(),
                    want.spec_bytes(),
                    Result::Err(m),
                )
            }))
            // on a miss with acceptable identifiers, every outcome but a
            // transport failure comes with the fetched payload appended
            &&& (ok_ids && spec_lookup(old(cache)@, fp) is None && !(r matches Err(e)
                && e is Transport)) ==> (exists|pl: Vec<u8>|
                bulk_fetch_returned(
                    transport,
                    have.spec_bytes(),
                    want.spec_bytes(),
                    Result::Ok(pl),
                ) && final(cache)@ == old(cache)@.push((fp, pl@)))
            // the returned quote's amount is a minimum usable unit price of
            // the payload that was priced: the cached one on a hit, the one
            // fetched and stored on a miss
            &&& r matches Ok(p) ==> (exists|pl: Seq<u8>|
                {
                    &&& (spec_lookup(old(cache)@, fp) == Some(pl) || final(cache)@ == old(
                        cache,
                    )@.push((fp, pl)))
                    &&& bulk_priced_from_payload(pl, p)
                })
        }),
{
    let have_b = have.as_bytes();
    let want_b = want.as_bytes();
    if contains_byte(have_b, 44) || contains_byte(have_b, 10) || contains_byte(want_b, 44)
        || contains_byte(want_b, 10) {
        proof {
            assert(!(clean_key(have.spec_bytes()) && clean_key(want.spec_bytes())));
        }
        return Err(TradeApiError::InvalidIdentifier);
    }
    proof {
        assert(clean_key(have.spec_bytes())) by {
            if !clean_key(have.spec_bytes()) {
                let i = choose|i: int|
                    0 <= i < have.spec_bytes().len() && !(have.spec_bytes()[i] != 44
                        && have.spec_bytes()[i] != 10);
                assert(have.spec_bytes().contains(have.spec_bytes()[i]));
            }
        }
        assert(clean_key(want.spec_bytes())) by {
            if !clean_key(want.spec_bytes()) {
                let i = choose|i: int|
                    0 <= i < want.spec_bytes().len() && !(want.spec_bytes()[i] != 44
                        && want.spec_bytes()[i] != 10);
                assert(want.spec_bytes().contains(want.spec_bytes()[i]));
            }
        }
    }
    let fp = bulk_fingerprint(have_b, want_b);
    let body = encode_exchange_request(have_b, want_b);
    let fetch = move || -> (fr: Result<Vec<u8>, String>)
        ensures
            bulk_fetch_returned(transport, have.spec_bytes(), want.spec_bytes(), fr),
        {
            let fr = transport(body);
            proof {
                assert(bulk_fetch_returned(transport, have.spec_bytes(), want.spec_bytes(), fr));
            }
            fr
        };
    let payload = match cache.get_or_fetch(fp.as_slice(), fetch) {
        Ok(p) => p,
        Err(m) => { return Err(TradeApiError::Transport(m)) },
    };
    let parse = match decode_exchange_payload(payload.as_slice()) {
        Ok(p) => p,
        Err(e) => { return Err(e) },
    };
    let unit = {
        let h: String = String::from_str(have);
        match currency_of(&h) {
            Some(u) => u,
            None => CurrencyOrbType::Divine,
        }
    };
    match bulk_min_unit_price(&parse.results) {
        Some(u) => {
            let quote = Price::new(u, unit);
            proof {
                let doc = json_doc_of(payload@);
                let w = choose|w: int|
                    0 <= w < parse.results@.len() && spec_usable(#[trigger] parse.results@[w])
                        && spec_unit_price(parse.results@[w]) == u && (forall|j: int|
                        0 <= j < w && spec_usable(#[trigger] parse.results@[j])
                            ==> spec_unit_price(parse.results@[j]) > u);
                assert(listing_from_response(doc, parse.results@[w]));
                let vm = choose|vm: JsonModel|
                    value_in_object(obj_get(doc, "result"@), vm) && listing_matches(
                        vm,
                        parse.results@[w],
                    );
                lemma_listing_price_matches(vm, parse.results@[w]);
                assert(value_in_object(obj_get(doc, "result"@), vm) && listing_shape_ok(vm)
                    && model_usable(vm) && quote.amount_micro == model_unit_price(vm));
                assert forall|xm: JsonModel|
                    #[trigger] value_in_object(obj_get(doc, "result"@), xm) && listing_shape_ok(
                    xm,
                ) && model_usable(xm) implies quote.amount_micro <= model_unit_price(xm) by {
                    assert(listing_kept(xm, parse.results@));
                    let t = choose|t: int|
                        0 <= t < parse.results@.len() && listing_matches(xm, parse.results@[t]);
                    lemma_listing_price_matches(xm, parse.results@[t]);
                    assert(spec_usable(parse.results@[t]));
                    assert(u <= spec_unit_price(parse.results@[t]));
                }
                assert(bulk_priced_from_payload(payload@, quote));
            }
            Ok(quote)
        },
        None => Err(TradeApiError::NoQuote),
    }
}

/// How many of `n` returned identifiers the fetch phase takes.
pub open spec fn spec_fetch_cap(n: int) -> int {
    if n < SEARCH_FETCH_CAP {
        n
    } else {
        SEARCH_FETCH_CAP as int
    }
}

/// The bulk transport returned `fr` for the encoded exchange request body.
pub open spec fn bulk_fetch_returned<F: FnOnce(Vec<u8>) -> Result<Vec<u8>, String>>(
    transport: F,
    have: Seq<u8>,
    want: Seq<u8>,
    fr: Result<Vec<u8>, String>,
) -> bool {
    exists|b: Vec<u8>| b@ == spec_exchange_body(have, want) && call_ensures(transport, (b,), fr)
}

/// Both search phases ran for `q` and fetched `fetched`: the search
/// transport answered the encoded request, the answer read as search
/// identifiers `sr`, and the fetch transport answered for the first
/// `spec_fetch_cap` of those identifiers under `sr`'s query id.
pub open spec fn search_phases_fetched<
    F1: FnOnce(Vec<u8>) -> Result<Vec<u8>, String>,
    F2: FnOnce(Vec<String>, String) -> Result<Vec<u8>, String>,
>(
    search_transport: F1,
    fetch_transport: F2,
    q: TradeSearchQuery,
    fetched: Seq<u8>,
) -> bool {
    exists|body: Vec<u8>, resp: Vec<u8>, sr: TradeSearchIds, ids: Vec<String>, out: Vec<u8>|
        {
            &&& body@ == spec_search_body(q)
            &&& call_ensures(search_transport, (body,), Result::Ok(resp))
            &&& search_matches(json_doc_of(resp@), sr)
            &&& ids@ == sr.result@.take(spec_fetch_cap(sr.result@.len() as int))
            &&& call_ensures(fetch_transport, (ids, sr.id), Result::Ok(out))
            &&& out@ == fetched
        }
}

/// `p` is a minimum recognized listed price of the payload's reading: the
/// payload reads as a fetch response, some recognized entry lists exactly
/// `p`, and no recognized entry lists canonically less.
pub open spec fn priced_from_payload(pl: Seq<u8>, p: Price, rate: ConversionRate) -> bool {
    let res = arr_of(obj_get(json_doc_of(pl), "result"@));
    &&& fetch_shape_ok(json_doc_of(pl))
    &&& exists|i: int|
        0 <= i < res.len() && spec_entry_recognized(#[trigger] res[i]) && p == spec_entry_price(
            res[i],
        )
    &&& forall|j: int|
        0 <= j < res.len() && spec_entry_recognized(#[trigger] res[j]) ==> p.chaos_micro(rate)
            <= spec_entry_price(res[j]).chaos_micro(rate)
}

/// One of the two search transports failed with message `m` for `q`.
pub open spec fn search_transport_failed<
    F1: FnOnce(Vec<u8>) -> Result<Vec<u8>, String>,
    F2: FnOnce(Vec<String>, String) -> Result<Vec<u8>, String>,
>(
    search_transport: F1,
    fetch_transport: F2,
    q: TradeSearchQuery,
    m: String,
) -> bool {
    ||| (exists|body: Vec<u8>|
        body@ == spec_search_body(q) && call_ensures(search_transport, (body,), Result::Err(m)))
    ||| (exists|resp: Vec<u8>, sr: TradeSearchIds, ids: Vec<String>|
        {
            &&& search_matches(json_doc_of(resp@), sr)
            &&& ids@ == sr.result@.take(spec_fetch_cap(sr.result@.len() as int))
            &&& call_ensures(fetch_transport, (ids, sr.id), Result::Err(m))
        })
}

/// Resolve a search quote: the minimum listed price for a named/filtered
/// item search, in two phases (search for identifiers, fetch their
/// listings), short-circuited entirely by a cache hit on the fingerprint of
/// the serialized query.
///
/// At most `SEARCH_FETCH_CAP` identifiers are fetched. Only a fetch payload
/// that decodes is cached. Listed prices in unrecognized currencies are
/// dropped; if nothing usable remains the result is `NoQuote`.
pub fn get_search_pricing<
    F1: FnOnce(Vec<u8>) -> Result<Vec<u8>, String>,
    F2: FnOnce(Vec<String>, String) -> Result<Vec<u8>, String>,
>(
    cache: &mut RequestCache,
    query: &TradeSearchQuery,
    search_transport: F1,
    fetch_transport: F2,
    rate: &ConversionRate,
) -> (r: Result<Price, TradeApiError>)
    requires
        rate.wf(),
        forall|b: Vec<u8>| b@ == spec_search_body(*query) ==> call_requires(search_transport, (b,)),
        // the fetch phase receives exactly the capped prefix of decoded
        // search identifiers, under their query id
        forall|ids: Vec<String>, sr: TradeSearchIds|
            ids@ == sr.result@.take(spec_fetch_cap(sr.result@.len() as int)) ==> call_requires(
                fetch_transport,
                (ids, sr.id),
            ),
    ensures
        ({
            let fp = spec_search_fingerprint(*query);
            &&& r matches Ok(p) ==> {
                &&& p.wf(*rate)
                &&& 0 <= p.amount_micro <= SAFE_AMOUNT_MICRO
            }
            &&& spec_lookup(old(cache)@, fp) is Some ==> final(cache)@ == old(cache)@
            // anything ever stored under the fingerprint went through both
            // phases, and nothing else changes
            &&& (final(cache)@ == old(cache)@ || (exists|pl: Vec<u8>|
                search_phases_fetched(search_transport, fetch_transport, *query, pl@)
                    && final(cache)@ == old(cache)@.push((fp, pl@))))
            // a transport failure propagates with its message, stores
            // nothing, and only happens on a miss
            &&& (r matches Err(e) ==> (e matches TradeApiError::Transport(m) ==> {
                &&& final(cache)@ == old(cache)@
                &&& spec_lookup(old(cache)@, fp) is None
                &&& search_transport_failed(search_transport, fetch_transport, *query, m)
            }))
            // a successful miss always stores the payload it priced
            &&& (spec_lookup(old(cache)@, fp) is None && r is Ok) ==> (exists|pl: Vec<u8>|
                search_phases_fetched(search_transport, fetch_transport, *query, pl@)
                    && final(cache)@ == old(cache)@.push((fp, pl@)))
            // the returned quote is a minimum recognized listed price of the
            // payload that was priced: the cached one on a hit, the one
            // fetched and stored on a miss
            &&& r matches Ok(p) ==> (exists|pl: Seq<u8>|
                {
                    &&& (spec_lookup(old(cache)@, fp) == Some(pl) || (search_phases_fetched(
                        search_transport,
                        fetch_transport,
                        *query,
                        pl,
                    ) && final(cache)@ == old(cache)@.push((fp, pl))))
                    &&& priced_from_payload(pl, p, *rate)
                })
        }),
{
    let fp = search_fingerprint(query);
    let ghost mut used_payload: Seq<u8> = Seq::empty();
    let cached: Option<Vec<u8>> = match cache.lookup(fp.as_slice()) {
        Some(p) => Some(bytes_of(p.as_slice())),
        None => None,
    };
    let results = match cached {
        Some(payload) => {
            proof {
                used_payload = payload@;
            }
            match decode_fetch_payload(payload.as_slice()) {
                Ok(v) => v,
                Err(e) => { return Err(e) },
            }
        },
        None => {
            let body = encode_search_request(query);
            let ghost gbody = body;
            let phase1 = search_transport(body);
            let resp = match phase1 {
                Ok(b) => b,
                Err(m) => { return Err(TradeApiError::Transport(m)) },
            };
            let sr = match decode_search_payload(resp.as_slice()) {
                Ok(x) => x,
                Err(e) => { return Err(e) },
            };
            let ghost gsr = sr;
            let mut ids: Vec<String> = Vec::new();
            let cap = if sr.result.len() < SEARCH_FETCH_CAP {
                sr.result.len()
            } else {
                SEARCH_FETCH_CAP
            };
            proof {
                assert(cap == spec_fetch_cap(gsr.result@.len() as int));
                assert(ids@ =~= gsr.result@.take(0));
            }
            let mut i: usize = 0;
            while i < cap
                invariant
                    cap <= sr.result@.len(),
                    0 <= i <= cap,
                    sr.result@ == gsr.result@,
                    ids@ == gsr.result@.take(i as int),
                decreases cap - i,
            {
                ids.push(sr.result[i].clone());
                proof {
                    assert(ids@ =~= gsr.result@.take(i + 1 as int));
                }
                i += 1;
            }
            if ids.len() == 0 {
                return Err(TradeApiError::NoQuote);
            }
            let ghost gids = ids;
            let phase2 = fetch_transport(ids, sr.id);
            let fetched = match phase2 {
                Ok(b) => b,
                Err(m) => {
                    proof {
                        assert(search_transport_failed(
                            search_transport,
                            fetch_transport,
                            *query,
                            m,
                        ));
                    }
                    return Err(TradeApiError::Transport(m));
                },
            };
            let v = match decode_fetch_payload(fetched.as_slice()) {
                Ok(v) => v,
                Err(e) => { return Err(e) },
            };
            let ghost gfetched = fetched;
            cache.store(fp, fetched);
            proof {
                used_payload = gfetched@;
                assert(search_phases_fetched(
                    search_transport,
                    fetch_transport,
                    *query,
                    gfetched@,
                ));
            }
            v
        },
    };
    match min_listed_price(&results, rate) {
        Some(p) => {
            proof {
                let res = arr_of(obj_get(json_doc_of(used_payload), "result"@));
                assert(results@.len() == res.len());
                let w = choose|i: int|
                    0 <= i < results@.len() && spec_recognized(#[trigger] results@[i]) && p
                        == spec_listed_price(results@[i]) && (forall|j: int|
                        0 <= j < i && spec_recognized(#[trigger] results@[j]) ==> spec_listed_price(
                            results@[j],
                        ).chaos_micro(*rate) > p.chaos_micro(*rate));
                lemma_entry_price_matches(res[w], results@[w]);
                assert(spec_entry_recognized(res[w]) && p == spec_entry_price(res[w]));
                assert forall|j: int|
                    0 <= j < res.len() && spec_entry_recognized(#[trigger] res[j]) implies p
                    .chaos_micro(*rate) <= spec_entry_price(res[j]).chaos_micro(*rate) by {
                    assert(fetch_entry_matches(res[j], results@[j]));
                    lemma_entry_price_matches(res[j], results@[j]);
                    assert(spec_recognized(results@[j]));
                }
                assert(priced_from_payload(used_payload, p, *rate));
            }
            Ok(p)
        },
        None => Err(TradeApiError::NoQuote),
    }
}

} // verus!
