//! Trading strategies: named sets of input (cost) and output (revenue)
//! item queries, and the net-profitability computation over them.
//!
//! Evaluation is deterministic: inputs first, then outputs, each list in
//! declaration order; the first failing query aborts the whole evaluation
//! carrying its identity — a missing price is never silently treated as
//! zero.

use vstd::prelude::*;

use crate::bytes::bytes_of;
use crate::jsonval::{
    arr_of, json_as_array, json_as_bool, json_as_str, json_doc_of, json_get, json_parse, model_of,
    obj_get, obj_has, text_of, JsonModel,
};
use crate::price::{ConversionRate, CurrencyOrbType, Price, CANON_LIMIT};
use crate::trade_api::{TradeSearchFilter, TradeSearchQuery, TradeStatus};
use crate::trade_decode::TradeApiError;

verus! {

/// A filter of a strategy's item query; carries no fields yet, mirroring
/// the search filter.
#[derive(Clone, Debug)]
pub struct ItemInputFilters {}

/// One item query of a strategy: an exact name, a free-text term, whether
/// the bulk protocol is meant for it, and optional filters.
#[derive(Clone, Debug)]
pub struct StratInput {
    pub name: Option<String>,
    pub term: Option<String>,
    pub bulk: bool,
    pub filters: Option<Vec<ItemInputFilters>>,
}

/// A strategy: ordered input and output item queries.
#[derive(Debug)]
pub struct Strat {
    pub inputs: Vec<StratInput>,
    pub outputs: Vec<StratInput>,
}

/// How many filters the item query carries.
pub open spec fn spec_filter_count(inp: StratInput) -> int {
    match inp.filters {
        Some(fs) => fs@.len() as int,
        None => 0,
    }
}

/// Whether `q` is the search query this item query stands for: online
/// listings, the item's name as the type filter, its term as the free
/// text, and one search filter per filter of the item query.
pub open spec fn is_search_query_of(q: TradeSearchQuery, inp: StratInput) -> bool {
    &&& q.status == TradeStatus::online
    &&& q.item_type == inp.name
    &&& q.term == inp.term
    &&& q.filters@.len() == spec_filter_count(inp)
}

/// `resolve` can return `Ok(p)` for the search query standing for `inp`.
pub open spec fn query_resolved_ok<F: Fn(TradeSearchQuery) -> Result<Price, TradeApiError>>(
    resolve: F,
    inp: StratInput,
    p: Price,
) -> bool {
    exists|q: TradeSearchQuery|
        is_search_query_of(q, inp) && call_ensures(resolve, (q,), Result::Ok(p))
}

/// `resolve` can return `Err(e)` for the search query standing for `inp`.
pub open spec fn query_resolved_err<F: Fn(TradeSearchQuery) -> Result<Price, TradeApiError>>(
    resolve: F,
    inp: StratInput,
    e: TradeApiError,
) -> bool {
    exists|q: TradeSearchQuery|
        is_search_query_of(q, inp) && call_ensures(resolve, (q,), Result::Err(e))
}

/// Resolver-attested prices for the first `index` queries of `items` whose
/// canonical running total leaves the representable range at the next
/// attested price `p`.
pub open spec fn spec_total_overflows<F: Fn(TradeSearchQuery) -> Result<Price, TradeApiError>>(
    resolve: F,
    items: Seq<StratInput>,
    index: int,
    ps: Seq<Price>,
    p: Price,
    rate: ConversionRate,
) -> bool {
    &&& ps.len() == index
    &&& (forall|k: int| 0 <= k < index ==> #[trigger] query_resolved_ok(resolve, items[k], ps[k]))
    &&& query_resolved_ok(resolve, items[index], p)
    &&& !(-CANON_LIMIT <= sum_canon(ps, rate) + p.chaos_micro(rate) <= CANON_LIMIT)
}

/// Some sequence of resolver-attested prices overflows at query `index`.
pub open spec fn spec_phase_overflow<F: Fn(TradeSearchQuery) -> Result<Price, TradeApiError>>(
    resolve: F,
    items: Seq<StratInput>,
    index: int,
    rate: ConversionRate,
) -> bool {
    exists|ps: Seq<Price>, p: Price| spec_total_overflows(resolve, items, index, ps, p, rate)
}

impl StratInput {
    /// The search query that prices this item query.
    pub fn search_query(&self) -> (q: TradeSearchQuery)
        ensures
            is_search_query_of(q, *self),
    {
        let item_type = match &self.name {
            Some(s) => Some(s.clone()),
            None => None,
        };
        let term = match &self.term {
            Some(s) => Some(s.clone()),
            None => None,
        };
        let mut filters: Vec<TradeSearchFilter> = Vec::new();
        match &self.filters {
            Some(fs) => {
                let n = fs.len();
                let mut i: usize = 0;
                while i < n
                    invariant
                        n == fs@.len(),
                        0 <= i <= n,
                        filters@.len() == i,
                    decreases n - i,
                {
                    filters.push(TradeSearchFilter {  });
                    i += 1;
                }
            },
            None => (),
        }
        TradeSearchQuery { status: TradeStatus::online, item_type, term, filters }
    }
}

/// The reading of one item query has the expected shape: `name`, `term`
/// and `filters` optional (text, text, array), `bulk` a required boolean.
pub open spec fn strat_item_shape_ok(m: JsonModel) -> bool {
    &&& (obj_has(m, "name"@) ==> obj_get(m, "name"@) is Text)
    &&& (obj_has(m, "term"@) ==> obj_get(m, "term"@) is Text)
    &&& obj_has(m, "bulk"@) && obj_get(m, "bulk"@) is Bool
    &&& (obj_has(m, "filters"@) ==> obj_get(m, "filters"@) is Array)
}

/// `x` is the reading of the item query `m`.
pub open spec fn strat_item_matches(m: JsonModel, x: StratInput) -> bool {
    &&& strat_item_shape_ok(m)
    &&& (x.name is Some <==> obj_has(m, "name"@))
    &&& (x.name matches Some(s) ==> s@ == text_of(obj_get(m, "name"@)))
    &&& (x.term is Some <==> obj_has(m, "term"@))
    &&& (x.term matches Some(s) ==> s@ == text_of(obj_get(m, "term"@)))
    &&& obj_get(m, "bulk"@) == JsonModel::Bool(x.bulk)
    &&& (x.filters is Some <==> obj_has(m, "filters"@))
    &&& (x.filters matches Some(fs) ==> fs@.len() == arr_of(obj_get(m, "filters"@)).len())
}

/// The reading of a query list has the expected shape.
pub open spec fn strat_list_shape_ok(m: JsonModel) -> bool {
    &&& m is Array
    &&& forall|i: int| 0 <= i < arr_of(m).len() ==> strat_item_shape_ok(#[trigger] arr_of(m)[i])
}

/// `xs` is the reading of the query list `m`.
pub open spec fn strat_list_matches(m: JsonModel, xs: Seq<StratInput>) -> bool {
    &&& strat_list_shape_ok(m)
    &&& xs.len() == arr_of(m).len()
    &&& forall|i: int| 0 <= i < xs.len() ==> strat_item_matches(arr_of(m)[i], #[trigger] xs[i])
}

/// The reading of a strategy definition has the expected shape.
pub open spec fn strat_shape_ok(doc: JsonModel) -> bool {
    &&& !(doc is Invalid)
    &&& obj_has(doc, "inputs"@) && strat_list_shape_ok(obj_get(doc, "inputs"@))
    &&& obj_has(doc, "outputs"@) && strat_list_shape_ok(obj_get(doc, "outputs"@))
}

/// Decode one item query; `None` exactly when its reading lacks the item
/// shape.
#[verifier::loop_isolation(false)]
fn decode_strat_input(v: &serde_json::Value) -> (r: Option<StratInput>)
    ensures
        r is Some <==> strat_item_shape_ok(model_of(*v)),
        r matches Some(x) ==> strat_item_matches(model_of(*v), x),
{
    let name = match json_get(v, "name") {
        Some(x) => match json_as_str(x) {
            Some(s) => Some(s),
            None => { return None },
        },
        None => None,
    };
    let term = match json_get(v, "term") {
        Some(x) => match json_as_str(x) {
            Some(s) => Some(s),
            None => { return None },
        },
        None => None,
    };
    let bulk = match json_get(v, "bulk") {
        Some(x) => match json_as_bool(x) {
            Some(b) => b,
            None => { return None },
        },
        None => { return None },
    };
    let filters = match json_get(v, "filters") {
        Some(x) => match json_as_array(x) {
            Some(a) => {
                let mut fs: Vec<ItemInputFilters> = Vec::new();
                let n = a.len();
                let mut i: usize = 0;
                while i < n
                    invariant
                        n == a@.len(),
                        0 <= i <= n,
                        fs@.len() == i,
                    decreases n - i,
                {
                    fs.push(ItemInputFilters {  });
                    i += 1;
                }
                Some(fs)
            },
            None => { return None },
        },
        None => None,
    };
    Some(StratInput { name, term, bulk, filters })
}

/// Decode one ordered list of item queries; `None` exactly when the
/// reading is not a list of well-shaped items.
#[verifier::loop_isolation(false)]
fn decode_strat_list(v: &serde_json::Value) -> (r: Option<Vec<StratInput>>)
    ensures
        r is Some <==> strat_list_shape_ok(model_of(*v)),
        r matches Some(l) ==> strat_list_matches(model_of(*v), l@),
{
    let arr = match json_as_array(v) {
        Some(a) => a,
        None => { return None },
    };
    let ghost list_m = arr_of(model_of(*v));
    let mut out: Vec<StratInput> = Vec::new();
    let n = arr.len();
    let mut i: usize = 0;
    while i < n
        invariant
            n == arr@.len(),
            n == list_m.len(),
            0 <= i <= n,
            forall|j: int| 0 <= j < n ==> model_of(#[trigger] arr@[j]) == list_m[j],
            out@.len() == i,
            forall|j: int| 0 <= j < i ==> strat_item_matches(list_m[j], #[trigger] out@[j]),
        decreases n - i,
    {
        match decode_strat_input(&arr[i]) {
            Some(x) => out.push(x),
            None => {
                proof {
                    assert(!strat_item_shape_ok(arr_of(model_of(*v))[i as int]));
                }
                return None;
            },
        }
        i += 1;
    }
    proof {
        assert forall|t: int|
            0 <= t < list_m.len() implies strat_item_shape_ok(
            #[trigger] arr_of(model_of(*v))[t],
        ) by {
            assert(strat_item_matches(list_m[t], out@[t]));
        }
        assert forall|t: int|
            0 <= t < out@.len() implies strat_item_matches(
            arr_of(model_of(*v))[t],
            #[trigger] out@[t],
        ) by {
            assert(strat_item_matches(list_m[t], out@[t]));
        }
    }
    Some(out)
}

/// Decode a strategy definition document (`{inputs, outputs}`). Succeeds
/// exactly when the payload's reading has the strategy shape; anything
/// else is a typed decode error carrying the raw payload. The embedding
/// application reads the file and hands the bytes here.
pub fn parse_strat(payload: &[u8]) -> (r: Result<Strat, TradeApiError>)
    ensures
        r is Ok <==> strat_shape_ok(json_doc_of(payload@)),
        r matches Ok(s) ==> strat_list_matches(
            obj_get(json_doc_of(payload@), "inputs"@),
            s.inputs@,
        ) && strat_list_matches(obj_get(json_doc_of(payload@), "outputs"@), s.outputs@),
        r matches Err(e) ==> (e matches TradeApiError::Decode(raw) && raw@ == payload@),
{
    let doc = match json_parse(payload) {
        Some(d) => d,
        None => { return Err(TradeApiError::Decode(bytes_of(payload))) },
    };
    let inputs = match json_get(&doc, "inputs") {
        Some(v) => match decode_strat_list(v) {
            Some(l) => l,
            None => { return Err(TradeApiError::Decode(bytes_of(payload))) },
        },
        None => { return Err(TradeApiError::Decode(bytes_of(payload))) },
    };
    let outputs = match json_get(&doc, "outputs") {
        Some(v) => match decode_strat_list(v) {
            Some(l) => l,
            None => { return Err(TradeApiError::Decode(bytes_of(payload))) },
        },
        None => { return Err(TradeApiError::Decode(bytes_of(payload))) },
    };
    Ok(Strat { inputs, outputs })
}

/// Which query list a failure happened in.
#[derive(Clone, Copy, PartialEq, Eq, Structural, Debug)]
pub enum StratPhase {
    Inputs,
    Outputs,
}

/// Why a strategy evaluation failed, carrying the identity of the failing
/// query: no partial or default pricing ever stands in.
#[derive(Debug)]
pub enum StrategyFailure {
    /// Resolving one query failed; its phase, position and error.
    Query { phase: StratPhase, index: usize, error: TradeApiError },
    /// A running total left the representable range at this query.
    OutOfRange { phase: StratPhase, index: usize },
}

/// The canonical (micro-chaos) sum of a sequence of prices.
pub open spec fn sum_canon(ps: Seq<Price>, rate: ConversionRate) -> int
    decreases ps.len(),
{
    if ps.len() == 0 {
        0
    } else {
        sum_canon(ps.drop_last(), rate) + ps.last().chaos_micro(rate)
    }
}

/// A nonnegative amount has a nonnegative canonical scalar.
proof fn lemma_canon_nonneg(p: Price, rate: ConversionRate)
    requires
        rate.wf(),
        p.amount_micro >= 0,
    ensures
        p.chaos_micro(rate) >= 0,
{
    vstd::arithmetic::mul::lemma_mul_nonnegative(
        p.amount_micro as int,
        rate.chaos_per_divine as int,
    );
}

/// Evaluate a strategy's net profitability: resolve every input query,
/// then every output query, in declaration order, through `resolve`
/// (typically a closure around the search quote resolver), and return
/// `sum(output prices) - sum(input prices)` as one canonical price.
///
/// The first failing query aborts the evaluation and is identified in the
/// failure; nothing is priced as zero by default.
pub fn compute_profitability<F: Fn(TradeSearchQuery) -> Result<Price, TradeApiError>>(
    strat: &Strat,
    resolve: F,
    rate: &ConversionRate,
) -> (r: Result<Price, StrategyFailure>)
    requires
        rate.wf(),
        forall|q: TradeSearchQuery| call_requires(resolve, (q,)),
        forall|q: TradeSearchQuery, p: Price|
            call_ensures(resolve, (q,), Result::Ok(p)) ==> p.wf(*rate) && p.amount_micro >= 0,
    ensures
        match r {
            Ok(p) => {
                &&& p.wf(*rate)
                &&& p.currency_orb == CurrencyOrbType::Chaos
                &&& exists|ins: Seq<Price>, outs: Seq<Price>|
                    {
                        &&& ins.len() == strat.inputs@.len()
                        &&& outs.len() == strat.outputs@.len()
                        &&& (forall|i: int|
                            0 <= i < ins.len() ==> #[trigger] query_resolved_ok(
                                resolve,
                                strat.inputs@[i],
                                ins[i],
                            ))
                        &&& (forall|i: int|
                            0 <= i < outs.len() ==> #[trigger] query_resolved_ok(
                                resolve,
                                strat.outputs@[i],
                                outs[i],
                            ))
                        &&& p.amount_micro == sum_canon(outs, *rate) - sum_canon(ins, *rate)
                    }
            },
            Err(f) => match f {
                StrategyFailure::Query { phase, index, error } => match phase {
                    StratPhase::Inputs => index < strat.inputs@.len() && query_resolved_err(
                        resolve,
                        strat.inputs@[index as int],
                        error,
                    ),
                    StratPhase::Outputs => index < strat.outputs@.len() && query_resolved_err(
                        resolve,
                        strat.outputs@[index as int],
                        error,
                    ),
                },
                StrategyFailure::OutOfRange { phase, index } => match phase {
                    StratPhase::Inputs => index < strat.inputs@.len() && spec_phase_overflow(
                        resolve,
                        strat.inputs@,
                        index as int,
                        *rate,
                    ),
                    StratPhase::Outputs => index < strat.outputs@.len() && spec_phase_overflow(
                        resolve,
                        strat.outputs@,
                        index as int,
                        *rate,
                    ),
                },
            },
        },
{
    let mut input_total = Price::zero();
    let ghost mut ins: Seq<Price> = Seq::empty();
    let n_in = strat.inputs.len();
    let mut i: usize = 0;
    while i < n_in
        invariant
            rate.wf(),
            n_in == strat.inputs@.len(),
            0 <= i <= n_in,
            forall|q: TradeSearchQuery| call_requires(resolve, (q,)),
            forall|q: TradeSearchQuery, p: Price|
                call_ensures(resolve, (q,), Result::Ok(p)) ==> p.wf(*rate) && p.amount_micro >= 0,
            ins.len() == i,
            forall|k: int|
                0 <= k < i ==> #[trigger] query_resolved_ok(resolve, strat.inputs@[k], ins[k]),
            input_total.wf(*rate),
            input_total.chaos_micro(*rate) == sum_canon(ins, *rate),
            input_total.chaos_micro(*rate) >= 0,
        decreases n_in - i,
    {
        let q = strat.inputs[i].search_query();
        let ghost gq = q;
        match resolve(q) {
            Ok(p) => {
                proof {
                    lemma_canon_nonneg(p, *rate);
                }
                match input_total.add(&p, rate) {
                    Some(t) => {
                        input_total = t;
                        proof {
                            let prev = ins;
                            ins = ins.push(p);
                            assert(ins.drop_last() =~= prev);
                            assert(ins.last() == p);
                            assert(ins[i as int] == p);
                            assert(is_search_query_of(gq, strat.inputs@[i as int]));
                            assert(call_ensures(
                                resolve,
                                (gq,),
                                Result::<Price, TradeApiError>::Ok(p),
                            ));
                            assert(query_resolved_ok(resolve, strat.inputs@[i as int], p));
                        }
                    },
                    None => {
                        proof {
                            assert(is_search_query_of(gq, strat.inputs@[i as int]));
                            assert(call_ensures(
                                resolve,
                                (gq,),
                                Result::<Price, TradeApiError>::Ok(p),
                            ));
                            assert(query_resolved_ok(resolve, strat.inputs@[i as int], p));
                            assert(spec_total_overflows(
                                resolve,
                                strat.inputs@,
                                i as int,
                                ins,
                                p,
                                *rate,
                            ));
                            assert(spec_phase_overflow(
                                resolve,
                                strat.inputs@,
                                i as int,
                                *rate,
                            ));
                        }
                        return Err(
                            StrategyFailure::OutOfRange { phase: StratPhase::Inputs, index: i },
                        );
                    },
                }
            },
            Err(error) => {
                proof {
                    assert(is_search_query_of(gq, strat.inputs@[i as int]));
                    assert(call_ensures(
                        resolve,
                        (gq,),
                        Result::<Price, TradeApiError>::Err(error),
                    ));
                    assert(query_resolved_err(resolve, strat.inputs@[i as int], error));
                }
                return Err(
                    StrategyFailure::Query { phase: StratPhase::Inputs, index: i, error },
                );
            },
        }
        i += 1;
    }
    let mut output_total = Price::zero();
    let ghost mut outs: Seq<Price> = Seq::empty();
    let n_out = strat.outputs.len();
    let mut j: usize = 0;
    while j < n_out
        invariant
            rate.wf(),
            n_out == strat.outputs@.len(),
            0 <= j <= n_out,
            forall|q: TradeSearchQuery| call_requires(resolve, (q,)),
            forall|q: TradeSearchQuery, p: Price|
                call_ensures(resolve, (q,), Result::Ok(p)) ==> p.wf(*rate) && p.amount_micro >= 0,
            outs.len() == j,
            forall|k: int|
                0 <= k < j ==> #[trigger] query_resolved_ok(resolve, strat.outputs@[k], outs[k]),
            output_total.wf(*rate),
            output_total.chaos_micro(*rate) == sum_canon(outs, *rate),
            output_total.chaos_micro(*rate) >= 0,
            // the inputs facts survive for the final ensures
            ins.len() == strat.inputs@.len(),
            forall|k: int|
                0 <= k < ins.len() ==> #[trigger] query_resolved_ok(
                    resolve,
                    strat.inputs@[k],
                    ins[k],
                ),
            input_total.wf(*rate),
            input_total.chaos_micro(*rate) == sum_canon(ins, *rate),
            input_total.chaos_micro(*rate) >= 0,
        decreases n_out - j,
    {
        let q = strat.outputs[j].search_query();
        let ghost gq = q;
        match resolve(q) {
            Ok(p) => {
                proof {
                    lemma_canon_nonneg(p, *rate);
                }
                match output_total.add(&p, rate) {
                    Some(t) => {
                        output_total = t;
                        proof {
                            let prev = outs;
                            outs = outs.push(p);
                            assert(outs.drop_last() =~= prev);
                            assert(outs.last() == p);
                            assert(outs[j as int] == p);
                            assert(is_search_query_of(gq, strat.outputs@[j as int]));
                            assert(call_ensures(
                                resolve,
                                (gq,),
                                Result::<Price, TradeApiError>::Ok(p),
                            ));
                            assert(query_resolved_ok(resolve, strat.outputs@[j as int], p));
                        }
                    },
                    None => {
                        proof {
                            assert(is_search_query_of(gq, strat.outputs@[j as int]));
                            assert(call_ensures(
                                resolve,
                                (gq,),
                                Result::<Price, TradeApiError>::Ok(p),
                            ));
                            assert(query_resolved_ok(resolve, strat.outputs@[j as int], p));
                            assert(spec_total_overflows(
                                resolve,
                                strat.outputs@,
                                j as int,
                                outs,
                                p,
                                *rate,
                            ));
                            assert(spec_phase_overflow(
                                resolve,
                                strat.outputs@,
                                j as int,
                                *rate,
                            ));
                        }
                        return Err(
                            StrategyFailure::OutOfRange { phase: StratPhase::Outputs, index: j },
                        );
                    },
                }
            },
            Err(error) => {
                proof {
                    assert(is_search_query_of(gq, strat.outputs@[j as int]));
                    assert(call_ensures(
                        resolve,
                        (gq,),
                        Result::<Price, TradeApiError>::Err(error),
                    ));
                    assert(query_resolved_err(resolve, strat.outputs@[j as int], error));
                }
                return Err(
                    StrategyFailure::Query { phase: StratPhase::Outputs, index: j, error },
                );
            },
        }
        j += 1;
    }
    match output_total.sub(&input_total, rate) {
        Some(profit) => {
            proof {
                assert(ins.len() == strat.inputs@.len());
                assert(outs.len() == strat.outputs@.len());
                assert(profit.amount_micro == sum_canon(outs, *rate) - sum_canon(ins, *rate));
            }
            Ok(profit)
        },
        None => {
            // both totals are nonnegative and bounded, so their difference
            // is always representable
            proof {
                assert(false);
            }
            Err(StrategyFailure::OutOfRange { phase: StratPhase::Outputs, index: 0 })
        },
    }
}

} // verus!
