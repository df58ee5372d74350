use kalandra_kapital::price::{ConversionRate, CurrencyOrbType, Price};
use kalandra_kapital::strat::{
    compute_profitability, parse_strat, ItemInputFilters, Strat, StratInput, StratPhase,
    StrategyFailure,
};
use kalandra_kapital::trade_api::{encode_search_query, TradeSearchQuery, TradeStatus};
use kalandra_kapital::trade_decode::TradeApiError;

fn rate215() -> ConversionRate {
    ConversionRate::new(215)
}

fn item(name: Option<&str>, term: Option<&str>) -> StratInput {
    StratInput {
        name: name.map(|s| s.to_string()),
        term: term.map(|s| s.to_string()),
        bulk: false,
        filters: None,
    }
}

#[test]
fn parse_strat_reads_inputs_and_outputs() {
    let doc = br#"{"inputs":[{"name":"Vivid Vulture","bulk":false}],"outputs":[{"term":"memory","bulk":true,"filters":[]}]}"#;
    let strat = parse_strat(doc).unwrap();
    assert_eq!(strat.inputs.len(), 1);
    assert_eq!(strat.outputs.len(), 1);
    assert_eq!(strat.inputs[0].name.as_deref(), Some("Vivid Vulture"));
    assert_eq!(strat.inputs[0].term, None);
    assert!(!strat.inputs[0].bulk);
    assert!(strat.outputs[0].bulk);
    assert_eq!(strat.outputs[0].term.as_deref(), Some("memory"));
    assert_eq!(strat.outputs[0].filters.as_ref().map(|f| f.len()), Some(0));
}

#[test]
fn parse_strat_rejects_malformed_documents_with_the_raw_payload() {
    match parse_strat(b"not json") {
        Err(TradeApiError::Decode(raw)) => assert_eq!(raw, b"not json".to_vec()),
        other => panic!("expected a decode error, got {:?}", other),
    }
    assert!(parse_strat(br#"{"inputs":[]}"#).is_err());
    // an item without the required bulk flag is malformed
    assert!(parse_strat(br#"{"inputs":[{"name":"x"}],"outputs":[]}"#).is_err());
}

#[test]
fn search_query_carries_name_and_term() {
    let q = item(Some("Vivid Vulture"), Some("beast")).search_query();
    assert!(matches!(q.status, TradeStatus::online));
    assert_eq!(q.item_type.as_deref(), Some("Vivid Vulture"));
    assert_eq!(q.term.as_deref(), Some("beast"));
    assert_eq!(q.filters.len(), 0);
}

#[test]
fn search_query_carries_the_item_filters() {
    let mut it = item(Some("Vivid Vulture"), None);
    it.filters = Some(vec![ItemInputFilters {}, ItemInputFilters {}]);
    let q = it.search_query();
    assert_eq!(q.filters.len(), 2);
    // and the filter count reaches the serialized query, hence the
    // fingerprint
    assert_eq!(
        String::from_utf8(encode_search_query(&q)).unwrap(),
        r#"{"status":"online","type":"Vivid Vulture","filters":[{},{}]}"#
    );
}

#[test]
fn profitability_is_outputs_minus_inputs() {
    let rate = rate215();
    let strat = Strat {
        inputs: vec![item(Some("in"), None)],
        outputs: vec![item(Some("out-a"), None), item(Some("out-b"), None)],
    };
    let resolve = |q: TradeSearchQuery| -> Result<Price, TradeApiError> {
        match q.item_type.as_deref() {
            Some("in") => Ok(Price::new(1_000_000, CurrencyOrbType::Divine)),
            Some("out-a") => Ok(Price::new(1_000_000, CurrencyOrbType::Divine)),
            Some("out-b") => Ok(Price::new(300_000, CurrencyOrbType::Divine)),
            _ => Err(TradeApiError::NoQuote),
        }
    };
    let profit = compute_profitability(&strat, resolve, &rate).unwrap();
    // 1.3 divine out against 1.0 divine in: 0.3 divine profit
    assert!(profit.eq_at(&Price::new(300_000, CurrencyOrbType::Divine), &rate));
    assert_eq!(profit.currency_orb, CurrencyOrbType::Chaos);
    assert_eq!(profit.amount_micro, 64_500_000);
}

#[test]
fn profitability_can_be_negative() {
    let rate = rate215();
    let strat = Strat {
        inputs: vec![item(Some("in"), None)],
        outputs: vec![item(Some("out"), None)],
    };
    let resolve = |q: TradeSearchQuery| -> Result<Price, TradeApiError> {
        match q.item_type.as_deref() {
            Some("in") => Ok(Price::new(2_000_000, CurrencyOrbType::Divine)),
            _ => Ok(Price::new(1_000_000, CurrencyOrbType::Divine)),
        }
    };
    let profit = compute_profitability(&strat, resolve, &rate).unwrap();
    assert_eq!(profit.amount_micro, -215_000_000);
}

#[test]
fn a_failing_input_query_aborts_the_whole_evaluation() {
    let rate = rate215();
    let strat = Strat {
        inputs: vec![item(Some("priced"), None), item(Some("unpriced"), None)],
        outputs: vec![item(Some("out"), None)],
    };
    let resolve = |q: TradeSearchQuery| -> Result<Price, TradeApiError> {
        match q.item_type.as_deref() {
            Some("unpriced") => Err(TradeApiError::NoQuote),
            _ => Ok(Price::new(1_000_000, CurrencyOrbType::Divine)),
        }
    };
    match compute_profitability(&strat, resolve, &rate) {
        Err(StrategyFailure::Query { phase, index, error }) => {
            assert_eq!(phase, StratPhase::Inputs);
            assert_eq!(index, 1);
            assert!(matches!(error, TradeApiError::NoQuote));
        },
        other => panic!("expected the failing input to abort, got {:?}", other),
    }
}

#[test]
fn a_failing_output_query_aborts_with_its_identity() {
    let rate = rate215();
    let strat = Strat {
        inputs: vec![item(Some("in"), None)],
        outputs: vec![item(Some("out"), None)],
    };
    let resolve = |q: TradeSearchQuery| -> Result<Price, TradeApiError> {
        match q.item_type.as_deref() {
            Some("out") => Err(TradeApiError::Transport("down".to_string())),
            _ => Ok(Price::new(1_000_000, CurrencyOrbType::Divine)),
        }
    };
    match compute_profitability(&strat, resolve, &rate) {
        Err(StrategyFailure::Query { phase, index, error }) => {
            assert_eq!(phase, StratPhase::Outputs);
            assert_eq!(index, 0);
            assert!(matches!(error, TradeApiError::Transport(_)));
        },
        other => panic!("expected the failing output to abort, got {:?}", other),
    }
}

#[test]
fn empty_strategy_evaluates_to_zero() {
    let rate = rate215();
    let strat = Strat { inputs: vec![], outputs: vec![] };
    let resolve =
        |_q: TradeSearchQuery| -> Result<Price, TradeApiError> { Err(TradeApiError::NoQuote) };
    let profit = compute_profitability(&strat, resolve, &rate).unwrap();
    assert_eq!(profit.amount_micro, 0);
}
