use iai_callgrind_runner::costs::{Costs, MalformedCounter, MissingEvent, Summary};
use iai_callgrind_runner::event_kind::EventKind;

fn cache_kinds() -> Vec<EventKind> {
    vec![
        EventKind::Ir,
        EventKind::Dr,
        EventKind::Dw,
        EventKind::I1mr,
        EventKind::D1mr,
        EventKind::D1mw,
        EventKind::ILmr,
        EventKind::DLmr,
        EventKind::DLmw,
    ]
}

fn cache_costs(values: &[&str]) -> Costs {
    let mut costs = Costs::with_event_kinds(cache_kinds()).unwrap();
    costs.add_iter_str(values).unwrap();
    costs
}

#[test]
fn short_cost_line_leaves_the_rest_alone() {
    let mut costs =
        Costs::with_event_kinds(vec![EventKind::Ir, EventKind::Dr, EventKind::Dw]).unwrap();
    costs.add_iter_str(&["10", "5", "1"]).unwrap();
    costs.add_iter_str(&["10", "5"]).unwrap();
    assert_eq!(costs.cost_by_kind(&EventKind::Ir), Some(20));
    assert_eq!(costs.cost_by_kind(&EventKind::Dr), Some(10));
    assert_eq!(costs.cost_by_kind(&EventKind::Dw), Some(1));
    costs.add_iter_str(&[]).unwrap();
    assert_eq!(costs.cost_by_index(0), Some(20));
    assert_eq!(costs.cost_by_index(1), Some(10));
    assert_eq!(costs.cost_by_index(2), Some(1));
    assert_eq!(costs.cost_by_index(3), None);
}

#[test]
fn long_cost_line_is_cut() {
    let mut costs = Costs::with_event_kinds(vec![EventKind::Ir]).unwrap();
    costs.add_iter_str(&["1", "2", "x"]).unwrap();
    assert_eq!(costs.cost_by_kind(&EventKind::Ir), Some(1));
}

#[test]
fn malformed_token_fails_and_changes_nothing() {
    let mut costs = Costs::with_event_kinds(vec![EventKind::Ir, EventKind::Dr]).unwrap();
    costs.add_iter_str(&["1", "2"]).unwrap();
    assert_eq!(costs.add_iter_str(&["3", "-4"]), Err(MalformedCounter { position: 1 }));
    assert_eq!(costs.add_iter_str(&["", "4"]), Err(MalformedCounter { position: 0 }));
    assert_eq!(costs.add_iter_str(&["x", "y"]), Err(MalformedCounter { position: 0 }));
    assert_eq!(
        costs.add_iter_str(&["18446744073709551616"]),
        Err(MalformedCounter { position: 0 })
    );
    assert_eq!(costs.cost_by_kind(&EventKind::Ir), Some(1));
    assert_eq!(costs.cost_by_kind(&EventKind::Dr), Some(2));
}

#[test]
fn counters_are_decimal_with_an_optional_plus() {
    let mut costs = Costs::with_event_kinds(vec![EventKind::Ir, EventKind::Dr]).unwrap();
    costs.add_iter_str(&["+7", "007"]).unwrap();
    assert_eq!(costs.cost_by_kind(&EventKind::Ir), Some(7));
    assert_eq!(costs.cost_by_kind(&EventKind::Dr), Some(7));
    for bad in ["+", "++1", "1+", "0x10", "1.0", "1_000", " 1", "١"] {
        assert_eq!(costs.add_iter_str(&[bad]), Err(MalformedCounter { position: 0 }), "{bad}");
    }
    costs.add_iter_str(&["18446744073709551615"]).unwrap();
    assert_eq!(costs.cost_by_kind(&EventKind::Ir), Some(u64::MAX));
}

#[test]
fn counters_stop_at_the_largest_value() {
    let mut costs = Costs::with_event_kinds(vec![EventKind::Ir]).unwrap();
    costs.add_iter_str(&["18446744073709551615"]).unwrap();
    assert_eq!(costs.cost_by_kind(&EventKind::Ir), Some(u64::MAX));
    costs.add_iter_str(&["1"]).unwrap();
    assert_eq!(costs.cost_by_kind(&EventKind::Ir), Some(u64::MAX));
    let mut other = Costs::with_event_kinds(vec![EventKind::Ir]).unwrap();
    other.add_iter_str(&["18446744073709551614"]).unwrap();
    other.add_iter_str(&["1"]).unwrap();
    assert_eq!(other.cost_by_kind(&EventKind::Ir), Some(u64::MAX));
}

#[test]
fn declared_kinds_are_distinct() {
    assert!(Costs::with_event_kinds(vec![]).is_some());
    assert!(Costs::with_event_kinds(vec![EventKind::Ir, EventKind::Ir]).is_none());
    assert!(Costs::with_event_kinds(vec![EventKind::Ir, EventKind::Dr, EventKind::Ir]).is_none());
    assert!(Costs::with_event_kinds(vec![EventKind::L1hits, EventKind::L1hits]).is_none());
    let costs = Costs::with_event_kinds(vec![EventKind::Ge, EventKind::Ir]).unwrap();
    assert_eq!(costs.event_kinds(), vec![EventKind::Ge, EventKind::Ir]);
    assert_eq!(costs.cost_by_kind(&EventKind::Ge), Some(0));
    assert_eq!(costs.cost_by_kind(&EventKind::Ir), Some(0));
    assert_eq!(costs.cost_by_kind(&EventKind::Dr), None);
}

#[test]
fn short_line_for_three_declared_kinds() {
    let kinds = vec![EventKind::Ir, EventKind::L1hits, EventKind::RamHits];
    let mut all = Costs::with_event_kinds(kinds.clone()).unwrap();
    all.add_iter_str(&["1", "10", "5"]).unwrap();
    assert_eq!(all.cost_by_kind(&EventKind::Ir), Some(1));
    assert_eq!(all.cost_by_kind(&EventKind::L1hits), Some(10));
    assert_eq!(all.cost_by_kind(&EventKind::RamHits), Some(5));
    let mut short = Costs::with_event_kinds(kinds).unwrap();
    short.add_iter_str(&["10", "5"]).unwrap();
    assert_eq!(short.cost_by_kind(&EventKind::Ir), Some(10));
    assert_eq!(short.cost_by_kind(&EventKind::L1hits), Some(5));
    assert_eq!(short.cost_by_kind(&EventKind::RamHits), Some(0));
    assert!(!short.is_summarized());
    assert_eq!(short.cost_by_kind(&EventKind::LLhits), None);
}

#[test]
fn a_declared_counter_is_not_replaced_by_a_computed_one() {
    let mut kinds = cache_kinds();
    kinds.push(EventKind::TotalRW);
    let mut costs = Costs::with_event_kinds(kinds).unwrap();
    costs.add_iter_str(&["100", "20", "10", "5", "3", "2", "1", "1", "1", "9"]).unwrap();
    assert_eq!(costs.cost_by_kind(&EventKind::TotalRW), Some(9));
    costs.make_summary().unwrap();
    assert_eq!(costs.cost_by_kind(&EventKind::TotalRW), Some(9));
    assert_eq!(costs.cost_by_kind(&EventKind::L1hits), Some(120));
}

#[test]
fn derived_kinds_are_absent_until_computed() {
    let mut costs = cache_costs(&["100", "20", "10", "5", "3", "2", "1", "1", "1"]);
    assert!(!costs.is_summarized());
    assert_eq!(costs.cost_by_kind(&EventKind::L1hits), None);
    assert_eq!(costs.cost_by_kind(&EventKind::EstimatedCycles), None);
    assert_eq!(costs.make_summary(), Ok(()));
    assert!(costs.is_summarized());
    // ram = 1 + 1 + 1, ll = (5 + 3 + 2) - 3, total = 100 + 20 + 10,
    // l1 = 130 - 3 - 7, cycles = 120 + 5 * 7 + 35 * 3
    assert_eq!(costs.cost_by_kind(&EventKind::RamHits), Some(3));
    assert_eq!(costs.cost_by_kind(&EventKind::LLhits), Some(7));
    assert_eq!(costs.cost_by_kind(&EventKind::TotalRW), Some(130));
    assert_eq!(costs.cost_by_kind(&EventKind::L1hits), Some(120));
    assert_eq!(costs.cost_by_kind(&EventKind::EstimatedCycles), Some(260));
    assert_eq!(costs.cost_by_kind(&EventKind::Ir), Some(100));
}

#[test]
fn summary_twice_is_summary_once() {
    let mut once = cache_costs(&["100", "20", "10", "5", "3", "2", "1", "1", "1"]);
    let mut twice = once.clone();
    once.make_summary().unwrap();
    twice.make_summary().unwrap();
    assert!(twice.is_summarized());
    twice.make_summary().unwrap();
    assert!(twice.is_summarized());
    for kind in EventKind::all() {
        assert_eq!(once.cost_by_kind(&kind), twice.cost_by_kind(&kind));
    }
}

#[test]
fn summary_is_not_computed_again_after_more_costs() {
    let mut costs = cache_costs(&["100", "20", "10", "5", "3", "2", "1", "1", "1"]);
    costs.make_summary().unwrap();
    costs.add_iter_str(&["1"]).unwrap();
    costs.make_summary().unwrap();
    assert_eq!(costs.cost_by_kind(&EventKind::Ir), Some(101));
    assert_eq!(costs.cost_by_kind(&EventKind::TotalRW), Some(130));
}

#[test]
fn summary_needs_the_cache_counters() {
    let mut costs = Costs::with_event_kinds(vec![EventKind::Ir]).unwrap();
    assert_eq!(costs.make_summary(), Err(MissingEvent { kind: EventKind::Dr }));
    assert!(!costs.is_summarized());
    assert_eq!(costs.cost_by_kind(&EventKind::TotalRW), None);
    let mut none = Costs::with_event_kinds(vec![EventKind::Ge]).unwrap();
    assert_eq!(none.make_summary(), Err(MissingEvent { kind: EventKind::Ir }));
    let mut kinds = cache_kinds();
    kinds.pop();
    let mut most = Costs::with_event_kinds(kinds).unwrap();
    assert_eq!(most.make_summary(), Err(MissingEvent { kind: EventKind::DLmw }));
}

#[test]
fn summary_differences_stop_at_zero() {
    // More misses of the last level than of the first: no hits of the last
    // level, and the first level serves what main memory does not.
    let mut costs = cache_costs(&["10", "0", "0", "1", "0", "0", "5", "0", "0"]);
    costs.make_summary().unwrap();
    assert_eq!(costs.cost_by_kind(&EventKind::RamHits), Some(5));
    assert_eq!(costs.cost_by_kind(&EventKind::LLhits), Some(0));
    assert_eq!(costs.cost_by_kind(&EventKind::L1hits), Some(5));
    assert_eq!(costs.cost_by_kind(&EventKind::EstimatedCycles), Some(5 + 35 * 5));
    let mut more = cache_costs(&["1", "0", "0", "0", "0", "0", "5", "0", "0"]);
    more.make_summary().unwrap();
    assert_eq!(more.cost_by_kind(&EventKind::L1hits), Some(0));
    assert_eq!(more.cost_by_kind(&EventKind::EstimatedCycles), Some(35 * 5));
}

#[test]
fn summary_stops_at_the_largest_value() {
    let max = "18446744073709551615";
    let mut costs = cache_costs(&[max, max, max, "0", "0", "0", max, max, "0"]);
    costs.make_summary().unwrap();
    assert_eq!(costs.cost_by_kind(&EventKind::TotalRW), Some(u64::MAX));
    assert_eq!(costs.cost_by_kind(&EventKind::RamHits), Some(u64::MAX));
    assert_eq!(costs.cost_by_kind(&EventKind::LLhits), Some(0));
    assert_eq!(costs.cost_by_kind(&EventKind::L1hits), Some(u64::MAX));
    assert_eq!(costs.cost_by_kind(&EventKind::EstimatedCycles), Some(u64::MAX));
}

#[test]
fn equality_looks_at_raw_counters_only() {
    let mut a = cache_costs(&["100", "20", "10", "5", "3", "2", "1", "1", "1"]);
    let b = cache_costs(&["100", "20", "10", "5", "3", "2", "1", "1", "1"]);
    assert_eq!(a, b);
    a.make_summary().unwrap();
    assert_eq!(a, b);
    assert_ne!(a, cache_costs(&["100", "20", "10", "5", "3", "2", "1", "1", "2"]));
    let ir_ge = Costs::with_event_kinds(vec![EventKind::Ir, EventKind::Ge]).unwrap();
    let ge_ir = Costs::with_event_kinds(vec![EventKind::Ge, EventKind::Ir]).unwrap();
    assert_ne!(ir_ge, ge_ir);
    assert_ne!(ir_ge, Costs::with_event_kinds(vec![EventKind::Ir]).unwrap());
}

#[test]
fn merge_adds_kind_by_kind() {
    let mut a = Costs::with_event_kinds(vec![EventKind::Ir, EventKind::Ge]).unwrap();
    a.add_iter_str(&["1", "2"]).unwrap();
    let mut b = Costs::with_event_kinds(vec![EventKind::Ge, EventKind::Bc, EventKind::Ir]).unwrap();
    b.add_iter_str(&["10", "20", "30"]).unwrap();
    a.add(&b);
    assert_eq!(a.cost_by_kind(&EventKind::Ir), Some(31));
    assert_eq!(a.cost_by_kind(&EventKind::Ge), Some(12));
    assert_eq!(a.cost_by_kind(&EventKind::Bc), None);
    let mut c = Costs::with_event_kinds(vec![EventKind::Ir, EventKind::Dr]).unwrap();
    c.add_iter_str(&["18446744073709551615", "4"]).unwrap();
    c.add(&a);
    assert_eq!(c.cost_by_kind(&EventKind::Ir), Some(u64::MAX));
    assert_eq!(c.cost_by_kind(&EventKind::Dr), Some(4));
}

#[test]
fn clone_holds_the_same() {
    let mut a = cache_costs(&["100", "20", "10", "5", "3", "2", "1", "1", "1"]);
    a.make_summary().unwrap();
    let b = a.clone();
    assert_eq!(a, b);
    assert!(b.is_summarized());
    assert_eq!(b.cost_by_kind(&EventKind::EstimatedCycles), Some(260));
}

#[test]
fn summary_counter_by_kind() {
    let summary =
        Summary { l1_hits: 1, ll_hits: 2, ram_hits: 3, total_rw: 4, estimated_cycles: 5 };
    assert_eq!(summary.cost(EventKind::L1hits), Some(1));
    assert_eq!(summary.cost(EventKind::LLhits), Some(2));
    assert_eq!(summary.cost(EventKind::RamHits), Some(3));
    assert_eq!(summary.cost(EventKind::TotalRW), Some(4));
    assert_eq!(summary.cost(EventKind::EstimatedCycles), Some(5));
    assert_eq!(summary.cost(EventKind::Ir), None);
}
