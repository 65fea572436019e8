//! The query grammar and the evaluator.

use log_viz::dsl::parser::{parse_eq_op, parse_event_query};
use log_viz::dsl::query_ast::{EventNameFilter, EventQuery, Operator, PropPath};
use log_viz::dsl::filters::EventFilterError;
use log_viz::event::{parse_event_log, Event};

fn corpus(payloads: &[&str]) -> Vec<Event> {
    let lines: Vec<String> = payloads
        .iter()
        .map(|p| format!("[INFO ] [2024-03-05 22:59:25] [x] server1: {}", p))
        .collect();
    parse_event_log(&lines)
}

fn matches_of(query_text: &str, events: &Vec<Event>) -> Vec<usize> {
    let (_, query) = parse_event_query(query_text).expect("query should parse");
    query.matching_ids(events)
}

#[test]
fn find_event_parse() {
    let ev_text = "find any has(slotNum)";
    let (_, query) = parse_event_query(ev_text).expect("Parsing should succeed");
    let EventQuery::Find { queries } = query;

    assert_eq!(queries.len(), 1);
    let first = queries.get(0).expect("should have a first element");
    let EventNameFilter::Any = first.event_type else {
        panic!("Expected query filter to be any")
    };
    match &first.operator {
        Operator::Has(prop) => assert_eq!(prop.segments[0], "slotNum"),
        op => panic!("Unexpected operator type: {:?}", op),
    }
}

#[test]
fn find_event_parse_and_body() {
    let ev_text = "find any and { has(slotNum); eq(slotNum, 1824) }";
    let (_, _query) = parse_event_query(ev_text).expect("Parsing should succeed");
}

#[test]
fn find_event_parse_and_and_or() {
    let ev_text = "
    find EventLogger.InsertIntoLog and {
        has(slotNum);
        or {
            eq(slotNum, 1928);
            eq(slotNum, 33)
        }
    }
    ";

    let (_, _query) = parse_event_query(ev_text).expect("Parsing should succeed");
}

#[test]
fn parse_path() {
    let text = "eq(leader.area, 10)";
    let (_, path) = parse_eq_op(text).expect("Should parse successfully");
    let Operator::Eq { prop_name, comparison } = path else {
        panic!("Expected eq, but got something else");
    };
    assert_eq!(comparison, "10");
    assert_eq!(prop_name.segments.len(), 2);
    assert_eq!(prop_name.segments.get(0).unwrap(), "leader");
    assert_eq!(prop_name.segments.get(1).unwrap(), "area");
}

#[test]
fn malformed_queries_are_rejected() {
    assert!(parse_event_query("fin any has(x)").is_none());
    assert!(parse_event_query("find any").is_none());
    assert!(parse_event_query("find any nope(x)").is_none());
    assert!(parse_event_query("find any and { }").is_none());
    assert!(parse_event_query("find any eq(a.b)").is_none());
}

#[test]
fn eq_and_has_walk_paths() {
    let events = corpus(&["A(b=B(c=1))"]);
    assert_eq!(matches_of("find any eq(b.c, 1)", &events), vec![0]);
    assert_eq!(matches_of("find any eq(b.c, 2)", &events), vec![]);
    assert_eq!(matches_of("find any eq(b.d, 1)", &events), vec![]);
    assert_eq!(matches_of("find any has(b.c)", &events), vec![0]);
    assert_eq!(matches_of("find any has(x)", &events), vec![]);
}

#[test]
fn boolean_operators_combine() {
    let events = corpus(&[
        "E(x=1, y=2)",
        "E(x=1)",
        "E(y=2)",
        "E(a=1)",
        "E(a=2)",
        "E(a=3)",
    ]);
    assert_eq!(matches_of("find any and{has(x);has(y)}", &events), vec![0]);
    assert_eq!(matches_of("find any or{eq(a,\"1\");eq(a,\"2\")}", &events), vec![3, 4]);
    assert_eq!(matches_of("find any not(has(x))", &events), vec![2, 3, 4, 5]);
}

#[test]
fn name_filter_restricts_matches() {
    let events = corpus(&["Ping(id=7)", "Pong(id=7)"]);
    assert_eq!(matches_of("find Ping has(id)", &events), vec![0]);
    assert_eq!(matches_of("find Pong has(id)", &events), vec![1]);
    assert_eq!(matches_of("find any has(id)", &events), vec![0, 1]);
    assert_eq!(matches_of("find Other has(id)", &events), vec![]);
}

#[test]
fn server_operator_matches_originator() {
    let lines: Vec<String> = vec![
        "[INFO ] [2024-03-05 22:59:25] [x] server1: Ping(id=7)".to_string(),
        "[INFO ] [2024-03-05 22:59:26] [x] server2: Pong(id=7)".to_string(),
    ];
    let events = parse_event_log(&lines);
    assert_eq!(matches_of("find any server(\"server2\")", &events), vec![1]);
}

#[test]
fn lookup_failures_are_key_not_found() {
    let events = corpus(&["A(b=1)"]);
    let missing = PropPath { segments: vec!["nope".to_string()] };
    assert_eq!(missing.lookup_value(&events[0]), Err(EventFilterError::KeyNotFound));
    // descent through a number fails
    let through = PropPath { segments: vec!["b".to_string(), "c".to_string()] };
    assert_eq!(through.lookup_value(&events[0]), Err(EventFilterError::KeyNotFound));
    let empty = PropPath { segments: vec![] };
    assert_eq!(empty.lookup_value(&events[0]), Err(EventFilterError::KeyNotFound));
}

#[test]
fn end_to_end_matches() {
    let lines: Vec<String> = vec![
        "[INFO] [2024-03-05 22:59:25] [x] server1: Ping(id=7)".to_string(),
        "[INFO] [2024-03-05 22:59:26] [x] server2: Pong(id=7)".to_string(),
    ];
    let events = parse_event_log(&lines);
    assert_eq!(events.len(), 2);
    let mut filter = log_viz::app::filter_state::FilterState::new();
    let (_, query) = parse_event_query("find any eq(id, 7)").expect("query should parse");
    filter.push_new_filter(query, &events);
    assert!(filter.has_active_filter());
    assert_eq!(filter.matching_events(), &vec![0usize, 1]);
    assert_eq!(filter.nav_order(), vec![0usize, 1]);
    filter.clear_filter();
    assert!(!filter.has_active_filter());
    assert_eq!(filter.matching_events().len(), 0);
}
