//! The line format, levels, timestamps, node events, and dense ids.

use log_viz::event::node_ev::NodeEvent;
use log_viz::event::parser::parse_node_event;
use log_viz::event::{parse_event_log, parse_timestamp, EventLevel, EventParser};

#[test]
fn event_level_order_correctly() {
    assert!(EventLevel::Finest < EventLevel::Finer);
    assert!(EventLevel::Finer < EventLevel::Info);
}

#[test]
fn event_parse_custom_event() {
    let event_line = "[INFO   ] [2024-03-05 22:59:25] [dslabs.paxos.PaxosServer] server1: PaxosSlotEntry(amoCommand=AMOCommand(command=KVStore.Put(key=client5-5, value=7uocFqRu), address=client5, sequenceNum=72), slotStatus=CHOSEN, isExecuted=true, acceptedBallot=Ballot(serverAddress=server1, roundNum=1), acceptors=[server2, server1])";
    let _event = EventParser::new().parse(event_line).expect("Parsing should not fail");
}

#[test]
fn parser_parse_custom_event() {
    let event_line = "CommandExecuted(-> server5, PaxosSlotEntry(amoCommand=AMOCommand(command=KVStore.Put(key=client3-1, value=W9U3z7KQ), address=client3, sequenceNum=0), slotStatus=CHOSEN, isExecuted=true, acceptedBallot=Ballot(serverAddress=server1, roundNum=1), acceptors=[server5, server1]))";
    let (_, event) = parse_node_event(event_line).expect("Custom event should parse successfully");

    let NodeEvent::Custom(custom_event) = event else {
        panic!("event should have been a custom event")
    };

    assert_eq!(custom_event.name, "CommandExecuted");
    assert_eq!(custom_event.dest, "server5");
}

#[test]
fn parse_node_event_kinds() {
    let (_, ev) = parse_node_event("MessageSend(a -> b, Ping(id=1))").expect("parses");
    let NodeEvent::MsgSend(n) = ev else { panic!("expected a send") };
    assert_eq!(n.sender(), "a");
    assert_eq!(n.dest(), "b");
    assert_eq!(n.payload().name(), "Ping");

    let (_, ev) = parse_node_event("TimerReceive(-> b, Tick())").expect("parses");
    let NodeEvent::TimerRecv(n) = ev else { panic!("expected a timer delivery") };
    assert_eq!(n.dest(), "b");

    // a send without a sender is read as a custom event of that name
    let (_, ev) = parse_node_event("MessageSend(-> b, Ping(id=1))").expect("parses");
    assert!(matches!(ev, NodeEvent::Custom(_)));

    assert!(NodeEvent::parse("NoArrowHere").is_err());
}

#[test]
fn timestamps_are_validated() {
    let ts = parse_timestamp("2024-03-05 22:59:25").expect("valid");
    assert_eq!(ts.year, 2024);
    assert_eq!(ts.month, 3);
    assert_eq!(ts.day, 5);
    assert_eq!(ts.second, 25);
    assert!(parse_timestamp("2024-02-29 00:00:00").is_some());
    assert!(parse_timestamp("2023-02-29 00:00:00").is_none());
    assert!(parse_timestamp("2024-13-01 00:00:00").is_none());
    assert!(parse_timestamp("2024-00-01 00:00:00").is_none());
    assert!(parse_timestamp("2024-01-32 00:00:00").is_none());
    assert!(parse_timestamp("2024-01-01 24:00:00").is_none());
    assert!(parse_timestamp("2024-01-01 00:60:00").is_none());
    assert!(parse_timestamp("2024-01-01").is_none());
    assert!(parse_timestamp("2024-1-01 00:00:00").is_none());
}

#[test]
fn skipped_lines_keep_ids_dense() {
    let lines: Vec<String> = vec![
        "[INFO ] [2024-03-05 22:59:25] [x] server1: Ping(id=7)".to_string(),
        "not a log line at all".to_string(),
        "[WARN ] [2024-03-05 22:59:25] [x] server1: Ping(id=8)".to_string(),
        "[INFO ] [2024-03-05 22:59:25] [x] server2: Pong(id=9)".to_string(),
        "[INFO ] [2024-99-05 22:59:25] [x] server2: Pong(id=10)".to_string(),
        "[FINER] [2024-03-05 22:59:26] [x] server3: ,oops".to_string(),
        "[FINEST] [2024-03-05 22:59:27] [x] server4: Done()".to_string(),
    ];
    let events = parse_event_log(&lines);
    assert_eq!(events.len(), 3);
    let ids: Vec<usize> = events.iter().map(|e| e.id()).collect();
    assert_eq!(ids, vec![0, 1, 2]);
    assert_eq!(events[0].originator(), "server1");
    assert_eq!(*events[0].level(), EventLevel::Info);
    assert_eq!(events[1].event_obj().name(), "Pong");
    assert_eq!(*events[2].level(), EventLevel::Finest);
}

#[test]
fn bad_lines_report_errors() {
    let mut p = EventParser::new();
    assert!(p.parse("no brackets").is_err());
    assert!(p.parse("[WARN ] [2024-03-05 22:59:25] [x] s1: Ping(id=1)").is_err());
    assert!(p.parse("[INFO ] [2024-03-05] [x] s1: Ping(id=1)").is_err());
    assert!(p.parse("[INFO ] [2024-03-05 22:59:25] [x] s1: ,bad").is_err());
    // failures consumed no ids
    let ev = p.parse("[INFO ] [2024-03-05 22:59:25] [x] s1: Ping(id=1)").expect("good line");
    assert_eq!(ev.id(), 0);
}

#[test]
fn level_names_round_trip() {
    assert_eq!(EventLevel::try_from_str("FINEST").unwrap(), EventLevel::Finest);
    assert_eq!(EventLevel::try_from_str("FINER").unwrap(), EventLevel::Finer);
    assert_eq!(EventLevel::try_from_str("INFO").unwrap(), EventLevel::Info);
    assert!(EventLevel::try_from_str("WARN").is_err());
    assert_eq!(EventLevel::Info.as_str(), "INFO");
    assert_eq!(EventLevel::Finer.as_str(), "FINER");
    assert_eq!(EventLevel::Finest.as_str(), "FINEST");
}

#[test]
fn timer_set_parses() {
    let (rem, ev) = parse_node_event("TimerSet(a -> b, Tick(n=3)) tail").expect("parses");
    assert_eq!(rem, " tail");
    let NodeEvent::TimerSet(n) = ev else { panic!("expected a timer set") };
    assert_eq!(n.dest(), "b");
    assert_eq!(n.payload().name(), "Tick");
}
