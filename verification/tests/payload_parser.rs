//! The payload grammar, exercised through the public parsers.

use log_viz::abstract_object::parser::{parse_abstract_object, parse_collection, parse_prop_value};
use log_viz::abstract_object::AbstractValue;

#[test]
fn parse_obj_succ_1() {
    let (_, obj) = parse_abstract_object(
        "ViewReply(view=View(viewNum=2, primary=server1, backup=server2))",
    )
    .expect("Should parse successfully");
    assert_eq!(obj.name(), "ViewReply");
    assert_eq!(obj.props().len(), 1);
    let AbstractValue::Object(view_obj) = obj.props().get("view").unwrap() else {
        panic!("view should be object");
    };

    assert_eq!(view_obj.name(), "View");
    assert_eq!(view_obj.props().len(), 3);

    assert_eq!(view_obj.props().get("viewNum").unwrap(), &AbstractValue::Number(2));
    assert_eq!(
        view_obj.props().get("primary").unwrap(),
        &AbstractValue::Symbol(String::from("server1"))
    );
    assert_eq!(
        view_obj.props().get("backup").unwrap(),
        &AbstractValue::Symbol(String::from("server2"))
    );
}

#[test]
fn parse_event_with_collection() {
    let (_, obj) = parse_abstract_object("PaxosSlotEntry(amoCommand=AMOCommand(command=KVStore.Put(key=client3-1, value=W9U3z7KQ), address=client3, sequenceNum=0), slotStatus=CHOSEN, isExecuted=true, acceptedBallot=Ballot(serverAddress=server1, roundNum=1), acceptors=[server1, server4, server5, server2])").expect("Should parse successfully");
    assert_eq!(obj.name(), "PaxosSlotEntry");
    assert_eq!(obj.props().len(), 5);
    let acceptors_prop = obj.props().get("acceptors").expect("acceptors should be a property");
    let AbstractValue::Collection(collection) = acceptors_prop else {
        panic!("acceptors is not a collection");
    };

    assert_eq!(collection.len(), 4)
}

#[test]
fn parse_strange_value() {
    let text = "uocFqRu),";
    let (_, value) = parse_prop_value(text).expect("Underlying symbol parser should parse");
    let AbstractValue::Symbol(internal_value) = value else {
        panic!("Expected text to be symbol")
    };
    assert_eq!(internal_value, "uocFqRu");

    let (_, value) = parse_prop_value("uocFqRu").expect("should parse as prop value");
    let AbstractValue::Symbol(internal_value) = value else {
        panic!("Expected text to be symbol")
    };
    assert_eq!(internal_value, "uocFqRu");
}

#[test]
fn parse_event() {
    let text = "PaxosSlotEntry(amoCommand=AMOCommand(command=KVStore.Put(key=client5-5, value=7uocFqRu), address=client5, sequenceNum=72), slotStatus=CHOSEN, isExecuted=true, acceptedBallot=Ballot(serverAddress=server1, roundNum=1), acceptors=[server2, server1])";
    let (_, _obj) = parse_abstract_object(text).expect("Should parse correctly");
}

#[test]
fn parse_num_collection() {
    let text = "[1, 2, 3]";
    let (_, items) = parse_collection(text).expect("should parse successfully");
    assert_eq!(items.len(), 3);
    let AbstractValue::Number(first_item) = items.get(0).expect("first element should be something")
    else {
        panic!("element was not a number")
    };
    assert_eq!(first_item, &1)
}

#[test]
fn parses_abstract_obj_name() {
    let text = "EventLogger.InsertedIntoLog(slotNum=2662, entry=PaxosSlotEntry(amoCommand=AMOCommand(command=KVStore.Get(key=client2-3), address=client2, sequenceNum=635), slotStatus=ACCEPTED, isExecuted=false, acceptedBallot=Ballot(serverAddress=server5, roundNum=5), sentToClient=false, acceptors=[server1, server5]))";
    let (_, item) = parse_abstract_object(text).expect("Parsing should not fail");
    assert_eq!(item.name(), "EventLogger.InsertedIntoLog");
    let slot_num = item.props().get("slotNum").expect("should have slotNum property");
    let AbstractValue::Number(num_) = slot_num else {
        panic!("expected slot num to be a number, but was not");
    };

    assert_eq!(*num_, 2662);
}

#[test]
fn identical_text_parses_identically() {
    let text = "A(b=B(c=1), d=[x, 2], e={k=v})";
    let (_, first) = parse_abstract_object(text).expect("should parse");
    let (_, second) = parse_abstract_object(text).expect("should parse");
    assert_eq!(first, second);
    assert_eq!(first.canonical_hash(), second.canonical_hash());
}

#[test]
fn number_needs_terminator() {
    // a bare run of digits with a dash or letter is a symbol
    let (_, v) = parse_prop_value("5-5,").expect("should parse");
    assert_eq!(v, AbstractValue::Symbol(String::from("5-5")));
    let (_, v) = parse_prop_value("5x]").expect("should parse");
    assert_eq!(v, AbstractValue::Symbol(String::from("5x")));
    // a digit run right before a closer is a number
    let (rem, v) = parse_prop_value("5)").expect("should parse");
    assert_eq!(v, AbstractValue::Number(5));
    assert_eq!(rem, ")");
}

#[test]
fn number_out_of_range_is_symbol() {
    let (_, v) = parse_prop_value("99999999999999999999)").expect("should parse");
    assert_eq!(v, AbstractValue::Symbol(String::from("99999999999999999999")));
    let (_, v) = parse_prop_value("-9223372036854775808)").expect("should parse");
    assert_eq!(v, AbstractValue::Number(i64::MIN));
    let (_, v) = parse_prop_value("+17,").expect("should parse");
    assert_eq!(v, AbstractValue::Number(17));
}

#[test]
fn duplicate_keys_last_wins() {
    let (_, obj) = parse_abstract_object("A(k=1, k=2)").expect("should parse");
    assert_eq!(obj.props().len(), 1);
    assert_eq!(obj.props().get("k").unwrap(), &AbstractValue::Number(2));
}

#[test]
fn unbalanced_object_is_not_an_object() {
    assert!(parse_abstract_object("A(b=1").is_none());
    assert!(parse_abstract_object("(b=1)").is_none());
    assert!(parse_abstract_object("").is_none());
}
