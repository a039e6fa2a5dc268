use bitflyer_client::body::{
    assemble_execution, decode_board, decode_execution, decode_executions, encode_execution, Board,
    BoardOrder, ExchangeHistory, Numeral,
};
use bitflyer_client::error::{Error, ErrorKind};
use serde_json::value::RawValue;
use std::collections::BTreeMap;

fn numeral(text: &str) -> Numeral {
    Numeral { text: text.to_string() }
}

fn sample() -> ExchangeHistory {
    ExchangeHistory {
        id: 39287,
        side: "BUY".to_string(),
        price: numeral("31690.5"),
        size: numeral("27.04"),
        exec_date: "2015-07-08T02:43:34.823".to_string(),
        buy_child_order_acceptance_id: "JRF20150707-200203-452209".to_string(),
        sell_child_order_acceptance_id: "JRF20150708-024334-060234".to_string(),
    }
}

const SAMPLE_JSON: &str = "{\"id\":39287,\"side\":\"BUY\",\"price\":31690.5,\"size\":27.04,\"exec_date\":\"2015-07-08T02:43:34.823\",\"buy_child_order_acceptance_id\":\"JRF20150707-200203-452209\",\"sell_child_order_acceptance_id\":\"JRF20150708-024334-060234\"}";

#[test]
fn decode_execution_reads_the_seven_members() {
    assert_eq!(decode_execution(SAMPLE_JSON), Ok(sample()));
}

#[test]
fn decode_execution_ignores_order_space_and_further_members() {
    let text = " { \"size\" : 27.04, \"extra\": [1, {\"a\": null}], \"price\": 31690.5,\n \"side\": \"BUY\", \"id\": 39287, \"exec_date\": \"2015-07-08T02:43:34.823\", \"sell_child_order_acceptance_id\": \"JRF20150708-024334-060234\", \"buy_child_order_acceptance_id\": \"JRF20150707-200203-452209\" } ";
    assert_eq!(decode_execution(text), Ok(sample()));
}

#[test]
fn encode_execution_writes_the_members_in_order() {
    assert_eq!(encode_execution(&sample()), Ok(SAMPLE_JSON.to_string()));
}

#[test]
fn assemble_execution_joins_its_parts() {
    assert_eq!(
        assemble_execution(-7, "\"S\"", "1", "2.5", "\"d\"", "\"b\"", "\"s\""),
        "{\"id\":-7,\"side\":\"S\",\"price\":1,\"size\":2.5,\"exec_date\":\"d\",\"buy_child_order_acceptance_id\":\"b\",\"sell_child_order_acceptance_id\":\"s\"}"
    );
}

#[test]
fn execution_round_trip_keeps_all_seven_fields() {
    let e = sample();
    let text = encode_execution(&e).unwrap();
    let back = decode_execution(&text).unwrap();
    assert_eq!(back.id, e.id);
    assert_eq!(back.side, e.side);
    assert_eq!(back.price, e.price);
    assert_eq!(back.size, e.size);
    assert_eq!(back.exec_date, e.exec_date);
    assert_eq!(back.buy_child_order_acceptance_id, e.buy_child_order_acceptance_id);
    assert_eq!(back.sell_child_order_acceptance_id, e.sell_child_order_acceptance_id);
    assert_eq!(back, e);
}

#[test]
fn execution_round_trip_keeps_an_unknown_side_and_awkward_texts() {
    let e = ExchangeHistory {
        id: i64::MIN,
        side: "".to_string(),
        price: numeral("0.0"),
        size: numeral("1e-7"),
        exec_date: "quote \" backslash \\ newline \n tab \t".to_string(),
        buy_child_order_acceptance_id: "\u{3042}\u{1F600}".to_string(),
        sell_child_order_acceptance_id: "\u{0001}".to_string(),
    };
    let text = encode_execution(&e).unwrap();
    assert_eq!(decode_execution(&text), Ok(e));
}

#[test]
fn execution_round_trip_from_text() {
    let e = decode_execution(SAMPLE_JSON).unwrap();
    assert_eq!(encode_execution(&e).unwrap(), SAMPLE_JSON);
    let other = ExchangeHistory { id: i64::MAX, side: "SELL".to_string(), ..sample() };
    assert_eq!(decode_execution(&encode_execution(&other).unwrap()), Ok(other));
}

#[test]
fn decode_execution_writes_numbers_in_one_form() {
    let text = SAMPLE_JSON.replace("31690.5", "3.16905e4").replace("27.04", "27");
    let e = decode_execution(&text).unwrap();
    assert_eq!(e.price, numeral("31690.5"));
    assert_eq!(e.size, numeral("27"));
}

fn assert_rejected(r: Result<ExchangeHistory, Error>, text: &str) {
    match r {
        Err(Error(ErrorKind::Parse(cause, content))) => {
            assert!(!cause.message.is_empty());
            assert!(!cause.debug.is_empty());
            assert_eq!(content, text);
        }
        other => panic!("{:?}", other),
    }
}

#[test]
fn decode_execution_rejects_a_missing_member() {
    let text = SAMPLE_JSON.replace("\"side\":\"BUY\",", "");
    assert_rejected(decode_execution(&text), &text);
    match decode_execution(&text) {
        Err(e) => assert_eq!(
            e.describe(),
            format!("(Parse(Error({:?}, line: 0, column: 0), {:?}))", "missing field `side`", text)
        ),
        Ok(_) => unreachable!(),
    }
}

#[test]
fn decode_execution_rejects_members_of_another_type() {
    for (from, to) in [
        ("39287", "\"39287\""),
        ("39287", "39287.5"),
        ("39287", "9223372036854775808"),
        ("\"BUY\"", "1"),
        ("31690.5", "\"31690.5\""),
        ("27.04", "null"),
        ("\"2015-07-08T02:43:34.823\"", "[]"),
    ] {
        let text = SAMPLE_JSON.replace(from, to);
        assert_rejected(decode_execution(&text), &text);
    }
}

#[test]
fn decode_execution_rejects_what_is_no_object() {
    for text in ["", "[]", "null", "{", "{\"id\":1} x", "\"{}\""] {
        assert_rejected(decode_execution(text), text);
    }
}

#[test]
fn decode_executions_keeps_the_order() {
    let second = SAMPLE_JSON.replace("39287", "39286").replace("BUY", "SELL");
    let text = format!("[{},{}]", SAMPLE_JSON, second);
    let list = decode_executions(&text).unwrap();
    assert_eq!(list.len(), 2);
    assert_eq!(list[0], sample());
    assert_eq!(list[1].id, 39286);
    assert_eq!(list[1].side, "SELL");
    assert_eq!(decode_executions("[]"), Ok(vec![]));
}

#[test]
fn decode_executions_rejects_the_whole_text_for_one_bad_element() {
    let text = format!("[{},{}]", SAMPLE_JSON, "{\"id\":1}");
    match decode_executions(&text) {
        Err(Error(ErrorKind::Parse(_, content))) => assert_eq!(content, text),
        other => panic!("{:?}", other),
    }
    match decode_executions(SAMPLE_JSON) {
        Err(Error(ErrorKind::Parse(_, content))) => assert_eq!(content, SAMPLE_JSON),
        other => panic!("{:?}", other),
    }
}

#[test]
fn decode_board_reads_both_sides() {
    let text = "{\"mid_price\":33320,\"bids\":[{\"price\":30000,\"size\":0.1},{\"price\":25570,\"size\":3}],\"asks\":[{\"price\":36640.0,\"size\":5}]}";
    let board = decode_board(text).unwrap();
    assert_eq!(
        board,
        Board {
            mid_price: numeral("33320"),
            bids: vec![
                BoardOrder { price: numeral("30000"), size: numeral("0.1") },
                BoardOrder { price: numeral("25570"), size: numeral("3") },
            ],
            asks: vec![BoardOrder { price: numeral("36640.0"), size: numeral("5") }],
        }
    );
}

#[test]
fn decode_board_rejects_a_bad_level() {
    let text = "{\"mid_price\":33320,\"bids\":[{\"price\":30000}],\"asks\":[]}";
    match decode_board(text) {
        Err(Error(ErrorKind::Parse(_, content))) => assert_eq!(content, text),
        other => panic!("{:?}", other),
    }
    let text = "{\"mid_price\":33320,\"bids\":[]}";
    match decode_board(text) {
        Err(Error(ErrorKind::Parse(cause, content))) => {
            assert_eq!(cause.message, "missing field `asks`");
            assert_eq!(content, text);
        }
        other => panic!("{:?}", other),
    }
}

#[test]
fn a_text_that_serde_json_refuses_is_described_as_it_describes_it() {
    let text = "{\"id\": 1,";
    let theirs = serde_json::from_str::<BTreeMap<String, Box<RawValue>>>(text).unwrap_err();
    match decode_execution(text) {
        Err(e) => {
            assert_eq!(e.describe(), format!("(Parse({:?}, {:?}))", theirs, text));
            match e {
                Error(ErrorKind::Parse(cause, _)) => assert_eq!(cause.message, theirs.to_string()),
                other => panic!("{:?}", other),
            }
        }
        Ok(_) => unreachable!(),
    }
}

#[test]
fn numerals_are_valid_as_serde_json_writes_them() {
    for text in ["0", "-1", "31690.5", "0.0", "1e-7", "18446744073709551615"] {
        assert!(numeral(text).check(), "{}", text);
    }
    for text in ["", "abc", "1.50", "3.16905e4", "01", "\"1\"", "1 ", "NaN", "1e400", "0x10"] {
        assert!(!numeral(text).check(), "{}", text);
    }
}

#[test]
fn decoded_numerals_are_valid() {
    let text = SAMPLE_JSON.replace("31690.5", "3.16905e4").replace("27.04", "27.040");
    let e = decode_execution(&text).unwrap();
    assert!(e.price.check());
    assert!(e.size.check());
    assert_eq!(encode_execution(&e).unwrap(), SAMPLE_JSON);
}

#[test]
fn encode_execution_refuses_what_is_no_number() {
    let bad_price = ExchangeHistory { price: numeral("1,5"), size: numeral("x"), ..sample() };
    match encode_execution(&bad_price) {
        Err(Error(ErrorKind::Parse(cause, content))) => {
            assert_eq!(cause.message, "the price is not a number");
            assert_eq!(content, "1,5");
        }
        other => panic!("{:?}", other),
    }
    let bad_size = ExchangeHistory { size: numeral("27.040"), ..sample() };
    match encode_execution(&bad_size) {
        Err(Error(ErrorKind::Parse(cause, content))) => {
            assert_eq!(cause.message, "the size is not a number");
            assert_eq!(content, "27.040");
        }
        other => panic!("{:?}", other),
    }
}
