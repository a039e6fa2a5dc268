use bitflyer_client::error::{Cause, Error, ErrorKind};
use bitflyer_client::json::{
    find_member, read_integer_member, read_number_member, read_string_member, same_text,
};
use bitflyer_client::poller::fits;

#[derive(Debug)]
#[allow(dead_code)]
enum Kind {
    Parse(serde_json::Error, String),
}

fn cause(message: &str, debug: &str) -> Cause {
    Cause { message: message.to_string(), debug: debug.to_string() }
}

#[test]
fn error_kinds_keep_their_causes() {
    let down = cause("down", "Down { code: 7 }");
    assert_eq!(Error::io(down.clone()), Error(ErrorKind::IO(down.clone())));
    assert_eq!(
        Error::parse_error(down.clone(), "{x"),
        Error(ErrorKind::Parse(down.clone(), "{x".to_string()))
    );
    assert_eq!(Error::custom(down.clone()), Error(ErrorKind::Custom(down)));
}

#[test]
fn describe_writes_the_kind_in_its_debug_form() {
    let down = cause("down", "Down { code: 7 }");
    assert_eq!(Error::io(down.clone()).describe(), "(IO(Down { code: 7 }))");
    assert_eq!(Error::custom(down.clone()).describe(), "(Custom(Down { code: 7 }))");
    assert_eq!(
        Error::parse_error(down.clone(), "{\"x\":\n1").describe(),
        "(Parse(Down { code: 7 }, \"{\\\"x\\\":\\n1\"))"
    );
    assert_eq!(Error::parse_error(down, "").describe(), "(Parse(Down { code: 7 }, \"\"))");
}

#[test]
fn describe_agrees_with_the_derived_debug_form() {
    for text in ["", "{", "[1, 2", "\u{3042}\t\"", "nul"] {
        let theirs = serde_json::from_str::<i64>(text).unwrap_err();
        let ours = Cause { message: theirs.to_string(), debug: format!("{:?}", theirs) };
        assert_eq!(
            Error::parse_error(ours, text).describe(),
            format!("({:?})", Kind::Parse(theirs, text.to_string()))
        );
    }
}

#[test]
fn a_cause_of_the_library_is_written_like_an_error_without_a_place() {
    let made = Cause::of_message("missing field `id`".to_string());
    assert_eq!(made.message, "missing field `id`");
    assert_eq!(made.debug, "Error(\"missing field `id`\", line: 0, column: 0)");
    let quoted = Cause::of_message("a \"b\"\n".to_string());
    assert_eq!(quoted.debug, "Error(\"a \\\"b\\\"\\n\", line: 0, column: 0)");
}

#[test]
fn same_text_compares_characters() {
    assert!(same_text("", ""));
    assert!(same_text("BUY", "BUY"));
    assert!(!same_text("BUY", "BUy"));
    assert!(!same_text("BUY", "BUYS"));
    assert!(same_text("\u{3042}", "\u{3042}"));
}

fn members() -> Vec<(String, String)> {
    vec![
        ("a".to_string(), "\"x\\ny\"".to_string()),
        ("b".to_string(), "-12".to_string()),
        ("c".to_string(), "1.50".to_string()),
        ("a".to_string(), "2".to_string()),
    ]
}

#[test]
fn find_member_takes_the_first_of_a_name() {
    let members = members();
    assert_eq!(find_member(&members, "a"), Some(&"\"x\\ny\"".to_string()));
    assert_eq!(find_member(&members, "c"), Some(&"1.50".to_string()));
    assert_eq!(find_member(&members, "d"), None);
    assert_eq!(find_member(&vec![], "a"), None);
}

#[test]
fn members_are_read_by_their_type() {
    let members = members();
    assert_eq!(read_string_member(&members, "a"), Ok("x\ny".to_string()));
    assert_eq!(read_integer_member(&members, "b"), Ok(-12));
    assert_eq!(read_number_member(&members, "b"), Ok("-12".to_string()));
    assert_eq!(read_number_member(&members, "c"), Ok("1.5".to_string()));
    assert!(read_integer_member(&members, "c").is_err());
    assert!(read_integer_member(&members, "a").is_err());
    assert!(read_string_member(&members, "b").is_err());
    assert!(read_number_member(&members, "a").is_err());
    assert_eq!(
        read_string_member(&members, "z"),
        Err(Cause::of_message("missing field `z`".to_string()))
    );
}

#[test]
fn fits_asks_for_an_execution_and_room_below_it() {
    assert!(fits(&vec![1]));
    assert!(fits(&vec![5, 3, i64::MIN + 1]));
    assert!(!fits(&vec![]));
    assert!(!fits(&vec![i64::MIN]));
    assert!(!fits(&vec![7, i64::MIN, 9]));
}
