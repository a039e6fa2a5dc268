use bitflyer_client::decimal::{i64_to_decimal, usize_to_decimal};
use bitflyer_client::table::{format_header, format_row, HistoryRow, Side, COLUMN_NUM};

#[test]
fn side_value_is_the_code() {
    assert_eq!(Side::BUY.value(), "0");
    assert_eq!(Side::SELL.value(), "1");
}

#[test]
fn header_names_every_column() {
    let header = format_header();
    let names: Vec<&str> = header.split(',').collect();
    assert_eq!(names.len(), 2 * COLUMN_NUM + 2);
    for i in 0..COLUMN_NUM {
        assert_eq!(names[i], format!("sell_{}", i));
        assert_eq!(names[COLUMN_NUM + i], format!("buy_{}", i));
    }
    assert_eq!(names[500], "side");
    assert_eq!(names[501], "price");
    assert!(header.starts_with("sell_0,sell_1,sell_2,"));
    assert!(header.ends_with(",buy_248,buy_249,side,price"));
}

#[test]
fn row_is_written_without_quoting() {
    let row = HistoryRow {
        sell_history: vec![1, -20, 0],
        buy_history: vec![i64::MAX],
        side: Side::SELL,
        price: i64::MIN,
    };
    assert_eq!(format_row(&row), "1,-20,0,9223372036854775807,1,-9223372036854775808");
    let empty = HistoryRow { sell_history: vec![], buy_history: vec![], side: Side::BUY, price: 7 };
    assert_eq!(format_row(&empty), "0,7");
}

#[test]
fn full_row_has_as_many_cells_as_the_header() {
    let row = HistoryRow {
        sell_history: (0..250).collect(),
        buy_history: (0..250).map(|v| -v).collect(),
        side: Side::BUY,
        price: 3,
    };
    let line = format_row(&row);
    assert_eq!(line.split(',').count(), format_header().split(',').count());
    assert!(line.starts_with("0,1,2,"));
    assert!(line.ends_with(",-248,-249,0,3"));
}

#[test]
fn decimal_text_matches_the_usual_writing() {
    for v in [0i64, 1, 9, 10, 11, 99, 100, 12345, -1, -10, -999, i64::MAX, i64::MIN, i64::MIN + 1] {
        assert_eq!(i64_to_decimal(v), v.to_string());
    }
    for v in [0usize, 7, 10, 249, 250, 1000, usize::MAX] {
        assert_eq!(usize_to_decimal(v), v.to_string());
    }
}
