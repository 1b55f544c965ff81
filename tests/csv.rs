use coca_frequency_list::csv::{write_range, Cell};

#[test]
fn range_to_csv() {
    let rows = vec![
        vec![Cell::Text("rank".to_string()), Cell::Text("lemma".to_string()), Cell::Text("ok".to_string())],
        vec![Cell::Int(1), Cell::Text("the".to_string()), Cell::Bool(true)],
        vec![Cell::Int(-20), Cell::Empty, Cell::Bool(false)],
    ];
    assert_eq!(write_range(&rows, 3), "rank,lemma,ok\r\n1,the,true\r\n-20,,false\r\n");
}

#[test]
fn integers_in_decimal() {
    let rows = vec![vec![Cell::Int(0), Cell::Int(1234567890), Cell::Int(i64::MIN), Cell::Int(i64::MAX)]];
    assert_eq!(
        write_range(&rows, 4),
        format!("0,1234567890,{},{}\r\n", i64::MIN, i64::MAX)
    );
}

#[test]
fn empty_range() {
    let rows: Vec<Vec<Cell>> = vec![];
    assert_eq!(write_range(&rows, 0), "");
}

#[test]
fn row_count_and_order_survive_reading_back() {
    let rows = vec![
        vec![Cell::Text("a".to_string()), Cell::Text("b".to_string())],
        vec![Cell::Int(7), Cell::Text("x".to_string())],
    ];
    let text = write_range(&rows, 2);
    let lines: Vec<&str> = text.split("\r\n").collect();
    assert_eq!(lines.len(), rows.len() + 1);
    assert_eq!(lines[0].split(',').collect::<Vec<_>>(), vec!["a", "b"]);
    assert_eq!(lines[1].split(',').collect::<Vec<_>>(), vec!["7", "x"]);
    assert_eq!(lines[2], "");
}
