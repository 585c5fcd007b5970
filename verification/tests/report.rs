use tsv_search::{
    get_key, key_text, parse_column, parse_keys, print_json, read_table, render, render_with,
    report_line, BatchReport, KeyOutcome, LookupError, LookupResult, TableHandle, DEFAULT_COLUMN,
};

#[test]
fn report_line_of_a_value() {
    let outcome = LookupResult::Found("Alice".to_string());
    assert_eq!(report_line(100, &outcome), "Key: 100\tFound: Alice");
}

#[test]
fn report_line_of_a_miss() {
    assert_eq!(report_line(999, &LookupResult::NotFound), "Key: 999\tNot found");
}

#[test]
fn report_line_of_each_failure() {
    assert_eq!(
        report_line(-5, &LookupResult::Failed(LookupError::ColumnRange)),
        "Key: -5\tFailed: column index out of range"
    );
    assert_eq!(
        report_line(0, &LookupResult::Failed(LookupError::Decode)),
        "Key: 0\tFailed: column is not valid UTF-8"
    );
}

#[test]
fn report_lines_of_a_batch() {
    let table = read_table("100\tAlice\t{\"age\":30}\n200\tBob\t{\"age\":25}\n".to_string());
    let report = get_key(&table, &vec![200, 5, 100], 1);
    let lines: Vec<String> =
        report.entries.iter().map(|e| report_line(e.key, &e.outcome)).collect();
    assert_eq!(lines, vec!["Key: 200\tFound: Bob", "Key: 5\tNot found", "Key: 100\tFound: Alice"]);
}

#[test]
fn keys_are_written_in_decimal() {
    assert_eq!(key_text(0), "0");
    assert_eq!(key_text(7), "7");
    assert_eq!(key_text(10), "10");
    assert_eq!(key_text(-1), "-1");
    assert_eq!(key_text(12314), "12314");
    assert_eq!(key_text(-9050), "-9050");
    assert_eq!(key_text(isize::MAX), isize::MAX.to_string());
    assert_eq!(key_text(isize::MIN), isize::MIN.to_string());
}

#[test]
fn json_is_pretty_printed() {
    assert_eq!(render("{\"age\":30}"), "{\n  \"age\": 30\n}");
    assert_eq!(render("[1,2]"), "[\n  1,\n  2\n]");
    assert_eq!(render("{\"b\":{\"c\":null},\"a\":true}"), "{\n  \"a\": true,\n  \"b\": {\n    \"c\": null\n  }\n}");
    assert_eq!(render("  12  "), "12");
    assert_eq!(render("\"hello\""), "\"hello\"");
}

#[test]
fn text_that_is_not_json_is_unchanged() {
    assert_eq!(render("hello"), "hello");
    assert_eq!(render(""), "");
    assert_eq!(render("  padded text  "), "  padded text  ");
    assert_eq!(render("{\"age\":30"), "{\"age\":30");
    assert_eq!(render("{'age':30}"), "{'age':30}");
    assert_eq!(render("日本語\ttab"), "日本語\ttab");
}

#[test]
fn rendering_is_the_same_every_time() {
    let raw = "{\"z\":[1,{\"y\":2.5}],\"a\":\"x\"}";
    assert_eq!(render(raw), render(raw));
}

#[test]
fn render_with_takes_the_pretty_form_or_the_raw_text() {
    assert_eq!(render_with("raw", Ok("pretty".to_string())), "pretty");
    let error = serde_json::from_str::<serde_json::Value>("raw").unwrap_err();
    assert_eq!(render_with("raw", Err(error)), "raw");
}

#[test]
fn print_json_renders_text_and_passes_a_decode_failure_on() {
    assert_eq!(print_json(Ok("{\"a\":1}")), Ok("{\n  \"a\": 1\n}".to_string()));
    assert_eq!(print_json(Ok("plain")), Ok("plain".to_string()));
    let bytes: Vec<u8> = vec![0xff, 0xfe];
    let error = std::str::from_utf8(&bytes).unwrap_err();
    assert_eq!(print_json(Err(error)), Err(LookupError::Decode));
}

#[test]
fn keys_are_read_from_words() {
    let words: Vec<String> =
        vec!["12314", "-7", "+3", "0042", "0"].into_iter().map(String::from).collect();
    assert_eq!(parse_keys(&words), Some(vec![12314, -7, 3, 42, 0]));
    assert_eq!(parse_keys(&Vec::new()), Some(Vec::new()));
}

#[test]
fn one_bad_word_spoils_the_keys() {
    for bad in ["", "abc", "1.5", " 1", "1 ", "+", "-", "--1", "1_000", "99999999999999999999999"] {
        let words: Vec<String> = vec!["1".to_string(), bad.to_string(), "2".to_string()];
        assert_eq!(parse_keys(&words), None, "word {:?}", bad);
    }
}

#[test]
fn the_column_defaults_to_the_one_after_the_key() {
    assert_eq!(DEFAULT_COLUMN, 1);
    assert_eq!(parse_column(None), Some(1));
    assert_eq!(parse_column(Some("0")), Some(0));
    assert_eq!(parse_column(Some("2")), Some(2));
    assert_eq!(parse_column(Some("+3")), Some(3));
    assert_eq!(parse_column(Some("-1")), None);
    assert_eq!(parse_column(Some("")), None);
    assert_eq!(parse_column(Some("two")), None);
    assert_eq!(parse_column(Some("99999999999999999999999")), None);
}

fn entry(key: isize, outcome: LookupResult) -> KeyOutcome {
    KeyOutcome { key, outcome }
}

#[test]
fn the_verdict_is_the_first_failure() {
    let report = BatchReport {
        entries: vec![
            entry(1, LookupResult::Found("a".to_string())),
            entry(2, LookupResult::NotFound),
            entry(3, LookupResult::Failed(LookupError::Decode)),
            entry(4, LookupResult::Failed(LookupError::ColumnRange)),
        ],
    };
    assert_eq!(report.len(), 4);
    assert_eq!(report.verdict(), Err(LookupError::Decode));
}

#[test]
fn misses_alone_are_no_failure() {
    let report = BatchReport {
        entries: vec![entry(1, LookupResult::NotFound), entry(2, LookupResult::NotFound)],
    };
    assert_eq!(report.verdict(), Ok(()));
    assert_eq!(BatchReport { entries: Vec::new() }.verdict(), Ok(()));
}

#[test]
fn an_empty_batch_has_an_empty_report() {
    let table = read_table("1\ta\n".to_string());
    let report = get_key(&table, &Vec::new(), 1);
    assert_eq!(report.len(), 0);
    assert_eq!(report.verdict(), Ok(()));
}

#[test]
fn a_key_given_twice_is_answered_twice() {
    let table = read_table("1\ta\n2\tb\n".to_string());
    let report = get_key(&table, &vec![2, 2, 9, 2], 1);
    assert_eq!(report.len(), 4);
    for i in [0, 1, 3] {
        assert_eq!(report.entries[i].key, 2);
        assert_eq!(report.entries[i].outcome, LookupResult::Found("b".to_string()));
    }
    assert_eq!(report.entries[2].outcome, LookupResult::NotFound);
}

#[test]
fn the_same_batch_gives_the_same_report() {
    let table = read_table("1\t{\"a\":[1,2]}\n2\tb\n2\tc\n4\n".to_string());
    let keys: Vec<isize> = vec![4, 2, 1, 3, 2];
    let first = get_key(&table, &keys, 1);
    let second = get_key(&table, &keys, 1);
    assert_eq!(first, second);
    assert_eq!(first.verdict(), Err(LookupError::ColumnRange));
}

#[test]
fn an_outcome_does_not_depend_on_the_rest_of_the_batch() {
    let table = read_table("1\ta\n2\n3\tc\n".to_string());
    let alone = get_key(&table, &vec![3], 1);
    let among = get_key(&table, &vec![2, 99, 3, 2], 1);
    assert_eq!(among.entries[0].outcome, LookupResult::Failed(LookupError::ColumnRange));
    assert_eq!(among.entries[1].outcome, LookupResult::NotFound);
    assert_eq!(alone.entries[0], among.entries[2]);
    assert_eq!(among.entries[2].outcome, LookupResult::Found("c".to_string()));
}

#[test]
fn an_empty_table_holds_no_key() {
    for text in ["", "\n", "\n\n\n"] {
        let table = read_table(text.to_string());
        assert_eq!(table.len(), 0);
        assert!(table.is_sorted());
        assert!(!table.contains_key(0));
        let report = get_key(&table, &vec![0, 1, -1], 1);
        for e in &report.entries {
            assert_eq!(e.outcome, LookupResult::NotFound);
        }
    }
}

#[test]
fn keys_at_the_ends_and_between() {
    let table = read_table("-20\tlow\n0\tzero\n15\tmid\n900\thigh".to_string());
    assert_eq!(table.len(), 4);
    assert!(table.is_sorted());
    assert!(table.contains_key(-20));
    assert!(table.contains_key(900));
    assert!(!table.contains_key(16));
    let keys: Vec<isize> = vec![-21, -20, -1, 0, 1, 15, 16, 900, 901, isize::MAX, isize::MIN];
    let report = get_key(&table, &keys, 1);
    let found = |s: &str| LookupResult::Found(s.to_string());
    let expected = vec![
        LookupResult::NotFound,
        found("low"),
        LookupResult::NotFound,
        found("zero"),
        LookupResult::NotFound,
        found("mid"),
        LookupResult::NotFound,
        found("high"),
        LookupResult::NotFound,
        LookupResult::NotFound,
        LookupResult::NotFound,
    ];
    for (i, want) in expected.into_iter().enumerate() {
        assert_eq!(report.entries[i].outcome, want, "key {}", keys[i]);
    }
}

#[test]
fn a_table_that_is_not_sorted_answers_all_the_same() {
    let table = read_table("2\ta\n1\tb\n2\tc\n0\tz\n".to_string());
    assert!(!table.is_sorted());
    assert!(table.contains_key(2));
    assert_eq!(table.position_of(2), Some(2));
    assert_eq!(table.position_of(1), Some(1));
    assert_eq!(table.position_of(3), None);
    let report = get_key(&table, &vec![2, 1, 3, 0], 1);
    assert_eq!(report.entries[0].outcome, LookupResult::Found("c".to_string()));
    assert_eq!(report.entries[1].outcome, LookupResult::Found("b".to_string()));
    assert_eq!(report.entries[2].outcome, LookupResult::NotFound);
    assert_eq!(report.entries[3].outcome, LookupResult::Found("z".to_string()));
    assert_eq!(report.verdict(), Ok(()));
    let short = get_key(&table, &vec![2], 2);
    assert_eq!(short.entries[0].outcome, LookupResult::Failed(LookupError::ColumnRange));
}

#[test]
fn two_lines_of_one_key_with_others_between() {
    // Key 50 stands on lines 3 and 7, counted from 0; other keys lie between.
    let text = "10\ta\n20\tb\n30\tc\n50\tthird\n60\td\n70\te\n80\tf\n50\tseventh\n90\tg\n";
    let table = read_table(text.to_string());
    assert_eq!(table.position_of(50), Some(7));
    let report = get_key(&table, &vec![50], 1);
    assert_eq!(report.len(), 1);
    assert_eq!(report.entries[0].outcome, LookupResult::Found("seventh".to_string()));
}

#[test]
fn an_empty_line_among_positive_keys_fails_no_key() {
    // The empty line counts as key 0, which leaves the table unsorted.
    let table = read_table("5\tfive\n\n9\tnine\n9\tlast\n".to_string());
    assert_eq!(table.len(), 4);
    assert!(!table.is_sorted());
    let report = get_key(&table, &vec![5, 9, 0, 7], 1);
    assert_eq!(report.entries[0].outcome, LookupResult::Found("five".to_string()));
    assert_eq!(report.entries[1].outcome, LookupResult::Found("last".to_string()));
    assert_eq!(report.entries[2].outcome, LookupResult::Failed(LookupError::ColumnRange));
    assert_eq!(report.entries[3].outcome, LookupResult::NotFound);
    assert_eq!(get_key(&table, &vec![0], 0).entries[0].outcome, LookupResult::Found("".to_string()));
}

#[test]
fn a_line_with_an_empty_key_is_a_record_of_key_zero() {
    let table = read_table("\tfoo".to_string());
    assert_eq!(table.len(), 1);
    assert!(table.contains_key(0));
    assert_eq!(get_key(&table, &vec![0], 1).entries[0].outcome, LookupResult::Found("foo".to_string()));
    assert_eq!(get_key(&table, &vec![0], 0).entries[0].outcome, LookupResult::Found("".to_string()));
    assert_eq!(
        get_key(&table, &vec![0], 2).entries[0].outcome,
        LookupResult::Failed(LookupError::ColumnRange)
    );
    let only_tab = read_table("\t\n".to_string());
    assert_eq!(only_tab.len(), 1);
    assert_eq!(get_key(&only_tab, &vec![0], 1).entries[0].outcome, LookupResult::Found("".to_string()));
}

#[test]
fn a_line_that_is_not_text_is_judged_by_the_column_asked_for() {
    // Column 1 is not text; column 2 is empty; column 3 is text; there is no column 4.
    for bytes in [&b"7\t\xff\xfe\t\tok\n"[..], &b"9\tz\n7\t\xff\xfe\t\tok\n3\ty\n"[..]] {
        let table = TableHandle::from_bytes(bytes);
        let outcome = |col: usize| get_key(&table, &vec![7], col).entries.remove(0).outcome;
        assert_eq!(outcome(0), LookupResult::Found("7".to_string()));
        assert_eq!(outcome(1), LookupResult::Failed(LookupError::Decode));
        assert_eq!(outcome(2), LookupResult::Found("".to_string()));
        assert_eq!(outcome(3), LookupResult::Found("ok".to_string()));
        assert_eq!(outcome(4), LookupResult::Failed(LookupError::ColumnRange));
        assert_eq!(outcome(99), LookupResult::Failed(LookupError::ColumnRange));
    }
}

#[test]
fn the_handle_knows_the_columns_of_each_record() {
    let table = read_table("1\ta\tb\n2\n3\t\n".to_string());
    assert!(table.has_column(0, 0) && table.has_column(0, 2) && !table.has_column(0, 3));
    assert!(table.has_column(1, 0) && !table.has_column(1, 1));
    assert!(table.has_column(2, 1) && !table.has_column(2, 2));
    assert!(!table.has_column(3, 0));
    assert!(!read_table("".to_string()).has_column(0, 0));
}

#[test]
fn a_column_that_is_not_text_fails_to_decode() {
    let table = TableHandle::from_bytes(b"1\tok\t\xff\xfe\n2\tfine\n");
    let report = get_key(&table, &vec![1, 2], 2);
    assert_eq!(report.entries[0].outcome, LookupResult::Failed(LookupError::Decode));
    assert_eq!(report.entries[1].outcome, LookupResult::Failed(LookupError::ColumnRange));
    let other = get_key(&table, &vec![1, 2], 1);
    assert_eq!(other.entries[0].outcome, LookupResult::Found("ok".to_string()));
    assert_eq!(other.entries[1].outcome, LookupResult::Found("fine".to_string()));
}

#[test]
fn the_key_column_is_column_zero() {
    let table = read_table("5\tfive\n".to_string());
    let report = get_key(&table, &vec![5], 0);
    assert_eq!(report.entries[0].outcome, LookupResult::Found("5".to_string()));
}

#[test]
fn a_column_may_be_empty() {
    let table = read_table("5\t\tlast\n".to_string());
    assert_eq!(get_key(&table, &vec![5], 1).entries[0].outcome, LookupResult::Found("".to_string()));
    assert_eq!(
        get_key(&table, &vec![5], 2).entries[0].outcome,
        LookupResult::Found("last".to_string())
    );
    assert_eq!(
        get_key(&table, &vec![5], 3).entries[0].outcome,
        LookupResult::Failed(LookupError::ColumnRange)
    );
}
