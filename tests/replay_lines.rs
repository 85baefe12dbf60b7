use quotes_ctl::replay::FileReader;

#[test]
fn empty_text_is_an_error() {
    assert_eq!(
        FileReader::from_content("quotes.txt", "").err(),
        Some("file is empty: quotes.txt".to_string())
    );
    assert_eq!(
        FileReader::from_content("q.csv", " \n\t\n\r\n  ").err(),
        Some("file is empty: q.csv".to_string())
    );
}

#[test]
fn separators_are_normalised() {
    let mut r = FileReader::from_content("f", "1.2,3.4;5.6").unwrap();
    assert_eq!(r.total(), 1);
    assert_eq!(r.next_line(), Some("1.2 3.4 5.6".to_string()));
    assert_eq!(r.next_line(), None);
}

#[test]
fn lines_are_trimmed_collapsed_and_blank_ones_dropped() {
    let text = "  a   b \r\n\n;x,,y;\n   \n last";
    let mut r = FileReader::from_content("f", text).unwrap();
    assert_eq!(r.total(), 3);
    assert_eq!(r.remaining(), 3);
    assert_eq!(r.next_line(), Some("a b".to_string()));
    assert_eq!(r.next_line(), Some("x y".to_string()));
    assert_eq!(r.next_line(), Some("last".to_string()));
    assert!(r.done());
}

#[test]
fn separator_only_line_is_kept_empty() {
    let mut r = FileReader::from_content("f", ",;,\nz").unwrap();
    assert_eq!(r.total(), 2);
    assert_eq!(r.next_line(), Some(String::new()));
    assert_eq!(r.next_line(), Some("z".to_string()));
}

#[test]
fn batches_come_in_order_and_shrink_at_the_end() {
    let text: String = (0..7).map(|i| format!("{i}\n")).collect();
    let mut r = FileReader::from_content("f", &text).unwrap();
    assert_eq!(r.next_n(3), vec!["0", "1", "2"]);
    assert_eq!(r.remaining(), 4);
    assert_eq!(r.next_line(), Some("3".to_string()));
    assert_eq!(r.next_n(10), vec!["4", "5", "6"]);
    assert!(r.done());
    assert!(r.next_n(2).is_empty());
    assert_eq!(r.remaining(), 0);
    assert_eq!(r.path(), "f");
}
