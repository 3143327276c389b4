use checklist::text::{decimal, is_blank, read_index, split_pieces};

#[test]
fn decimal_writes_numbers() {
    assert_eq!(decimal(0), "0");
    assert_eq!(decimal(7), "7");
    assert_eq!(decimal(1024), "1024");
    assert_eq!(decimal(usize::MAX), usize::MAX.to_string());
}

#[test]
fn read_index_accepts_what_usize_parsing_accepts() {
    for s in ["0", "12", "+3", "007", "", "+", "-1", "1a", "18446744073709551615", "18446744073709551616", "99999999999999999999999"] {
        assert_eq!(read_index(s), s.parse::<usize>().ok(), "{}", s);
    }
}

#[test]
fn split_pieces_matches_split_whitespace() {
    let s = "  add\tsome \u{3000} words\n";
    let got = split_pieces(s, false);
    let want: Vec<&str> = s.split_whitespace().collect();
    assert_eq!(got, want);
    assert_eq!(split_pieces("a\n\nb\n", true), vec!["a", "b"]);
}

#[test]
fn blank_lines() {
    assert!(is_blank(""));
    assert!(is_blank(" \t\r\n"));
    assert!(!is_blank(" x "));
}
