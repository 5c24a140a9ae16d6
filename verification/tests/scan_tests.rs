use backend_supervisor::scan::parse_port_from_line;

#[test]
fn marker_picks_run_after_marker() {
    assert_eq!(parse_port_from_line("[PORT] 8080"), Some(8080));
}

#[test]
fn marker_wins_over_other_runs() {
    assert_eq!(parse_port_from_line("9000 then [PORT]3000 and 4000"), Some(3000));
}

#[test]
fn marker_out_of_range_falls_back_to_candidates() {
    assert_eq!(parse_port_from_line("[PORT] 99999 port 2000"), Some(2000));
}

#[test]
fn no_qualifying_run_returns_nothing() {
    assert_eq!(
        parse_port_from_line("status 80 code 1024 cap 65535 huge 99999999999"),
        None
    );
}

#[test]
fn empty_line_returns_nothing() {
    assert_eq!(parse_port_from_line(""), None);
}

#[test]
fn plain_text_returns_nothing() {
    assert_eq!(parse_port_from_line("backend ready"), None);
}

#[test]
fn keyword_selects_first_candidate() {
    assert_eq!(parse_port_from_line("port 2000 3000"), Some(2000));
}

#[test]
fn no_keyword_selects_last_candidate() {
    assert_eq!(parse_port_from_line("2000 3000"), Some(3000));
}

#[test]
fn loopback_url_counts_as_keyword() {
    assert_eq!(parse_port_from_line("http://127.0.0.1:5173 9999"), Some(5173));
}

#[test]
fn port_word_in_chinese_counts_as_keyword() {
    assert_eq!(parse_port_from_line("\u{7aef}\u{53e3} 3456 7890"), Some(3456));
}

#[test]
fn keyword_test_is_case_sensitive() {
    assert_eq!(parse_port_from_line("PORT 5000 6000"), Some(6000));
}

#[test]
fn listening_line_yields_its_port() {
    assert_eq!(parse_port_from_line("listening on port 52345"), Some(52345));
}

#[test]
fn boundaries_are_exclusive() {
    assert_eq!(parse_port_from_line("port 1024"), None);
    assert_eq!(parse_port_from_line("port 1025"), Some(1025));
    assert_eq!(parse_port_from_line("port 65534"), Some(65534));
    assert_eq!(parse_port_from_line("port 65535"), None);
}
