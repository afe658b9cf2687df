use botcore::pages::{get_pages, lines_of};

#[test]
fn short_output_yields_the_fallback_notice() {
    assert_eq!(get_pages(""), vec!["No man page available!"]);
    assert_eq!(get_pages("only line"), vec!["No man page available!"]);
    assert_eq!(get_pages("header\nfooter"), vec!["No man page available!"]);
}

#[test]
fn header_and_footer_are_dropped() {
    let pages = get_pages("HEADER\nbody one\nbody two\nFOOTER");
    assert_eq!(pages, vec!["body one\nbody two\n"]);
}

#[test]
fn long_bodies_split_at_line_boundaries() {
    let long_line = "x".repeat(1000);
    let input = format!("H\n{}\n{}\n{}\nF", long_line, long_line, long_line);
    let pages = get_pages(&input);
    // a second thousand-character line never fits the open page
    assert_eq!(pages.len(), 3);
    for page in &pages {
        assert_eq!(page, &format!("{}\n", long_line));
    }
    // nothing was lost
    assert_eq!(pages.concat(), format!("{0}\n{0}\n{0}\n", long_line));
}

#[test]
fn split_lines_handles_carriage_returns_and_trailing_newlines() {
    assert_eq!(lines_of("a\r\nb\nc"), vec!["a", "b", "c"]);
    assert_eq!(lines_of("a\nb\n"), vec!["a", "b"]);
    assert_eq!(lines_of(""), Vec::<String>::new());
    assert_eq!(lines_of("\n"), vec![""]);
    assert_eq!(lines_of("tail\r"), vec!["tail\r"]);
}
