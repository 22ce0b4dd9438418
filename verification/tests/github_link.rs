use tasklane::github::{parse_next_link, scan_link_header, NextLink};

#[test]
fn next_link_is_found() {
    let header = "<https://api.github.com/search/issues?page=2>; rel=\"next\", <https://api.github.com/search/issues?page=5>; rel=\"last\"";
    assert_eq!(
        parse_next_link(header),
        Some("https://api.github.com/search/issues?page=2".to_string())
    );
}

#[test]
fn next_link_in_a_later_entry() {
    let header = "<https://x/?page=1>; rel=\"prev\", <https://x/?page=3>; rel=\"next\", <https://x/?page=9>; rel=\"last\"";
    assert_eq!(parse_next_link(header), Some("https://x/?page=3".to_string()));
}

#[test]
fn next_link_entries_are_trimmed() {
    let header = "<a>; rel=\"first\",\t  <b>; rel=\"next\"  \n";
    assert_eq!(parse_next_link(header), Some("b".to_string()));
}

#[test]
fn next_link_absent() {
    let header = "<https://x/?page=1>; rel=\"prev\", <https://x/?page=9>; rel=\"last\"";
    assert_eq!(parse_next_link(header), None);
    assert_eq!(parse_next_link(""), None);
}

#[test]
fn next_link_needs_the_suffix_at_the_end() {
    let header = "<https://x/?page=2>; rel=\"next\"; foo";
    assert_eq!(parse_next_link(header), None);
}

#[test]
fn next_link_entry_without_brackets_is_skipped() {
    let header = "nothing here rel=\"next\", <https://x/?page=4>; rel=\"next\"";
    assert_eq!(parse_next_link(header), Some("https://x/?page=4".to_string()));
}

#[test]
fn next_link_takes_first_brackets() {
    let header = "<a<b>c>; rel=\"next\"";
    assert_eq!(parse_next_link(header), Some("a<b".to_string()));
}

#[test]
fn next_link_with_non_ascii_text() {
    let header = "<https://ü.example/é>; rel=\"next\"";
    assert_eq!(parse_next_link(header), Some("https://ü.example/é".to_string()));
}

#[test]
fn next_link_empty_url() {
    assert_eq!(parse_next_link("<>; rel=\"next\""), Some(String::new()));
}

#[test]
fn link_header_with_reversed_brackets_is_malformed() {
    assert!(matches!(scan_link_header(">x<; rel=\"next\""), NextLink::Malformed));
    assert!(matches!(scan_link_header("<a>; rel=\"last\""), NextLink::NotFound));
    match scan_link_header(" <u>; rel=\"next\"") {
        NextLink::Found(u) => assert_eq!(u, "u"),
        _ => panic!("expected a next link"),
    }
}

#[test]
fn joined_headers_give_the_first_next_link() {
    let prev = "<https://api.github.com/search/issues?page=1>; rel=\"prev\"";
    let next2 = "<https://api.github.com/search/issues?page=2>; rel=\"next\"";
    let next3 = "<https://api.github.com/search/issues?page=3>; rel=\"next\"";
    assert_eq!(parse_next_link(prev), None);
    assert_eq!(
        parse_next_link(&format!("{},{}", prev, next2)),
        Some("https://api.github.com/search/issues?page=2".to_string())
    );
    assert_eq!(
        parse_next_link(&format!("{},{}", next3, next2)),
        Some("https://api.github.com/search/issues?page=3".to_string())
    );
    assert_eq!(parse_next_link(&format!("{},{}", prev, prev)), None);
}
