use pastemp::guard::{no_browser, MOZILLA};
use pastemp::session::{owner_for, OWNER_TOKEN_LENGTH};

#[test]
fn the_mark_of_a_browser_is_mozilla() {
    assert_eq!(&MOZILLA[..], &b"Mozilla"[..]);
}

#[test]
fn a_request_without_user_agent_is_no_browser() {
    assert!(no_browser(None));
}

#[test]
fn a_browser_names_itself_mozilla() {
    assert!(!no_browser(Some(&b"Mozilla/5.0 (X11; Linux x86_64) Gecko/20100101 Firefox/115.0"[..])));
    assert!(!no_browser(Some(&b"Mozilla/"[..])));
    assert!(!no_browser(Some(&b"like Mozilla, somehow"[..])));
}

#[test]
fn other_clients_are_no_browsers() {
    assert!(no_browser(Some(&b"curl/8.4.0"[..])));
    assert!(no_browser(Some(&b"mozilla/5.0 in lower case"[..])));
    assert!(no_browser(Some(&b"Mozill a/5.0"[..])));
    assert!(no_browser(Some(&b"1234567"[..])));
}

#[test]
fn mozilla_at_the_very_end_does_not_count() {
    assert!(no_browser(Some(&b"Mozilla"[..])));
    assert!(no_browser(Some(&b"not a Mozilla"[..])));
    assert!(!no_browser(Some(&b"not a Mozilla."[..])));
}

#[test]
fn a_presented_token_is_taken_as_it_is() {
    let owner = owner_for(Some("alice"));
    assert_eq!(owner.token, "alice");
    assert!(!owner.issued);
    let empty = owner_for(Some(""));
    assert_eq!(empty.token, "");
    assert!(!empty.issued);
}

#[test]
fn a_new_token_has_twenty_letters_and_digits() {
    assert_eq!(OWNER_TOKEN_LENGTH, 20);
    let owner = owner_for(None);
    assert!(owner.issued);
    assert_eq!(owner.token.len(), 20);
    assert!(owner.token.chars().all(|c| c.is_ascii_alphanumeric()));
}

#[test]
fn new_tokens_differ() {
    assert_ne!(owner_for(None).token, owner_for(None).token);
}
