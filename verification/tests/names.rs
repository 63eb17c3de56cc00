use pastemp::alphabet::Draws;
use pastemp::names::{
    attempt_for, candidate_name, is_reserved, reserved_urls, Attempt, ID_LENGTH, MAX_COLLISIONS,
};

const STEP: u32 = 1 << 26;

fn spell(name: &str) -> Vec<u32> {
    let alphabet = b"ABCDEFGHJKLMNPQRSTUVWXYZabcdefghijkmnopqrstuvwxyz123456789";
    name.bytes()
        .map(|b| alphabet.iter().position(|s| *s == b).expect("symbol") as u32 * STEP)
        .collect()
}

#[test]
fn reserved_urls_are_the_route_names() {
    let reserved = reserved_urls();
    assert_eq!(reserved, vec!["raw".to_string(), "download".to_string(), "delete".to_string()]);
}

#[test]
fn is_reserved_compares_whole_names() {
    let reserved = reserved_urls();
    assert!(is_reserved(&reserved, "raw"));
    assert!(is_reserved(&reserved, "download"));
    assert!(is_reserved(&reserved, "delete"));
    assert!(!is_reserved(&reserved, "Raw"));
    assert!(!is_reserved(&reserved, "ra"));
    assert!(!is_reserved(&reserved, ""));
    assert!(!is_reserved(&Vec::new(), "raw"));
}

#[test]
fn candidate_has_four_symbols() {
    assert_eq!(ID_LENGTH, 4);
    let mut rng = Draws::from_words(spell("abcdEFGH"));
    assert_eq!(candidate_name(&mut rng, &reserved_urls()).as_deref(), Some("abcd"));
    assert_eq!(rng.len(), 4);
    assert_eq!(candidate_name(&mut rng, &reserved_urls()).as_deref(), Some("EFGH"));
    assert_eq!(candidate_name(&mut rng, &reserved_urls()), None);
}

#[test]
fn candidate_skips_reserved_names() {
    let reserved = vec!["abcd".to_string(), "EFGH".to_string()];
    let mut rng = Draws::from_words(spell("abcdEFGHxyz1"));
    assert_eq!(candidate_name(&mut rng, &reserved).as_deref(), Some("xyz1"));
    assert_eq!(rng.len(), 0);
}

#[test]
fn candidate_runs_out_on_reserved_names() {
    let reserved = vec!["abcd".to_string()];
    let mut rng = Draws::from_words(spell("abcdabcdab"));
    assert_eq!(candidate_name(&mut rng, &reserved), None);
    assert_eq!(rng.len(), 0);
}

#[test]
fn a_free_name_is_created() {
    for collisions in 0..10 {
        assert_eq!(attempt_for(false, collisions), Attempt::Created);
    }
}

#[test]
fn a_taken_name_collides_five_times_and_is_then_recycled() {
    assert_eq!(MAX_COLLISIONS, 5);
    for collisions in 0..5 {
        assert_eq!(attempt_for(true, collisions), Attempt::Collision);
    }
    assert_eq!(attempt_for(true, 5), Attempt::Recycled);
    assert_eq!(attempt_for(true, 6), Attempt::Recycled);
    assert_eq!(attempt_for(true, u32::MAX), Attempt::Recycled);
}
