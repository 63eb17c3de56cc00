use pastemp::expiry::{creation_expiry, deletion_expiry, is_live, is_owner};
use pastemp::time::{DateTime, Duration};

#[test]
fn timestamps_count_nanoseconds() {
    assert_eq!(DateTime::from_timestamp(0, 0).timestamp_nanos(), 0);
    assert_eq!(DateTime::from_timestamp(1, 5).timestamp_nanos(), 1_000_000_005);
    assert_eq!(DateTime::from_timestamp(-1, 999_999_999).timestamp_nanos(), -1);
    assert_eq!(DateTime::from_timestamp(3600, 0), DateTime::from_nanos(3_600_000_000_000));
    assert_eq!(
        DateTime::from_timestamp(i64::MAX, u32::MAX).timestamp_nanos(),
        i64::MAX as i128 * 1_000_000_000 + u32::MAX as i128
    );
}

#[test]
fn durations_are_whole_seconds() {
    assert_eq!(Duration::seconds(60).num_seconds(), 60);
    assert_eq!(Duration::seconds(-5).num_seconds(), -5);
}

#[test]
fn is_after_is_strict() {
    let early = DateTime::from_timestamp(10, 0);
    let late = DateTime::from_timestamp(10, 1);
    assert!(late.is_after(&early));
    assert!(!early.is_after(&late));
    assert!(!early.is_after(&early));
}

#[test]
fn plus_moves_by_seconds() {
    let t = DateTime::from_timestamp(100, 7);
    assert_eq!(t.plus(Duration::seconds(60)), DateTime::from_timestamp(160, 7));
    assert_eq!(t.plus(Duration::seconds(-100)), DateTime::from_timestamp(0, 7));
    assert_eq!(t.checked_add(Duration::seconds(60)), Some(DateTime::from_timestamp(160, 7)));
}

#[test]
fn checked_add_reports_what_cannot_be_represented() {
    assert_eq!(DateTime::from_nanos(i128::MAX).checked_add(Duration::seconds(1)), None);
    assert_eq!(DateTime::from_nanos(i128::MIN).checked_add(Duration::seconds(-1)), None);
    assert_eq!(
        DateTime::from_nanos(i128::MAX).checked_add(Duration::seconds(0)),
        Some(DateTime::from_nanos(i128::MAX))
    );
}

#[test]
fn now_is_after_the_year_2020() {
    let now = DateTime::now();
    assert!(now.is_after(&DateTime::from_timestamp(1_577_836_800, 0)));
}

#[test]
fn the_clock_does_not_run_backwards_by_a_day() {
    let first = DateTime::now();
    let second = DateTime::now();
    assert!(second.plus(Duration::seconds(86_400)).is_after(&first));
}

#[test]
fn an_entry_is_live_up_to_and_at_its_expiry() {
    let expiry = Some(DateTime::from_timestamp(100, 0));
    assert!(is_live(expiry, DateTime::from_timestamp(99, 999_999_999)));
    assert!(is_live(expiry, DateTime::from_timestamp(100, 0)));
    assert!(!is_live(expiry, DateTime::from_timestamp(100, 1)));
}

#[test]
fn an_entry_without_expiry_is_always_live() {
    assert!(is_live(None, DateTime::from_nanos(i128::MAX)));
    assert!(is_live(None, DateTime::from_nanos(i128::MIN)));
}

#[test]
fn creation_expiry_adds_the_time_to_live() {
    let now = DateTime::from_timestamp(1_000, 5);
    assert_eq!(
        creation_expiry(now, Some(Duration::seconds(3600))),
        Some(DateTime::from_timestamp(4_600, 5))
    );
    assert_eq!(creation_expiry(now, None), None);
}

#[test]
fn the_owner_is_who_presents_the_same_token() {
    assert!(is_owner("alice", Some("alice")));
    assert!(!is_owner("alice", Some("Alice")));
    assert!(!is_owner("alice", Some("alice ")));
    assert!(!is_owner("alice", Some("")));
    assert!(!is_owner("alice", None));
    assert!(is_owner("", Some("")));
    assert!(!is_owner("", None));
}

#[test]
fn deletion_expiry_is_now_for_the_owner_and_later_for_others() {
    let now = DateTime::from_timestamp(500, 0);
    let grace = Duration::seconds(60);
    assert_eq!(deletion_expiry("alice", Some("alice"), now, grace), now);
    assert_eq!(deletion_expiry("alice", Some("bob"), now, grace), DateTime::from_timestamp(560, 0));
    assert_eq!(deletion_expiry("alice", None, now, grace), DateTime::from_timestamp(560, 0));
}
