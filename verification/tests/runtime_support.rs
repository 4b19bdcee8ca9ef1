//! The clock and identifier sources behave as plain values.

use love_note::clock::current_time_millis;
use love_note::ids::fresh_id;

#[test]
fn fresh_ids_are_distinct_in_practice() {
    let a: u128 = fresh_id();
    let b: u128 = fresh_id();
    assert_ne!(a, b, "two random version-4 identifiers collided");
}

#[test]
fn current_time_is_a_positive_millisecond_count() {
    // A clock reading before the Unix epoch would clamp to zero; on
    // any ordinarily-set clock the reading is positive.
    assert!(current_time_millis() > 0);
}
