use hotcorners::config::{Action, Position, Trigger, TriggerType};
use hotcorners::engine::tick_all;

fn top_left_corner(radius: u32) -> Trigger {
    Trigger {
        trigger_type: TriggerType::Corner,
        position: Some(Position::TopLeft),
        radius: Some(radius),
        width: None,
        height: None,
        x: None,
        y: None,
        action: Action { dispatcher: String::from("exec"), args: String::from("true") },
        last_trigger: None,
        inside: false,
    }
}

fn far_rect() -> Trigger {
    Trigger {
        trigger_type: TriggerType::Rect,
        position: None,
        radius: None,
        width: Some(50),
        height: Some(50),
        x: Some(1000),
        y: Some(1000),
        action: Action { dispatcher: String::from("exec"), args: String::from("false") },
        last_trigger: None,
        inside: false,
    }
}

#[test]
fn debounce_scenario() {
    // Screen 1920x1080, TopLeft corner of radius 50, timeout 300 ms.
    let mut t = top_left_corner(50);

    // Entry at t=0 fires.
    assert!(t.check(10, 10, 1920, 1080, 0, 300));
    assert!(t.inside);
    assert_eq!(t.last_trigger, Some(0));

    // Sustained presence at t=50 does not fire again.
    assert!(!t.check(10, 10, 1920, 1080, 50, 300));
    assert!(t.inside);

    // Leaving at t=100 resets to outside and does not fire.
    assert!(!t.check(500, 500, 1920, 1080, 100, 300));
    assert!(!t.inside);
    assert_eq!(t.last_trigger, Some(0));

    // Re-entry at t=150 is a rising edge, but only 150 ms since the last
    // fire: suppressed, and the trigger stays marked outside.
    assert!(!t.check(10, 10, 1920, 1080, 150, 300));
    assert!(!t.inside);
    assert_eq!(t.last_trigger, Some(0));

    // Still inside at t=310: the cooldown has elapsed, the still-pending
    // rising edge fires without the cursor having left again.
    assert!(t.check(10, 10, 1920, 1080, 310, 300));
    assert!(t.inside);
    assert_eq!(t.last_trigger, Some(310));
}

#[test]
fn sustained_presence_never_fires() {
    let mut t = top_left_corner(50);
    assert!(t.check(10, 10, 1920, 1080, 0, 300));
    // Dwelling far beyond the cooldown still does not fire again.
    assert!(!t.check(10, 10, 1920, 1080, 400, 300));
    assert!(!t.check(10, 10, 1920, 1080, 10_000, 300));
    assert!(t.inside);
    assert_eq!(t.last_trigger, Some(0));
}

#[test]
fn rearm_after_leaving_fires_exactly_once() {
    let mut t = top_left_corner(50);
    assert!(t.check(10, 10, 1920, 1080, 0, 300));
    assert!(!t.check(500, 500, 1920, 1080, 100, 300));
    // Re-entry once the cooldown has elapsed fires once, not twice.
    assert!(t.check(10, 10, 1920, 1080, 350, 300));
    assert!(!t.check(10, 10, 1920, 1080, 360, 300));
}

#[test]
fn two_rising_edges_within_cooldown_fire_at_most_once() {
    let mut t = top_left_corner(50);
    assert!(t.check(10, 10, 1920, 1080, 0, 300));
    assert!(!t.check(500, 500, 1920, 1080, 50, 300));
    // Second rising edge only 100 ms after the first fire: suppressed.
    assert!(!t.check(10, 10, 1920, 1080, 100, 300));
    assert!(!t.inside);
}

#[test]
fn first_entry_fires_without_prior_timestamp() {
    let mut t = top_left_corner(50);
    assert_eq!(t.last_trigger, None);
    assert!(t.check(0, 0, 1920, 1080, 5, 300));
    assert_eq!(t.last_trigger, Some(5));
}

#[test]
fn outside_cursor_never_fires() {
    let mut t = top_left_corner(50);
    assert!(!t.check(500, 500, 1920, 1080, 0, 300));
    assert!(!t.inside);
    assert_eq!(t.last_trigger, None);
}

#[test]
fn tick_all_reports_fired_indices_in_order() {
    let mut triggers = vec![top_left_corner(50), far_rect(), top_left_corner(100)];
    let fired = tick_all(&mut triggers, 10, 10, 1920, 1080, 0, 300);
    assert_eq!(fired, vec![0, 2]);
    assert!(triggers[0].inside);
    assert!(!triggers[1].inside);
    assert!(triggers[2].inside);

    // Same tick again: everyone who was inside stays silent.
    let fired = tick_all(&mut triggers, 10, 10, 1920, 1080, 50, 300);
    assert!(fired.is_empty());
}

#[test]
fn tick_all_updates_each_trigger_independently() {
    let mut triggers = vec![top_left_corner(50), far_rect()];
    let fired = tick_all(&mut triggers, 1020, 1020, 1920, 1080, 0, 300);
    assert_eq!(fired, vec![1]);
    assert!(!triggers[0].inside);
    assert!(triggers[1].inside);
    assert_eq!(triggers[1].last_trigger, Some(0));
    assert_eq!(triggers[0].last_trigger, None);
}
