use hotcorners::config::{dedup_triggers, Action, Config, Position, Trigger, TriggerType};
use hotcorners::monitor::{select_monitor, Monitor};

fn trigger(trigger_type: TriggerType, position: Option<Position>, radius: u32) -> Trigger {
    Trigger {
        trigger_type,
        position,
        radius: Some(radius),
        width: Some(10),
        height: Some(10),
        x: Some(0),
        y: Some(0),
        action: Action { dispatcher: String::from("exec"), args: String::from("true") },
        last_trigger: None,
        inside: false,
    }
}

#[test]
fn duplicate_corners_keep_only_the_first() {
    let first = trigger(TriggerType::Corner, Some(Position::TopLeft), 50);
    let second = trigger(TriggerType::Corner, Some(Position::TopLeft), 60);
    let out = dedup_triggers(vec![first, second]);
    assert_eq!(out.len(), 1);
    assert_eq!(out[0].radius, Some(50));
}

#[test]
fn corner_and_edge_at_same_position_are_distinct_keys() {
    let corner = trigger(TriggerType::Corner, Some(Position::TopLeft), 50);
    let edge = trigger(TriggerType::Edge, Some(Position::TopLeft), 50);
    let out = dedup_triggers(vec![corner, edge]);
    assert_eq!(out.len(), 2);
    assert_eq!(out[0].trigger_type, TriggerType::Corner);
    assert_eq!(out[1].trigger_type, TriggerType::Edge);
}

#[test]
fn corners_at_distinct_positions_all_survive() {
    let out = dedup_triggers(vec![
        trigger(TriggerType::Corner, Some(Position::TopLeft), 1),
        trigger(TriggerType::Corner, Some(Position::TopRight), 2),
        trigger(TriggerType::Corner, Some(Position::BottomLeft), 3),
        trigger(TriggerType::Corner, Some(Position::BottomRight), 4),
    ]);
    assert_eq!(out.len(), 4);
    assert_eq!(out[3].radius, Some(4));
}

#[test]
fn positionless_corner_and_edge_are_dropped() {
    let out = dedup_triggers(vec![
        trigger(TriggerType::Corner, None, 50),
        trigger(TriggerType::Edge, None, 50),
    ]);
    assert!(out.is_empty());
}

#[test]
fn rects_are_never_deduplicated() {
    let out = dedup_triggers(vec![
        trigger(TriggerType::Rect, None, 0),
        trigger(TriggerType::Rect, None, 0),
        trigger(TriggerType::Rect, Some(Position::TopLeft), 0),
    ]);
    assert_eq!(out.len(), 3);
}

#[test]
fn dedup_preserves_relative_order() {
    let out = dedup_triggers(vec![
        trigger(TriggerType::Corner, Some(Position::TopLeft), 1),
        trigger(TriggerType::Rect, None, 2),
        trigger(TriggerType::Corner, Some(Position::TopLeft), 3),
        trigger(TriggerType::Edge, Some(Position::Top), 4),
    ]);
    assert_eq!(out.len(), 3);
    assert_eq!(out[0].radius, Some(1));
    assert_eq!(out[1].radius, Some(2));
    assert_eq!(out[2].radius, Some(4));
}

#[test]
fn default_configuration() {
    let c = Config::default();
    assert_eq!(c.timeout_ms, 30);
    assert_eq!(c.sticky_ms, Some(300));
    assert_eq!(c.monitor_name.as_deref(), Some("eDP-1"));
    assert!(c.triggers.is_empty());
}

#[test]
fn effective_timeout_prefers_sticky() {
    let mut c = Config::default();
    c.timeout_ms = 30;
    c.sticky_ms = Some(300);
    assert_eq!(c.effective_timeout(), 300);
}

#[test]
fn effective_timeout_falls_back_to_poll_interval() {
    let mut c = Config::default();
    c.timeout_ms = 45;
    c.sticky_ms = None;
    assert_eq!(c.effective_timeout(), 45);
}

fn monitor(name: &str, width: u32, height: u32) -> Monitor {
    Monitor { name: String::from(name), width, height }
}

#[test]
fn named_monitor_is_found() {
    let monitors = vec![monitor("HDMI-A-1", 2560, 1440), monitor("eDP-1", 1920, 1080)];
    let size = select_monitor(&monitors, &Some(String::from("eDP-1")));
    assert_eq!(size, Some((1920, 1080)));
}

#[test]
fn missing_named_monitor_yields_none() {
    let monitors = vec![monitor("HDMI-A-1", 2560, 1440)];
    let size = select_monitor(&monitors, &Some(String::from("eDP-1")));
    assert_eq!(size, None);
}

#[test]
fn unnamed_selection_takes_the_first_monitor() {
    let monitors = vec![monitor("HDMI-A-1", 2560, 1440), monitor("eDP-1", 1920, 1080)];
    let size = select_monitor(&monitors, &None);
    assert_eq!(size, Some((2560, 1440)));
}

#[test]
fn no_monitors_yields_none() {
    let size = select_monitor(&Vec::new(), &None);
    assert_eq!(size, None);
}
