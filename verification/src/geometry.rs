//! Zone geometry: pure point-in-region containment for the three zone
//! shapes. Screen origin is the top-left corner; x grows rightward, y grows
//! downward. Subtractions that could underflow saturate at zero, so an
//! oversized radius/width/height degenerates the boundary instead of
//! wrapping.

use vstd::prelude::*;
use crate::config::{Position, Trigger, TriggerType};

verus! {

/// A missing dimension counts as zero.
pub open spec fn opt_dim(o: Option<u32>) -> u32 {
    match o {
        Some(v) => v,
        None => 0,
    }
}

/// Subtraction saturating at zero.
pub open spec fn sat_sub(a: int, b: int) -> int {
    if a >= b {
        a - b
    } else {
        0
    }
}

/// Cursor is within `radius` pixels of the given screen corner (strict on
/// the inner boundary: for `TopLeft`, `cx == radius` is outside).
pub open spec fn corner_contains(
    pos: Position,
    radius: u32,
    cx: u32,
    cy: u32,
    sw: u32,
    sh: u32,
) -> bool {
    match pos {
        Position::TopLeft => cx < radius && cy < radius,
        Position::TopRight => cx > sat_sub(sw as int, radius as int) && cy < radius,
        Position::BottomLeft => cx < radius && cy > sat_sub(sh as int, radius as int),
        Position::BottomRight => cx > sat_sub(sw as int, radius as int) && cy > sat_sub(
            sh as int,
            radius as int,
        ),
        _ => false,
    }
}

/// Cursor is within a band on the given screen edge. For `Top`/`Bottom` the
/// band spans `width` pixels horizontally centered on the edge midpoint and
/// reaches `height` pixels inward; for `Left`/`Right` it spans `height`
/// pixels vertically centered on the edge midpoint and reaches `width`
/// pixels inward.
pub open spec fn edge_contains(
    pos: Position,
    width: u32,
    height: u32,
    cx: u32,
    cy: u32,
    sw: u32,
    sh: u32,
) -> bool {
    match pos {
        Position::Top => sat_sub(sw as int / 2, width as int / 2) <= cx && cx <= sw as int / 2
            + width as int / 2 && cy <= height,
        Position::Bottom => sat_sub(sw as int / 2, width as int / 2) <= cx && cx <= sw as int / 2
            + width as int / 2 && cy >= sat_sub(sh as int, height as int),
        Position::Left => cx <= width && sat_sub(sh as int / 2, height as int / 2) <= cy && cy
            <= sh as int / 2 + height as int / 2,
        Position::Right => cx >= sat_sub(sw as int, width as int) && sat_sub(
            sh as int / 2,
            height as int / 2,
        ) <= cy && cy <= sh as int / 2 + height as int / 2,
        _ => false,
    }
}

/// Cursor is within the axis-aligned rectangle anchored at `(x, y)` with
/// size `(w, h)`, inclusive on all four boundaries.
pub open spec fn rect_contains(x: u32, y: u32, w: u32, h: u32, cx: u32, cy: u32) -> bool {
    x <= cx && cx <= x as int + w as int && y <= cy && cy <= y as int + h as int
}

/// Containment for a trigger's zone. Total: a `Corner` or `Edge` trigger
/// without a position, or with a position that does not belong to its kind,
/// contains nothing.
pub open spec fn zone_contains(t: Trigger, cx: u32, cy: u32, sw: u32, sh: u32) -> bool {
    match t.trigger_type {
        TriggerType::Corner => match t.position {
            Some(p) => corner_contains(p, opt_dim(t.radius), cx, cy, sw, sh),
            None => false,
        },
        TriggerType::Edge => match t.position {
            Some(p) => edge_contains(p, opt_dim(t.width), opt_dim(t.height), cx, cy, sw, sh),
            None => false,
        },
        TriggerType::Rect => rect_contains(
            opt_dim(t.x),
            opt_dim(t.y),
            opt_dim(t.width),
            opt_dim(t.height),
            cx,
            cy,
        ),
    }
}

/// Subtraction saturating at zero.
fn sub_or_zero(a: u32, b: u32) -> (r: u32)
    ensures
        r as int == sat_sub(a as int, b as int),
{
    if a >= b {
        a - b
    } else {
        0
    }
}

impl Trigger {
    /// Is the cursor inside this trigger's zone? Pure; never fails.
    pub fn contains(
        &self,
        cursor_x: u32,
        cursor_y: u32,
        screen_width: u32,
        screen_height: u32,
    ) -> (r: bool)
        ensures
            r == zone_contains(*self, cursor_x, cursor_y, screen_width, screen_height),
    {
        match self.trigger_type {
            TriggerType::Corner => {
                let radius = match self.radius {
                    Some(v) => v,
                    None => 0,
                };
                match self.position {
                    Some(Position::TopLeft) => cursor_x < radius && cursor_y < radius,
                    Some(Position::TopRight) => cursor_x > sub_or_zero(screen_width, radius)
                        && cursor_y < radius,
                    Some(Position::BottomLeft) => cursor_x < radius && cursor_y > sub_or_zero(
                        screen_height,
                        radius,
                    ),
                    Some(Position::BottomRight) => cursor_x > sub_or_zero(screen_width, radius)
                        && cursor_y > sub_or_zero(screen_height, radius),
                    _ => false,
                }
            },
            TriggerType::Edge => {
                let width = match self.width {
                    Some(v) => v,
                    None => 0,
                };
                let height = match self.height {
                    Some(v) => v,
                    None => 0,
                };
                match self.position {
                    Some(Position::Top) => cursor_x >= sub_or_zero(screen_width / 2, width / 2)
                        && cursor_x <= screen_width / 2 + width / 2 && cursor_y <= height,
                    Some(Position::Bottom) => cursor_x >= sub_or_zero(screen_width / 2, width / 2)
                        && cursor_x <= screen_width / 2 + width / 2 && cursor_y >= sub_or_zero(
                        screen_height,
                        height,
                    ),
                    Some(Position::Left) => cursor_x <= width && cursor_y >= sub_or_zero(
                        screen_height / 2,
                        height / 2,
                    ) && cursor_y <= screen_height / 2 + height / 2,
                    Some(Position::Right) => cursor_x >= sub_or_zero(screen_width, width)
                        && cursor_y >= sub_or_zero(screen_height / 2, height / 2) && cursor_y
                        <= screen_height / 2 + height / 2,
                    _ => false,
                }
            },
            TriggerType::Rect => {
                let x = match self.x {
                    Some(v) => v,
                    None => 0,
                };
                let y = match self.y {
                    Some(v) => v,
                    None => 0,
                };
                let w = match self.width {
                    Some(v) => v,
                    None => 0,
                };
                let h = match self.height {
                    Some(v) => v,
                    None => 0,
                };
                cursor_x >= x && (cursor_x as u64) <= (x as u64) + (w as u64) && cursor_y >= y && (
                cursor_y as u64) <= (y as u64) + (h as u64)
            },
        }
    }
}

/// For a corner trigger, containment holds exactly when both axis
/// conditions hold: each coordinate strictly within `radius` of the
/// relevant corner, the far boundaries saturating at zero. In particular,
/// on the exact boundary exterior — `cursor_x == radius` for `TopLeft` —
/// the cursor is outside, whatever `cursor_y` is.
pub proof fn lemma_corner_axis_conditions(t: Trigger, cx: u32, cy: u32, sw: u32, sh: u32)
    requires
        t.trigger_type == TriggerType::Corner,
    ensures
        t.position == Some(Position::TopLeft) ==> (zone_contains(t, cx, cy, sw, sh) <==> (cx
            < opt_dim(t.radius) && cy < opt_dim(t.radius))),
        t.position == Some(Position::TopRight) ==> (zone_contains(t, cx, cy, sw, sh) <==> (cx
            > sat_sub(sw as int, opt_dim(t.radius) as int) && cy < opt_dim(t.radius))),
        t.position == Some(Position::BottomLeft) ==> (zone_contains(t, cx, cy, sw, sh) <==> (cx
            < opt_dim(t.radius) && cy > sat_sub(sh as int, opt_dim(t.radius) as int))),
        t.position == Some(Position::BottomRight) ==> (zone_contains(t, cx, cy, sw, sh) <==> (cx
            > sat_sub(sw as int, opt_dim(t.radius) as int) && cy > sat_sub(
            sh as int,
            opt_dim(t.radius) as int,
        ))),
        t.position == Some(Position::TopLeft) && cx >= opt_dim(t.radius) ==> !zone_contains(
            t,
            cx,
            cy,
            sw,
            sh,
        ),
{
}

} // verus!
