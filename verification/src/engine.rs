//! The trigger state machine: edge-triggered activation with a cooldown.
//!
//! Each tick supplies the cursor position, the screen size and the current
//! time in milliseconds. A trigger fires exactly on a rising edge (cursor
//! outside on the previous tick, inside now) whose cooldown has elapsed.
//! A rising edge suppressed by the cooldown leaves the trigger marked
//! outside, so the edge is re-evaluated on every following tick and the
//! trigger fires as soon as the cooldown permits while the cursor is still
//! inside. This is deliberate, observable behaviour, not an accident.

use vstd::prelude::*;
use crate::config::Trigger;
use crate::geometry::{sat_sub, zone_contains};

verus! {

/// The cooldown has elapsed: no earlier fire, or at least `timeout`
/// milliseconds since it (elapsed time saturates at zero if `now` lies
/// before the recorded fire).
pub open spec fn elapsed_ok(last: Option<u64>, now: u64, timeout: u64) -> bool {
    match last {
        Some(t) => sat_sub(now as int, t as int) >= timeout,
        None => true,
    }
}

/// The trigger fires on this tick: cursor inside, trigger not already
/// marked inside, cooldown elapsed.
pub open spec fn trigger_fires(
    t: Trigger,
    cx: u32,
    cy: u32,
    sw: u32,
    sh: u32,
    now: u64,
    timeout: u64,
) -> bool {
    zone_contains(t, cx, cy, sw, sh) && !t.inside && elapsed_ok(t.last_trigger, now, timeout)
}

/// The trigger's state after this tick. Firing records the time and marks
/// the trigger inside; leaving the zone marks it outside; a suppressed
/// rising edge or sustained presence leaves the state unchanged.
pub open spec fn trigger_next(
    t: Trigger,
    cx: u32,
    cy: u32,
    sw: u32,
    sh: u32,
    now: u64,
    timeout: u64,
) -> Trigger {
    if trigger_fires(t, cx, cy, sw, sh, now, timeout) {
        Trigger { inside: true, last_trigger: Some(now), ..t }
    } else if !zone_contains(t, cx, cy, sw, sh) {
        Trigger { inside: false, ..t }
    } else {
        t
    }
}

impl Trigger {
    /// Evaluate this trigger for one tick and update its runtime state.
    /// Returns true exactly on the tick where the action must fire.
    pub fn check(
        &mut self,
        cursor_x: u32,
        cursor_y: u32,
        screen_width: u32,
        screen_height: u32,
        now: u64,
        timeout_ms: u64,
    ) -> (fired: bool)
        ensures
            fired == trigger_fires(
                *old(self),
                cursor_x,
                cursor_y,
                screen_width,
                screen_height,
                now,
                timeout_ms,
            ),
            *final(self) == trigger_next(
                *old(self),
                cursor_x,
                cursor_y,
                screen_width,
                screen_height,
                now,
                timeout_ms,
            ),
            // Sustained presence never fires, regardless of elapsed time.
            old(self).inside && zone_contains(
                *old(self),
                cursor_x,
                cursor_y,
                screen_width,
                screen_height,
            ) ==> !fired,
            // Leaving the zone always resets the state to outside.
            !zone_contains(*old(self), cursor_x, cursor_y, screen_width, screen_height) ==> (!fired
                && !final(self).inside && final(self).last_trigger == old(self).last_trigger),
    {
        let in_zone = self.contains(cursor_x, cursor_y, screen_width, screen_height);

        let elapsed = match self.last_trigger {
            Some(t) => {
                let since: u64 = if now >= t {
                    now - t
                } else {
                    0
                };
                since >= timeout_ms
            },
            None => true,
        };

        if in_zone && !self.inside && elapsed {
            self.last_trigger = Some(now);
            self.inside = true;
            true
        } else if !in_zone {
            self.inside = false;
            false
        } else {
            false
        }
    }
}

/// The indices of the triggers in `s` that fire on this tick, in order.
pub open spec fn fired_indices(
    s: Seq<Trigger>,
    cx: u32,
    cy: u32,
    sw: u32,
    sh: u32,
    now: u64,
    timeout: u64,
) -> Seq<usize>
    decreases s.len(),
{
    if s.len() == 0 {
        Seq::empty()
    } else {
        fired_indices(s.drop_last(), cx, cy, sw, sh, now, timeout) + (if trigger_fires(
            s.last(),
            cx,
            cy,
            sw,
            sh,
            now,
            timeout,
        ) {
            seq![(s.len() - 1) as usize]
        } else {
            Seq::empty()
        })
    }
}

/// Evaluate every trigger in the set for one tick, updating each trigger's
/// runtime state, and return the indices of the triggers that fired, in
/// order. The caller dispatches the actions of the fired triggers.
pub fn tick_all(
    triggers: &mut Vec<Trigger>,
    cursor_x: u32,
    cursor_y: u32,
    screen_width: u32,
    screen_height: u32,
    now: u64,
    timeout_ms: u64,
) -> (fired: Vec<usize>)
    ensures
        final(triggers)@.len() == old(triggers)@.len(),
        forall|i: int|
            0 <= i < old(triggers)@.len() ==> final(triggers)@[i] == trigger_next(
                #[trigger] old(triggers)@[i],
                cursor_x,
                cursor_y,
                screen_width,
                screen_height,
                now,
                timeout_ms,
            ),
        fired@ == fired_indices(
            old(triggers)@,
            cursor_x,
            cursor_y,
            screen_width,
            screen_height,
            now,
            timeout_ms,
        ),
        forall|j: int| 0 <= j < fired@.len() ==> (#[trigger] fired@[j]) < old(triggers)@.len(),
{
    let ghost orig = triggers@;
    let mut fired: Vec<usize> = Vec::new();
    let mut i: usize = 0;
    while i < triggers.len()
        invariant
            i <= triggers@.len(),
            triggers@.len() == orig.len(),
            forall|k: int| i <= k < orig.len() ==> triggers@[k] == orig[k],
            forall|k: int|
                0 <= k < i ==> triggers@[k] == trigger_next(
                    #[trigger] orig[k],
                    cursor_x,
                    cursor_y,
                    screen_width,
                    screen_height,
                    now,
                    timeout_ms,
                ),
            fired@ == fired_indices(
                orig.take(i as int),
                cursor_x,
                cursor_y,
                screen_width,
                screen_height,
                now,
                timeout_ms,
            ),
            forall|j: int| 0 <= j < fired@.len() ==> (#[trigger] fired@[j]) < i,
        decreases triggers@.len() - i,
    {
        let ghost pre = triggers@;
        let mut t = triggers.remove(i);
        let f = t.check(cursor_x, cursor_y, screen_width, screen_height, now, timeout_ms);
        let ghost tg = t;
        triggers.insert(i, t);
        if f {
            fired.push(i);
        }
        proof {
            assert(triggers@ =~= pre.update(i as int, tg));
            assert(orig.take(i as int + 1).drop_last() =~= orig.take(i as int));
            assert(orig.take(i as int + 1).last() == orig[i as int]);
            assert(fired@ =~= fired_indices(
                orig.take(i as int + 1),
                cursor_x,
                cursor_y,
                screen_width,
                screen_height,
                now,
                timeout_ms,
            ));
        }
        i = i + 1;
    }
    proof {
        assert(orig.take(orig.len() as int) =~= orig);
    }
    fired
}

/// The inputs of one evaluation tick.
#[derive(Debug, Clone, Copy)]
pub struct Tick {
    pub cursor_x: u32,
    pub cursor_y: u32,
    pub screen_width: u32,
    pub screen_height: u32,
    pub now: u64,
}

/// Cursor inside the trigger's zone on this tick.
pub open spec fn contains_at(t: Trigger, k: Tick) -> bool {
    zone_contains(t, k.cursor_x, k.cursor_y, k.screen_width, k.screen_height)
}

/// The trigger fires on this tick.
pub open spec fn fires_at(t: Trigger, k: Tick, timeout: u64) -> bool {
    trigger_fires(t, k.cursor_x, k.cursor_y, k.screen_width, k.screen_height, k.now, timeout)
}

/// The trigger's state after this tick.
pub open spec fn next_at(t: Trigger, k: Tick, timeout: u64) -> Trigger {
    trigger_next(t, k.cursor_x, k.cursor_y, k.screen_width, k.screen_height, k.now, timeout)
}

/// The trigger's state after a sequence of ticks.
pub open spec fn run(t: Trigger, ticks: Seq<Tick>, timeout: u64) -> Trigger
    decreases ticks.len(),
{
    if ticks.len() == 0 {
        t
    } else {
        run(next_at(t, ticks[0], timeout), ticks.skip(1), timeout)
    }
}

/// Re-arm law. Leaving the zone (tick `k1`) always resets the trigger to
/// outside; a subsequent entry (tick `k2`) once the cooldown has elapsed
/// fires exactly once: it fires on `k2` and not again on the following tick
/// `k3`, however the cursor moves.
pub proof fn lemma_rearm(t: Trigger, k1: Tick, k2: Tick, k3: Tick, timeout: u64)
    requires
        !contains_at(t, k1),
        contains_at(next_at(t, k1, timeout), k2),
        elapsed_ok(next_at(t, k1, timeout).last_trigger, k2.now, timeout),
    ensures
        !next_at(t, k1, timeout).inside,
        fires_at(next_at(t, k1, timeout), k2, timeout),
        !fires_at(next_at(next_at(t, k1, timeout), k2, timeout), k3, timeout),
{
}

/// Suppressed-rising-edge policy: a rising edge inside the cooldown window
/// does not fire and leaves the whole state unchanged — in particular the
/// trigger stays marked outside — so the edge is re-evaluated on the next
/// tick, and fires as soon as the cooldown has elapsed while the cursor is
/// still inside, without the cursor having to leave and re-enter.
pub proof fn lemma_suppressed_edge_refires(t: Trigger, k1: Tick, k2: Tick, timeout: u64)
    requires
        !t.inside,
        contains_at(t, k1),
        !elapsed_ok(t.last_trigger, k1.now, timeout),
        contains_at(t, k2),
        elapsed_ok(t.last_trigger, k2.now, timeout),
    ensures
        !fires_at(t, k1, timeout),
        next_at(t, k1, timeout) == t,
        fires_at(next_at(t, k1, timeout), k2, timeout),
{
}

/// A trigger whose last fire is recorded at `n` neither fires nor forgets
/// `n` across any sequence of ticks that all happen within the cooldown
/// window `[n, n + timeout)`.
proof fn lemma_run_keeps_last(t: Trigger, ticks: Seq<Tick>, timeout: u64, n: u64)
    requires
        t.last_trigger == Some(n),
        forall|i: int|
            0 <= i < ticks.len() ==> n <= (#[trigger] ticks[i]).now && ticks[i].now < n + timeout,
    ensures
        run(t, ticks, timeout).last_trigger == Some(n),
        forall|i: int|
            0 <= i < ticks.len() ==> !fires_at(
                run(t, ticks.take(i), timeout),
                #[trigger] ticks[i],
                timeout,
            ),
    decreases ticks.len(),
{
    if ticks.len() > 0 {
        let k = ticks[0];
        let t1 = next_at(t, k, timeout);
        assert(!elapsed_ok(t.last_trigger, k.now, timeout));
        assert(!fires_at(t, k, timeout));
        assert(t1.last_trigger == Some(n));
        lemma_run_keeps_last(t1, ticks.skip(1), timeout, n);
        assert forall|i: int| 0 <= i < ticks.len() implies !fires_at(
            run(t, ticks.take(i), timeout),
            #[trigger] ticks[i],
            timeout,
        ) by {
            if i == 0 {
                assert(ticks.take(0) =~= Seq::<Tick>::empty());
                assert(run(t, ticks.take(0), timeout) == t);
            } else {
                assert(ticks.take(i)[0] == k);
                assert(ticks.take(i).skip(1) =~= ticks.skip(1).take(i - 1));
                assert(run(t, ticks.take(i), timeout) == run(
                    t1,
                    ticks.skip(1).take(i - 1),
                    timeout,
                ));
                assert(ticks.skip(1)[i - 1] == ticks[i]);
            }
        }
    }
}

/// Cooldown law. If a trigger fires on tick `k0`, then no tick whose time
/// lies within the cooldown window `[k0.now, k0.now + timeout)` fires,
/// however the cursor moves in between; in particular two rising edges less
/// than `timeout` apart never both fire.
pub proof fn lemma_cooldown(t: Trigger, k0: Tick, ticks: Seq<Tick>, timeout: u64)
    requires
        fires_at(t, k0, timeout),
        forall|i: int|
            0 <= i < ticks.len() ==> k0.now <= (#[trigger] ticks[i]).now && ticks[i].now < k0.now
                + timeout,
    ensures
        forall|i: int|
            0 <= i < ticks.len() ==> !fires_at(
                run(next_at(t, k0, timeout), ticks.take(i), timeout),
                #[trigger] ticks[i],
                timeout,
            ),
{
    let t1 = next_at(t, k0, timeout);
    assert(t1.last_trigger == Some(k0.now));
    lemma_run_keeps_last(t1, ticks, timeout, k0.now);
}

} // verus!
