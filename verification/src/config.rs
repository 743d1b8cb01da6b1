//! Configuration data model: trigger definitions, the default configuration,
//! and the load-time duplicate filter for position-keyed zones.

use vstd::prelude::*;

verus! {

/// The shape of a trigger's zone.
#[derive(Debug, Clone, Copy, PartialEq, Eq, Structural, Hash)]
pub enum TriggerType {
    Corner,
    Edge,
    Rect,
}

/// Screen position for `Corner` (the four corners) and `Edge` (the four
/// edges) zones. `Rect` zones carry no position.
#[derive(Debug, Clone, Copy, PartialEq, Eq, Structural, Hash)]
pub enum Position {
    TopLeft,
    TopRight,
    BottomLeft,
    BottomRight,
    Top,
    Bottom,
    Left,
    Right,
}

/// The action dispatched when a trigger fires: a dispatcher name and its
/// argument string, both opaque to this library.
#[derive(Debug, Clone)]
pub struct Action {
    pub dispatcher: String,
    pub args: String,
}

/// One trigger: a zone definition, the action to fire, and the runtime
/// debounce state (`inside`, `last_trigger` in milliseconds).
///
/// The shape fields are all optional; which ones are meaningful depends on
/// `trigger_type` (see `geometry::zone_contains`). A missing dimension
/// counts as zero.
#[derive(Debug, Clone)]
pub struct Trigger {
    pub trigger_type: TriggerType,
    pub position: Option<Position>,
    pub radius: Option<u32>,
    pub width: Option<u32>,
    pub height: Option<u32>,
    pub x: Option<u32>,
    pub y: Option<u32>,
    pub action: Action,
    pub last_trigger: Option<u64>,
    pub inside: bool,
}

/// Whole configuration: an optional monitor name, the trigger list, the poll
/// interval `timeout_ms`, and the optional debounce override `sticky_ms`.
#[derive(Debug, Clone)]
pub struct Config {
    pub monitor_name: Option<String>,
    pub triggers: Vec<Trigger>,
    pub timeout_ms: u64,
    pub sticky_ms: Option<u64>,
}

/// The debounce timeout shared by all triggers: `sticky_ms` when present,
/// otherwise `timeout_ms`.
pub open spec fn spec_effective_timeout(c: Config) -> u64 {
    match c.sticky_ms {
        Some(s) => s,
        None => c.timeout_ms,
    }
}

impl Config {
    /// The debounce timeout shared by all triggers.
    pub fn effective_timeout(&self) -> (t: u64)
        ensures
            t == spec_effective_timeout(*self),
    {
        match self.sticky_ms {
            Some(s) => s,
            None => self.timeout_ms,
        }
    }
}

/// Corner and Edge zones are keyed by their position; Rect zones are not.
pub open spec fn position_keyed(t: Trigger) -> bool {
    t.trigger_type == TriggerType::Corner || t.trigger_type == TriggerType::Edge
}

/// A definition is retained given the positions already used by earlier
/// definitions of each keyed kind: Rect always; Corner or Edge when it
/// carries a position not already used by the same kind (one without a
/// position is unusable and dropped).
pub open spec fn retained(t: Trigger, corners: Seq<Position>, edges: Seq<Position>) -> bool {
    match t.trigger_type {
        TriggerType::Corner => t.position matches Some(p) && !corners.contains(p),
        TriggerType::Edge => t.position matches Some(p) && !edges.contains(p),
        TriggerType::Rect => true,
    }
}

/// The used-position list of `kind` after seeing `t`: its position is added
/// the first time a definition of that kind carries it.
pub open spec fn push_key(seen: Seq<Position>, t: Trigger, kind: TriggerType) -> Seq<Position> {
    if t.trigger_type == kind {
        match t.position {
            Some(p) => if seen.contains(p) {
                seen
            } else {
                seen.push(p)
            },
            None => seen,
        }
    } else {
        seen
    }
}

/// The duplicate filter, threading the used-position lists left to right.
pub open spec fn dedup_from(s: Seq<Trigger>, corners: Seq<Position>, edges: Seq<Position>) -> Seq<
    Trigger,
>
    decreases s.len(),
{
    if s.len() == 0 {
        Seq::empty()
    } else {
        let t = s[0];
        let rest = dedup_from(
            s.skip(1),
            push_key(corners, t, TriggerType::Corner),
            push_key(edges, t, TriggerType::Edge),
        );
        if retained(t, corners, edges) {
            seq![t] + rest
        } else {
            rest
        }
    }
}

/// The trigger list after load-time filtering: order preserved, first
/// occurrence of each (keyed kind, position) pair kept, later duplicates
/// and position-less Corner/Edge definitions dropped, Rects always kept.
pub open spec fn dedup_triggers_spec(s: Seq<Trigger>) -> Seq<Trigger> {
    dedup_from(s, Seq::empty(), Seq::empty())
}

/// Linear membership test on a used-position list.
fn position_in(seen: &Vec<Position>, p: Position) -> (r: bool)
    ensures
        r == seen@.contains(p),
{
    let mut i: usize = 0;
    while i < seen.len()
        invariant
            i <= seen@.len(),
            forall|k: int| 0 <= k < i ==> seen@[k] != p,
        decreases seen@.len() - i,
    {
        if seen[i] == p {
            assert(seen@[i as int] == p);
            return true;
        }
        i = i + 1;
    }
    false
}

/// Remove duplicate Corner and Edge definitions, keeping the first
/// definition per (kind, position) pair, dropping position-less Corner and
/// Edge definitions, and keeping every Rect. Order is preserved. This runs
/// once at configuration load time.
pub fn dedup_triggers(triggers: Vec<Trigger>) -> (r: Vec<Trigger>)
    ensures
        r@ == dedup_triggers_spec(triggers@),
{
    let ghost orig = triggers@;
    let mut remaining = triggers;
    let mut result: Vec<Trigger> = Vec::new();
    let mut corners_used: Vec<Position> = Vec::new();
    let mut edges_used: Vec<Position> = Vec::new();
    while remaining.len() > 0
        invariant
            dedup_triggers_spec(orig) =~= result@ + dedup_from(
                remaining@,
                corners_used@,
                edges_used@,
            ),
        decreases remaining@.len(),
    {
        let ghost pre = remaining@;
        let ghost pre_corners = corners_used@;
        let ghost pre_edges = edges_used@;
        let t = remaining.remove(0);
        let keep: bool = match t.trigger_type {
            TriggerType::Corner => match t.position {
                Some(p) => {
                    if position_in(&corners_used, p) {
                        false
                    } else {
                        corners_used.push(p);
                        true
                    }
                },
                None => false,
            },
            TriggerType::Edge => match t.position {
                Some(p) => {
                    if position_in(&edges_used, p) {
                        false
                    } else {
                        edges_used.push(p);
                        true
                    }
                },
                None => false,
            },
            TriggerType::Rect => true,
        };
        proof {
            assert(remaining@ =~= pre.skip(1));
            assert(keep == retained(t, pre_corners, pre_edges));
            assert(corners_used@ == push_key(pre_corners, t, TriggerType::Corner));
            assert(edges_used@ == push_key(pre_edges, t, TriggerType::Edge));
        }
        if keep {
            let ghost pre_result = result@;
            result.push(t);
            proof {
                assert(result@ + dedup_from(remaining@, corners_used@, edges_used@) =~= pre_result
                    + dedup_from(pre, pre_corners, pre_edges));
            }
        }
    }
    proof {
        assert(result@ + dedup_from(remaining@, corners_used@, edges_used@) =~= result@);
    }
    result
}

/// No two retained definitions of the same keyed kind share a position.
pub open spec fn unique_keys(r: Seq<Trigger>) -> bool {
    forall|i: int, j: int|
        0 <= i < j < r.len() && position_keyed(#[trigger] r[i]) && r[i].trigger_type == (
        #[trigger] r[j]).trigger_type ==> r[i].position != r[j].position
}

proof fn lemma_contains_push(seen: Seq<Position>, p: Position, q: Position)
    ensures
        seen.push(p).contains(q) <==> (seen.contains(q) || q == p),
{
    if seen.contains(q) {
        let i = choose|i: int| 0 <= i < seen.len() && seen[i] == q;
        assert(seen.push(p)[i] == q);
    }
    if q == p {
        assert(seen.push(p)[seen.len() as int] == q);
    }
    if seen.push(p).contains(q) {
        let i = choose|i: int| 0 <= i < seen.push(p).len() && seen.push(p)[i] == q;
        if i < seen.len() {
            assert(seen[i] == q);
        }
    }
}

proof fn lemma_dedup_from_unique(s: Seq<Trigger>, corners: Seq<Position>, edges: Seq<Position>)
    ensures
        unique_keys(dedup_from(s, corners, edges)),
        forall|k: int|
            0 <= k < dedup_from(s, corners, edges).len() ==> match (#[trigger] dedup_from(
                s,
                corners,
                edges,
            )[k]).trigger_type {
                TriggerType::Corner => dedup_from(s, corners, edges)[k].position matches Some(p)
                    && !corners.contains(p),
                TriggerType::Edge => dedup_from(s, corners, edges)[k].position matches Some(p)
                    && !edges.contains(p),
                TriggerType::Rect => true,
            },
    decreases s.len(),
{
    if s.len() > 0 {
        let t = s[0];
        let corners1 = push_key(corners, t, TriggerType::Corner);
        let edges1 = push_key(edges, t, TriggerType::Edge);
        let rest = dedup_from(s.skip(1), corners1, edges1);
        lemma_dedup_from_unique(s.skip(1), corners1, edges1);
        let r = dedup_from(s, corners, edges);
        assert forall|q: Position| !corners1.contains(q) implies !corners.contains(q) by {
            if t.trigger_type == TriggerType::Corner {
                match t.position {
                    Some(p) => if !corners.contains(p) {
                        lemma_contains_push(corners, p, q);
                    },
                    None => {},
                }
            }
        }
        assert forall|q: Position| !edges1.contains(q) implies !edges.contains(q) by {
            if t.trigger_type == TriggerType::Edge {
                match t.position {
                    Some(p) => if !edges.contains(p) {
                        lemma_contains_push(edges, p, q);
                    },
                    None => {},
                }
            }
        }
        if retained(t, corners, edges) {
            assert(r == seq![t] + rest);
            assert(r[0] == t);
            assert(forall|k: int| 1 <= k < r.len() ==> r[k] == rest[k - 1]);
            assert forall|k: int| 1 <= k < r.len() && position_keyed(t) && t.trigger_type == (
            #[trigger] r[k]).trigger_type implies t.position != r[k].position by {
                let p = t.position->Some_0;
                if t.trigger_type == TriggerType::Corner {
                    lemma_contains_push(corners, p, p);
                    assert(corners1.contains(p));
                } else {
                    lemma_contains_push(edges, p, p);
                    assert(edges1.contains(p));
                }
            }
        }
    }
}

/// Dedup law: after load-time filtering, at most one trigger exists per
/// (kind, position) pair for the position-keyed kinds, so of two Corner
/// definitions at the same position only the first survives, while a Corner
/// and an Edge at nominally the same position are distinct keys.
pub proof fn lemma_dedup_unique_keys(s: Seq<Trigger>)
    ensures
        unique_keys(dedup_triggers_spec(s)),
{
    lemma_dedup_from_unique(s, Seq::empty(), Seq::empty());
}

impl Default for Config {
    fn default() -> (c: Config)
        ensures
            c.monitor_name matches Some(n) && n@ == "eDP-1"@,
            c.triggers@ == Seq::<Trigger>::empty(),
            c.timeout_ms == 30,
            c.sticky_ms == Some(300u64),
    {
        Config {
            monitor_name: Some("eDP-1".to_owned()),
            triggers: Vec::new(),
            timeout_ms: 30,
            sticky_ms: Some(300),
        }
    }
}

} // verus!
