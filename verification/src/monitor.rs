//! Monitor selection: which display's size the engine works against. The
//! display list itself comes from the caller; this module only picks the
//! requested entry.

use vstd::prelude::*;

verus! {

/// A display: its name and its pixel size.
#[derive(Debug, Clone)]
pub struct Monitor {
    pub name: String,
    pub width: u32,
    pub height: u32,
}

/// The size of the first monitor in `s` whose name reads `n`, if any.
pub open spec fn find_monitor(s: Seq<Monitor>, n: Seq<char>) -> Option<(u32, u32)>
    decreases s.len(),
{
    if s.len() == 0 {
        None
    } else if s[0].name@ == n {
        Some((s[0].width, s[0].height))
    } else {
        find_monitor(s.skip(1), n)
    }
}

/// The selected size: the first monitor carrying the requested name, or the
/// first monitor at all when no name is requested; `None` when the named
/// monitor is absent or there is no monitor.
pub open spec fn selected_size(s: Seq<Monitor>, name: Option<String>) -> Option<(u32, u32)> {
    match name {
        Some(n) => find_monitor(s, n@),
        None => if s.len() > 0 {
            Some((s[0].width, s[0].height))
        } else {
            None
        },
    }
}

/// Pick the monitor the configuration asks for. Returns its size, or `None`
/// exactly when the named monitor is absent (or no monitor exists at all).
#[verifier::loop_isolation(false)]
pub fn select_monitor(monitors: &Vec<Monitor>, name: &Option<String>) -> (r: Option<(u32, u32)>)
    ensures
        r == selected_size(monitors@, *name),
{
    match name.as_ref() {
        Some(n) => {
            let mut i: usize = 0;
            proof {
                assert(monitors@.skip(0) =~= monitors@);
            }
            while i < monitors.len()
                invariant
                    i <= monitors@.len(),
                    find_monitor(monitors@, n@) == find_monitor(monitors@.skip(i as int), n@),
                decreases monitors@.len() - i,
            {
                proof {
                    assert(monitors@.skip(i as int)[0] == monitors@[i as int]);
                }
                if monitors[i].name.eq(n) {
                    return Some((monitors[i].width, monitors[i].height));
                }
                proof {
                    assert(monitors@.skip(i as int).skip(1) =~= monitors@.skip(i as int + 1));
                }
                i = i + 1;
            }
            None
        },
        None => {
            if monitors.len() > 0 {
                Some((monitors[0].width, monitors[0].height))
            } else {
                None
            }
        },
    }
}

} // verus!
