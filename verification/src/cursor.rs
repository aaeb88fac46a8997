use vstd::prelude::*;

verus! {

/// The reconciliation rule every list cursor obeys after a rebuild: an
/// existing in-range selection is kept; an out-of-range one is clamped to
/// the last valid index; no selection becomes index 0 the first time the
/// list is non-empty; an empty list carries no selection.
pub open spec fn spec_reconciled(sel: Option<usize>, len: int) -> Option<usize> {
    match sel {
        Option::None => if len > 0 {
            Option::Some(0usize)
        } else {
            Option::None
        },
        Option::Some(i) => if i < len {
            Option::Some(i)
        } else if len > 0 {
            Option::Some((len - 1) as usize)
        } else {
            Option::None
        },
    }
}

/// Applies the default and clamp rules to a selection over a list of
/// `len` entries.
pub fn reconcile_selection(sel: Option<usize>, len: usize) -> (r: Option<usize>)
    ensures
        r == spec_reconciled(sel, len as int),
        len == 0 ==> r is None,
        len > 0 ==> (r matches Some(i) && i < len),
{
    match sel {
        Option::None => if len > 0 {
            Option::Some(0)
        } else {
            Option::None
        },
        Option::Some(i) => if i < len {
            Option::Some(i)
        } else if len > 0 {
            Option::Some(len - 1)
        } else {
            Option::None
        },
    }
}

/// The selection one step down, wrapping from the last entry to the first;
/// an empty list leaves the selection alone.
pub open spec fn spec_next(sel: Option<usize>, len: int) -> Option<usize> {
    if len == 0 {
        sel
    } else {
        let i = match sel {
            Option::Some(i) => i as int,
            Option::None => 0int,
        };
        Option::Some((if i + 1 < len {
            i + 1
        } else {
            0int
        }) as usize)
    }
}

/// The selection one step up, wrapping from the first entry to the last;
/// an empty list leaves the selection alone.
pub open spec fn spec_prev(sel: Option<usize>, len: int) -> Option<usize> {
    if len == 0 {
        sel
    } else {
        let i = match sel {
            Option::Some(i) => i as int,
            Option::None => 0int,
        };
        Option::Some((if i == 0 {
            len - 1
        } else {
            i - 1
        }) as usize)
    }
}

/// Moves the selection one step down with wrap-around.
pub fn next_selection(sel: Option<usize>, len: usize) -> (r: Option<usize>)
    requires
        sel matches Some(i) ==> i < len,
    ensures
        r == spec_next(sel, len as int),
        len > 0 ==> (r matches Some(i) && i < len),
{
    if len == 0 {
        sel
    } else {
        let i = match sel {
            Option::Some(i) => i,
            Option::None => 0,
        };
        if i + 1 < len {
            Option::Some(i + 1)
        } else {
            Option::Some(0)
        }
    }
}

/// Moves the selection one step up with wrap-around.
pub fn prev_selection(sel: Option<usize>, len: usize) -> (r: Option<usize>)
    requires
        sel matches Some(i) ==> i < len,
    ensures
        r == spec_prev(sel, len as int),
        len > 0 ==> (r matches Some(i) && i < len),
{
    if len == 0 {
        sel
    } else {
        let i = match sel {
            Option::Some(i) => i,
            Option::None => 0,
        };
        if i == 0 {
            Option::Some(len - 1)
        } else {
            Option::Some(i - 1)
        }
    }
}

} // verus!
