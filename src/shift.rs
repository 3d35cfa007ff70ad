//! The scroll window: which row of a list is shown at the top of a column.
use vstd::prelude::*;

verus! {

/// The shift that keeps `index` visible in a viewport of `max` rows over a
/// list of `len` entries, leaving `gap` rows between the cursor and either
/// edge of the viewport where the list allows it.
pub open spec fn shift_of(gap: int, max: int, index: int, len: int, old_shift: Option<int>) -> int {
    if len <= max {
        0
    } else if index < gap {
        0
    } else if index >= len - gap {
        len - max
    } else {
        match old_shift {
            Some(old) => if index - gap < old {
                index - gap
            } else if index + 1 - max + gap > old {
                index + 1 - max + gap
            } else {
                old
            },
            None => if len - (index - gap) - max < 0 {
                len - max
            } else {
                index - gap
            },
        }
    }
}

pub open spec fn opt_int(o: Option<usize>) -> Option<int> {
    match o {
        Some(v) => Some(v as int),
        None => None,
    }
}

/// The top row to show for the cursor at `index` in a list of `len` entries,
/// in a viewport of `max` rows that keeps `gap` rows around the cursor.
/// With `old_shift` the window moves only as far as the gap demands.
pub fn siblings_shift_for(gap: usize, max: usize, index: usize, len: usize, old_shift: Option<usize>) -> (r: usize)
    requires
        2 * gap < max,
    ensures
        r as int == shift_of(gap as int, max as int, index as int, len as int, opt_int(old_shift)),
{
    if len <= max {
        return 0;
    }
    if index < gap {
        return 0;
    }
    if index >= len - gap {
        return len - max;
    }
    match old_shift {
        Some(old) => {
            if index - gap < old {
                return index - gap;
            }
            if index + 1 + gap > max && index + 1 + gap - max > old {
                return index + 1 + gap - max;
            }
            old
        },
        None => {
            let shift = index - gap;
            if len - shift < max {
                len - max
            } else {
                shift
            }
        },
    }
}

/// A shift is settled for the cursor at `index` when it lies within the
/// list and keeps the cursor clear of both edges of the viewport by `gap`
/// rows, or is pinned to the top or the bottom where the cursor is near
/// an end of the list.
pub open spec fn settled(gap: int, max: int, index: int, len: int, shift: int) -> bool {
    if len <= max {
        shift == 0
    } else if index < gap {
        shift == 0
    } else if index >= len - gap {
        shift == len - max
    } else {
        0 <= shift <= len - max && shift + gap <= index && index + gap < shift + max
    }
}

/// A fresh shift never scrolls past the end of the list and always shows
/// the cursor.
pub proof fn lemma_fresh_shift_shows_cursor(gap: int, max: int, index: int, len: int)
    requires
        0 <= gap,
        2 * gap < max,
        0 <= index < len,
    ensures
        0 <= shift_of(gap, max, index, len, None),
        shift_of(gap, max, index, len, None) <= if len > max { len - max } else { 0 },
        shift_of(gap, max, index, len, None) <= index <= shift_of(gap, max, index, len, None) + max - 1,
{
}

/// A fresh shift is settled.
pub proof fn lemma_fresh_shift_settled(gap: int, max: int, index: int, len: int)
    requires
        0 <= gap,
        2 * gap < max,
        0 <= index < len,
    ensures
        settled(gap, max, index, len, shift_of(gap, max, index, len, None)),
{
}

/// Moving the cursor one row from a settled shift moves the window by at
/// most one row, and leaves it settled.
pub proof fn lemma_sticky_shift_single_step(gap: int, max: int, index: int, len: int, shift: int, next: int)
    requires
        0 <= gap,
        2 * gap < max,
        0 <= index < len,
        0 <= next < len,
        next == index + 1 || next == index - 1,
        settled(gap, max, index, len, shift),
    ensures
        shift - 1 <= shift_of(gap, max, next, len, Some(shift)) <= shift + 1,
        settled(gap, max, next, len, shift_of(gap, max, next, len, Some(shift))),
{
}

/// A window that already keeps the gap around the cursor stays where it is.
pub proof fn lemma_sticky_shift_keeps_settled(gap: int, max: int, index: int, len: int, shift: int)
    requires
        0 <= gap,
        2 * gap < max,
        0 <= index < len,
        settled(gap, max, index, len, shift),
    ensures
        shift_of(gap, max, index, len, Some(shift)) == shift,
{
}

} // verus!
