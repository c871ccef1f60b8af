use vstd::prelude::*;

verus! {

/// The concurrency that follows `current` after a window without throttling:
/// a quarter more (at least one more), capped at `maximum` (itself at least one).
pub open spec fn spec_increase(current: int, maximum: int) -> int {
    let step = if current / 4 >= 1 { current / 4 } else { 1 };
    let cap = if maximum >= 1 { maximum } else { 1 };
    if current + step <= cap { current + step } else { cap }
}

/// The concurrency that follows `current` after a throttled window: half, at least one.
pub open spec fn spec_decrease(current: int) -> int {
    if current / 2 >= 1 { current / 2 } else { 1 }
}

/// Raises the concurrency gradually: never above `maximum` (taken as at least
/// one), never to zero, by at most a quarter (at least one), and it always
/// grows while it is below that cap.
pub fn increase(current: usize, maximum: usize) -> (next: usize)
    requires
        current + (if current / 4 >= 1 { current / 4 } else { 1 }) <= usize::MAX,
    ensures
        next == spec_increase(current as int, maximum as int),
        1 <= next,
        next <= maximum || next == 1,
        next <= current + (if current / 4 >= 1 { current / 4 } else { 1 }),
        current < maximum ==> current < next,
        current == 0 ==> next == 1,
{
    let quarter = current / 4;
    let step = if quarter >= 1 { quarter } else { 1 };
    let cap = if maximum >= 1 { maximum } else { 1 };
    let raised = current + step;
    if raised <= cap { raised } else { cap }
}

/// Lowers the concurrency fast, by half, but never to zero: one stays one.
pub fn decrease(current: usize) -> (next: usize)
    ensures
        next == spec_decrease(current as int),
        1 <= next,
        1 <= current ==> next <= current,
        2 <= current ==> next < current && current <= 2 * next + 1,
{
    let half = current / 2;
    if half >= 1 { half } else { 1 }
}

} // verus!
