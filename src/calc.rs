use vstd::prelude::*;

verus! {

/// Number of windows of `window_size` consecutive prices in a series of `len`
/// prices, slid with stride one: none when the window is longer than the series.
pub open spec fn window_count(window_size: nat, len: nat) -> nat {
    if window_size > len {
        0
    } else {
        (len - window_size + 1) as nat
    }
}

/// How many averages the moving average of a series of `len` prices has:
/// none at all (`None`) when the series is empty or the window holds fewer
/// than two prices, else one per window. The average number `i` is the mean of
/// the prices at positions `i .. i + window_size`.
pub fn sma_window_count(window_size: usize, len: usize) -> (r: Option<usize>)
    ensures
        r is None <==> (len == 0 || window_size <= 1),
        r matches Some(c) ==> c == window_count(window_size as nat, len as nat),
{
    if len == 0 || window_size <= 1 {
        None
    } else if window_size > len {
        Some(0)
    } else {
        Some(len - window_size + 1)
    }
}

} // verus!
