//! Index sequences that drive grid sampling.
//!
//! The backing surface is sampled at integer grid indices with a one-step
//! synthetic border on every side, so that a normal can later be estimated
//! for each interior vertex. At step `1` the indices for an axis of length
//! `n` are simply `-1, 0, .., n`. At a larger step the sequence starts at
//! `-step`, advances by `step` while below `n`, appends `n - 1` whenever the
//! regular steps miss it (the image's true edge must always be sampled), and
//! finally appends the index that mirrors the second-to-last entry around
//! `n - 1`, so the tail stays symmetric for border-based normal estimation.
//! For example, length `15` with step `4` gives `-4, 0, 4, 8, 12, 14, 16`.

use vstd::arithmetic::div_mod::{
    lemma_fundamental_div_mod, lemma_fundamental_div_mod_converse,
};
use vstd::prelude::*;

verus! {

/// How many indices `-step + k*step` lie strictly below `length`.
pub open spec fn base_count(length: int, step: int) -> int {
    (length + step - 1) / step + 1
}

/// Whether the regular steps miss the final axis index `length - 1`.
pub open spec fn needs_edge_index(length: int, step: int) -> bool {
    (length - 1) % step != 0
}

/// Length of the full index sequence for one axis.
pub open spec fn extended_count(length: int, step: int) -> int {
    base_count(length, step) + (if needs_edge_index(length, step) { 1int } else { 0int }) + 1
}

/// The closing index: the second-to-last entry of the sequence so far,
/// mirrored around `length - 1`.
pub open spec fn mirror_index(length: int, step: int) -> int {
    if needs_edge_index(length, step) {
        2 * (length - 1) - (base_count(length, step) - 2) * step
    } else {
        2 * (length - 1) - (base_count(length, step) - 3) * step
    }
}

/// The `k`-th index of the sampling sequence for an axis of `length` with
/// the given `step`.
pub open spec fn step_index_at(length: int, step: int, k: int) -> int {
    if k < base_count(length, step) {
        (k - 1) * step
    } else if needs_edge_index(length, step) && k == base_count(length, step) {
        length - 1
    } else {
        mirror_index(length, step)
    }
}

/// Build the index sequence for one axis: every multiple of `step` from
/// `-step` up to (excluding) `length`, then `length - 1` if the steps missed
/// it, then one extra index mirroring the second-to-last entry around
/// `length - 1`. The sequence always carries `length - 1` in its
/// second-to-last slot, and its tail is symmetric around `length - 1`.
pub fn step_iter_with_size(length: u32, step: u32) -> (v: Vec<i64>)
    requires
        1 <= length,
        1 <= step,
    ensures
        v@.len() == extended_count(length as int, step as int),
        forall|k: int|
            0 <= k < v@.len() ==> v@[k] == step_index_at(length as int, step as int, k),
        3 <= v@.len(),
        v@[v@.len() - 2] == length - 1,
        v@[v@.len() - 1] == 2 * (length - 1) - v@[v@.len() - 3],
{
    let length_i64 = length as i64;
    let step_i64 = step as i64;
    let ghost li: int = length as int;
    let ghost si: int = step as int;

    let mut v: Vec<i64> = Vec::new();
    let mut next: i64 = -step_i64;
    proof {
        let n = v@.len() as int;
        assert((n - 1) * si == -si) by (nonlinear_arith)
            requires n == 0;
    }
    while next < length_i64
        invariant
            1 <= li <= u32::MAX,
            1 <= si <= u32::MAX,
            length_i64 == li,
            step_i64 == si,
            next as int == (v@.len() as int - 1) * si,
            -si <= next as int,
            v@.len() == 0 || (v@.len() - 2) * si < li,
            forall|k: int| 0 <= k < v@.len() ==> v@[k] == (k - 1) * si,
            forall|k: int| 0 <= k < v@.len() ==> -si <= #[trigger] v@[k] < li,
        decreases li + si - next,
    {
        proof {
            let n = v@.len() as int;
            assert(n * si == (n - 1) * si + si) by (nonlinear_arith);
        }
        v.push(next);
        next = next + step_i64;
    }

    proof {
        let n = v@.len() as int;
        // The loop ran at least twice: -step and 0 both lie below length.
        assert(n >= 2) by {
            if n < 2 {
                assert((n - 1) * si <= 0) by (nonlinear_arith)
                    requires n <= 1, si >= 1;
            }
        }
        // (n-2)*step < length <= (n-1)*step pins the quotient in base_count
        // down to n - 1, so the sequence so far has exactly base_count
        // entries.
        let r = (li - 1) - (n - 2) * si;
        assert(0 <= r < si && li + si - 1 == (n - 1) * si + r) by (nonlinear_arith)
            requires
                (n - 2) * si < li,
                (n - 1) * si >= li,
                r == (li - 1) - (n - 2) * si,
                si >= 1;
        lemma_fundamental_div_mod_converse(li + si - 1, si, n - 1, r);
        assert(base_count(li, si) == n);
    }

    let ghost base: int = base_count(li, si);

    if (length - 1) % step != 0 {
        v.push(length_i64 - 1);
    }

    proof {
        // In the regular case the last regular entry already equals
        // length - 1.
        if !needs_edge_index(li, si) {
            lemma_fundamental_div_mod(li - 1, si);
            let m = (li - 1) / si;
            assert(li + si - 1 == (m + 1) * si + 0) by (nonlinear_arith)
                requires li - 1 == si * m;
            lemma_fundamental_div_mod_converse(li + si - 1, si, m + 1, 0);
            assert((base - 2) * si == li - 1) by (nonlinear_arith)
                requires base == m + 2, li - 1 == si * m;
        }
        assert(v@[v@.len() - 1] == li - 1);
    }

    let second = v[v.len() - 2];
    let last = 2 * (length_i64 - 1) - second;
    v.push(last);

    proof {
        let n = v@.len() as int;
        assert(n == extended_count(li, si));
        assert(v@[n - 2] == li - 1);
        assert(v@[n - 1] == 2 * (li - 1) - v@[n - 3]);
        assert forall|k: int| 0 <= k < n implies v@[k] == step_index_at(li, si, k) by {
            if k < base {
                assert(v@[k] == (k - 1) * si);
            } else if needs_edge_index(li, si) && k == base {
                assert(v@[k] == li - 1);
            } else {
                assert(k == n - 1);
                if needs_edge_index(li, si) {
                    assert(second == v@[base - 1]);
                    assert(v@[k] == 2 * (li - 1) - (base - 2) * si);
                } else {
                    assert(second == v@[base - 2]);
                    assert(v@[k] == 2 * (li - 1) - (base - 3) * si);
                }
            }
        }
    }
    v
}

} // verus!
