//! The rotation bookkeeping of the sampling loop: when a file must be closed
//! and a new one opened, and the schedule a run therefore follows — which
//! instants open files and how many rows each file receives.

use vstd::arithmetic::div_mod::lemma_fundamental_div_mod;
use vstd::arithmetic::div_mod::lemma_mod_bound;
use vstd::arithmetic::mul::lemma_mul_inequality;
use vstd::arithmetic::mul::lemma_mul_strict_inequality;
use vstd::prelude::*;

verus! {

/// `ceil(d / r)`.
pub open spec fn ceil_div(d: nat, r: nat) -> nat
    recommends
        r >= 1,
{
    (d + r - 1) as nat / r
}

/// The instant, in seconds from the start of a run, at which file `i` is
/// opened: rotation closes a file after each full rotation interval.
pub open spec fn open_time_spec(i: nat, rotation: nat) -> nat {
    i * rotation
}

/// The end of the time window file `i` covers: the next open instant, or the
/// end of the run if that comes first.
pub open spec fn window_end_spec(i: nat, rotation: nat, duration: nat) -> nat {
    if open_time_spec((i + 1) as nat, rotation) <= duration {
        open_time_spec((i + 1) as nat, rotation)
    } else {
        duration
    }
}

/// Rotation is due exactly when at least the rotation interval has elapsed
/// since the current file was opened. Checked before every sample.
pub fn rotation_due(elapsed_secs: u64, rotation_secs: u64) -> (r: bool)
    ensures
        r == (elapsed_secs >= rotation_secs),
{
    elapsed_secs >= rotation_secs
}

/// A count `k` whose multiples of `r` first reach `d` at `k` is the ceiling
/// of `d / r`.
proof fn lemma_ceil_div_unique(d: nat, r: nat, k: nat)
    requires
        r >= 1,
        k >= 1,
        k * r >= d,
        (k - 1) * r < d,
    ensures
        k == ceil_div(d, r),
{
    let n = (d + r - 1) as int;
    let q = n / (r as int);
    lemma_fundamental_div_mod(n, r as int);
    lemma_mod_bound(n, r as int);
    assert((k - 1) * r == k * r - r) by (nonlinear_arith);
    assert((r as int) * q == n - (n % (r as int)));
    assert((r as int) * q >= d);
    assert((r as int) * q <= n);
    assert(k * r <= n);
    if q < k as int {
        lemma_mul_inequality(q + 1, k as int, r as int);
        assert((q + 1) * (r as int) == q * (r as int) + r) by (nonlinear_arith);
        assert(q * (r as int) == (r as int) * q) by (nonlinear_arith);
        assert(false);
    }
    if (k as int) < q {
        lemma_mul_inequality(k as int + 1, q, r as int);
        assert((k as int + 1) * (r as int) == k as int * (r as int) + r) by (nonlinear_arith);
        assert(q * (r as int) == (r as int) * q) by (nonlinear_arith);
        assert(false);
    }
    assert(q == k as int);
}

/// The ceiling count itself satisfies the reaching bounds.
pub proof fn lemma_ceil_div_bounds(d: nat, r: nat)
    requires
        r >= 1,
        d >= 1,
    ensures
        ceil_div(d, r) >= 1,
        ceil_div(d, r) * r >= d,
        (ceil_div(d, r) - 1) * r < d,
{
    let n = (d + r - 1) as int;
    let q = n / (r as int);
    lemma_fundamental_div_mod(n, r as int);
    lemma_mod_bound(n, r as int);
    assert((r as int) * q == n - (n % (r as int)));
    assert((r as int) * q >= d);
    assert((r as int) * q <= n);
    assert(q >= 1) by {
        if q <= 0 {
            assert((r as int) * q <= 0) by (nonlinear_arith)
                requires
                    q <= 0,
                    r >= 1,
            ;
        }
    }
    assert(q * (r as int) == (r as int) * q) by (nonlinear_arith);
    assert((q - 1) * (r as int) == q * (r as int) - r) by (nonlinear_arith);
}

/// A run of no time opens no file in the schedule model.
proof fn lemma_ceil_div_zero(r: nat)
    requires
        r >= 1,
    ensures
        ceil_div(0, r) == 0,
{
    let n = (r - 1) as int;
    let q = n / (r as int);
    lemma_fundamental_div_mod(n, r as int);
    lemma_mod_bound(n, r as int);
    if q >= 1 {
        lemma_mul_inequality(1, q, r as int);
        assert(q * (r as int) == (r as int) * q) by (nonlinear_arith);
        assert(false);
    }
    if q <= -1 {
        lemma_mul_inequality(q, -1, r as int);
        assert(q * (r as int) == (r as int) * q) by (nonlinear_arith);
        assert(false);
    }
}

/// The instants at which a run of `duration_secs` seconds opens its files:
/// `0, R, 2R, ...`, one per rotation window the run touches, `ceil(D / R)`
/// in all, none for a run of no time. Eager creation: the first file opens
/// at the start of the run.
pub fn open_times(rotation_secs: u64, duration_secs: u64) -> (r: Vec<u64>)
    requires
        1 <= rotation_secs,
        duration_secs + rotation_secs <= u64::MAX,
    ensures
        r@.len() == ceil_div(duration_secs as nat, rotation_secs as nat),
        forall|i: int| 0 <= i < r@.len() ==> r@[i] == open_time_spec(i as nat, rotation_secs as nat),
{
    let mut r: Vec<u64> = Vec::new();
    let mut t: u64 = 0;
    proof {
        assert(0 * (rotation_secs as int) == 0) by (nonlinear_arith);
    }
    while t < duration_secs
        invariant
            1 <= rotation_secs,
            duration_secs + rotation_secs <= u64::MAX,
            t == r@.len() * rotation_secs,
            r@.len() == 0 ==> t == 0,
            r@.len() >= 1 ==> (r@.len() - 1) * rotation_secs < duration_secs,
            forall|i: int|
                0 <= i < r@.len() ==> r@[i] == open_time_spec(i as nat, rotation_secs as nat),
        decreases duration_secs + rotation_secs - t,
    {
        r.push(t);
        proof {
            assert(r@.len() * rotation_secs == (r@.len() - 1) * rotation_secs + rotation_secs)
                by (nonlinear_arith);
        }
        t = t + rotation_secs;
    }
    proof {
        if r@.len() == 0 {
            lemma_ceil_div_zero(rotation_secs as nat);
        } else {
            lemma_ceil_div_unique(duration_secs as nat, rotation_secs as nat, r@.len());
        }
    }
    r
}

/// The number of rows each file of a run receives when one row lands each
/// second: file `i` covers `[i·R, min((i+1)·R, D))` and gets one row per
/// second of its window.
pub fn rows_per_file(rotation_secs: u64, duration_secs: u64) -> (r: Vec<u64>)
    requires
        1 <= rotation_secs,
        duration_secs + rotation_secs <= u64::MAX,
    ensures
        r@.len() == ceil_div(duration_secs as nat, rotation_secs as nat),
        forall|i: int|
            0 <= i < r@.len() ==> r@[i] == window_end_spec(
                i as nat,
                rotation_secs as nat,
                duration_secs as nat,
            ) - open_time_spec(i as nat, rotation_secs as nat),
{
    let mut r: Vec<u64> = Vec::new();
    let mut t: u64 = 0;
    proof {
        assert(0 * (rotation_secs as int) == 0) by (nonlinear_arith);
    }
    while t < duration_secs
        invariant
            1 <= rotation_secs,
            duration_secs + rotation_secs <= u64::MAX,
            t == r@.len() * rotation_secs,
            r@.len() == 0 ==> t == 0,
            r@.len() >= 1 ==> (r@.len() - 1) * rotation_secs < duration_secs,
            forall|i: int|
                0 <= i < r@.len() ==> r@[i] == window_end_spec(
                    i as nat,
                    rotation_secs as nat,
                    duration_secs as nat,
                ) - open_time_spec(i as nat, rotation_secs as nat),
        decreases duration_secs + rotation_secs - t,
    {
        let end = if t + rotation_secs <= duration_secs {
            t + rotation_secs
        } else {
            duration_secs
        };
        r.push(end - t);
        proof {
            assert(r@.len() * rotation_secs == (r@.len() - 1) * rotation_secs + rotation_secs)
                by (nonlinear_arith);
            assert(open_time_spec((r@.len() - 1) as nat, rotation_secs as nat) == t);
            assert(r@[r@.len() - 1] == window_end_spec(
                (r@.len() - 1) as nat,
                rotation_secs as nat,
                duration_secs as nat,
            ) - open_time_spec((r@.len() - 1) as nat, rotation_secs as nat));
        }
        t = t + rotation_secs;
    }
    proof {
        if r@.len() == 0 {
            lemma_ceil_div_zero(rotation_secs as nat);
        } else {
            lemma_ceil_div_unique(duration_secs as nat, rotation_secs as nat, r@.len());
        }
    }
    r
}

/// For any rotation interval R and run duration D (whole seconds, with a
/// sample each second), the run creates exactly `ceil(D / R)` files; their
/// windows are ordered by open instant, non-overlapping, contiguous, and
/// together cover the run: each window ends where the next begins, and the
/// last ends at D. Successive open instants lie a full rotation interval
/// apart, so with R at least one second no two files share a creation second.
#[verifier::rlimit(60)]
pub proof fn lemma_rotation_schedule(rotation: nat, duration: nat)
    requires
        rotation >= 1,
        duration >= 1,
    ensures
        ceil_div(duration, rotation) >= 1,
        forall|i: nat, j: nat|
            i < j ==> #[trigger] open_time_spec(i, rotation) < #[trigger] open_time_spec(
                j,
                rotation,
            ),
        forall|i: nat|
            #[trigger] open_time_spec(i, rotation) + rotation == open_time_spec(
                (i + 1) as nat,
                rotation,
            ),
        forall|i: nat|
            i < ceil_div(duration, rotation) ==> open_time_spec(i, rotation)
                <= #[trigger] window_end_spec(i, rotation, duration),
        forall|i: nat|
            i + 1 < ceil_div(duration, rotation) ==> #[trigger] window_end_spec(
                i,
                rotation,
                duration,
            ) == open_time_spec((i + 1) as nat, rotation),
        window_end_spec((ceil_div(duration, rotation) - 1) as nat, rotation, duration) == duration,
        forall|i: nat|
            i < ceil_div(duration, rotation) ==> #[trigger] open_time_spec(i, rotation) < duration,
{
    let count = ceil_div(duration, rotation);
    lemma_ceil_div_bounds(duration, rotation);
    assert forall|i: nat, j: nat| i < j implies open_time_spec(i, rotation) < open_time_spec(
        j,
        rotation,
    ) by {
        lemma_mul_strict_inequality(i as int, j as int, rotation as int);
    }
    assert forall|i: nat|
        #[trigger] open_time_spec(i, rotation) + rotation == open_time_spec(
        (i + 1) as nat,
        rotation,
    ) by {
        assert((i + 1) * rotation == i * rotation + rotation) by (nonlinear_arith);
    }
    assert forall|i: nat| i < count implies open_time_spec(i, rotation) <= #[trigger] window_end_spec(
        i,
        rotation,
        duration,
    ) by {
        assert((i + 1) * rotation == i * rotation + rotation) by (nonlinear_arith);
        lemma_mul_inequality(i as int, count as int - 1, rotation as int);
        assert((count - 1) * rotation < duration);
    }
    assert forall|i: nat| i + 1 < count implies #[trigger] window_end_spec(i, rotation, duration)
        == open_time_spec((i + 1) as nat, rotation) by {
        lemma_mul_inequality(i as int + 1, count as int - 1, rotation as int);
        assert((count - 1) * rotation < duration);
    }
    assert(window_end_spec((count - 1) as nat, rotation, duration) == duration) by {
        assert(((count - 1) + 1) as nat == count);
        assert(count * rotation >= duration);
        assert(open_time_spec(count, rotation) == count * rotation);
    }
    assert forall|i: nat| i < count implies #[trigger] open_time_spec(i, rotation) < duration by {
        lemma_mul_inequality(i as int, count as int - 1, rotation as int);
        assert((count - 1) * rotation < duration);
    }
}

} // verus!
