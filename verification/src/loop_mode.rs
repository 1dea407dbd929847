use vstd::prelude::*;

verus! {

/// Playback policy that maps an unbounded elapsed time onto the timeline of
/// a clip whose natural length is `total` (all times in nanoseconds).
#[derive(Clone, Copy, Debug, PartialEq, Eq, Structural)]
pub enum LoopMode {
    /// Plays through once and rests at the final value.
    Once,
    /// Cycles continuously (`t mod T`).
    LoopForever,
    /// Repeats for `n` complete cycles, then freezes at the destination.
    Count(u32),
    /// Alternates forward and reverse passes continuously.
    PingPong,
    /// Alternates forward and reverse for `n` half-cycles, then stops.
    PingPongCount(u32),
}

/// Position inside a forward/backward oscillation of half-period `total`.
pub open spec fn ping_pong_position(t: nat, total: nat) -> nat
    recommends
        total > 0,
{
    if (t / total) % 2 == 0 {
        t % total
    } else {
        (total - t % total) as nat
    }
}

impl LoopMode {
    /// The clip-local time that `mode` assigns to elapsed time `t` for a clip of length `total`.
    pub open spec fn spec_map_time(self, t: nat, total: nat) -> nat {
        if total == 0 {
            0
        } else {
            match self {
                LoopMode::Once => if t < total { t } else { total },
                LoopMode::LoopForever => t % total,
                LoopMode::Count(n) => if t < n * total { t % total } else { total },
                LoopMode::PingPong => ping_pong_position(t, total),
                LoopMode::PingPongCount(n) => if t < n * total {
                    ping_pong_position(t, total)
                } else if n % 2 == 0 {
                    0
                } else {
                    total
                },
            }
        }
    }

    /// Maps elapsed time `t` onto a clip of length `total` according to this policy.
    pub fn map_time(&self, t: u128, total: u128) -> (r: u128)
        ensures
            r == self.spec_map_time(t as nat, total as nat),
            r <= total,
    {
        if total == 0 {
            return 0;
        }
        let cycle = t / total;
        let rem = t % total;
        proof {
            lemma_cycles_below(t as nat, total as nat);
        }
        match *self {
            LoopMode::Once => if t < total { t } else { total },
            LoopMode::LoopForever => rem,
            LoopMode::Count(n) => {
                proof {
                    lemma_before_cycles(t as nat, total as nat, n as nat);
                }
                if cycle < n as u128 { rem } else { total }
            },
            LoopMode::PingPong => if cycle % 2 == 0 { rem } else { total - rem },
            LoopMode::PingPongCount(n) => {
                proof {
                    lemma_before_cycles(t as nat, total as nat, n as nat);
                }
                if cycle < n as u128 {
                    if cycle % 2 == 0 { rem } else { total - rem }
                } else if n % 2 == 0 {
                    0
                } else {
                    total
                }
            },
        }
    }
}

proof fn lemma_cycles_below(t: nat, total: nat)
    requires
        total > 0,
    ensures
        t % total < total,
        t == (t / total) * total + t % total,
{
    vstd::arithmetic::div_mod::lemma_fundamental_div_mod(t as int, total as int);
    vstd::arithmetic::div_mod::lemma_mod_bound(t as int, total as int);
    vstd::arithmetic::mul::lemma_mul_is_commutative(total as int, (t / total) as int);
}

proof fn lemma_before_cycles(t: nat, total: nat, n: nat)
    requires
        total > 0,
    ensures
        (t < n * total) <==> (t / total < n),
{
    lemma_cycles_below(t, total);
    let c = t / total;
    if c < n {
        assert(c * total + total <= n * total) by (nonlinear_arith)
            requires c < n, total > 0;
    } else {
        assert(n * total <= c * total) by (nonlinear_arith)
            requires c >= n, total > 0;
    }
}

/// Every policy keeps the mapped time inside the clip: `0 <= map_time(t, T) <= T`.
pub proof fn lemma_map_time_within_clip(mode: LoopMode, t: nat, total: nat)
    ensures
        mode.spec_map_time(t, total) <= total,
{
    if total > 0 {
        lemma_cycles_below(t, total);
    }
}

/// Looping forever is periodic with the clip length as period.
pub proof fn lemma_loop_forever_periodic(t: nat, total: nat)
    requires
        total > 0,
    ensures
        LoopMode::LoopForever.spec_map_time(t + total, total) == LoopMode::LoopForever.spec_map_time(t, total),
{
    vstd::arithmetic::div_mod::lemma_mod_add_multiples_vanish(t as int, total as int);
}

/// Ping-pong playback repeats after one forward and one backward pass.
pub proof fn lemma_ping_pong_periodic(t: nat, total: nat)
    requires
        total > 0,
    ensures
        LoopMode::PingPong.spec_map_time(t + 2 * total, total) == LoopMode::PingPong.spec_map_time(t, total),
{
    let t2 = t + 2 * total;
    vstd::arithmetic::div_mod::lemma_fundamental_div_mod(t as int, total as int);
    vstd::arithmetic::div_mod::lemma_mod_bound(t as int, total as int);
    vstd::arithmetic::div_mod::lemma_fundamental_div_mod(t2 as int, total as int);
    vstd::arithmetic::div_mod::lemma_mod_bound(t2 as int, total as int);
    let q = t / total;
    let r = t % total;
    assert(t2 == (q + 2) * total + r) by (nonlinear_arith)
        requires t == total * q + r, t2 == t + 2 * total;
    vstd::arithmetic::div_mod::lemma_fundamental_div_mod_converse(t2 as int, total as int, (q + 2) as int, r as int);
}

/// The backward pass of ping-pong mirrors the forward pass: after reaching
/// the end, the position retreats exactly as far as time advances.
pub proof fn lemma_ping_pong_reverses(s: nat, total: nat)
    requires
        total > 0,
        s <= total,
    ensures
        LoopMode::PingPong.spec_map_time(total + s, total) == total - s,
{
    if s < total {
        vstd::arithmetic::div_mod::lemma_fundamental_div_mod_converse((total + s) as int, total as int, 1, s as int);
    } else {
        vstd::arithmetic::div_mod::lemma_fundamental_div_mod_converse((total + s) as int, total as int, 2, 0);
    }
}

/// Playing once rests at the end of the clip once the elapsed time reaches it.
pub proof fn lemma_once_rests_at_end(t: nat, total: nat)
    requires
        t >= total,
    ensures
        LoopMode::Once.spec_map_time(t, total) == total,
{
}

/// A counted loop freezes at the destination after its `n` complete cycles.
pub proof fn lemma_count_freezes_at_end(n: u32, t: nat, total: nat)
    requires
        t >= n * total,
    ensures
        LoopMode::Count(n).spec_map_time(t, total) == total,
{
}

/// A counted ping-pong stops after its `n` half-cycles: at the start when
/// `n` is even, at the end when `n` is odd.
pub proof fn lemma_ping_pong_count_rests(n: u32, t: nat, total: nat)
    requires
        total > 0,
        t >= n * total,
    ensures
        LoopMode::PingPongCount(n).spec_map_time(t, total) == if n % 2 == 0 { 0 } else { total },
{
}

/// During the first pass every policy that plays at least one pass runs the
/// clip forward unchanged.
pub proof fn lemma_first_pass_is_forward(mode: LoopMode, t: nat, total: nat)
    requires
        t < total,
        mode != LoopMode::Count(0),
        mode != LoopMode::PingPongCount(0),
    ensures
        mode.spec_map_time(t, total) == t,
{
    vstd::arithmetic::div_mod::lemma_fundamental_div_mod_converse(t as int, total as int, 0, t as int);
    match mode {
        LoopMode::Count(n) => {
            assert(t < n * total) by (nonlinear_arith)
                requires t < total, n >= 1;
        },
        LoopMode::PingPongCount(n) => {
            assert(t < n * total) by (nonlinear_arith)
                requires t < total, n >= 1;
        },
        _ => {},
    }
}

/// Splitting elapsed time into whole passes and a remainder.
proof fn lemma_pass_split(k: nat, r: nat, total: nat)
    requires
        total > 0,
        r < total,
    ensures
        (k * total + r) / total == k,
        (k * total + r) % total == r,
{
    vstd::arithmetic::div_mod::lemma_fundamental_div_mod_converse((k * total + r) as int, total as int, k as int, r as int);
}

/// Whole passes before the `n`-th end before `n` passes.
proof fn lemma_before_n_passes(k: nat, r: nat, total: nat, n: nat)
    requires
        total > 0,
        r < total,
        k < n,
    ensures
        k * total + r < n * total,
{
    assert(k * total + r < n * total) by (nonlinear_arith)
        requires r < total, k < n, total > 0;
}

/// Looping forever: `r` into any pass plays clip time `r`.
pub proof fn lemma_loop_forever_wraps(k: nat, r: nat, total: nat)
    requires
        r < total,
    ensures
        LoopMode::LoopForever.spec_map_time(k * total + r, total) == r,
{
    lemma_pass_split(k, r, total);
}

/// A counted loop plays each of its `n` passes forward from the start: `r`
/// into pass `k < n` is clip time `r`.
pub proof fn lemma_count_wraps_before_end(n: u32, k: nat, r: nat, total: nat)
    requires
        r < total,
        k < n,
    ensures
        LoopMode::Count(n).spec_map_time(k * total + r, total) == r,
{
    lemma_pass_split(k, r, total);
    lemma_before_n_passes(k, r, total, n as nat);
}

/// Ping-pong plays even passes forward and odd passes backward: `r` into
/// pass `k` is clip time `r` when `k` is even and `total - r` when it is odd.
pub proof fn lemma_ping_pong_alternates(k: nat, r: nat, total: nat)
    requires
        r < total,
    ensures
        LoopMode::PingPong.spec_map_time(k * total + r, total)
            == if k % 2 == 0 { r } else { (total - r) as nat },
{
    lemma_pass_split(k, r, total);
}

/// A counted ping-pong alternates exactly like ping-pong during its `n`
/// half-cycles: forward on even passes, backward on odd ones.
pub proof fn lemma_ping_pong_count_alternates(n: u32, k: nat, r: nat, total: nat)
    requires
        r < total,
        k < n,
    ensures
        LoopMode::PingPongCount(n).spec_map_time(k * total + r, total)
            == if k % 2 == 0 { r } else { (total - r) as nat },
{
    lemma_pass_split(k, r, total);
    lemma_before_n_passes(k, r, total, n as nat);
}

/// The second half-cycle of a counted ping-pong with at least two
/// half-cycles mirrors the first: `s` after the end it is back at `total - s`.
pub proof fn lemma_ping_pong_count_reverses(n: u32, s: nat, total: nat)
    requires
        n >= 2,
        total > 0,
        s <= total,
    ensures
        LoopMode::PingPongCount(n).spec_map_time(total + s, total) == total - s,
{
    if s < total {
        lemma_ping_pong_count_alternates(n, 1, s, total);
    } else {
        if n == 2 {
            lemma_ping_pong_count_rests(n, total + s, total);
        } else {
            lemma_ping_pong_count_alternates(n, 2, 0, total);
        }
    }
}

} // verus!
