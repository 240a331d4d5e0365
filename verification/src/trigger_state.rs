//! Consecutive-hit / cooldown trigger state machine.
//!
//! Once per tick the machine consumes one evaluation of the trigger
//! condition (a hit or a miss) together with the current time.  A hit
//! advances the consecutive-hit counter, a miss resets it.  The machine
//! fires when the counter reaches the configured number of consecutive hits
//! and the cooldown deadline of the previous firing has passed; the
//! cooldown gates firing only, never counting, so hits keep accumulating
//! during cooldown and a firing can happen on the first tick after the
//! deadline.  Each firing resets the counter, moves the deadline, and
//! advances the monotonic count of firings until the configured maximum
//! ends the run.
//!
//! Counters saturate instead of wrapping: the consecutive-hit counter can
//! sit at its maximum during a very long run of hits, and the deadline can
//! sit at the largest representable time, without changing when the machine
//! fires.

use vstd::prelude::*;

verus! {

/// Static trigger configuration.
#[derive(Clone, Copy, Debug, PartialEq, Eq, Structural)]
pub struct TriggerConfig {
    /// Consecutive positive evaluations needed for a firing; at least one.
    pub trigger_times: u32,
    /// Maximum number of firings before the run is done.
    pub trigger_count: u32,
    /// Seconds that must pass between two firings.
    pub cooldown: u64,
}

impl TriggerConfig {
    /// A firing needs at least one hit; a zero requirement would fire on
    /// a miss, which is no trigger at all.
    pub open spec fn wf(&self) -> bool {
        self.trigger_times >= 1
    }
}

/// Mutable trigger state, owned by the monitoring loop.
#[derive(Clone, Copy, Debug, PartialEq, Eq, Structural)]
pub struct TriggerState {
    /// Hits on consecutive ticks up to now, saturating.
    pub consecutive_hits: u32,
    /// Firings so far; monotonic.
    pub trigger_count_done: u32,
    /// No firing can happen before this time.
    pub cooldown_until: u64,
}

/// Saturating add on times.
pub open spec fn spec_sat_add64(a: u64, b: u64) -> u64 {
    if a + b > u64::MAX {
        u64::MAX
    } else {
        (a + b) as u64
    }
}

/// Saturating increment on counters.
pub open spec fn spec_sat_inc32(a: u32) -> u32 {
    if a == u32::MAX {
        u32::MAX
    } else {
        (a + 1) as u32
    }
}

/// The consecutive-hit counter after one evaluation.
pub open spec fn spec_hits_after(st: TriggerState, hit: bool) -> u32 {
    if hit {
        spec_sat_inc32(st.consecutive_hits)
    } else {
        0
    }
}

/// Whether this tick fires: the counter (updated by this tick's
/// evaluation) has reached the required consecutive hits, and the cooldown
/// deadline has passed.
pub open spec fn spec_fires(cfg: TriggerConfig, st: TriggerState, hit: bool, now: u64) -> bool {
    spec_hits_after(st, hit) >= cfg.trigger_times && now >= st.cooldown_until
}

/// The state after one tick.
pub open spec fn spec_step_state(
    cfg: TriggerConfig,
    st: TriggerState,
    hit: bool,
    now: u64,
) -> TriggerState {
    if spec_fires(cfg, st, hit, now) {
        TriggerState {
            consecutive_hits: 0,
            trigger_count_done: spec_sat_inc32(st.trigger_count_done),
            cooldown_until: spec_sat_add64(now, cfg.cooldown),
        }
    } else {
        TriggerState { consecutive_hits: spec_hits_after(st, hit), ..st }
    }
}

/// The run is done once the configured number of firings is reached.
pub open spec fn spec_done(cfg: TriggerConfig, st: TriggerState) -> bool {
    st.trigger_count_done >= cfg.trigger_count
}

impl TriggerState {
    /// Fresh state: armed, nothing fired, no cooldown pending.
    pub fn new() -> (st: TriggerState)
        ensures
            st == (TriggerState { consecutive_hits: 0, trigger_count_done: 0, cooldown_until: 0 }),
    {
        TriggerState { consecutive_hits: 0, trigger_count_done: 0, cooldown_until: 0 }
    }
}

/// Advance the machine by one tick.  Returns whether this tick fired; on a
/// firing the caller runs the capture sequence.
pub fn step(cfg: &TriggerConfig, st: &mut TriggerState, hit: bool, now: u64) -> (fired: bool)
    ensures
        fired == spec_fires(*cfg, *old(st), hit, now),
        *final(st) == spec_step_state(*cfg, *old(st), hit, now),
        fired ==> final(st).consecutive_hits == 0,
        fired ==> final(st).cooldown_until == spec_sat_add64(now, cfg.cooldown),
        final(st).trigger_count_done == if fired {
            spec_sat_inc32(old(st).trigger_count_done)
        } else {
            old(st).trigger_count_done
        },
{
    let hits: u32 = if hit {
        if st.consecutive_hits == u32::MAX {
            u32::MAX
        } else {
            st.consecutive_hits + 1
        }
    } else {
        0
    };
    let fired = hits >= cfg.trigger_times && now >= st.cooldown_until;
    if fired {
        st.consecutive_hits = 0;
        st.trigger_count_done = if st.trigger_count_done == u32::MAX {
            u32::MAX
        } else {
            st.trigger_count_done + 1
        };
        st.cooldown_until = if now > u64::MAX - cfg.cooldown {
            u64::MAX
        } else {
            now + cfg.cooldown
        };
    } else {
        st.consecutive_hits = hits;
    }
    fired
}

/// Whether the run is done.
pub fn done(cfg: &TriggerConfig, st: &TriggerState) -> (d: bool)
    ensures
        d == spec_done(*cfg, *st),
{
    st.trigger_count_done >= cfg.trigger_count
}

/// The state after a whole run of ticks, oldest first.  Each tick is the
/// pair of the condition evaluation and the time.
pub open spec fn spec_run(cfg: TriggerConfig, st: TriggerState, ticks: Seq<(bool, u64)>) -> TriggerState
    decreases ticks.len(),
{
    if ticks.len() == 0 {
        st
    } else {
        spec_run(cfg, spec_step_state(cfg, st, ticks.first().0, ticks.first().1), ticks.drop_first())
    }
}

/// The state just before tick `k` of a run.
pub open spec fn spec_state_at(
    cfg: TriggerConfig,
    st: TriggerState,
    ticks: Seq<(bool, u64)>,
    k: int,
) -> TriggerState {
    spec_run(cfg, st, ticks.take(k))
}

/// Whether tick `k` of a run fires.
pub open spec fn spec_fired_at(
    cfg: TriggerConfig,
    st: TriggerState,
    ticks: Seq<(bool, u64)>,
    k: int,
) -> bool {
    spec_fires(cfg, spec_state_at(cfg, st, ticks, k), ticks[k].0, ticks[k].1)
}

/// The state before tick `k + 1` is the step from the state before tick `k`.
pub proof fn lemma_state_at_succ(
    cfg: TriggerConfig,
    st: TriggerState,
    ticks: Seq<(bool, u64)>,
    k: int,
)
    requires
        0 <= k < ticks.len(),
    ensures
        spec_state_at(cfg, st, ticks, k + 1) == spec_step_state(
            cfg,
            spec_state_at(cfg, st, ticks, k),
            ticks[k].0,
            ticks[k].1,
        ),
{
    lemma_run_step(cfg, st, ticks.take(k), ticks[k]);
    assert(ticks.take(k).push(ticks[k]) =~= ticks.take(k + 1));
}

/// Folding a run one tick at a time from the back.
proof fn lemma_run_step(
    cfg: TriggerConfig,
    st: TriggerState,
    ticks: Seq<(bool, u64)>,
    tick: (bool, u64),
)
    ensures
        spec_run(cfg, st, ticks.push(tick)) == spec_step_state(
            cfg,
            spec_run(cfg, st, ticks),
            tick.0,
            tick.1,
        ),
    decreases ticks.len(),
{
    let s = ticks.push(tick);
    if ticks.len() == 0 {
        assert(s.first() == tick);
        assert(s.drop_first() =~= Seq::<(bool, u64)>::empty());
        assert(spec_run(cfg, st, s) == spec_run(
            cfg,
            spec_step_state(cfg, st, tick.0, tick.1),
            s.drop_first(),
        ));
    } else {
        assert(s.first() == ticks.first());
        assert(s.drop_first() =~= ticks.drop_first().push(tick));
        let st1 = spec_step_state(cfg, st, ticks.first().0, ticks.first().1);
        lemma_run_step(cfg, st1, ticks.drop_first(), tick);
        assert(spec_run(cfg, st, s) == spec_run(cfg, st1, s.drop_first()));
        assert(spec_run(cfg, st, ticks) == spec_run(cfg, st1, ticks.drop_first()));
    }
}

/// While every tick's time lies before a deadline that the cooldown has
/// already reserved, nothing fires and the deadline stays reserved.
pub proof fn lemma_cooldown_blocks(
    cfg: TriggerConfig,
    st: TriggerState,
    ticks: Seq<(bool, u64)>,
    deadline: u64,
)
    requires
        st.cooldown_until >= deadline,
        forall|k: int| 0 <= k < ticks.len() ==> (#[trigger] ticks[k]).1 < deadline,
    ensures
        forall|k: int| 0 <= k < ticks.len() ==> !spec_fired_at(cfg, st, ticks, k),
        spec_run(cfg, st, ticks).cooldown_until >= deadline,
{
    assert forall|k: int| 0 <= k < ticks.len() implies !spec_fired_at(cfg, st, ticks, k) by {
        lemma_cooldown_holds_before(cfg, st, ticks, deadline, k);
    }
    if ticks.len() > 0 {
        lemma_state_at_succ(cfg, st, ticks, ticks.len() - 1);
        lemma_cooldown_holds_before(cfg, st, ticks, deadline, ticks.len() - 1);
        assert(ticks.take(ticks.len() as int) =~= ticks);
    } else {
        assert(ticks.take(0) =~= ticks);
    }
}

/// The cooldown reservation is still in force just before tick `k`.
proof fn lemma_cooldown_holds_before(
    cfg: TriggerConfig,
    st: TriggerState,
    ticks: Seq<(bool, u64)>,
    deadline: u64,
    k: int,
)
    requires
        st.cooldown_until >= deadline,
        forall|j: int| 0 <= j < ticks.len() ==> (#[trigger] ticks[j]).1 < deadline,
        0 <= k <= ticks.len(),
    ensures
        spec_state_at(cfg, st, ticks, k).cooldown_until >= deadline,
        k < ticks.len() ==> !spec_fired_at(cfg, st, ticks, k),
    decreases k,
{
    if k == 0 {
        assert(ticks.take(0) =~= Seq::<(bool, u64)>::empty());
    } else {
        lemma_cooldown_holds_before(cfg, st, ticks, deadline, k - 1);
        lemma_state_at_succ(cfg, st, ticks, k - 1);
    }
}

/// Immediately after a firing no further firing can happen until the
/// cooldown has elapsed, whatever the condition evaluates to on the
/// following ticks.
pub proof fn lemma_no_refire_within_cooldown(
    cfg: TriggerConfig,
    st: TriggerState,
    hit: bool,
    now: u64,
    later: Seq<(bool, u64)>,
)
    requires
        spec_fires(cfg, st, hit, now),
        forall|k: int|
            0 <= k < later.len() ==> (#[trigger] later[k]).1 < spec_sat_add64(now, cfg.cooldown),
    ensures
        spec_step_state(cfg, st, hit, now).consecutive_hits == 0,
        forall|k: int|
            0 <= k < later.len() ==> !spec_fired_at(
                cfg,
                spec_step_state(cfg, st, hit, now),
                later,
                k,
            ),
{
    lemma_cooldown_blocks(
        cfg,
        spec_step_state(cfg, st, hit, now),
        later,
        spec_sat_add64(now, cfg.cooldown),
    );
}

/// The consecutive-hit counter never counts more than the hits actually
/// seen: whatever it holds, that many immediately preceding ticks were
/// hits.
pub proof fn lemma_hits_count_trailing_hits(
    cfg: TriggerConfig,
    st: TriggerState,
    ticks: Seq<(bool, u64)>,
    k: int,
)
    requires
        st.consecutive_hits == 0,
        0 <= k <= ticks.len(),
    ensures
        spec_state_at(cfg, st, ticks, k).consecutive_hits <= k,
        forall|j: int|
            0 <= j < spec_state_at(cfg, st, ticks, k).consecutive_hits ==> (#[trigger] ticks[k - 1
                - j]).0,
    decreases k,
{
    if k == 0 {
        assert(ticks.take(0) =~= Seq::<(bool, u64)>::empty());
    } else {
        lemma_hits_count_trailing_hits(cfg, st, ticks, k - 1);
        lemma_state_at_succ(cfg, st, ticks, k - 1);
        let prev = spec_state_at(cfg, st, ticks, k - 1);
        let cur = spec_state_at(cfg, st, ticks, k);
        assert(cur == spec_step_state(cfg, prev, ticks[k - 1].0, ticks[k - 1].1));
        assert(cur.consecutive_hits <= prev.consecutive_hits + 1);
        assert forall|j: int| 0 <= j < cur.consecutive_hits implies (#[trigger] ticks[k - 1
            - j]).0 by {
            assert(ticks[k - 1].0);
            if j > 0 {
                assert(0 <= j - 1 < prev.consecutive_hits);
                assert(ticks[(k - 1) - 1 - (j - 1)].0);
            }
        }
    }
}

/// Soundness half of the firing law: a tick that fires ends a run of at
/// least `trigger_times` consecutive hits, and its time has passed the
/// cooldown deadline.
pub proof fn lemma_fire_has_consecutive_hits(
    cfg: TriggerConfig,
    st: TriggerState,
    ticks: Seq<(bool, u64)>,
    k: int,
)
    requires
        cfg.wf(),
        st.consecutive_hits == 0,
        0 <= k < ticks.len(),
        spec_fired_at(cfg, st, ticks, k),
    ensures
        k + 1 >= cfg.trigger_times,
        forall|i: int| k + 1 - cfg.trigger_times <= i <= k ==> (#[trigger] ticks[i]).0,
        ticks[k].1 >= spec_state_at(cfg, st, ticks, k).cooldown_until,
{
    lemma_hits_count_trailing_hits(cfg, st, ticks, k);
    let c = spec_state_at(cfg, st, ticks, k).consecutive_hits;
    assert(ticks[k].0);
    assert(spec_hits_after(spec_state_at(cfg, st, ticks, k), ticks[k].0) >= cfg.trigger_times);
    assert(c >= cfg.trigger_times - 1);
    assert forall|i: int| k + 1 - cfg.trigger_times <= i <= k implies (#[trigger] ticks[i]).0 by {
        if i < k {
            let j = k - 1 - i;
            assert(0 <= j < c);
            assert(ticks[k - 1 - j].0);
        }
    }
}

/// Hits on consecutive non-firing ticks accumulate in the counter.
proof fn lemma_hits_accumulate(
    cfg: TriggerConfig,
    st: TriggerState,
    ticks: Seq<(bool, u64)>,
    m: int,
    k: int,
)
    requires
        0 <= m <= k <= ticks.len(),
        k - m <= u32::MAX,
        forall|i: int| m <= i < k ==> (#[trigger] ticks[i]).0,
        forall|i: int| m <= i < k ==> !spec_fired_at(cfg, st, ticks, i),
    ensures
        spec_state_at(cfg, st, ticks, k).consecutive_hits >= k - m,
    decreases k - m,
{
    if k > m {
        lemma_hits_accumulate(cfg, st, ticks, m, k - 1);
        lemma_state_at_succ(cfg, st, ticks, k - 1);
        assert(ticks[k - 1].0);
        assert(!spec_fired_at(cfg, st, ticks, k - 1));
        let prev = spec_state_at(cfg, st, ticks, k - 1);
        let cur = spec_state_at(cfg, st, ticks, k);
        assert(cur == spec_step_state(cfg, prev, ticks[k - 1].0, ticks[k - 1].1));
        assert(cur.consecutive_hits == spec_sat_inc32(prev.consecutive_hits));
    }
}

/// Completeness half of the firing law: when the condition has held on
/// `trigger_times` consecutive ticks with no firing among the earlier ones,
/// and the tick that completes the run lies past the cooldown deadline,
/// that tick fires.
pub proof fn lemma_consecutive_hits_fire(
    cfg: TriggerConfig,
    st: TriggerState,
    ticks: Seq<(bool, u64)>,
    k: int,
)
    requires
        cfg.wf(),
        0 <= k < ticks.len(),
        k + 1 >= cfg.trigger_times,
        forall|i: int| k + 1 - cfg.trigger_times <= i <= k ==> (#[trigger] ticks[i]).0,
        forall|i: int| k + 1 - cfg.trigger_times <= i < k ==> !spec_fired_at(cfg, st, ticks, i),
        ticks[k].1 >= spec_state_at(cfg, st, ticks, k).cooldown_until,
    ensures
        spec_fired_at(cfg, st, ticks, k),
{
    let m = k + 1 - cfg.trigger_times;
    lemma_hits_accumulate(cfg, st, ticks, m, k);
}

} // verus!
