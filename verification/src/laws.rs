//! The guarantees the combat core gives, stated and proved once, on top of
//! the step relations of the attack lifecycle.

use vstd::prelude::*;

use crate::agent::{dist2, selected_target, sticky_keeps, threshold_sq};
use crate::attack::{lifespan_step_spec, pending_promotes, pending_step_spec};
use crate::conditions::unfired_count;
use crate::timer::{Timer, delta_sum, lemma_fired_monotonic, lemma_lifespan_termination, ticked};
use crate::world::{AttackInstance, World, attack_after_hit, hit_applies, resolve_step_rel};

verus! {

/// At most one hit per attack and target: after one overlap between attack
/// `a` and target `t` has been resolved — whether or not it applied — a
/// second overlap of the same pair changes nothing, so the effect reaches a
/// target at most once over the attack's whole lifetime.
pub proof fn lemma_at_most_one_hit(w0: World, w1: World, w2: World, a: usize, t: usize)
    requires
        resolve_step_rel(w0, w1, a, t),
        resolve_step_rel(w1, w2, a, t),
    ensures
        !hit_applies(w1, a, t),
        w2 == w1,
{
    if hit_applies(w0, a, t) {
        assert(w1.attacks@[a as int].bundle.attack.hit_set.set().contains(t));
    }
}

/// No friendly fire: an overlap between an attack and a target of the same
/// faction never applies the effect — the world is untouched.
pub proof fn lemma_no_friendly_fire(w0: World, w1: World, a: usize, t: usize)
    requires
        a < w0.attacks@.len(),
        t < w0.entities@.len(),
        w0.attacks@[a as int].bundle.attack.faction == w0.entities@[t as int].faction,
        resolve_step_rel(w0, w1, a, t),
    ensures
        !hit_applies(w0, a, t),
        w1 == w0,
{
}

/// Projectile termination: a successful hit destroys a projectile exactly
/// when it is the one that exhausts the hit budget; a melee attack is never
/// destroyed by a hit.
pub proof fn lemma_projectile_termination(w0: World, w1: World, a: usize, t: usize)
    requires
        resolve_step_rel(w0, w1, a, t),
        hit_applies(w0, a, t),
    ensures
        w0.attacks@[a as int].bundle.attack.velocity.is_some() ==> (
        w1.attacks@[a as int].alive <==> w0.attacks@[a as int].bundle.attack.hit_set.count() + 1
            < w0.attacks@[a as int].bundle.attack.hit_budget),
        w0.attacks@[a as int].bundle.attack.velocity.is_none() ==> w1.attacks@[a as int].alive
            == w0.attacks@[a as int].alive,
{
    assert(attack_after_hit(w0.attacks@[a as int], w1.attacks@[a as int], t));
    if w0.attacks@[a as int].bundle.attack.velocity.is_none() {
        assert(w0.attacks@[a as int].alive);
    }
}

/// A projectile with a hit budget of two survives its first distinct hit and
/// is destroyed exactly by its second.
pub proof fn lemma_projectile_two_hits(
    w0: World,
    w1: World,
    w2: World,
    a: usize,
    t1: usize,
    t2: usize,
)
    requires
        resolve_step_rel(w0, w1, a, t1),
        hit_applies(w0, a, t1),
        resolve_step_rel(w1, w2, a, t2),
        hit_applies(w1, a, t2),
        w0.attacks@[a as int].bundle.attack.velocity.is_some(),
        w0.attacks@[a as int].bundle.attack.hit_budget == 2,
        w0.attacks@[a as int].bundle.attack.hit_set.count() == 0,
    ensures
        w1.attacks@[a as int].alive,
        !w2.attacks@[a as int].alive,
{
    assert(attack_after_hit(w0.attacks@[a as int], w1.attacks@[a as int], t1));
    assert(attack_after_hit(w1.attacks@[a as int], w2.attacks@[a as int], t2));
}

/// The value of an attack slot after a whole run of lifespan ticks.
pub open spec fn lifespan_run(inst: AttackInstance, deltas: Seq<u64>) -> AttackInstance
    decreases deltas.len(),
{
    if deltas.len() == 0 {
        inst
    } else {
        lifespan_run(lifespan_step_spec(inst, deltas[0]), deltas.drop_first())
    }
}

/// Lifespan termination: a live melee attack whose lifespan was constructed
/// with duration `d > 0` is destroyed by a run of lifespan ticks exactly
/// when the total simulated time reaches `d` — at time >= `d`, never before.
pub proof fn lemma_lifespan_termination_attack(inst: AttackInstance, d: u64, deltas: Seq<u64>)
    requires
        d > 0,
        inst.alive,
        inst.bundle.lifespan matches Some(ls) && ls.timer == Timer::fresh_spec(d),
    ensures
        lifespan_run(inst, deltas).alive <==> delta_sum(deltas) < d,
{
    lemma_lifespan_run_tracks(inst, deltas);
    lemma_lifespan_termination(d, deltas);
}

/// Along any run of lifespan ticks, a live melee attack stays alive exactly
/// while its timer has not fired, and the timer evolves as a plain tick run.
proof fn lemma_lifespan_run_tracks(inst: AttackInstance, deltas: Seq<u64>)
    requires
        inst.alive,
        inst.bundle.lifespan is Some,
        !(match inst.bundle.lifespan {
            Some(ls) => ls.timer.fired,
            None => true,
        }),
    ensures
        lifespan_run(inst, deltas).alive <==> !(match inst.bundle.lifespan {
            Some(ls) => ticked(ls.timer, deltas).fired,
            None => true,
        }),
    decreases deltas.len(),
{
    if deltas.len() > 0 {
        let ls = inst.bundle.lifespan->Some_0;
        let inst1 = lifespan_step_spec(inst, deltas[0]);
        let t1 = ls.timer.tick_spec(deltas[0]);
        if t1.just_fired {
            assert(!inst1.alive);
            lemma_lifespan_run_dead(inst1, deltas.drop_first());
            lemma_fired_monotonic(t1, deltas.drop_first());
        } else {
            assert(!t1.fired);
            lemma_lifespan_run_tracks(inst1, deltas.drop_first());
        }
    }
}

/// A destroyed attack slot is never resurrected by lifespan ticks.
proof fn lemma_lifespan_run_dead(inst: AttackInstance, deltas: Seq<u64>)
    requires
        !inst.alive,
    ensures
        !lifespan_run(inst, deltas).alive,
    decreases deltas.len(),
{
    if deltas.len() > 0 {
        lemma_lifespan_run_dead(lifespan_step_spec(inst, deltas[0]), deltas.drop_first());
    }
}

/// A row of condition timers after a run of ticks, every timer advanced by
/// every delta — exactly what repeated condition ticking does to them.
pub open spec fn timers_run(ts: Seq<Timer>, deltas: Seq<u64>) -> Seq<Timer>
    decreases deltas.len(),
{
    if deltas.len() == 0 {
        ts
    } else {
        timers_run(ts.map_values(|t: Timer| t.tick_spec(deltas[0])), deltas.drop_first())
    }
}

/// Ticking a row of timers ticks each timer on its own.
proof fn lemma_timers_run_pointwise(ts: Seq<Timer>, deltas: Seq<u64>)
    ensures
        timers_run(ts, deltas).len() == ts.len(),
        forall|j: int|
            0 <= j < ts.len() ==> #[trigger] timers_run(ts, deltas)[j] == ticked(ts[j], deltas),
    decreases deltas.len(),
{
    if deltas.len() > 0 {
        let ts1 = ts.map_values(|t: Timer| t.tick_spec(deltas[0]));
        lemma_timers_run_pointwise(ts1, deltas.drop_first());
    }
}

/// How many of the given durations are longer than an elapsed time `s`.
pub open spec fn count_outlasting(durations: Seq<u64>, s: int) -> int
    decreases durations.len(),
{
    if durations.len() == 0 {
        0
    } else {
        count_outlasting(durations.drop_last(), s) + if durations.last() > s {
            1int
        } else {
            0int
        }
    }
}

/// Condition stacking over time: a condition applied once per duration in
/// `durations`, then driven by any run of ticks, keeps exactly one stack per
/// application whose duration exceeds the total simulated time — each timer
/// removes its own stack independently when it expires.
pub proof fn lemma_condition_stacking(durations: Seq<u64>, deltas: Seq<u64>)
    requires
        forall|j: int| 0 <= j < durations.len() ==> (#[trigger] durations[j]) > 0,
    ensures
        unfired_count(
            timers_run(durations.map_values(|d: u64| Timer::fresh_spec(d)), deltas),
        ) == count_outlasting(durations, delta_sum(deltas)),
    decreases durations.len(),
{
    let fresh = durations.map_values(|d: u64| Timer::fresh_spec(d));
    let run = timers_run(fresh, deltas);
    lemma_timers_run_pointwise(fresh, deltas);
    if durations.len() == 0 {
        assert(run.len() == 0);
    } else {
        let shorter = durations.drop_last();
        let fresh_shorter = shorter.map_values(|d: u64| Timer::fresh_spec(d));
        lemma_timers_run_pointwise(fresh_shorter, deltas);
        assert(run.drop_last() =~= timers_run(fresh_shorter, deltas));
        lemma_condition_stacking(shorter, deltas);
        lemma_lifespan_termination(durations.last(), deltas);
        crate::timer::lemma_delta_sum_nonneg(deltas);
        assert(run.last() == ticked(Timer::fresh_spec(durations.last()), deltas));
    }
}

/// Sticky targeting: while an agent's acquired target still exists and lies
/// within the agent's chase threshold, perception keeps it — no other
/// candidate is even considered.
pub proof fn lemma_sticky_targeting(w: World, agent_id: usize, t: usize)
    requires
        agent_id < w.entities@.len(),
        w.entities@[agent_id as int].agent.chaser.target == Some(t),
        t < w.entities@.len(),
        w.entities@[t as int].alive,
        dist2(w, agent_id, t) <= threshold_sq(w, agent_id),
    ensures
        selected_target(w, agent_id) == Some(t),
{
    reveal(selected_target);
    assert(sticky_keeps(w, agent_id));
}

/// Pending-attack promotion happens at most once: the tick that promotes a
/// pending attack consumes its bundle, and a consumed pending attack is
/// never promoted again, whatever ticks follow.
pub proof fn lemma_pending_promotes_once(
    p: crate::attack::PendingAttack,
    d1: u64,
    d2: u64,
)
    requires
        pending_promotes(p, d1),
    ensures
        pending_step_spec(p, d1).bundle is None,
        !pending_promotes(pending_step_spec(p, d1), d2),
{
}

} // verus!
