//! The simulation arena: entities, live attacks and pending attacks, with
//! the collision-gated hit resolution at its heart.
//!
//! Entities and attacks are addressed by stable integer identifiers — their
//! index in the arena; destroyed ones stay behind as dead slots so that
//! identifiers never move.  The physics collaborator reports overlaps as
//! plain `(attack, target)` pairs; [`World::resolve_collision`] is the single
//! authoritative point that turns an overlap into at most one application of
//! the attack's effect per target.

use vstd::prelude::*;

use crate::Faction;
use crate::Health;
use crate::agent::AgentState;
use crate::attack::{AttackBundle, ConditionType, Effect, PendingAttack};
use crate::conditions::{
    Condition, ConditionTrait, Locked, apply_condition, condition_slot_wf, condition_stack_of,
    condition_timers_of,
};
use crate::math::{Vec3, apply_knockback, knockback_spec, sat_sub_i64, sat_sub_spec};
use crate::timer::Timer;

verus! {

/// One combat-capable entity: a position, a faction tag, hit points, an
/// optional action-locked condition and the utility-AI state of agents.
pub struct EntityState {
    pub alive: bool,
    pub position: Vec3,
    pub faction: Faction,
    pub health: Health,
    pub locked: Option<Condition<Locked>>,
    pub agent: AgentState,
}

impl EntityState {
    pub open spec fn wf(self) -> bool {
        condition_slot_wf(self.locked)
    }
}

/// One attack slot of the arena: the attack's data plus a liveness flag;
/// destroyed attacks keep their slot so identifiers stay stable.
pub struct AttackInstance {
    pub alive: bool,
    pub bundle: AttackBundle,
}

/// The whole simulation state.
pub struct World {
    pub entities: Vec<EntityState>,
    pub attacks: Vec<AttackInstance>,
    pub pending: Vec<PendingAttack>,
}

impl World {
    pub open spec fn wf(self) -> bool {
        &&& forall|i: int|
            0 <= i < self.entities@.len() ==> (#[trigger] self.entities@[i]).wf()
        &&& forall|i: int|
            0 <= i < self.attacks@.len() ==> (#[trigger] self.attacks@[i]).bundle.wf()
        &&& forall|i: int|
            0 <= i < self.pending@.len() ==> match (#[trigger] self.pending@[i]).bundle {
                Some(b) => b.wf(),
                None => true,
            }
    }

    pub fn new() -> (r: World)
        ensures
            r.wf(),
            r.entities@.len() == 0,
            r.attacks@.len() == 0,
            r.pending@.len() == 0,
    {
        World { entities: Vec::new(), attacks: Vec::new(), pending: Vec::new() }
    }

    /// Create a combat entity and return its identifier.  Construction
    /// cannot fail: the arena grows as needed.
    pub fn spawn_entity(&mut self, position: Vec3, faction: Faction, max_health: i64) -> (id:
        usize)
        requires
            old(self).wf(),
        ensures
            final(self).wf(),
            id == old(self).entities@.len(),
            final(self).entities@ == old(self).entities@.push(
                EntityState {
                    alive: true,
                    position,
                    faction,
                    health: Health { max: max_health, current: max_health },
                    locked: None,
                    agent: AgentState::inert_spec(),
                },
            ),
            final(self).attacks@ == old(self).attacks@,
            final(self).pending@ == old(self).pending@,
    {
        let id = self.entities.len();
        self.entities.push(
            EntityState {
                alive: true,
                position,
                faction,
                health: Health::new(max_health),
                locked: None,
                agent: AgentState::inert(),
            },
        );
        id
    }

    /// Place a fully built attack into the world as a live instance and
    /// return its identifier.
    pub fn spawn_attack(&mut self, bundle: AttackBundle) -> (id: usize)
        requires
            old(self).wf(),
            bundle.wf(),
        ensures
            final(self).wf(),
            id == old(self).attacks@.len(),
            final(self).attacks@ == old(self).attacks@.push(AttackInstance { alive: true, bundle }),
            final(self).entities@ == old(self).entities@,
            final(self).pending@ == old(self).pending@,
    {
        let id = self.attacks.len();
        self.attacks.push(AttackInstance { alive: true, bundle });
        id
    }

    /// Wrap a fully built attack behind a wind-up delay; on expiry of the
    /// delay it is promoted into the world exactly once.
    pub fn schedule_pending(&mut self, bundle: AttackBundle, delay_ms: u64) -> (id: usize)
        requires
            old(self).wf(),
            bundle.wf(),
        ensures
            final(self).wf(),
            id == old(self).pending@.len(),
            final(self).pending@ == old(self).pending@.push(
                PendingAttack { bundle: Some(bundle), timer: Timer::fresh_spec(delay_ms) },
            ),
            final(self).entities@ == old(self).entities@,
            final(self).attacks@ == old(self).attacks@,
    {
        let id = self.pending.len();
        self.pending.push(PendingAttack::new(bundle, delay_ms));
        id
    }
}

/// The sequence of expiry countdowns that applying `conds` in order pushes
/// onto a condition slot.
pub open spec fn timers_of_conditions(conds: Seq<ConditionType>) -> Seq<Timer> {
    conds.map_values(
        |c: ConditionType|
            match c {
                ConditionType::Locked { duration_ms } => Timer::fresh_spec(duration_ms),
            },
    )
}

/// How one application of an effect changes its target: damage is taken
/// (saturating at the representable range), knockback displaces the
/// position, and every condition in the effect stacks once on the target.
/// Nothing else about the entity changes.
pub open spec fn effect_applied(before: EntityState, after: EntityState, eff: Effect) -> bool {
    &&& after.alive == before.alive
    &&& after.faction == before.faction
    &&& after.agent == before.agent
    &&& after.health.max == before.health.max
    &&& after.health.current == sat_sub_spec(before.health.current as int, eff.damage as int)
    &&& after.position == knockback_spec(before.position, eff.knockback)
    &&& condition_stack_of(after.locked) == condition_stack_of(before.locked)
        + eff.conditions@.len()
    &&& condition_timers_of(after.locked) == condition_timers_of(before.locked)
        + timers_of_conditions(eff.conditions@)
}

/// Apply an effect to one entity.  This cannot fail; it only mutates the
/// target.
fn apply_effect_to(target: &mut EntityState, effect: &Effect)
    requires
        old(target).wf(),
        condition_stack_of(old(target).locked) + effect.conditions@.len() <= usize::MAX,
    ensures
        final(target).wf(),
        effect_applied(*old(target), *final(target), *effect),
{
    target.health.current = sat_sub_i64(target.health.current, effect.damage);
    target.position = apply_knockback(target.position, effect.knockback);
    let ghost locked0 = old(target).locked;
    let n = effect.conditions.len();
    let mut k: usize = 0;
    while k < n
        invariant
            k <= n,
            n == effect.conditions@.len(),
            condition_slot_wf(target.locked),
            condition_stack_of(target.locked) == condition_stack_of(locked0) + k,
            condition_stack_of(locked0) + n <= usize::MAX,
            condition_timers_of(target.locked) == condition_timers_of(locked0)
                + timers_of_conditions(effect.conditions@.subrange(0, k as int)),
            target.alive == old(target).alive,
            target.faction == old(target).faction,
            target.agent == old(target).agent,
            target.health.max == old(target).health.max,
            target.health.current == sat_sub_spec(
                old(target).health.current as int,
                effect.damage as int,
            ),
            target.position == knockback_spec(old(target).position, effect.knockback),
        decreases n - k,
    {
        let ghost timers_before = condition_timers_of(target.locked);
        let ct = effect.conditions[k];
        match ct {
            ConditionType::Locked { duration_ms } => {
                apply_condition(&mut target.locked, duration_ms);
            },
        }
        proof {
            let prefix = effect.conditions@.subrange(0, k as int);
            let prefix1 = effect.conditions@.subrange(0, k as int + 1);
            assert(prefix1.drop_last() =~= prefix);
            assert(timers_of_conditions(prefix1) =~= timers_of_conditions(prefix).push(
                timers_of_conditions(prefix1).last(),
            ));
            assert(condition_timers_of(target.locked) =~= condition_timers_of(locked0)
                + timers_of_conditions(prefix1));
        }
        k = k + 1;
    }
    proof {
        assert(effect.conditions@.subrange(0, n as int) =~= effect.conditions@);
    }
}

/// Whether identifier `a` names a live attack.
pub open spec fn attack_valid(w: World, a: usize) -> bool {
    a < w.attacks@.len() && w.attacks@[a as int].alive
}

/// Whether identifier `t` names a live entity.
pub open spec fn target_valid(w: World, t: usize) -> bool {
    t < w.entities@.len() && w.entities@[t as int].alive
}

/// Whether an overlap between attack `a` and target `t` leads to the effect
/// being applied: both must be live, the factions must differ (no friendly
/// fire), the attack must not have struck this target before, and the
/// target's condition stack must have room for the effect's conditions — a
/// pure machine limit, true in any reachable world.
pub open spec fn hit_applies(w: World, a: usize, t: usize) -> bool {
    &&& attack_valid(w, a)
    &&& target_valid(w, t)
    &&& w.attacks@[a as int].bundle.attack.faction != w.entities@[t as int].faction
    &&& !w.attacks@[a as int].bundle.attack.hit_set.set().contains(t)
    &&& condition_stack_of(w.entities@[t as int].locked)
        + w.attacks@[a as int].bundle.attack.effect.conditions@.len() <= usize::MAX
}

/// How a successful hit on target `t` changes the attack instance: the
/// target joins the hit set, everything else about the attack stays, and a
/// projectile whose distinct-hit count has reached its budget is destroyed.
pub open spec fn attack_after_hit(before: AttackInstance, after: AttackInstance, t: usize) -> bool {
    &&& after.bundle.attack.hit_set.set() == before.bundle.attack.hit_set.set().insert(t)
    &&& after.bundle.attack.hit_set.count() == before.bundle.attack.hit_set.count() + 1
    &&& after.bundle.attack.effect == before.bundle.attack.effect
    &&& after.bundle.attack.velocity == before.bundle.attack.velocity
    &&& after.bundle.attack.faction == before.bundle.attack.faction
    &&& after.bundle.attack.hit_budget == before.bundle.attack.hit_budget
    &&& after.bundle.hit_box == before.bundle.hit_box
    &&& after.bundle.lifespan == before.bundle.lifespan
    &&& after.bundle.transform == before.bundle.transform
    &&& after.bundle.sensor == before.bundle.sensor
    &&& after.alive == !(before.bundle.attack.velocity.is_some()
        && before.bundle.attack.hit_set.count() + 1 >= before.bundle.attack.hit_budget)
}

/// How resolving one overlap event `(a, t)` relates the world before and
/// after: either the hit applies — the target takes the effect, the attack
/// records the target, and nothing else changes — or the world is untouched.
pub open spec fn resolve_step_rel(pre: World, post: World, a: usize, t: usize) -> bool {
    if hit_applies(pre, a, t) {
        &&& post.entities@.len() == pre.entities@.len()
        &&& post.attacks@.len() == pre.attacks@.len()
        &&& post.pending@ == pre.pending@
        &&& forall|i: int|
            0 <= i < pre.entities@.len() && i != t ==> post.entities@[i] == pre.entities@[i]
        &&& effect_applied(
            pre.entities@[t as int],
            post.entities@[t as int],
            pre.attacks@[a as int].bundle.attack.effect,
        )
        &&& forall|i: int|
            0 <= i < pre.attacks@.len() && i != a ==> post.attacks@[i] == pre.attacks@[i]
        &&& attack_after_hit(pre.attacks@[a as int], post.attacks@[a as int], t)
    } else {
        post == pre
    }
}

/// A run of worlds `ws` that starts at `pre`, ends at `post`, and steps
/// through one collision resolution per overlap event, in order.
pub open spec fn resolve_chain(
    pre: World,
    post: World,
    events: Seq<(usize, usize)>,
    ws: Seq<World>,
) -> bool {
    &&& ws.len() == events.len() + 1
    &&& ws[0] == pre
    &&& ws[events.len() as int] == post
    &&& forall|k: int|
        0 <= k < events.len() ==> resolve_step_rel(
            #[trigger] ws[k],
            ws[k + 1],
            events[k].0,
            events[k].1,
        )
}

/// An entity may issue movement and attack intents while it exists, lives
/// and carries no action-locking condition.
pub open spec fn can_act_spec(w: World, id: usize) -> bool {
    &&& id < w.entities@.len()
    &&& w.entities@[id as int].alive
    &&& w.entities@[id as int].locked is None
}

impl World {
    /// Resolve one overlap event reported by the collision collaborator.
    /// Friendly fire and repeated contact with an already-struck target are
    /// designed no-ops; otherwise the target takes the attack's effect
    /// exactly once and joins the attack's hit set.  A projectile that has
    /// spent its hit budget is destroyed.
    pub fn resolve_collision(&mut self, attack_id: usize, target_id: usize) -> (applied: bool)
        requires
            old(self).wf(),
        ensures
            final(self).wf(),
            applied == hit_applies(*old(self), attack_id, target_id),
            resolve_step_rel(*old(self), *final(self), attack_id, target_id),
    {
        if attack_id >= self.attacks.len() {
            return false;
        }
        if target_id >= self.entities.len() {
            return false;
        }
        if !self.attacks[attack_id].alive {
            return false;
        }
        if !self.entities[target_id].alive {
            return false;
        }
        if self.attacks[attack_id].bundle.attack.faction == self.entities[target_id].faction {
            return false;
        }
        if self.attacks[attack_id].bundle.attack.hit_set.contains(target_id) {
            return false;
        }
        let stack: usize = match &self.entities[target_id].locked {
            Some(c) => c.stack(),
            None => 0,
        };
        let ncond = self.attacks[attack_id].bundle.attack.effect.conditions.len();
        if stack > usize::MAX - ncond {
            return false;
        }
        apply_effect_to(
            &mut self.entities[target_id],
            &self.attacks[attack_id].bundle.attack.effect,
        );
        let at = &mut self.attacks[attack_id];
        at.bundle.attack.hit_set.insert(target_id);
        let hits = at.bundle.attack.hit_set.len();
        if at.bundle.attack.velocity.is_some() && hits >= at.bundle.attack.hit_budget {
            at.alive = false;
        }
        true
    }

    /// Resolve a whole tick's overlap events, in the order the collision
    /// collaborator reported them: the world steps through one
    /// [`resolve_step_rel`] per event.
    pub fn resolve_collisions(&mut self, overlaps: &Vec<(usize, usize)>)
        requires
            old(self).wf(),
        ensures
            final(self).wf(),
            exists|ws: Seq<World>|
                #[trigger] resolve_chain(*old(self), *final(self), overlaps@, ws),
    {
        let ghost mut ws: Seq<World> = seq![*old(self)];
        let n = overlaps.len();
        let mut k: usize = 0;
        while k < n
            invariant
                k <= n,
                n == overlaps@.len(),
                self.wf(),
                ws.len() == k + 1,
                ws[0] == *old(self),
                ws[k as int] == *self,
                forall|m: int|
                    0 <= m < k ==> resolve_step_rel(
                        #[trigger] ws[m],
                        ws[m + 1],
                        overlaps@[m].0,
                        overlaps@[m].1,
                    ),
            decreases n - k,
        {
            let pair = overlaps[k];
            self.resolve_collision(pair.0, pair.1);
            proof {
                ws = ws.push(*self);
            }
            k = k + 1;
        }
        proof {
            assert(resolve_chain(*old(self), *self, overlaps@, ws));
        }
    }

    /// Whether entity `id` exists, lives and is free to issue movement or
    /// attack intents: an action-locked entity is not.
    pub fn can_act(&self, id: usize) -> (r: bool)
        ensures
            r == can_act_spec(*self, id),
    {
        id < self.entities.len() && self.entities[id].alive && self.entities[id].locked.is_none()
    }

    /// Apply an effect to a target directly, outside any attack.  A target
    /// that no longer exists is silently skipped.
    pub fn apply_effect(&mut self, target_id: usize, effect: &Effect) -> (applied: bool)
        requires
            old(self).wf(),
            target_valid(*old(self), target_id) ==> condition_stack_of(
                old(self).entities@[target_id as int].locked,
            ) + effect.conditions@.len() <= usize::MAX,
        ensures
            final(self).wf(),
            applied == target_valid(*old(self), target_id),
            final(self).attacks@ == old(self).attacks@,
            final(self).pending@ == old(self).pending@,
            final(self).entities@.len() == old(self).entities@.len(),
            forall|i: int|
                0 <= i < old(self).entities@.len() && i != target_id ==> final(self).entities@[i]
                    == old(self).entities@[i],
            applied ==> effect_applied(
                old(self).entities@[target_id as int],
                final(self).entities@[target_id as int],
                *effect,
            ),
            !applied ==> *final(self) == *old(self),
    {
        if target_id >= self.entities.len() {
            return false;
        }
        if !self.entities[target_id].alive {
            return false;
        }
        apply_effect_to(&mut self.entities[target_id], effect);
        true
    }
}

} // verus!
