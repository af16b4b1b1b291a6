//! Attack instances and their building blocks.
//!
//! Every attack is a short-lived simulation object: an effect to deliver, a
//! record of targets already struck, a faction for friendly-fire filtering,
//! and either a finite lifespan (melee) or a velocity with a hit budget
//! (projectile).  A pending attack wraps a fully built attack behind a
//! wind-up delay.

use vstd::prelude::*;

use crate::Faction;
use crate::math::Vec3;
use crate::timer::Timer;
use crate::world::{AttackInstance, World};

verus! {

/// One kind of status effect an attack can inflict, with the duration of one
/// application.
#[derive(Clone, Copy, PartialEq, Eq, Structural, Debug)]
pub enum ConditionType {
    Locked { duration_ms: u64 },
}

/// Everything a successful hit does to its target.
pub struct Effect {
    /// Health points taken from the target.
    pub damage: i64,
    /// Conditions applied to the target, in order.
    pub conditions: Vec<ConditionType>,
    /// Instantaneous displacement applied to the target, in milli-units.
    pub knockback: Vec3,
}

impl Effect {
    pub fn new(damage: i64, conditions: Vec<ConditionType>, knockback: Vec3) -> (r: Effect)
        ensures
            r.damage == damage,
            r.conditions == conditions,
            r.knockback == knockback,
    {
        Effect { damage, conditions, knockback }
    }
}

impl Default for Effect {
    /// An effect that does nothing: no damage, no conditions, no knockback.
    fn default() -> (r: Effect)
        ensures
            r.damage == 0,
            r.conditions@ == Seq::<ConditionType>::empty(),
            r.knockback == Vec3::zero_spec(),
    {
        let conditions = Vec::new();
        proof {
            assert(conditions@ =~= Seq::<ConditionType>::empty());
        }
        Effect { damage: 0, conditions, knockback: Vec3::zero() }
    }
}

/// The set of targets an attack has already struck.  Backed by a
/// duplicate-free vector of entity identifiers.
pub struct HitSet {
    pub items: Vec<usize>,
}

impl HitSet {
    /// The abstract set of struck targets.
    pub open spec fn set(self) -> Set<usize> {
        self.items@.to_set()
    }

    /// No target is recorded twice, so the vector's length is the number of
    /// distinct targets struck.
    pub open spec fn wf(self) -> bool {
        self.items@.no_duplicates()
    }

    /// Number of distinct targets struck so far.
    pub open spec fn count(self) -> int {
        self.items@.len() as int
    }

    pub fn new() -> (r: HitSet)
        ensures
            r.set() == Set::<usize>::empty(),
            r.count() == 0,
            r.wf(),
    {
        let items = Vec::new();
        proof {
            assert(items@ =~= Seq::<usize>::empty());
            assert(items@.to_set() =~= Set::<usize>::empty());
        }
        HitSet { items }
    }

    pub fn contains(&self, id: usize) -> (r: bool)
        ensures
            r == self.set().contains(id),
    {
        let mut i: usize = 0;
        while i < self.items.len()
            invariant
                i <= self.items@.len(),
                forall|j: int| 0 <= j < i ==> self.items@[j] != id,
            decreases self.items@.len() - i,
        {
            if self.items[i] == id {
                return true;
            }
            i = i + 1;
        }
        false
    }

    /// Record a struck target; recording the same target again changes
    /// nothing.
    pub fn insert(&mut self, id: usize)
        requires
            old(self).wf(),
        ensures
            final(self).wf(),
            final(self).set() == old(self).set().insert(id),
            final(self).count() == old(self).count() + if old(self).set().contains(id) {
                0int
            } else {
                1int
            },
    {
        if !self.contains(id) {
            self.items.push(id);
            proof {
                broadcast use vstd::seq_lib::lemma_seq_contains_after_push;

                assert(self.items@.drop_last() =~= old(self).items@);
                assert(self.items@.to_set() =~= old(self).items@.to_set().insert(id));
            }
        } else {
            proof {
                assert(self.items@.to_set() =~= self.items@.to_set().insert(id));
            }
        }
    }

    /// Number of distinct targets struck so far.
    pub fn len(&self) -> (r: usize)
        ensures
            r == self.count(),
    {
        self.items.len()
    }
}

/// Countdown to the destruction of a melee attack, as long as the strike
/// stays out in the world.
#[derive(Clone, Copy, PartialEq, Eq, Structural, Debug)]
pub struct LifeSpan {
    pub timer: Timer,
    /// The configured duration, kept for inspection.
    pub attack_ms: u64,
}

impl LifeSpan {
    pub fn new(attack_ms: u64) -> (r: LifeSpan)
        ensures
            r.timer == Timer::fresh_spec(attack_ms),
            r.attack_ms == attack_ms,
    {
        LifeSpan { timer: Timer::new(attack_ms), attack_ms }
    }

    pub fn tick(&mut self, delta_ms: u64)
        ensures
            final(self).timer == old(self).timer.tick_spec(delta_ms),
            final(self).attack_ms == old(self).attack_ms,
    {
        self.timer.tick(delta_ms);
    }
}

/// The spatial volume of an attack, in milli-units, handed to the collision
/// collaborator as a non-physical trigger; the core never interprets it
/// beyond storing it.
#[derive(Clone, Copy, PartialEq, Eq, Structural, Debug)]
pub struct HitBox {
    pub half_extents: Vec3,
}

/// One active attack: its effect, the targets already struck, an optional
/// velocity (present exactly for projectiles) and the attacker's faction,
/// captured by value at spawn time.
pub struct Attack {
    pub effect: Effect,
    pub hit_set: HitSet,
    pub velocity: Option<Vec3>,
    pub faction: Faction,
    /// Number of distinct hits after which a projectile is destroyed.
    pub hit_budget: usize,
}

impl Attack {
    pub open spec fn wf(self) -> bool {
        &&& self.hit_set.wf()
        &&& (self.velocity.is_some() ==> self.hit_budget >= 1)
    }
}

/// Everything needed to place one attack into the world: the attack itself,
/// its trigger volume, an optional lifespan (absent exactly for projectiles,
/// which die by hit count instead) and its position.
pub struct AttackBundle {
    pub attack: Attack,
    pub hit_box: HitBox,
    pub lifespan: Option<LifeSpan>,
    pub transform: Vec3,
    /// The volume only detects overlap; it never pushes bodies around.
    pub sensor: bool,
}

impl AttackBundle {
    /// Melee and projectile attacks terminate by exactly one mechanism:
    /// a lifespan or a hit budget.
    pub open spec fn wf(self) -> bool {
        &&& self.attack.wf()
        &&& (self.attack.velocity.is_some() <==> self.lifespan.is_none())
    }

    /// Build a melee attack: empty hit set, no velocity, destroyed when
    /// `attack_duration_ms` of simulated time has passed.
    pub fn new(
        effect: Effect,
        hit_box: HitBox,
        faction: Faction,
        attack_duration_ms: u64,
        transform: Vec3,
    ) -> (r: AttackBundle)
        ensures
            r.wf(),
            r.attack.effect == effect,
            r.attack.hit_set.set() == Set::<usize>::empty(),
            r.attack.hit_set.count() == 0,
            r.attack.velocity == Option::<Vec3>::None,
            r.attack.faction == faction,
            r.hit_box == hit_box,
            r.lifespan == Some(LifeSpan { timer: Timer::fresh_spec(attack_duration_ms), attack_ms: attack_duration_ms }),
            r.transform == transform,
            r.sensor,
    {
        AttackBundle {
            attack: Attack {
                effect,
                hit_set: HitSet::new(),
                velocity: None,
                faction,
                hit_budget: 1,
            },
            hit_box,
            lifespan: Some(LifeSpan::new(attack_duration_ms)),
            transform,
            sensor: true,
        }
    }

    /// Build a projectile attack: no lifespan, destroyed after `hit_budget`
    /// distinct successful hits.
    pub fn projectile(
        effect: Effect,
        hit_box: HitBox,
        faction: Faction,
        velocity: Vec3,
        hit_budget: usize,
        transform: Vec3,
    ) -> (r: AttackBundle)
        requires
            hit_budget >= 1,
        ensures
            r.wf(),
            r.attack.effect == effect,
            r.attack.hit_set.set() == Set::<usize>::empty(),
            r.attack.hit_set.count() == 0,
            r.attack.velocity == Some(velocity),
            r.attack.faction == faction,
            r.attack.hit_budget == hit_budget,
            r.hit_box == hit_box,
            r.lifespan == Option::<LifeSpan>::None,
            r.transform == transform,
            r.sensor,
    {
        AttackBundle {
            attack: Attack {
                effect,
                hit_set: HitSet::new(),
                velocity: Some(velocity),
                faction,
                hit_budget,
            },
            hit_box,
            lifespan: None,
            transform,
            sensor: true,
        }
    }
}

/// A fully built attack waiting out its wind-up delay.  The bundle is taken
/// exactly once, on promotion into the world.
pub struct PendingAttack {
    pub bundle: Option<AttackBundle>,
    pub timer: Timer,
}

impl PendingAttack {
    pub fn new(bundle: AttackBundle, delay_ms: u64) -> (r: PendingAttack)
        ensures
            r.bundle == Some(bundle),
            r.timer == Timer::fresh_spec(delay_ms),
    {
        PendingAttack { bundle: Some(bundle), timer: Timer::new(delay_ms) }
    }

    pub fn tick(&mut self, delta_ms: u64)
        ensures
            final(self).timer == old(self).timer.tick_spec(delta_ms),
            final(self).bundle == old(self).bundle,
    {
        self.timer.tick(delta_ms);
    }
}

/// How one tick changes one attack slot: a live melee attack's lifespan
/// advances and the attack is destroyed on the tick the lifespan expires;
/// dead slots and projectiles (which have no lifespan) are untouched.
pub open spec fn lifespan_step_spec(inst: AttackInstance, delta_ms: u64) -> AttackInstance {
    match inst.bundle.lifespan {
        None => inst,
        Some(ls) => if inst.alive {
            let t2 = ls.timer.tick_spec(delta_ms);
            AttackInstance {
                alive: !t2.just_fired,
                bundle: AttackBundle {
                    lifespan: Some(LifeSpan { timer: t2, attack_ms: ls.attack_ms }),
                    ..inst.bundle
                },
            }
        } else {
            inst
        },
    }
}

impl LifeSpan {
    /// Advance every live attack's lifespan by `delta_ms` and destroy the
    /// attacks whose lifespan expires on this tick.  Runs every simulation
    /// step, whatever the collision state.
    pub fn system(world: &mut World, delta_ms: u64)
        requires
            old(world).wf(),
        ensures
            final(world).wf(),
            final(world).entities@ == old(world).entities@,
            final(world).pending@ == old(world).pending@,
            final(world).attacks@.len() == old(world).attacks@.len(),
            forall|i: int|
                0 <= i < old(world).attacks@.len() ==> final(world).attacks@[i]
                    == lifespan_step_spec(#[trigger] old(world).attacks@[i], delta_ms),
    {
        let n = world.attacks.len();
        let mut i: usize = 0;
        while i < n
            invariant
                i <= n,
                n == world.attacks@.len(),
                world.wf(),
                world.entities@ == old(world).entities@,
                world.pending@ == old(world).pending@,
                world.attacks@.len() == old(world).attacks@.len(),
                forall|j: int|
                    0 <= j < i ==> world.attacks@[j] == lifespan_step_spec(
                        #[trigger] old(world).attacks@[j],
                        delta_ms,
                    ),
                forall|j: int| i <= j < n ==> world.attacks@[j] == #[trigger] old(world).attacks@[j],
            decreases n - i,
        {
            if world.attacks[i].alive {
                let ls_opt = world.attacks[i].bundle.lifespan;
                match ls_opt {
                    Some(mut ls) => {
                        ls.tick(delta_ms);
                        let expired = ls.timer.just_finished();
                        let at = &mut world.attacks[i];
                        at.bundle.lifespan = Some(ls);
                        if expired {
                            at.alive = false;
                        }
                    },
                    None => {},
                }
            }
            i = i + 1;
        }
    }
}

/// How long an attack intent locks its issuer out of further actions.
pub const ATTACK_LOCK_MS: u64 = 600;

/// Consume one attack intent: if the attacker exists, lives and is not
/// action-locked, the prepared attack is spawned into the world and the
/// attacker is locked for [`ATTACK_LOCK_MS`]; the intent of a locked or gone
/// attacker is ignored.
pub fn attack_system(world: &mut World, attacker: usize, bundle: AttackBundle) -> (spawned: Option<
    usize,
>)
    requires
        old(world).wf(),
        bundle.wf(),
    ensures
        final(world).wf(),
        spawned is Some <==> crate::world::can_act_spec(*old(world), attacker),
        match spawned {
            Some(id) => {
                &&& id == old(world).attacks@.len()
                &&& final(world).attacks@ == old(world).attacks@.push(
                    AttackInstance { alive: true, bundle },
                )
                &&& final(world).pending@ == old(world).pending@
                &&& final(world).entities@.len() == old(world).entities@.len()
                &&& forall|i: int|
                    0 <= i < old(world).entities@.len() && i != attacker
                        ==> final(world).entities@[i] == old(world).entities@[i]
                &&& crate::conditions::condition_applied(
                    old(world).entities@[attacker as int].locked,
                    final(world).entities@[attacker as int].locked,
                    ATTACK_LOCK_MS,
                )
                &&& final(world).entities@[attacker as int].alive == old(
                    world,
                ).entities@[attacker as int].alive
                &&& final(world).entities@[attacker as int].position == old(
                    world,
                ).entities@[attacker as int].position
                &&& final(world).entities@[attacker as int].faction == old(
                    world,
                ).entities@[attacker as int].faction
                &&& final(world).entities@[attacker as int].health == old(
                    world,
                ).entities@[attacker as int].health
                &&& final(world).entities@[attacker as int].agent == old(
                    world,
                ).entities@[attacker as int].agent
            },
            None => *final(world) == *old(world),
        },
{
    if !world.can_act(attacker) {
        return None;
    }
    {
        let e = &mut world.entities[attacker];
        crate::conditions::apply_condition(&mut e.locked, ATTACK_LOCK_MS);
    }
    let id = world.spawn_attack(bundle);
    Some(id)
}

/// Whether this tick promotes the pending attack: its wind-up delay expires
/// while the attack is still waiting.
pub open spec fn pending_promotes(p: PendingAttack, delta_ms: u64) -> bool {
    p.bundle.is_some() && p.timer.tick_spec(delta_ms).just_fired
}

/// How one tick changes one pending slot: the delay advances, and on the
/// tick it expires the wrapped bundle is taken — promotion happens at most
/// once because the bundle is gone afterwards.  A slot already promoted is
/// untouched.
pub open spec fn pending_step_spec(p: PendingAttack, delta_ms: u64) -> PendingAttack {
    match p.bundle {
        None => p,
        Some(b) => PendingAttack {
            timer: p.timer.tick_spec(delta_ms),
            bundle: if pending_promotes(p, delta_ms) {
                None
            } else {
                p.bundle
            },
        },
    }
}

/// The attack instances that one tick of `delta_ms` promotes out of a row of
/// pending slots, in slot order.
pub open spec fn promoted_seq(pending: Seq<PendingAttack>, delta_ms: u64) -> Seq<AttackInstance>
    decreases pending.len(),
{
    if pending.len() == 0 {
        Seq::empty()
    } else {
        promoted_seq(pending.drop_last(), delta_ms) + (if pending_promotes(
            pending.last(),
            delta_ms,
        ) {
            match pending.last().bundle {
                Some(b) => seq![AttackInstance { alive: true, bundle: b }],
                None => Seq::empty(),
            }
        } else {
            Seq::empty()
        })
    }
}

impl PendingAttack {
    /// Advance every pending attack's wind-up delay by `delta_ms`; each
    /// pending attack whose delay expires on this tick is spawned into the
    /// world as a live attack, exactly once.
    pub fn system(world: &mut World, delta_ms: u64)
        requires
            old(world).wf(),
        ensures
            final(world).wf(),
            final(world).entities@ == old(world).entities@,
            final(world).pending@.len() == old(world).pending@.len(),
            forall|j: int|
                0 <= j < old(world).pending@.len() ==> final(world).pending@[j]
                    == pending_step_spec(#[trigger] old(world).pending@[j], delta_ms),
            final(world).attacks@ == old(world).attacks@ + promoted_seq(
                old(world).pending@,
                delta_ms,
            ),
    {
        let n = world.pending.len();
        let mut j: usize = 0;
        proof {
            assert(old(world).pending@.subrange(0, 0) =~= Seq::<PendingAttack>::empty());
            assert(world.attacks@ =~= old(world).attacks@ + promoted_seq(
                old(world).pending@.subrange(0, 0),
                delta_ms,
            ));
        }
        while j < n
            invariant
                j <= n,
                n == world.pending@.len(),
                world.wf(),
                world.entities@ == old(world).entities@,
                world.pending@.len() == old(world).pending@.len(),
                forall|k: int|
                    0 <= k < j ==> world.pending@[k] == pending_step_spec(
                        #[trigger] old(world).pending@[k],
                        delta_ms,
                    ),
                forall|k: int| j <= k < n ==> world.pending@[k] == #[trigger] old(world).pending@[k],
                world.attacks@ == old(world).attacks@ + promoted_seq(
                    old(world).pending@.subrange(0, j as int),
                    delta_ms,
                ),
            decreases n - j,
        {
            let ghost pre = old(world).pending@.subrange(0, j as int);
            let has_bundle = world.pending[j].bundle.is_some();
            if has_bundle {
                let fired: bool;
                {
                    let p = &mut world.pending[j];
                    p.timer.tick(delta_ms);
                    fired = p.timer.just_finished();
                }
                if fired {
                    let b = world.pending[j].bundle.take();
                    match b {
                        Some(bundle) => {
                            world.attacks.push(AttackInstance { alive: true, bundle });
                        },
                        None => {},
                    }
                }
            }
            proof {
                let pre1 = old(world).pending@.subrange(0, j as int + 1);
                assert(pre1.drop_last() =~= pre);
                assert(pre1.last() == old(world).pending@[j as int]);
                assert(world.attacks@ =~= old(world).attacks@ + promoted_seq(pre1, delta_ms));
            }
            j = j + 1;
        }
        proof {
            assert(old(world).pending@.subrange(0, n as int) =~= old(world).pending@);
        }
    }
}

} // verus!
