use combat_core::Faction;
use combat_core::agent::{
    ActionState, BehaviorKind, alert_scorer_system, chase_action_system, select_behavior,
    select_target, spawn_mob, thinker_system, wanderlust_scorer_system,
};
use combat_core::attack::{
    ATTACK_LOCK_MS, AttackBundle, ConditionType, Effect, HitBox, LifeSpan, PendingAttack,
    attack_system,
};
use combat_core::conditions::{Condition, ConditionTrait, Locked, conditions_system};
use combat_core::math::{Vec3, chase_direction};
use combat_core::timer::Timer;
use combat_core::world::World;

fn v(x: i32, y: i32, z: i32) -> Vec3 {
    Vec3 { x, y, z }
}

fn plain_effect(damage: i64) -> Effect {
    Effect::new(damage, Vec::new(), v(0, 0, 0))
}

fn melee(damage: i64, faction: u32, duration_ms: u64) -> AttackBundle {
    AttackBundle::new(
        plain_effect(damage),
        HitBox { half_extents: v(500, 500, 500) },
        Faction(faction),
        duration_ms,
        v(0, 0, 0),
    )
}

#[test]
fn timer_fires_exactly_at_duration() {
    let mut t = Timer::new(1000);
    t.tick(400);
    assert!(!t.finished());
    assert!(!t.just_finished());
    t.tick(600);
    assert!(t.finished());
    assert!(t.just_finished());
    t.tick(100);
    assert!(t.finished());
    assert!(!t.just_finished());
}

#[test]
fn condition_stacking_three_applications() {
    let mut c = Condition::<Locked>::new(1000);
    c.add_timer(2000);
    c.add_timer(3000);
    assert_eq!(c.stack(), 3);
    c.tick(1000);
    assert_eq!(c.stack(), 2);
    c.tick(1000);
    assert_eq!(c.stack(), 1);
    c.tick(1000);
    assert_eq!(c.stack(), 0);
}

#[test]
fn condition_removed_from_entity_at_zero_stack() {
    let mut w = World::new();
    let id = w.spawn_entity(v(0, 0, 0), Faction(0), 100);
    w.entities[id].locked = Some(Condition::new(500));
    conditions_system(&mut w, 400);
    assert!(w.entities[id].locked.is_some());
    conditions_system(&mut w, 100);
    assert!(w.entities[id].locked.is_none());
}

#[test]
fn behavior_selection_determinism() {
    assert_eq!(select_behavior(1000, 100), BehaviorKind::Chase);
    assert_eq!(select_behavior(0, 100), BehaviorKind::Wander);
}

#[test]
fn sticky_targeting_within_threshold() {
    let mut w = World::new();
    let agent = spawn_mob(&mut w, v(0, 0, 0), Faction(1), 100);
    let enemy = w.spawn_entity(v(7000, 0, 0), Faction(0), 100);
    assert_eq!(select_target(&w, agent), Some(enemy));
    w.entities[agent].agent.chaser.target = Some(enemy);

    // Moving the target to 7.9 units keeps it targeted.
    w.entities[enemy].position = v(7900, 0, 0);
    assert_eq!(select_target(&w, agent), Some(enemy));

    // Beyond 8 units the target is reconsidered; nothing else is in range.
    w.entities[enemy].position = v(8100, 0, 0);
    assert_eq!(select_target(&w, agent), None);
}

#[test]
fn nearest_hostile_wins_with_first_index_on_ties() {
    let mut w = World::new();
    let agent = spawn_mob(&mut w, v(0, 0, 0), Faction(1), 100);
    let far = w.spawn_entity(v(5000, 0, 0), Faction(0), 100);
    let near = w.spawn_entity(v(2000, 0, 0), Faction(0), 100);
    let _ally = w.spawn_entity(v(100, 0, 0), Faction(1), 100);
    assert_eq!(select_target(&w, agent), Some(near));

    // On an exact distance tie the lower identifier wins.
    w.entities[near].position = v(0, 0, 5000);
    assert_eq!(select_target(&w, agent), Some(far));
}

#[test]
fn pending_attack_promoted_exactly_once() {
    let mut w = World::new();
    let _ = w.schedule_pending(melee(10, 0, 500), 300);
    PendingAttack::system(&mut w, 200);
    assert_eq!(w.attacks.len(), 0);
    assert!(w.pending[0].bundle.is_some());
    PendingAttack::system(&mut w, 100);
    assert_eq!(w.attacks.len(), 1);
    assert!(w.pending[0].bundle.is_none());
    PendingAttack::system(&mut w, 1000);
    assert_eq!(w.attacks.len(), 1);
}

#[test]
fn lifespan_destroys_attack_at_duration() {
    let mut w = World::new();
    let a = w.spawn_attack(melee(10, 0, 500));
    LifeSpan::system(&mut w, 300);
    assert!(w.attacks[a].alive);
    LifeSpan::system(&mut w, 200);
    assert!(!w.attacks[a].alive);
}

#[test]
fn projectile_destroyed_after_second_distinct_hit() {
    let mut w = World::new();
    let t1 = w.spawn_entity(v(1000, 0, 0), Faction(1), 100);
    let t2 = w.spawn_entity(v(2000, 0, 0), Faction(1), 100);
    let bundle = AttackBundle::projectile(
        plain_effect(5),
        HitBox { half_extents: v(100, 100, 100) },
        Faction(0),
        v(1000, 0, 0),
        2,
        v(0, 0, 0),
    );
    let a = w.spawn_attack(bundle);

    // Overlapping the same target again does not spend the budget.
    assert!(w.resolve_collision(a, t1));
    assert!(w.attacks[a].alive);
    assert!(!w.resolve_collision(a, t1));
    assert!(w.attacks[a].alive);

    assert!(w.resolve_collision(a, t2));
    assert!(!w.attacks[a].alive);
}

#[test]
fn at_most_one_hit_per_target() {
    let mut w = World::new();
    let t = w.spawn_entity(v(1000, 0, 0), Faction(1), 100);
    let a = w.spawn_attack(melee(30, 0, 500));
    assert!(w.resolve_collision(a, t));
    assert_eq!(w.entities[t].health.current, 70);
    assert!(!w.resolve_collision(a, t));
    assert_eq!(w.entities[t].health.current, 70);
}

#[test]
fn no_friendly_fire() {
    let mut w = World::new();
    let ally = w.spawn_entity(v(100, 0, 0), Faction(0), 100);
    let a = w.spawn_attack(melee(30, 0, 500));
    assert!(!w.resolve_collision(a, ally));
    assert_eq!(w.entities[ally].health.current, 100);
    assert!(!w.attacks[a].bundle.attack.hit_set.contains(ally));
}

#[test]
fn hit_applies_damage_knockback_and_conditions() {
    let mut w = World::new();
    let t = w.spawn_entity(v(1000, 0, 0), Faction(1), 50);
    let effect = Effect::new(
        80,
        vec![ConditionType::Locked { duration_ms: 400 }],
        v(250, 0, -250),
    );
    let a = w.spawn_attack(AttackBundle::new(
        effect,
        HitBox { half_extents: v(100, 100, 100) },
        Faction(0),
        500,
        v(0, 0, 0),
    ));
    assert!(w.resolve_collision(a, t));
    // Health may go negative.
    assert_eq!(w.entities[t].health.current, -30);
    assert_eq!(w.entities[t].position, v(1250, 0, -250));
    assert_eq!(w.entities[t].locked.as_ref().map(|c| c.stack()), Some(1));
}

#[test]
fn attack_intent_locks_the_attacker() {
    let mut w = World::new();
    let p = w.spawn_entity(v(0, 0, 0), Faction(0), 100);
    let first = attack_system(&mut w, p, melee(10, 0, 500));
    assert_eq!(first, Some(0));
    assert!(!w.can_act(p));

    // A locked attacker's further intents are ignored until the lock runs out.
    let second = attack_system(&mut w, p, melee(10, 0, 500));
    assert_eq!(second, None);
    conditions_system(&mut w, ATTACK_LOCK_MS);
    assert!(w.can_act(p));
    let third = attack_system(&mut w, p, melee(10, 0, 500));
    assert_eq!(third, Some(1));
}

#[test]
fn chase_direction_is_milli_normalized() {
    let d = chase_direction(v(0, 0, 0), v(3000, 0, 4000));
    assert_eq!((d.x, d.z), (600, 800));
    let zero = chase_direction(v(5, 7, 9), v(5, 100, 9));
    assert_eq!((zero.x, zero.z), (0, 0));
}

#[test]
fn agent_pipeline_chases_hostile_in_range() {
    let mut w = World::new();
    let agent = spawn_mob(&mut w, v(0, 0, 0), Faction(1), 100);
    let enemy = w.spawn_entity(v(3000, 0, 4000), Faction(0), 100);

    alert_scorer_system(&mut w);
    wanderlust_scorer_system(&mut w);
    thinker_system(&mut w);
    chase_action_system(&mut w);

    let a = &w.entities[agent].agent;
    assert_eq!(a.chaser.target, Some(enemy));
    assert_eq!(a.alert_score, 1000);
    assert_eq!(a.current, Some(BehaviorKind::Chase));
    assert_eq!(a.chase.state, ActionState::Requested);
    let dir = a.move_intent.expect("a chase emits a movement intent");
    assert_eq!((dir.x, dir.z), (600, 800));
}

#[test]
fn agent_pipeline_wanders_when_nothing_in_range() {
    let mut w = World::new();
    let agent = spawn_mob(&mut w, v(0, 0, 0), Faction(1), 100);
    let _far_enemy = w.spawn_entity(v(20000, 0, 0), Faction(0), 100);

    alert_scorer_system(&mut w);
    wanderlust_scorer_system(&mut w);
    thinker_system(&mut w);

    let a = &w.entities[agent].agent;
    assert_eq!(a.chaser.target, None);
    assert_eq!(a.alert_score, 0);
    assert_eq!(a.current, Some(BehaviorKind::Wander));
    assert_eq!(a.wander.state, ActionState::Requested);
}

#[test]
fn preempted_behavior_is_cancelled_then_fails() {
    let mut w = World::new();
    let agent = spawn_mob(&mut w, v(0, 0, 0), Faction(1), 100);

    // Nothing in range: the agent settles on wandering.
    alert_scorer_system(&mut w);
    wanderlust_scorer_system(&mut w);
    thinker_system(&mut w);
    assert_eq!(w.entities[agent].agent.current, Some(BehaviorKind::Wander));
    assert_eq!(w.entities[agent].agent.wander.state, ActionState::Requested);

    // A hostile appears in range: the selector cancels the wander...
    let _enemy = w.spawn_entity(v(1000, 0, 0), Faction(0), 100);
    alert_scorer_system(&mut w);
    thinker_system(&mut w);
    assert_eq!(w.entities[agent].agent.wander.state, ActionState::Cancelled);

    // ... the cancelled wander resolves to failure, and only then does the
    // chase take over.
    combat_core::agent::wandering_action_system(&mut w);
    assert_eq!(w.entities[agent].agent.wander.state, ActionState::Failure);
    thinker_system(&mut w);
    assert_eq!(w.entities[agent].agent.current, Some(BehaviorKind::Chase));
    assert_eq!(w.entities[agent].agent.chase.state, ActionState::Requested);
}

#[test]
fn end_to_end_melee_strike() {
    let mut w = World::new();
    let attacker = w.spawn_entity(v(0, 0, 0), Faction(0), 100);
    let ally = w.spawn_entity(v(100, 0, 0), Faction(0), 100);
    let enemy = w.spawn_entity(v(500, 0, 0), Faction(1), 100);

    let spawned = attack_system(&mut w, attacker, melee(25, 0, 300));
    let a = spawned.expect("an unlocked attacker spawns its attack");

    // The collision collaborator reports overlap with both bystanders.
    let overlaps = vec![(a, ally), (a, enemy), (a, attacker)];
    w.resolve_collisions(&overlaps);

    assert_eq!(w.entities[enemy].health.current, 75);
    assert_eq!(w.entities[ally].health.current, 100);
    assert_eq!(w.entities[attacker].health.current, 100);
    assert!(w.attacks[a].bundle.attack.hit_set.contains(enemy));
    assert!(!w.attacks[a].bundle.attack.hit_set.contains(ally));
    assert_eq!(w.attacks[a].bundle.attack.hit_set.len(), 1);

    // Timers keep running whatever the collision state.
    LifeSpan::system(&mut w, 300);
    assert!(!w.attacks[a].alive);
}
