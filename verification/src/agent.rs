//! Utility-AI state of non-player agents.
//!
//! Every tick, perception picks a chase target (sticky within a threshold
//! distance), two scorers rate the candidate behaviors — a constant baseline
//! desire to wander and an alertness that fires when a hostile is in range —
//! and the selector runs the highest-scoring behavior, cancelling the one it
//! preempts.  Each behavior action is a tiny state machine that must reach a
//! terminal state before it is reconsidered.

use vstd::prelude::*;

use crate::Faction;
use crate::math::{Dir2, Vec3, chase_direction, chase_direction_spec, dist_sq, dist_sq_spec};
use crate::world::World;

verus! {

/// Score of the baseline desire to wander, in thousandths.
pub const WANDERLUST_SCORE: u32 = 100;

/// Score of alertness when a hostile target is in range, in thousandths.
pub const ALERT_SCORE_HOT: u32 = 1000;

/// Score of alertness when no hostile target is in range.
pub const ALERT_SCORE_COLD: u32 = 0;

/// Default chase threshold distance: 8 world units, in milli-units.
pub const DEFAULT_CHASE_THRESHOLD: u64 = 8000;

/// Lifecycle of one behavior action.  `Requested` is entered once per
/// selection and must resolve to `Success` or `Failure`; a preempted action
/// is `Cancelled` and still resolves to `Failure` before cleanup.
#[derive(Clone, Copy, PartialEq, Eq, Structural, Debug)]
pub enum ActionState {
    Init,
    Requested,
    Executing,
    Cancelled,
    Success,
    Failure,
}

/// The candidate behaviors an agent chooses between.
#[derive(Clone, Copy, PartialEq, Eq, Structural, Debug)]
pub enum BehaviorKind {
    Wander,
    Chase,
}

/// The sticky perception target of an agent.
#[derive(Clone, Copy, PartialEq, Eq, Structural, Debug)]
pub struct Chaser {
    pub target: Option<usize>,
}

/// The wander behavior's action state.
#[derive(Clone, Copy, PartialEq, Eq, Structural, Debug)]
pub struct Wander {
    pub state: ActionState,
}

/// The chase behavior's action state.
#[derive(Clone, Copy, PartialEq, Eq, Structural, Debug)]
pub struct Chase {
    pub state: ActionState,
}

/// Per-agent utility-AI state: perception target, behavior scores, the two
/// action state machines, the currently selected behavior and the movement
/// intent the active behavior emits.
#[derive(Clone, Copy, PartialEq, Eq, Structural, Debug)]
pub struct AgentState {
    /// Whether this entity makes its own decisions at all.
    pub enabled: bool,
    pub chaser: Chaser,
    pub wander: Wander,
    pub chase: Chase,
    /// Latest wanderlust score, in thousandths.
    pub wanderlust_score: u32,
    /// Latest alertness score, in thousandths.
    pub alert_score: u32,
    /// The behavior the selector currently runs.
    pub current: Option<BehaviorKind>,
    /// Movement intent emitted by the active behavior this tick.
    pub move_intent: Option<Dir2>,
    /// Distance within which hostiles are chased, in milli-units.
    pub chase_threshold: u64,
}

impl AgentState {
    /// The agent state of an entity that is not an agent: disabled, with
    /// everything at rest.
    pub open spec fn inert_spec() -> AgentState {
        AgentState {
            enabled: false,
            chaser: Chaser { target: None },
            wander: Wander { state: ActionState::Init },
            chase: Chase { state: ActionState::Init },
            wanderlust_score: 0,
            alert_score: 0,
            current: None,
            move_intent: None,
            chase_threshold: DEFAULT_CHASE_THRESHOLD,
        }
    }

    pub fn inert() -> (r: AgentState)
        ensures
            r == AgentState::inert_spec(),
    {
        AgentState {
            enabled: false,
            chaser: Chaser { target: None },
            wander: Wander { state: ActionState::Init },
            chase: Chase { state: ActionState::Init },
            wanderlust_score: 0,
            alert_score: 0,
            current: None,
            move_intent: None,
            chase_threshold: DEFAULT_CHASE_THRESHOLD,
        }
    }

    /// The agent state of a freshly spawned mob: enabled, idle, no target.
    pub open spec fn fresh_spec() -> AgentState {
        AgentState { enabled: true, ..AgentState::inert_spec() }
    }

    pub fn fresh() -> (r: AgentState)
        ensures
            r == AgentState::fresh_spec(),
    {
        let mut r = AgentState::inert();
        r.enabled = true;
        r
    }
}

/// Pick the behavior with the higher score; on an exact tie alertness wins,
/// so a hot alert always preempts wandering.
pub fn select_behavior(alert_score: u32, wanderlust_score: u32) -> (r: BehaviorKind)
    ensures
        r == (if alert_score >= wanderlust_score {
            BehaviorKind::Chase
        } else {
            BehaviorKind::Wander
        }),
{
    if alert_score >= wanderlust_score {
        BehaviorKind::Chase
    } else {
        BehaviorKind::Wander
    }
}

/// Whether entity `j` is a possible chase target for agent `agent_id`:
/// another live entity of a different faction.
pub open spec fn candidate(w: World, agent_id: usize, j: usize) -> bool {
    &&& j < w.entities@.len()
    &&& j != agent_id
    &&& w.entities@[j as int].alive
    &&& w.entities@[j as int].faction != w.entities@[agent_id as int].faction
}

/// Squared distance between two entities' positions.
pub open spec fn dist2(w: World, a: usize, b: usize) -> int {
    dist_sq_spec(w.entities@[a as int].position, w.entities@[b as int].position)
}

/// The agent's chase threshold, squared.
pub open spec fn threshold_sq(w: World, agent_id: usize) -> int {
    let t = w.entities@[agent_id as int].agent.chase_threshold as int;
    t * t
}

/// Whether entity `j` is within agent `agent_id`'s chase threshold.
pub open spec fn within_threshold(w: World, agent_id: usize, j: usize) -> bool {
    dist2(w, agent_id, j) <= threshold_sq(w, agent_id)
}

/// Sticky retention: the current target is kept while it still exists and
/// stays within the chase threshold; only when it is gone or strays farther
/// is the nearest hostile recomputed.
pub open spec fn sticky_keeps(w: World, agent_id: usize) -> bool {
    match w.entities@[agent_id as int].agent.chaser.target {
        Some(t) => t < w.entities@.len() && w.entities@[t as int].alive && within_threshold(
            w,
            agent_id,
            t,
        ),
        None => false,
    }
}

/// Entity `j` is the nearest candidate, with distance ties broken towards
/// the lowest identifier — the first one a scan in identifier order meets.
pub open spec fn is_first_nearest(w: World, agent_id: usize, j: usize) -> bool {
    &&& candidate(w, agent_id, j)
    &&& forall|k: usize| #[trigger]
        candidate(w, agent_id, k) ==> dist2(w, agent_id, j) <= dist2(w, agent_id, k)
    &&& forall|k: usize| #[trigger]
        candidate(w, agent_id, k) && dist2(w, agent_id, k) == dist2(w, agent_id, j) ==> j <= k
}

/// The target perception assigns to agent `agent_id`: the sticky target
/// while it holds, else the first-nearest hostile within the threshold, else
/// none.
#[verifier::opaque]
pub open spec fn selected_target(w: World, agent_id: usize) -> Option<usize> {
    if sticky_keeps(w, agent_id) {
        w.entities@[agent_id as int].agent.chaser.target
    } else if exists|j: usize|
        #[trigger] is_first_nearest(w, agent_id, j) && within_threshold(w, agent_id, j) {
        Some(
            choose|j: usize|
                #[trigger] is_first_nearest(w, agent_id, j) && within_threshold(w, agent_id, j),
        )
    } else {
        None
    }
}

/// At most one entity is the first-nearest candidate.
pub proof fn lemma_first_nearest_unique(w: World, agent_id: usize, j1: usize, j2: usize)
    requires
        is_first_nearest(w, agent_id, j1),
        is_first_nearest(w, agent_id, j2),
    ensures
        j1 == j2,
{
    assert(dist2(w, agent_id, j1) <= dist2(w, agent_id, j2));
    assert(dist2(w, agent_id, j2) <= dist2(w, agent_id, j1));
    assert(j1 <= j2);
    assert(j2 <= j1);
}

/// Perception for one agent: keep the sticky target while it is live and in
/// range, otherwise scan all hostiles and pick the nearest within the
/// threshold, first identifier winning distance ties.
pub fn select_target(world: &World, agent_id: usize) -> (r: Option<usize>)
    requires
        agent_id < world.entities@.len(),
    ensures
        r == selected_target(*world, agent_id),
{
    proof {
        reveal(selected_target);
    }
    let agent_pos = world.entities[agent_id].position;
    let agent_faction = world.entities[agent_id].faction;
    let threshold = world.entities[agent_id].agent.chase_threshold;
    proof {
        assert((threshold as int) * (threshold as int) <= (u64::MAX as int) * (u64::MAX as int))
            by (nonlinear_arith)
            requires
                threshold <= u64::MAX,
        ;
    }
    let thr_sq: u128 = (threshold as u128) * (threshold as u128);

    let cur = world.entities[agent_id].agent.chaser.target;
    match cur {
        Some(t) => {
            if t < world.entities.len() {
                if world.entities[t].alive {
                    let d = dist_sq(agent_pos, world.entities[t].position);
                    if d <= thr_sq {
                        return Some(t);
                    }
                }
            }
        },
        None => {},
    }

    let n = world.entities.len();
    let mut best: Option<usize> = None;
    let mut best_d: u128 = 0;
    let mut j: usize = 0;
    while j < n
        invariant
            j <= n,
            n == world.entities@.len(),
            agent_id < n,
            agent_pos == world.entities@[agent_id as int].position,
            agent_faction == world.entities@[agent_id as int].faction,
            match best {
                None => forall|k: usize| k < j ==> !candidate(*world, agent_id, k),
                Some(b) => {
                    &&& b < j
                    &&& candidate(*world, agent_id, b)
                    &&& best_d == dist2(*world, agent_id, b)
                    &&& forall|k: usize|
                        k < j && #[trigger] candidate(*world, agent_id, k) ==> best_d <= dist2(
                            *world,
                            agent_id,
                            k,
                        )
                    &&& forall|k: usize|
                        k < j && #[trigger] candidate(*world, agent_id, k) && dist2(
                            *world,
                            agent_id,
                            k,
                        ) == best_d ==> b <= k
                },
            },
        decreases n - j,
    {
        if j != agent_id && world.entities[j].alive && world.entities[j].faction != agent_faction {
            let d = dist_sq(agent_pos, world.entities[j].position);
            match best {
                None => {
                    best = Some(j);
                    best_d = d;
                },
                Some(_) => {
                    if d < best_d {
                        best = Some(j);
                        best_d = d;
                    }
                },
            }
        }
        j = j + 1;
    }
    match best {
        Some(b) => {
            if best_d <= thr_sq {
                proof {
                    assert(is_first_nearest(*world, agent_id, b));
                    assert(within_threshold(*world, agent_id, b));
                    let c = choose|j: usize|
                        #[trigger] is_first_nearest(*world, agent_id, j) && within_threshold(
                            *world,
                            agent_id,
                            j,
                        );
                    lemma_first_nearest_unique(*world, agent_id, b, c);
                }
                Some(b)
            } else {
                proof {
                    assert forall|j0: usize|
                        !(#[trigger] is_first_nearest(*world, agent_id, j0) && within_threshold(
                            *world,
                            agent_id,
                            j0,
                        )) by {
                        if is_first_nearest(*world, agent_id, j0) {
                            assert(dist2(*world, agent_id, j0) >= best_d);
                        }
                    }
                }
                None
            }
        },
        None => {
            None
        },
    }
}

/// The new utility-AI state perception gives agent `i`: the selected target
/// and the alertness score it implies — hot exactly when a target is in
/// range.
pub open spec fn perceive_spec(w: World, i: usize) -> AgentState {
    let a = w.entities@[i as int].agent;
    let t = selected_target(w, i);
    AgentState {
        chaser: Chaser { target: t },
        alert_score: if t is Some {
            ALERT_SCORE_HOT
        } else {
            ALERT_SCORE_COLD
        },
        ..a
    }
}


/// Everything about an entity except its utility-AI state is unchanged.
pub open spec fn entity_frame(before: crate::world::EntityState, after: crate::world::EntityState) -> bool {
    &&& after.alive == before.alive
    &&& after.position == before.position
    &&& after.faction == before.faction
    &&& after.health == before.health
    &&& after.locked == before.locked
}


/// The action state of the behavior `b` within an agent.
pub open spec fn action_state_of(a: AgentState, b: BehaviorKind) -> ActionState {
    match b {
        BehaviorKind::Wander => a.wander.state,
        BehaviorKind::Chase => a.chase.state,
    }
}

/// The agent with the action state of behavior `b` replaced.
pub open spec fn with_action_state(a: AgentState, b: BehaviorKind, s: ActionState) -> AgentState {
    match b {
        BehaviorKind::Wander => AgentState { wander: Wander { state: s }, ..a },
        BehaviorKind::Chase => AgentState { chase: Chase { state: s }, ..a },
    }
}

/// One selector step: pick the highest-scoring behavior (alertness wins
/// ties), request it, and cancel a running behavior it preempts.  A
/// cancelled behavior is left to reach `Failure` before the switch
/// completes; a behavior that stays selected is re-requested once it
/// terminates.
pub open spec fn think_spec(a: AgentState) -> AgentState {
    let selected = if a.alert_score >= a.wanderlust_score {
        BehaviorKind::Chase
    } else {
        BehaviorKind::Wander
    };
    match a.current {
        None => with_action_state(
            AgentState { current: Some(selected), ..a },
            selected,
            ActionState::Requested,
        ),
        Some(cur) => {
            if cur == selected {
                let s = action_state_of(a, cur);
                if s == ActionState::Success || s == ActionState::Failure || s
                    == ActionState::Init {
                    with_action_state(a, cur, ActionState::Requested)
                } else {
                    a
                }
            } else {
                let s = action_state_of(a, cur);
                if s == ActionState::Requested || s == ActionState::Executing {
                    with_action_state(a, cur, ActionState::Cancelled)
                } else if s == ActionState::Cancelled {
                    a
                } else {
                    with_action_state(
                        AgentState { current: Some(selected), ..a },
                        selected,
                        ActionState::Requested,
                    )
                }
            }
        },
    }
}

/// One selector step on one agent's state.
pub fn think(a: AgentState) -> (r: AgentState)
    ensures
        r == think_spec(a),
{
    let selected = select_behavior(a.alert_score, a.wanderlust_score);
    let mut r = a;
    match a.current {
        None => {
            r.current = Some(selected);
            set_action_state(&mut r, selected, ActionState::Requested);
        },
        Some(cur) => {
            let s = get_action_state(&a, cur);
            if cur == selected {
                if s == ActionState::Success || s == ActionState::Failure || s
                    == ActionState::Init {
                    set_action_state(&mut r, cur, ActionState::Requested);
                }
            } else {
                if s == ActionState::Requested || s == ActionState::Executing {
                    set_action_state(&mut r, cur, ActionState::Cancelled);
                } else if s == ActionState::Cancelled {
                } else {
                    r.current = Some(selected);
                    set_action_state(&mut r, selected, ActionState::Requested);
                }
            }
        },
    }
    r
}

fn get_action_state(a: &AgentState, b: BehaviorKind) -> (r: ActionState)
    ensures
        r == action_state_of(*a, b),
{
    match b {
        BehaviorKind::Wander => a.wander.state,
        BehaviorKind::Chase => a.chase.state,
    }
}

fn set_action_state(a: &mut AgentState, b: BehaviorKind, s: ActionState)
    ensures
        *final(a) == with_action_state(*old(a), b, s),
{
    match b {
        BehaviorKind::Wander => {
            a.wander.state = s;
        },
        BehaviorKind::Chase => {
            a.chase.state = s;
        },
    }
}


/// One wander step: the placeholder behavior succeeds as soon as it is
/// requested, and a cancelled wander resolves to failure.
pub open spec fn wander_step_spec(a: AgentState) -> AgentState {
    match a.wander.state {
        ActionState::Requested => AgentState { wander: Wander { state: ActionState::Success }, ..a },
        ActionState::Cancelled => AgentState { wander: Wander { state: ActionState::Failure }, ..a },
        _ => a,
    }
}


/// Whether the agent's chase target currently exists in the world.
#[verifier::opaque]
pub open spec fn chase_target_ok(w: World, i: usize) -> bool {
    match w.entities@[i as int].agent.chaser.target {
        Some(t) => t < w.entities@.len() && w.entities@[t as int].alive,
        None => false,
    }
}

/// The position of the agent's chase target, where it exists.
#[verifier::opaque]
pub open spec fn chase_target_pos(w: World, i: usize) -> Vec3 {
    match w.entities@[i as int].agent.chaser.target {
        Some(t) => if t < w.entities@.len() {
            w.entities@[t as int].position
        } else {
            Vec3::zero_spec()
        },
        None => Vec3::zero_spec(),
    }
}

/// One chase step: a requested chase of a live target emits the normalized
/// horizontal direction towards it as a movement intent and keeps running; a
/// chase whose target is gone fails, and a cancelled chase resolves to
/// failure.
#[verifier::opaque]
pub open spec fn chase_step_spec(
    a: AgentState,
    self_pos: Vec3,
    target_ok: bool,
    target_pos: Vec3,
) -> AgentState {
    match a.chase.state {
        ActionState::Requested => {
            match a.chaser.target {
                None => AgentState { chase: Chase { state: ActionState::Failure }, ..a },
                Some(_) => if target_ok {
                    AgentState {
                        move_intent: Some(chase_direction_spec(self_pos, target_pos)),
                        ..a
                    }
                } else {
                    AgentState { chase: Chase { state: ActionState::Failure }, ..a }
                },
            }
        },
        ActionState::Cancelled => AgentState { chase: Chase { state: ActionState::Failure }, ..a },
        _ => a,
    }
}


/// Spawn a non-player agent: a combat entity whose utility-AI state is
/// enabled, idle and targetless, chasing hostiles within the default
/// threshold.
pub fn spawn_mob(world: &mut World, position: Vec3, faction: Faction, max_health: i64) -> (id:
    usize)
    requires
        old(world).wf(),
    ensures
        final(world).wf(),
        id == old(world).entities@.len(),
        final(world).entities@ == old(world).entities@.push(
            crate::world::EntityState {
                alive: true,
                position,
                faction,
                health: crate::Health { max: max_health, current: max_health },
                locked: None,
                agent: AgentState::fresh_spec(),
            },
        ),
        final(world).attacks@ == old(world).attacks@,
        final(world).pending@ == old(world).pending@,
{
    let id = world.spawn_entity(position, faction, max_health);
    let e = &mut world.entities[id];
    e.agent = AgentState::fresh();
    proof {
        assert(world.entities@ =~= old(world).entities@.push(
            crate::world::EntityState {
                alive: true,
                position,
                faction,
                health: crate::Health { max: max_health, current: max_health },
                locked: None,
                agent: AgentState::fresh_spec(),
            },
        ));
    }
    id
}

/// One chase step on one agent's state, from the values it reads: its own
/// position, whether its target still exists, and the target's position.
pub fn chase_step(a: AgentState, self_pos: Vec3, target_ok: bool, target_pos: Vec3) -> (r:
    AgentState)
    ensures
        r == chase_step_spec(a, self_pos, target_ok, target_pos),
{
    proof {
        reveal(chase_step_spec);
    }
    let mut a2 = a;
    match a.chase.state {
        ActionState::Requested => {
            match a.chaser.target {
                None => {
                    a2.chase.state = ActionState::Failure;
                },
                Some(_) => {
                    if target_ok {
                        let dir = chase_direction(self_pos, target_pos);
                        a2.move_intent = Some(dir);
                    } else {
                        a2.chase.state = ActionState::Failure;
                    }
                },
            }
        },
        ActionState::Cancelled => {
            a2.chase.state = ActionState::Failure;
        },
        _ => {},
    }
    a2
}

/// The chase step for every agent.
pub fn chase_action_system(world: &mut World)
    requires
        old(world).wf(),
    ensures
        final(world).wf(),
        final(world).attacks@ == old(world).attacks@,
        final(world).pending@ == old(world).pending@,
        final(world).entities@.len() == old(world).entities@.len(),
        forall|i: int|
            0 <= i < old(world).entities@.len() ==> {
                &&& final(world).entities@[i].agent == (if (
                #[trigger] old(world).entities@[i]).agent.enabled {
                    chase_step_spec(
                        old(world).entities@[i].agent,
                        old(world).entities@[i].position,
                        chase_target_ok(*old(world), i as usize),
                        chase_target_pos(*old(world), i as usize),
                    )
                } else {
                    old(world).entities@[i].agent
                })
                &&& entity_frame(old(world).entities@[i], final(world).entities@[i])
            },
{
    let n = world.entities.len();

    // First pass: run every agent's chase step against a consistent
    // snapshot of the world.
    let mut steps: Vec<AgentState> = Vec::new();
    let mut i: usize = 0;
    while i < n
        invariant
            i <= n,
            n == world.entities@.len(),
            *world == *old(world),
            steps@.len() == i,
            forall|j: int|
                0 <= j < i ==> #[trigger] steps@[j] == (if (
                old(world).entities@[j]).agent.enabled {
                    chase_step_spec(
                        old(world).entities@[j].agent,
                        old(world).entities@[j].position,
                        chase_target_ok(*old(world), j as usize),
                        chase_target_pos(*old(world), j as usize),
                    )
                } else {
                    old(world).entities@[j].agent
                }),
        decreases n - i,
    {
        let a = world.entities[i].agent;
        if a.enabled {
            let mut target_ok = false;
            let mut target_pos = Vec3::zero();
            match a.chaser.target {
                Some(t) => {
                    if t < world.entities.len() {
                        target_ok = world.entities[t].alive;
                        target_pos = world.entities[t].position;
                    }
                },
                None => {},
            }
            proof {
                assert(target_ok == chase_target_ok(*world, i) && target_pos
                    == chase_target_pos(*world, i)) by {
                    reveal(chase_target_ok);
                    reveal(chase_target_pos);
                }
            }
            let self_pos = world.entities[i].position;
            let a2 = chase_step(a, self_pos, target_ok, target_pos);
            steps.push(a2);
        } else {
            steps.push(a);
        }
        i = i + 1;
    }

    // Second pass: write the stepped states back.
    let mut i: usize = 0;
    while i < n
        invariant
            i <= n,
            n == world.entities@.len(),
            world.wf(),
            world.attacks@ == old(world).attacks@,
            world.pending@ == old(world).pending@,
            world.entities@.len() == old(world).entities@.len(),
            steps@.len() == n,
            forall|j: int|
                0 <= j < n ==> #[trigger] steps@[j] == (if (
                old(world).entities@[j]).agent.enabled {
                    chase_step_spec(
                        old(world).entities@[j].agent,
                        old(world).entities@[j].position,
                        chase_target_ok(*old(world), j as usize),
                        chase_target_pos(*old(world), j as usize),
                    )
                } else {
                    old(world).entities@[j].agent
                }),
            forall|j: int|
                0 <= j < i ==> {
                    &&& (#[trigger] world.entities@[j]).agent == steps@[j]
                    &&& entity_frame(old(world).entities@[j], world.entities@[j])
                },
            forall|j: int| i <= j < n ==> world.entities@[j] == #[trigger] old(world).entities@[j],
        decreases n - i,
    {
        let a2 = steps[i];
        world.entities[i].agent = a2;
        i = i + 1;
    }
}

/// Perception and alertness scoring for every agent: each agent's sticky
/// target is refreshed and its alertness set hot exactly when a hostile is
/// within its chase threshold.
pub fn alert_scorer_system(world: &mut World)
    requires
        old(world).wf(),
    ensures
        final(world).wf(),
        final(world).attacks@ == old(world).attacks@,
        final(world).pending@ == old(world).pending@,
        final(world).entities@.len() == old(world).entities@.len(),
        forall|i: int|
            0 <= i < old(world).entities@.len() ==> {
                &&& final(world).entities@[i].agent == (if (
                #[trigger] old(world).entities@[i]).agent.enabled {
                    perceive_spec(*old(world), i as usize)
                } else {
                    old(world).entities@[i].agent
                })
                &&& entity_frame(old(world).entities@[i], final(world).entities@[i])
            },
{
    let n = world.entities.len();

    // First pass: perception reads a consistent snapshot of the world.
    let mut targets: Vec<Option<usize>> = Vec::new();
    let mut i: usize = 0;
    while i < n
        invariant
            i <= n,
            n == world.entities@.len(),
            *world == *old(world),
            targets@.len() == i,
            forall|j: int| 0 <= j < i ==> targets@[j] == selected_target(*old(world), j as usize),
        decreases n - i,
    {
        let t = select_target(world, i);
        targets.push(t);
        i = i + 1;
    }

    // Second pass: write each agent's target and alertness.
    let mut i: usize = 0;
    while i < n
        invariant
            i <= n,
            n == world.entities@.len(),
            world.wf(),
            world.attacks@ == old(world).attacks@,
            world.pending@ == old(world).pending@,
            world.entities@.len() == old(world).entities@.len(),
            targets@.len() == n,
            forall|j: int| 0 <= j < n ==> targets@[j] == selected_target(*old(world), j as usize),
            forall|j: int|
                0 <= j < i ==> {
                    &&& world.entities@[j].agent == (if (
                    #[trigger] old(world).entities@[j]).agent.enabled {
                        perceive_spec(*old(world), j as usize)
                    } else {
                        old(world).entities@[j].agent
                    })
                    &&& entity_frame(old(world).entities@[j], world.entities@[j])
                },
            forall|j: int| i <= j < n ==> world.entities@[j] == #[trigger] old(world).entities@[j],
        decreases n - i,
    {
        let a = world.entities[i].agent;
        if a.enabled {
            let t = targets[i];
            let mut a2 = a;
            a2.chaser.target = t;
            a2.alert_score = if t.is_some() {
                ALERT_SCORE_HOT
            } else {
                ALERT_SCORE_COLD
            };
            world.entities[i].agent = a2;
        }
        i = i + 1;
    }
}

/// Wanderlust scoring: the baseline desire to wander is a constant low
/// score, the same for every agent on every tick.
pub fn wanderlust_scorer_system(world: &mut World)
    requires
        old(world).wf(),
    ensures
        final(world).wf(),
        final(world).attacks@ == old(world).attacks@,
        final(world).pending@ == old(world).pending@,
        final(world).entities@.len() == old(world).entities@.len(),
        forall|i: int|
            0 <= i < old(world).entities@.len() ==> {
                &&& final(world).entities@[i].agent == (if (
                #[trigger] old(world).entities@[i]).agent.enabled {
                    AgentState {
                        wanderlust_score: WANDERLUST_SCORE,
                        ..old(world).entities@[i].agent
                    }
                } else {
                    old(world).entities@[i].agent
                })
                &&& entity_frame(old(world).entities@[i], final(world).entities@[i])
            },
{
    let n = world.entities.len();
    let mut i: usize = 0;
    while i < n
        invariant
            i <= n,
            n == world.entities@.len(),
            world.wf(),
            world.attacks@ == old(world).attacks@,
            world.pending@ == old(world).pending@,
            world.entities@.len() == old(world).entities@.len(),
            forall|j: int|
                0 <= j < i ==> {
                    &&& world.entities@[j].agent == (if (
                    #[trigger] old(world).entities@[j]).agent.enabled {
                        AgentState {
                            wanderlust_score: WANDERLUST_SCORE,
                            ..old(world).entities@[j].agent
                        }
                    } else {
                        old(world).entities@[j].agent
                    })
                    &&& entity_frame(old(world).entities@[j], world.entities@[j])
                },
            forall|j: int| i <= j < n ==> world.entities@[j] == #[trigger] old(world).entities@[j],
        decreases n - i,
    {
        if world.entities[i].agent.enabled {
            let e = &mut world.entities[i];
            e.agent.wanderlust_score = WANDERLUST_SCORE;
        }
        i = i + 1;
    }
}

/// The selector step for every agent.
pub fn thinker_system(world: &mut World)
    requires
        old(world).wf(),
    ensures
        final(world).wf(),
        final(world).attacks@ == old(world).attacks@,
        final(world).pending@ == old(world).pending@,
        final(world).entities@.len() == old(world).entities@.len(),
        forall|i: int|
            0 <= i < old(world).entities@.len() ==> {
                &&& final(world).entities@[i].agent == (if (
                #[trigger] old(world).entities@[i]).agent.enabled {
                    think_spec(old(world).entities@[i].agent)
                } else {
                    old(world).entities@[i].agent
                })
                &&& entity_frame(old(world).entities@[i], final(world).entities@[i])
            },
{
    let n = world.entities.len();
    let mut i: usize = 0;
    while i < n
        invariant
            i <= n,
            n == world.entities@.len(),
            world.wf(),
            world.attacks@ == old(world).attacks@,
            world.pending@ == old(world).pending@,
            world.entities@.len() == old(world).entities@.len(),
            forall|j: int|
                0 <= j < i ==> {
                    &&& world.entities@[j].agent == (if (
                    #[trigger] old(world).entities@[j]).agent.enabled {
                        think_spec(old(world).entities@[j].agent)
                    } else {
                        old(world).entities@[j].agent
                    })
                    &&& entity_frame(old(world).entities@[j], world.entities@[j])
                },
            forall|j: int| i <= j < n ==> world.entities@[j] == #[trigger] old(world).entities@[j],
        decreases n - i,
    {
        let a = world.entities[i].agent;
        if a.enabled {
            let a2 = think(a);
            world.entities[i].agent = a2;
        }
        i = i + 1;
    }
}

/// The wander step for every agent.
pub fn wandering_action_system(world: &mut World)
    requires
        old(world).wf(),
    ensures
        final(world).wf(),
        final(world).attacks@ == old(world).attacks@,
        final(world).pending@ == old(world).pending@,
        final(world).entities@.len() == old(world).entities@.len(),
        forall|i: int|
            0 <= i < old(world).entities@.len() ==> {
                &&& final(world).entities@[i].agent == (if (
                #[trigger] old(world).entities@[i]).agent.enabled {
                    wander_step_spec(old(world).entities@[i].agent)
                } else {
                    old(world).entities@[i].agent
                })
                &&& entity_frame(old(world).entities@[i], final(world).entities@[i])
            },
{
    let n = world.entities.len();
    let mut i: usize = 0;
    while i < n
        invariant
            i <= n,
            n == world.entities@.len(),
            world.wf(),
            world.attacks@ == old(world).attacks@,
            world.pending@ == old(world).pending@,
            world.entities@.len() == old(world).entities@.len(),
            forall|j: int|
                0 <= j < i ==> {
                    &&& world.entities@[j].agent == (if (
                    #[trigger] old(world).entities@[j]).agent.enabled {
                        wander_step_spec(old(world).entities@[j].agent)
                    } else {
                        old(world).entities@[j].agent
                    })
                    &&& entity_frame(old(world).entities@[j], world.entities@[j])
                },
            forall|j: int| i <= j < n ==> world.entities@[j] == #[trigger] old(world).entities@[j],
        decreases n - i,
    {
        let a = world.entities[i].agent;
        if a.enabled {
            let mut a2 = a;
            match a.wander.state {
                ActionState::Requested => {
                    a2.wander.state = ActionState::Success;
                },
                ActionState::Cancelled => {
                    a2.wander.state = ActionState::Failure;
                },
                _ => {},
            }
            world.entities[i].agent = a2;
        }
        i = i + 1;
    }
}

} // verus!
