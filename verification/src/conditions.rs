//! Stackable timed status effects.
//!
//! A condition of some kind (for example [`Locked`]) carries a stack counter
//! and one independent countdown per application.  Each timer that expires
//! removes exactly one stack; the owning entity drops the condition entirely
//! when the stack reaches zero.  Applying a condition again pushes a fresh
//! timer and raises the stack instead of refreshing an existing timer.

use vstd::prelude::*;

use crate::timer::Timer;
use crate::world::World;
use core::marker::PhantomData;

verus! {

/// Marker for the action-locked status: a locked entity may not issue
/// movement or attack intents.
pub struct Locked;

/// Number of timers in `s` that have not yet expired.
pub open spec fn unfired_count(s: Seq<Timer>) -> int
    decreases s.len(),
{
    if s.len() == 0 {
        0
    } else {
        unfired_count(s.drop_last()) + if s.last().fired { 0int } else { 1int }
    }
}

/// Interface of a stackable timed status effect: one stack per application,
/// one countdown per stack, expiries remove stacks one by one.
pub trait ConditionTrait: Sized {
    /// Current number of stacks.
    spec fn stacks(&self) -> int;

    /// The countdowns backing the stacks, in order of application.
    spec fn timer_seq(&self) -> Seq<Timer>;

    /// The stack counter agrees with the number of running countdowns.
    open spec fn wf(&self) -> bool {
        &&& self.stacks() == unfired_count(self.timer_seq())
        &&& forall|i: int| 0 <= i < self.timer_seq().len() ==> (#[trigger] self.timer_seq()[i]).wf()
    }

    /// Advance every countdown; each countdown that expires on this tick
    /// removes one stack.
    fn tick(&mut self, delta_ms: u64)
        requires
            old(self).wf(),
        ensures
            final(self).wf(),
            final(self).timer_seq() == old(self).timer_seq().map_values(
                |t: Timer| t.tick_spec(delta_ms),
            ),
            final(self).stacks() == unfired_count(final(self).timer_seq()),
    ;

    fn stack(&self) -> (r: usize)
        ensures
            r == self.stacks(),
    ;

    /// Apply the condition once more: one extra stack, one fresh countdown.
    fn add_timer(&mut self, duration_ms: u64)
        requires
            old(self).wf(),
            old(self).stacks() < usize::MAX,
        ensures
            final(self).wf(),
            final(self).timer_seq() == old(self).timer_seq().push(Timer::fresh_spec(duration_ms)),
            final(self).stacks() == old(self).stacks() + 1,
    ;
}

/// A condition of kind `T` attached to one entity: a stack counter and one
/// independent expiry countdown per application.
pub struct Condition<T> {
    pub stack: usize,
    pub timers: Vec<Timer>,
    pub phantom: PhantomData<T>,
}

impl<T> Condition<T> {
    /// Create a condition with a single stack expiring after `duration_ms`.
    pub fn new(duration_ms: u64) -> (r: Self)
        ensures
            r.stack == 1,
            r.timers@ == seq![Timer::fresh_spec(duration_ms)],
            r.wf(),
    {
        let timers = vec![Timer::new(duration_ms)];
        proof {
            assert(timers@.drop_last() =~= Seq::<Timer>::empty());
            assert(timers@ =~= seq![Timer::fresh_spec(duration_ms)]);
            assert(unfired_count(Seq::<Timer>::empty()) == 0);
            assert(unfired_count(timers@) == 1);
        }
        Condition { stack: 1, timers, phantom: PhantomData }
    }
}

/// The running-countdown count changes with one entry exactly as that
/// entry's expired flag changes.
proof fn lemma_unfired_count_update(s: Seq<Timer>, i: int, t: Timer)
    requires
        0 <= i < s.len(),
    ensures
        unfired_count(s.update(i, t)) == unfired_count(s) - (if s[i].fired { 0int } else { 1int })
            + (if t.fired { 0int } else { 1int }),
    decreases s.len(),
{
    let s2 = s.update(i, t);
    if i == s.len() - 1 {
        assert(s2.drop_last() =~= s.drop_last());
    } else {
        assert(s2.drop_last() =~= s.drop_last().update(i, t));
        lemma_unfired_count_update(s.drop_last(), i, t);
    }
}

/// Appending a countdown adds its running bit to the count.
proof fn lemma_unfired_count_push(s: Seq<Timer>, t: Timer)
    ensures
        unfired_count(s.push(t)) == unfired_count(s) + if t.fired { 0int } else { 1int },
{
    assert(s.push(t).drop_last() =~= s);
}

/// The running-countdown count never exceeds the number of countdowns.
pub proof fn lemma_unfired_count_bounds(s: Seq<Timer>)
    ensures
        0 <= unfired_count(s) <= s.len(),
    decreases s.len(),
{
    if s.len() > 0 {
        lemma_unfired_count_bounds(s.drop_last());
    }
}

impl<T> ConditionTrait for Condition<T> {
    open spec fn stacks(&self) -> int {
        self.stack as int
    }

    open spec fn timer_seq(&self) -> Seq<Timer> {
        self.timers@
    }

    fn tick(&mut self, delta_ms: u64) {
        let ghost orig = self.timers@;
        let mut i: usize = 0;
        while i < self.timers.len()
            invariant
                i <= orig.len(),
                self.timers@.len() == orig.len(),
                forall|j: int| 0 <= j < i ==> self.timers@[j] == (#[trigger] orig[j]).tick_spec(
                    delta_ms,
                ),
                forall|j: int| i <= j < orig.len() ==> self.timers@[j] == #[trigger] orig[j],
                self.stack == unfired_count(self.timers@),
                forall|j: int| 0 <= j < orig.len() ==> (#[trigger] orig[j]).wf(),
            decreases orig.len() - i,
        {
            let ghost before = self.timers@;
            let fired_now: bool;
            {
                let t = &mut self.timers[i];
                t.tick(delta_ms);
                fired_now = t.just_finished();
            }
            proof {
                lemma_unfired_count_update(before, i as int, self.timers@[i as int]);
                lemma_unfired_count_bounds(self.timers@);
            }
            if fired_now {
                self.stack = self.stack - 1;
            }
            i = i + 1;
        }
        proof {
            assert(self.timers@ =~= orig.map_values(|t: Timer| t.tick_spec(delta_ms)));
        }
    }

    fn stack(&self) -> (r: usize) {
        self.stack
    }

    fn add_timer(&mut self, duration_ms: u64) {
        self.stack = self.stack + 1;
        self.timers.push(Timer::new(duration_ms));
        proof {
            lemma_unfired_count_push(old(self).timers@, Timer::fresh_spec(duration_ms));
        }
    }
}

/// Apply a condition of kind `T` to a slot owned by some entity: create it
/// at stack one when absent, stack one more application when present.
pub fn apply_condition<T>(slot: &mut Option<Condition<T>>, duration_ms: u64)
    requires
        condition_slot_wf(*old(slot)),
        condition_stack_of(*old(slot)) < usize::MAX,
    ensures
        condition_slot_wf(*final(slot)),
        final(slot).is_some(),
        condition_applied(*old(slot), *final(slot), duration_ms),
{
    let cur = slot.take();
    match cur {
        None => {
            *slot = Some(Condition::new(duration_ms));
        },
        Some(mut c) => {
            c.add_timer(duration_ms);
            *slot = Some(c);
        },
    }
}

/// A possibly-absent condition is well-formed when a present one is.
pub open spec fn condition_slot_wf<T>(slot: Option<Condition<T>>) -> bool {
    match slot {
        None => true,
        Some(c) => c.wf(),
    }
}

/// Stack count of a possibly-absent condition; absence counts as zero.
pub open spec fn condition_stack_of<T>(slot: Option<Condition<T>>) -> int {
    match slot {
        None => 0,
        Some(c) => c.stacks(),
    }
}

/// Timers of a possibly-absent condition; absence has none.
pub open spec fn condition_timers_of<T>(slot: Option<Condition<T>>) -> Seq<Timer> {
    match slot {
        None => Seq::empty(),
        Some(c) => c.timer_seq(),
    }
}

/// How one application of duration `d` changes a condition slot: one more
/// stack, one more fresh countdown at the end.
pub open spec fn condition_applied<T>(
    before: Option<Condition<T>>,
    after: Option<Condition<T>>,
    duration_ms: u64,
) -> bool {
    &&& condition_stack_of(after) == condition_stack_of(before) + 1
    &&& condition_timers_of(after) == condition_timers_of(before).push(
        Timer::fresh_spec(duration_ms),
    )
}

/// How one tick changes a condition slot: every countdown advances, each
/// expiring countdown removes one stack, and the condition disappears from
/// the entity exactly when no stacks remain.
pub open spec fn condition_slot_stepped<T>(
    before: Option<Condition<T>>,
    after: Option<Condition<T>>,
    delta_ms: u64,
) -> bool {
    match before {
        None => after is None,
        Some(c) => {
            let timers2 = c.timer_seq().map_values(|t: Timer| t.tick_spec(delta_ms));
            if unfired_count(timers2) == 0 {
                after is None
            } else {
                match after {
                    Some(c2) => c2.timer_seq() == timers2 && c2.stacks() == unfired_count(timers2),
                    None => false,
                }
            }
        },
    }
}

/// Advance every condition on every entity by `delta_ms` and remove each
/// condition whose stack reaches zero.  Runs every simulation step.  Nothing
/// else about the world changes.
pub fn conditions_system(world: &mut World, delta_ms: u64)
    requires
        old(world).wf(),
    ensures
        final(world).wf(),
        final(world).attacks@ == old(world).attacks@,
        final(world).pending@ == old(world).pending@,
        final(world).entities@.len() == old(world).entities@.len(),
        forall|i: int|
            0 <= i < old(world).entities@.len() ==> {
                &&& condition_slot_stepped(
                    (#[trigger] old(world).entities@[i]).locked,
                    final(world).entities@[i].locked,
                    delta_ms,
                )
                &&& final(world).entities@[i].alive == old(world).entities@[i].alive
                &&& final(world).entities@[i].position == old(world).entities@[i].position
                &&& final(world).entities@[i].faction == old(world).entities@[i].faction
                &&& final(world).entities@[i].health == old(world).entities@[i].health
                &&& final(world).entities@[i].agent == old(world).entities@[i].agent
            },
{
    let n = world.entities.len();
    let mut i: usize = 0;
    while i < n
        invariant
            i <= n,
            n == world.entities@.len(),
            world.wf(),
            world.attacks@ == old(world).attacks@,
            world.pending@ == old(world).pending@,
            world.entities@.len() == old(world).entities@.len(),
            forall|j: int|
                0 <= j < i ==> {
                    &&& condition_slot_stepped(
                        (#[trigger] old(world).entities@[j]).locked,
                        world.entities@[j].locked,
                        delta_ms,
                    )
                    &&& world.entities@[j].alive == old(world).entities@[j].alive
                    &&& world.entities@[j].position == old(world).entities@[j].position
                    &&& world.entities@[j].faction == old(world).entities@[j].faction
                    &&& world.entities@[j].health == old(world).entities@[j].health
                    &&& world.entities@[j].agent == old(world).entities@[j].agent
                },
            forall|j: int| i <= j < n ==> world.entities@[j] == #[trigger] old(world).entities@[j],
        decreases n - i,
    {
        let has = world.entities[i].locked.is_some();
        if has {
            let e = &mut world.entities[i];
            let taken = e.locked.take();
            match taken {
                Some(mut c) => {
                    c.tick(delta_ms);
                    if c.stack() != 0 {
                        e.locked = Some(c);
                    }
                },
                None => {},
            }
        }
        i = i + 1;
    }
}

} // verus!
