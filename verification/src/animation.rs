//! The active-animation key an entity exposes to the presentation layer.
//!
//! The core only decides which clip is active, whether it repeats, and what
//! to play next once a one-shot clip has run its course; playback itself is
//! the presentation collaborator's business.  Clips are plain identifiers
//! here, and the collaborator supplies the active clip's length when it
//! drives the queue.

use vstd::prelude::*;

use crate::timer::Timer;

verus! {

/// Transition time between two clips.
pub const ANIMATION_TRANSITION_MS: u64 = 250;

/// The clip identifiers of the three animation keys an entity can expose.
#[derive(Clone, Copy, PartialEq, Eq, Structural, Debug)]
pub struct Animations {
    pub run: u64,
    pub idle: u64,
    pub attack: u64,
}

/// What the presentation layer should do after one queue step.
#[derive(Clone, Copy, PartialEq, Eq, Structural, Debug)]
pub struct PlayCommand {
    pub clip: u64,
    pub transition_ms: u64,
    pub repeating: bool,
}

/// The animation key of one entity: the active clip, an optional follow-up
/// clip queued behind it, and the countdown until the follow-up takes over.
#[derive(Clone, Copy, PartialEq, Eq, Structural, Debug)]
pub struct ActiveAnimation {
    pub animations: Animations,
    pub active: u64,
    pub transition_ms: u64,
    pub repeating: bool,
    pub next: Option<u64>,
    pub timer: Option<Timer>,
    pub changed: bool,
}

impl ActiveAnimation {
    /// A fresh key: idling, repeating, nothing queued.
    pub fn new(animations: Animations) -> (r: ActiveAnimation)
        ensures
            r == (ActiveAnimation {
                animations,
                active: animations.idle,
                transition_ms: ANIMATION_TRANSITION_MS,
                repeating: true,
                next: None,
                timer: None,
                changed: false,
            }),
    {
        ActiveAnimation {
            active: animations.idle,
            animations,
            transition_ms: ANIMATION_TRANSITION_MS,
            repeating: true,
            next: None,
            timer: None,
            changed: false,
        }
    }

    /// The active clip.
    pub fn get(&self) -> (r: u64)
        ensures
            r == self.active,
    {
        self.active
    }

    pub fn transition_duration(&self) -> (r: u64)
        ensures
            r == self.transition_ms,
    {
        self.transition_ms
    }

    /// Make `clip` the active, repeating clip.
    pub fn set(&mut self, clip: u64)
        ensures
            *final(self) == (ActiveAnimation {
                active: clip,
                repeating: true,
                changed: true,
                ..*old(self)
            }),
    {
        self.active = clip;
        self.repeating = true;
        self.changed = true;
    }

    /// Queue `clip` to take over once the active clip has played once; until
    /// then the active clip stops repeating.
    pub fn then(&mut self, clip: u64)
        ensures
            *final(self) == (ActiveAnimation {
                next: Some(clip),
                repeating: false,
                ..*old(self)
            }),
    {
        self.next = Some(clip);
        self.repeating = false;
    }

    /// Promote the queued clip to active.
    pub fn next(&mut self)
        requires
            old(self).next is Some,
        ensures
            *final(self) == (ActiveAnimation {
                active: old(self).next->Some_0,
                repeating: true,
                changed: true,
                next: None,
                ..*old(self)
            }),
    {
        let n = self.next.take();
        match n {
            Some(clip) => {
                self.set(clip);
            },
            None => {},
        }
    }

    /// One tick of the animation queue, given the running clip's length from
    /// the presentation collaborator.  While a follow-up clip is queued the
    /// active clip is replayed every tick and a countdown of the clip's
    /// length is armed, on whose expiry the follow-up takes over; otherwise a
    /// play command is emitted only when the key changed since the last step.
    pub fn queue_system(&mut self, delta_ms: u64, active_clip_ms: u64) -> (cmd: Option<
        PlayCommand,
    >)
        ensures
            (*final(self), cmd) == old(self).queue_step_spec(delta_ms, active_clip_ms),
    {
        proof {
            reveal(ActiveAnimation::queue_step_spec);
        }
        if self.next.is_some() {
            let t = self.timer;
            match t {
                Some(mut timer) => {
                    timer.tick(delta_ms);
                    if timer.finished() {
                        self.timer = None;
                        self.next();
                    } else {
                        self.timer = Some(timer);
                    }
                },
                None => {
                    self.timer = Some(Timer::new(active_clip_ms));
                },
            }
        } else if !self.changed {
            return None;
        } else {
            self.changed = false;
        }
        Some(
            PlayCommand {
                clip: self.active,
                transition_ms: self.transition_ms,
                repeating: self.repeating,
            },
        )
    }

    /// The queue step as a function of the key's state.
    #[verifier::opaque]
    pub open spec fn queue_step_spec(self, delta_ms: u64, active_clip_ms: u64) -> (
        ActiveAnimation,
        Option<PlayCommand>,
    ) {
        let stepped = if self.next is Some {
            match self.timer {
                Some(t) => {
                    let t2 = t.tick_spec(delta_ms);
                    if t2.fired {
                        ActiveAnimation {
                            active: self.next->Some_0,
                            repeating: true,
                            changed: true,
                            next: None,
                            timer: None,
                            ..self
                        }
                    } else {
                        ActiveAnimation { timer: Some(t2), ..self }
                    }
                },
                None => ActiveAnimation { timer: Some(Timer::fresh_spec(active_clip_ms)), ..self },
            }
        } else if !self.changed {
            self
        } else {
            ActiveAnimation { changed: false, ..self }
        };
        let cmd = if self.next is None && !self.changed {
            Option::<PlayCommand>::None
        } else {
            Some(
                PlayCommand {
                    clip: stepped.active,
                    transition_ms: stepped.transition_ms,
                    repeating: stepped.repeating,
                },
            )
        };
        (stepped, cmd)
    }
}

} // verus!
