use combat_core::animation::{ActiveAnimation, Animations, PlayCommand};

fn keys() -> Animations {
    Animations { run: 1, idle: 2, attack: 3 }
}

#[test]
fn fresh_key_idles_and_emits_nothing() {
    let mut a = ActiveAnimation::new(keys());
    assert_eq!(a.get(), 2);
    assert!(a.repeating);
    assert_eq!(a.queue_system(16, 900), None);
}

#[test]
fn set_emits_one_play_command() {
    let mut a = ActiveAnimation::new(keys());
    a.set(1);
    assert_eq!(
        a.queue_system(16, 900),
        Some(PlayCommand { clip: 1, transition_ms: a.transition_duration(), repeating: true })
    );
    // Nothing changed since: silent again.
    assert_eq!(a.queue_system(16, 900), None);
}

#[test]
fn one_shot_clip_hands_over_to_queued_clip() {
    let mut a = ActiveAnimation::new(keys());
    a.set(3);
    a.then(2);
    // While the follow-up waits, the active one-shot plays without repeat.
    let cmd = a.queue_system(100, 600).expect("queued key always plays");
    assert_eq!((cmd.clip, cmd.repeating), (3, false));
    // The countdown was armed on the first step; run the clip out.
    let cmd = a.queue_system(600, 600).expect("queued key always plays");
    assert_eq!((cmd.clip, cmd.repeating), (2, true));
    assert_eq!(a.get(), 2);
    // The handover counts as a change, so it is played once more...
    let cmd = a.queue_system(100, 900).expect("a changed key plays");
    assert_eq!((cmd.clip, cmd.repeating), (2, true));
    // ... and only then does the key go silent.
    assert_eq!(a.queue_system(100, 900), None);
}
