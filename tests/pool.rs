use reson::pool::{GlideClock, HandleState, VoicePhase, VoicePool};

fn phases(p: &VoicePool) -> Vec<VoicePhase> {
    (0..p.len()).map(|i| p.slot(i).phase).collect()
}

#[test]
fn new_pool_is_idle() {
    let p = VoicePool::new(3, false);
    assert_eq!(p.len(), 3);
    assert_eq!(p.counter(), 0);
    assert!(!p.mono());
    for i in 0..3 {
        assert_eq!(p.slot(i), HandleState { phase: VoicePhase::Off, glide: None, counter: 0 });
        assert!(!p.is_active(i));
    }
}

#[test]
fn third_note_steals_oldest_then_oldest_release_is_reused() {
    let mut p = VoicePool::new(2, false);
    let a = p.trigger(60, None);
    let b = p.trigger(64, None);
    assert_eq!((a.slot, a.stolen), (0, false));
    assert_eq!((b.slot, b.stolen), (1, false));
    let c = p.trigger(67, None);
    assert_eq!(c.slot, 0);
    assert!(c.stolen);
    assert_eq!(c.previous.phase, VoicePhase::On(60));
    assert_eq!(phases(&p), vec![VoicePhase::On(67), VoicePhase::On(64)]);

    assert_eq!(p.release(64), Some(1));
    assert_eq!(p.release(67), Some(0));
    assert_eq!(phases(&p), vec![VoicePhase::Released(67), VoicePhase::Released(64)]);
    assert_eq!(p.slot(1).counter, 3);
    assert_eq!(p.slot(0).counter, 4);

    let d = p.trigger(70, None);
    assert_eq!(d.slot, 1);
    assert!(d.stolen);
    assert_eq!(d.previous.phase, VoicePhase::Released(64));
    assert_eq!(phases(&p), vec![VoicePhase::Released(67), VoicePhase::On(70)]);
    assert_eq!(p.counter(), 6);
}

#[test]
fn full_pool_steals_the_oldest_trigger() {
    let mut p = VoicePool::new(3, false);
    p.trigger(50, None);
    p.trigger(52, None);
    p.trigger(54, None);
    assert_eq!(p.trigger(56, None).slot, 0);
    assert_eq!(p.trigger(58, None).slot, 1);
    assert_eq!(p.trigger(60, None).slot, 2);
    assert_eq!(p.trigger(62, None).slot, 0);
    let on = phases(&p).iter().filter(|ph| matches!(ph, VoicePhase::On(_))).count();
    assert!(on <= 3);
}

#[test]
fn idle_handle_is_preferred_to_a_released_one() {
    let mut p = VoicePool::new(2, false);
    p.trigger(60, None);
    p.release(60);
    let t = p.trigger(62, None);
    assert_eq!(t.slot, 1);
    assert!(!t.stolen);
}

#[test]
fn released_same_note_is_preferred_to_other_released() {
    let mut p = VoicePool::new(3, false);
    p.trigger(60, None);
    p.trigger(62, None);
    p.trigger(64, None);
    p.release(60);
    p.release(62);
    let t = p.trigger(62, None);
    assert_eq!(t.slot, 1);
}

#[test]
fn released_note_is_stolen_before_a_sounding_one() {
    let mut p = VoicePool::new(2, false);
    p.trigger(60, None);
    p.trigger(62, None);
    p.release(62);
    assert_eq!(p.trigger(64, None).slot, 1);
}

#[test]
fn retriggering_a_sounding_note_reuses_its_handle() {
    let mut p = VoicePool::new(3, false);
    p.trigger(60, None);
    p.trigger(62, None);
    p.trigger(64, None);
    let t = p.trigger(62, None);
    assert_eq!(t.slot, 1);
    assert!(t.stolen);
    assert_eq!(phases(&p), vec![VoicePhase::On(60), VoicePhase::On(62), VoicePhase::On(64)]);
}

#[test]
fn mono_mode_always_uses_the_first_handle() {
    let mut p = VoicePool::new(4, true);
    for note in [60u8, 64, 67, 72] {
        let t = p.trigger(note, None);
        assert_eq!(t.slot, 0);
        assert!(!t.stolen);
    }
    assert_eq!(p.slot(0).phase, VoicePhase::On(72));
    for i in 1..4 {
        assert!(!p.is_active(i));
    }
    assert_eq!(p.mixed_count(), 1);
}

#[test]
fn legato_in_mono_mode_starts_a_glide() {
    let mut p = VoicePool::new(4, true);
    let first = p.trigger(60, Some(4800));
    assert!(!first.glide);
    assert_eq!(p.slot(0).glide, None);
    let second = p.trigger(67, Some(4800));
    assert!(second.glide);
    assert_eq!(p.slot(0).glide, Some(GlideClock { duration: 4800, elapsed: 0 }));
    assert_eq!(p.slot(0).phase, VoicePhase::On(67));
}

#[test]
fn mono_note_after_release_does_not_glide() {
    let mut p = VoicePool::new(1, true);
    p.trigger(60, Some(100));
    p.release(60);
    let t = p.trigger(62, Some(100));
    assert!(!t.glide);
    assert_eq!(p.slot(0).glide, None);
}

#[test]
fn portamento_off_never_glides() {
    let mut p = VoicePool::new(1, true);
    p.trigger(60, None);
    let t = p.trigger(67, None);
    assert!(!t.glide);
    assert_eq!(p.slot(0).glide, None);
}

#[test]
fn polyphonic_mode_never_glides() {
    let mut p = VoicePool::new(1, false);
    p.trigger(60, Some(100));
    let t = p.trigger(67, Some(100));
    assert!(t.stolen);
    assert!(!t.glide);
    assert_eq!(p.slot(0).glide, None);
}

#[test]
fn glide_keeps_its_duration_and_ends_when_elapsed() {
    let mut p = VoicePool::new(1, true);
    p.trigger(60, Some(300));
    p.trigger(72, Some(300));
    p.finish_block(0, 128, true);
    assert_eq!(p.slot(0).glide, Some(GlideClock { duration: 300, elapsed: 128 }));
    p.finish_block(0, 128, true);
    assert_eq!(p.slot(0).glide, Some(GlideClock { duration: 300, elapsed: 256 }));
    p.finish_block(0, 128, true);
    assert_eq!(p.slot(0).glide, None);
    assert_eq!(p.slot(0).phase, VoicePhase::On(72));
}

#[test]
fn glide_of_zero_length_ends_after_one_block() {
    let mut p = VoicePool::new(1, true);
    p.trigger(60, Some(0));
    p.trigger(61, Some(0));
    assert_eq!(p.slot(0).glide, Some(GlideClock { duration: 0, elapsed: 0 }));
    p.finish_block(0, 1, true);
    assert_eq!(p.slot(0).glide, None);
}

#[test]
fn handle_goes_off_when_its_voice_falls_silent() {
    let mut p = VoicePool::new(2, false);
    p.trigger(60, None);
    p.release(60);
    p.finish_block(0, 64, true);
    assert_eq!(p.slot(0).phase, VoicePhase::Released(60));
    p.finish_block(0, 64, false);
    assert_eq!(p.slot(0).phase, VoicePhase::Off);
    assert!(!p.is_active(0));
}

#[test]
fn release_of_a_note_not_on_changes_nothing() {
    let mut p = VoicePool::new(2, false);
    p.trigger(60, None);
    assert_eq!(p.release(61), None);
    assert_eq!(p.counter(), 1);
    assert_eq!(p.release(60), Some(0));
    assert_eq!(p.release(60), None);
    assert_eq!(p.counter(), 2);
}

#[test]
fn mono_release_looks_at_the_first_handle_only() {
    let mut p = VoicePool::new(2, false);
    p.trigger(60, None);
    p.trigger(62, None);
    p.reconfigure(2, true);
    assert_eq!(p.release(62), None);
    assert_eq!(p.release(60), Some(0));
}

#[test]
fn reconfigure_keeps_first_handles_and_adds_idle_ones() {
    let mut p = VoicePool::new(2, false);
    p.trigger(60, None);
    p.trigger(62, None);
    p.reconfigure(1, false);
    assert_eq!(phases(&p), vec![VoicePhase::On(60)]);
    p.reconfigure(3, true);
    assert_eq!(phases(&p), vec![VoicePhase::On(60), VoicePhase::Off, VoicePhase::Off]);
    assert!(p.mono());
    assert_eq!(p.counter(), 2);
    assert_eq!(p.mixed_count(), 1);
}

#[test]
fn reset_all_silences_every_handle() {
    let mut p = VoicePool::new(3, false);
    p.trigger(60, None);
    p.trigger(62, None);
    p.release(62);
    p.reset_all();
    for i in 0..3 {
        assert_eq!(p.slot(i), HandleState { phase: VoicePhase::Off, glide: None, counter: 0 });
    }
    assert_eq!(p.counter(), 3);
    assert_eq!(p.mixed_count(), 3);
}

#[test]
fn mono_retrigger_of_the_same_note_does_not_glide() {
    let mut p = VoicePool::new(1, true);
    p.trigger(60, Some(100));
    let t = p.trigger(60, Some(100));
    assert!(!t.glide);
    assert_eq!(p.slot(0).glide, None);
    assert_eq!(p.slot(0).phase, VoicePhase::On(60));
}
