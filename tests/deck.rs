use sound_engine::deck::{Deck, SinkCommand, MIN_PLAYBACK_SPEED, SPEED_NORMAL, VOLUME_FULL};

fn loaded_deck() -> Deck {
    let mut d = Deck::new(3);
    let swap = d.load_track(Some("song.ogg".to_string()));
    assert!(!swap.stop_previous);
    d
}

#[test]
fn new_deck_defaults() {
    let d = Deck::new(2);
    assert_eq!(d.id(), 2);
    assert_eq!(d.volume(), VOLUME_FULL);
    assert_eq!(d.pitch_percent(), 0);
    assert!(!d.is_playing());
    assert!(d.loaded_track().is_none());
}

#[test]
fn load_sets_up_paused_sink() {
    let mut d = Deck::new(1);
    d.set_volume(5000);
    d.set_pitch_percent(800);
    let swap = d.load_track(Some("a.wav".to_string()));
    assert!(!swap.stop_previous);
    assert_eq!(
        swap.commands,
        vec![SinkCommand::Pause, SinkCommand::SetSpeed(10800), SinkCommand::SetVolume(5000)]
    );
    assert_eq!(d.loaded_track().map(|s| s.as_str()), Some("a.wav"));
    assert!(!d.is_playing());
    let again = d.load_track(None);
    assert!(again.stop_previous);
    assert!(d.loaded_track().is_none());
}

#[test]
fn toggle_without_track_does_nothing() {
    let mut d = Deck::new(1);
    assert!(d.toggle_playback().is_empty());
    assert!(!d.is_playing());
}

#[test]
fn toggle_flips_playback() {
    let mut d = loaded_deck();
    assert_eq!(d.toggle_playback(), vec![SinkCommand::Play]);
    assert!(d.is_playing());
    assert_eq!(d.toggle_playback(), vec![SinkCommand::Pause]);
    assert!(!d.is_playing());
}

#[test]
fn volume_is_clamped() {
    let mut d = loaded_deck();
    assert_eq!(d.set_volume(15000), vec![SinkCommand::SetVolume(VOLUME_FULL)]);
    assert_eq!(d.volume(), VOLUME_FULL);
    assert_eq!(d.set_volume(-5), vec![SinkCommand::SetVolume(0)]);
    assert_eq!(d.volume(), 0);
    let mut empty = Deck::new(1);
    assert!(empty.set_volume(2500).is_empty());
    assert_eq!(empty.volume(), 2500);
}

#[test]
fn pitch_maps_to_speed() {
    let mut d = loaded_deck();
    assert_eq!(
        d.set_pitch_percent(10000),
        vec![SinkCommand::SetSpeed(2 * SPEED_NORMAL), SinkCommand::SetVolume(VOLUME_FULL)]
    );
    assert_eq!(
        d.set_pitch_percent(20000),
        vec![SinkCommand::SetSpeed(2 * SPEED_NORMAL), SinkCommand::SetVolume(VOLUME_FULL)]
    );
    assert_eq!(d.pitch_percent(), 10000);
    assert_eq!(
        d.set_pitch_percent(-9899),
        vec![SinkCommand::SetSpeed(101), SinkCommand::SetVolume(VOLUME_FULL)]
    );
}

#[test]
fn pitch_mute_then_restore() {
    let mut d = loaded_deck();
    d.set_volume(7000);
    d.toggle_playback();
    assert!(d.is_playing());
    assert_eq!(
        d.set_pitch_percent(-9900),
        vec![SinkCommand::Pause, SinkCommand::SetSpeed(MIN_PLAYBACK_SPEED), SinkCommand::SetVolume(0)]
    );
    assert!(d.is_playing());
    assert!(d.set_volume(8000).is_empty());
    assert_eq!(
        d.set_pitch_percent(0),
        vec![SinkCommand::SetSpeed(SPEED_NORMAL), SinkCommand::SetVolume(8000), SinkCommand::Play]
    );
}

#[test]
fn pitch_below_range_is_muted_at_minimum() {
    let mut d = loaded_deck();
    let cmds = d.set_pitch_percent(-25000);
    assert_eq!(d.pitch_percent(), -9900);
    assert_eq!(cmds[2], SinkCommand::SetVolume(0));
}

#[test]
fn muted_deck_toggles_without_playing_sink() {
    let mut d = loaded_deck();
    d.set_pitch_percent(-9900);
    assert!(d.toggle_playback().is_empty());
    assert!(d.is_playing());
    assert_eq!(d.toggle_playback(), vec![SinkCommand::Pause]);
}

#[test]
fn pitch_mute_carries_into_next_load() {
    let mut d = Deck::new(4);
    d.set_pitch_percent(-9900);
    let swap = d.load_track(None);
    assert_eq!(
        swap.commands,
        vec![SinkCommand::Pause, SinkCommand::SetSpeed(100), SinkCommand::SetVolume(0)]
    );
}

#[test]
fn clear_stops_sink() {
    let mut d = loaded_deck();
    d.toggle_playback();
    assert_eq!(d.clear_track(), vec![SinkCommand::Stop]);
    assert!(!d.is_playing());
    assert!(d.loaded_track().is_none());
    assert!(d.clear_track().is_empty());
}
