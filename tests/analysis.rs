use sound_engine::analysis::{AnalysisEngine, DecodeStep, PacketEvent};

#[test]
fn short_signals_have_no_frames() {
    assert!(AnalysisEngine::flux_frame_plan(0).is_none());
    assert!(AnalysisEngine::flux_frame_plan(511).is_none());
}

#[test]
fn frame_plan_of_short_signal() {
    let p = AnalysisEngine::flux_frame_plan(512).unwrap();
    assert_eq!((p.window, p.hop, p.frames), (512, 128, 1));
    let p = AnalysisEngine::flux_frame_plan(1000).unwrap();
    assert_eq!((p.window, p.hop, p.frames), (1000, 250, 1));
}

#[test]
fn frame_plan_of_full_window() {
    let p = AnalysisEngine::flux_frame_plan(44100 * 90).unwrap();
    assert_eq!((p.window, p.hop, p.frames), (4096, 256, 15488));
    let p = AnalysisEngine::flux_frame_plan(4096 + 255).unwrap();
    assert_eq!(p.frames, 1);
    let p = AnalysisEngine::flux_frame_plan(4096 + 256).unwrap();
    assert_eq!(p.frames, 2);
}

#[test]
fn sample_limit_is_ninety_seconds() {
    assert_eq!(AnalysisEngine::analysis_sample_limit(44100), 3_969_000);
    assert_eq!(AnalysisEngine::analysis_sample_limit(0), 0);
}

#[test]
fn downsample_factor_rounds_to_target() {
    assert_eq!(AnalysisEngine::downsample_factor(44100, 256), 1);
    assert_eq!(AnalysisEngine::downsample_factor(96000, 256), 2);
    assert_eq!(AnalysisEngine::downsample_factor(192000, 256), 3);
    assert_eq!(AnalysisEngine::downsample_factor(8000, 256), 1);
    assert_eq!(AnalysisEngine::downsample_factor(1000, 1), 5);
    assert_eq!(AnalysisEngine::downsample_factor(550, 1), 3);
}

#[test]
fn downsampled_rate_divides_native_rate() {
    for (rate, hop) in [(44100u32, 256u32), (96000, 256), (192000, 256), (1000, 1)] {
        let native = rate as f64 / hop as f64;
        let f = AnalysisEngine::downsample_factor(rate, hop);
        let expected = (native / 220.0).round().max(1.0);
        assert_eq!(f as f64, expected);
    }
}

#[test]
fn lag_range_for_cd_audio() {
    let r = AnalysisEngine::lag_range(44100, 256, 1, 1000).unwrap();
    assert_eq!((r.min_lag, r.max_lag), (52, 172));
    assert!(AnalysisEngine::lag_range(44100, 256, 1, 172).is_none());
    assert!(AnalysisEngine::lag_range(44100, 256, 1, 173).is_some());
    assert!(AnalysisEngine::lag_range(44100, 256, 1, 3).is_none());
}

#[test]
fn lag_range_needs_positive_min_lag() {
    assert!(AnalysisEngine::lag_range(1, 1, 1, 100).is_none());
    let r = AnalysisEngine::lag_range(96000, 256, 2, 5000).unwrap();
    assert_eq!((r.min_lag, r.max_lag), (56, 188));
}

#[test]
fn harmonic_lags_round_half_up() {
    assert_eq!(AnalysisEngine::harmonic_lag(10, 0, 100), Some(10));
    assert_eq!(AnalysisEngine::harmonic_lag(10, 1, 100), Some(5));
    assert_eq!(AnalysisEngine::harmonic_lag(9, 1, 100), Some(5));
    assert_eq!(AnalysisEngine::harmonic_lag(9, 2, 100), Some(18));
    assert_eq!(AnalysisEngine::harmonic_lag(9, 3, 100), Some(14));
    assert_eq!(AnalysisEngine::harmonic_lag(9, 4, 100), Some(6));
    assert_eq!(AnalysisEngine::harmonic_lag(9, 5, 100), Some(12));
    assert_eq!(AnalysisEngine::harmonic_lag(10, 6, 100), Some(8));
    assert_eq!(AnalysisEngine::harmonic_lag(1, 1, 100), Some(1));
    assert_eq!(AnalysisEngine::harmonic_lag(20, 2, 40), None);
    assert_eq!(AnalysisEngine::harmonic_lag(0, 0, 40), None);
}

#[test]
fn decode_steps_follow_packet_outcomes() {
    let step = AnalysisEngine::next_decode_step;
    assert_eq!(step(10, 100, PacketEvent::EndOfStream), DecodeStep::Finish);
    assert_eq!(step(10, 100, PacketEvent::ResetRequired), DecodeStep::ResetDecoder);
    assert_eq!(step(10, 100, PacketEvent::Undecodable), DecodeStep::ReadNext);
    assert_eq!(step(10, 100, PacketEvent::OtherTrack), DecodeStep::ReadNext);
    assert_eq!(step(10, 100, PacketEvent::Fatal), DecodeStep::Fail);
}

#[test]
fn decoding_stops_at_the_cap() {
    let step = AnalysisEngine::next_decode_step;
    assert_eq!(step(0, 100, PacketEvent::Decoded(99)), DecodeStep::ReadNext);
    assert_eq!(step(0, 100, PacketEvent::Decoded(100)), DecodeStep::Finish);
    assert_eq!(step(60, 100, PacketEvent::Decoded(50)), DecodeStep::Finish);
    assert_eq!(step(usize::MAX - 1, usize::MAX, PacketEvent::Decoded(usize::MAX)), DecodeStep::Finish);
    assert_eq!(step(3_968_999, 3_969_000, PacketEvent::Decoded(0)), DecodeStep::ReadNext);
}

#[test]
fn one_second_is_enough_audio() {
    assert!(AnalysisEngine::enough_audio(44100, 44100));
    assert!(!AnalysisEngine::enough_audio(44099, 44100));
    assert!(AnalysisEngine::enough_audio(0, 0));
}
