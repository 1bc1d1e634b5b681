use tagotomatik::engine::{EngineAction, PlaybackEngine, PlaybackState, PlayerCommand};
use tagotomatik::equalizer::ChannelRouter;

fn play(engine: &mut PlaybackEngine, path: &str, ok: bool) -> EngineAction {
    let action = engine.handle(&PlayerCommand::Play(path.to_string()));
    engine.play_opened(path.to_string(), ok);
    action
}

#[test]
fn second_play_supersedes_first() {
    let mut engine = PlaybackEngine::new();
    let a = play(&mut engine, "a.flac", true);
    assert_eq!(a, EngineAction::OpenAndPlay("a.flac".to_string()));
    assert_eq!(engine.emit_sample(), Some(0));
    assert_eq!(engine.emit_sample(), Some(1));
    let b = play(&mut engine, "b.flac", true);
    assert_eq!(b, EngineAction::OpenAndPlay("b.flac".to_string()));
    assert_eq!(engine.state(), PlaybackState::Playing);
    assert_eq!(engine.session(), Some(("b.flac".to_string(), 0)));
    assert_eq!(engine.pipelines_built(), 2);
    assert_eq!(engine.emit_sample(), Some(0));
}

#[test]
fn stop_when_idle_is_noop() {
    let mut engine = PlaybackEngine::new();
    assert_eq!(engine.handle(&PlayerCommand::Stop), EngineAction::Nothing);
    assert_eq!(engine.state(), PlaybackState::Idle);
    assert_eq!(engine.session(), None);
    assert_eq!(engine.pipelines_built(), 0);
}

#[test]
fn pause_then_resume_keeps_position() {
    let mut engine = PlaybackEngine::new();
    play(&mut engine, "ramp.wav", true);
    assert_eq!(engine.emit_sample(), Some(0));
    assert_eq!(engine.emit_sample(), Some(1));
    assert_eq!(engine.emit_sample(), Some(2));
    assert_eq!(engine.handle(&PlayerCommand::Pause), EngineAction::SuspendSink);
    assert_eq!(engine.state(), PlaybackState::Paused);
    assert_eq!(engine.emit_sample(), None);
    assert_eq!(engine.handle(&PlayerCommand::Resume), EngineAction::ResumeSink);
    assert_eq!(engine.state(), PlaybackState::Playing);
    assert_eq!(engine.emit_sample(), Some(3));
}

#[test]
fn failed_open_leaves_no_sink() {
    let mut engine = PlaybackEngine::new();
    play(&mut engine, "good.mp3", true);
    play(&mut engine, "missing.mp3", false);
    assert_eq!(engine.state(), PlaybackState::Idle);
    assert_eq!(engine.session(), None);
    assert_eq!(engine.pipelines_built(), 2);
    assert_eq!(engine.handle(&PlayerCommand::SetVolume), EngineAction::Nothing);
    assert_eq!(engine.handle(&PlayerCommand::Seek), EngineAction::Nothing);
}

#[test]
fn commands_on_a_playing_sink() {
    let mut engine = PlaybackEngine::new();
    play(&mut engine, "x.ogg", true);
    assert_eq!(engine.handle(&PlayerCommand::SetVolume), EngineAction::ApplyVolume);
    assert_eq!(engine.handle(&PlayerCommand::Seek), EngineAction::ApplySeek);
    assert_eq!(engine.handle(&PlayerCommand::SetEq), EngineAction::Nothing);
    assert_eq!(engine.handle(&PlayerCommand::Resume), EngineAction::ResumeSink);
    assert_eq!(engine.state(), PlaybackState::Playing);
    assert_eq!(engine.handle(&PlayerCommand::Stop), EngineAction::DiscardSink);
    assert_eq!(engine.state(), PlaybackState::Idle);
    assert_eq!(engine.handle(&PlayerCommand::Pause), EngineAction::Nothing);
    assert_eq!(engine.state(), PlaybackState::Idle);
}

#[test]
fn stereo_round_robin_alternates() {
    let mut router = ChannelRouter::new(2);
    let mut counts = [0usize; 2];
    for n in 0..1000usize {
        let (ch, _) = router.route();
        assert_eq!(ch, n % 2);
        counts[ch] += 1;
    }
    assert_eq!(counts, [500, 500]);
}

#[test]
fn refresh_every_five_hundred_rotations() {
    let mut router = ChannelRouter::new(2);
    let mut refreshes = Vec::new();
    for n in 0..3000usize {
        let (_, refresh) = router.route();
        if refresh {
            refreshes.push(n);
        }
    }
    assert_eq!(refreshes, vec![999, 1999, 2999]);
}

#[test]
fn mono_router_refreshes_after_sample_five_hundred() {
    let mut router = ChannelRouter::new(1);
    for _ in 0..499 {
        assert_eq!(router.route(), (0, false));
    }
    assert_eq!(router.route(), (0, true));
    assert_eq!(router.route(), (0, false));
    assert_eq!(router.channels(), 1);
    assert_eq!(router.current_channel(), 0);
}
