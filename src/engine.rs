//! The playback engine's decisions: from its state and the next command (or
//! the outcome of opening a file) to its next state and the action that the
//! render context performs on the output device.
use vstd::prelude::*;

verus! {

/// Where the engine stands.
#[derive(PartialEq, Eq, Structural, Clone, Copy, Debug)]
pub enum PlaybackState {
    /// No active sink.
    Idle,
    Playing,
    Paused,
}

/// A transport command, in the order in which callers issued it. The gain,
/// position and tone values travel beside the command: the engine's decision
/// does not depend on them.
#[derive(Clone, Debug)]
pub enum PlayerCommand {
    Play(String),
    Pause,
    Resume,
    Stop,
    SetVolume,
    Seek,
    SetEq,
}

/// What the render context does with the output device after a command.
#[derive(PartialEq, Eq, Clone, Debug)]
pub enum EngineAction {
    /// Discard the current sink if any, then open and decode the file at the
    /// path; report the outcome with `PlaybackEngine::play_opened`.
    OpenAndPlay(String),
    SuspendSink,
    ResumeSink,
    DiscardSink,
    ApplyVolume,
    ApplySeek,
    Nothing,
}

/// The active sink: the file it plays and how many samples it has emitted.
pub struct Session {
    pub path: String,
    pub position: u64,
}

pub struct SessionView {
    pub path: Seq<char>,
    pub position: nat,
}

pub struct EngineView {
    pub state: PlaybackState,
    pub session: Option<SessionView>,
    /// How many decode pipelines have been constructed.
    pub built: nat,
}

/// The single owner of the sink: at most one session exists at any time.
pub struct PlaybackEngine {
    state: PlaybackState,
    session: Option<Session>,
    pipelines_built: u64,
}

pub open spec fn session_view(s: Option<Session>) -> Option<SessionView> {
    match s {
        Some(x) => Some(SessionView { path: x.path@, position: x.position as nat }),
        None => None,
    }
}

impl View for PlaybackEngine {
    type V = EngineView;

    closed spec fn view(&self) -> EngineView {
        EngineView {
            state: self.state,
            session: session_view(self.session),
            built: self.pipelines_built as nat,
        }
    }
}

/// A sink exists exactly when the engine is not idle.
pub open spec fn engine_wf(v: EngineView) -> bool {
    (v.state == PlaybackState::Idle) <==> v.session is None
}

/// The state after a command, before the outcome of any file opening.
pub open spec fn command_step(v: EngineView, c: PlayerCommand) -> EngineView {
    match c {
        PlayerCommand::Play(_) => EngineView {
            state: PlaybackState::Idle,
            session: None,
            built: v.built + 1,
        },
        PlayerCommand::Pause => if v.state == PlaybackState::Playing {
            EngineView { state: PlaybackState::Paused, ..v }
        } else {
            v
        },
        PlayerCommand::Resume => if v.state == PlaybackState::Paused {
            EngineView { state: PlaybackState::Playing, ..v }
        } else {
            v
        },
        PlayerCommand::Stop => EngineView { state: PlaybackState::Idle, session: None, ..v },
        _ => v,
    }
}

/// The action that goes with a command.
pub open spec fn command_action(v: EngineView, c: PlayerCommand, a: EngineAction) -> bool {
    match c {
        PlayerCommand::Play(p) => a matches EngineAction::OpenAndPlay(q) && q@ == p@,
        PlayerCommand::Pause => a == if v.session is Some {
            EngineAction::SuspendSink
        } else {
            EngineAction::Nothing
        },
        PlayerCommand::Resume => a == if v.session is Some {
            EngineAction::ResumeSink
        } else {
            EngineAction::Nothing
        },
        PlayerCommand::Stop => a == if v.session is Some {
            EngineAction::DiscardSink
        } else {
            EngineAction::Nothing
        },
        PlayerCommand::SetVolume => a == if v.session is Some {
            EngineAction::ApplyVolume
        } else {
            EngineAction::Nothing
        },
        PlayerCommand::Seek => a == if v.session is Some {
            EngineAction::ApplySeek
        } else {
            EngineAction::Nothing
        },
        PlayerCommand::SetEq => a == EngineAction::Nothing,
    }
}

/// The state once opening `path` has succeeded (a new sink plays it from
/// its start) or failed (no sink).
pub open spec fn opened_step(v: EngineView, path: Seq<char>, ok: bool) -> EngineView {
    if ok {
        EngineView {
            state: PlaybackState::Playing,
            session: Some(SessionView { path, position: 0 }),
            ..v
        }
    } else {
        EngineView { state: PlaybackState::Idle, session: None, ..v }
    }
}

/// Whether a pull of the device reaches a sink that emits a sample.
pub open spec fn emits(v: EngineView) -> bool {
    v.state == PlaybackState::Playing && v.session is Some
}

/// The state after the device pulls one sample.
pub open spec fn emit_step(v: EngineView) -> EngineView {
    if emits(v) {
        EngineView {
            session: Some(SessionView { position: v.session->0.position + 1, ..v.session->0 }),
            ..v
        }
    } else {
        v
    }
}

/// A command followed, for a play, by the outcome of opening its file.
pub open spec fn settle(v: EngineView, c: PlayerCommand, ok: bool) -> EngineView {
    match c {
        PlayerCommand::Play(p) => opened_step(command_step(v, c), p@, ok),
        _ => command_step(v, c),
    }
}

/// The state after a sequence of commands, each with its opening outcome.
pub open spec fn run(v: EngineView, cmds: Seq<(PlayerCommand, bool)>) -> EngineView
    decreases cmds.len(),
{
    if cmds.len() == 0 {
        v
    } else {
        let (c, ok) = cmds.last();
        settle(run(v, cmds.drop_last()), c, ok)
    }
}

/// How many plays a sequence of commands holds.
pub open spec fn count_plays(cmds: Seq<(PlayerCommand, bool)>) -> nat
    decreases cmds.len(),
{
    if cmds.len() == 0 {
        0
    } else {
        count_plays(cmds.drop_last()) + if cmds.last().0 is Play {
            1nat
        } else {
            0nat
        }
    }
}

impl PlaybackEngine {
    /// An engine with no sink.
    pub fn new() -> (r: Self)
        ensures
            r@ == (EngineView { state: PlaybackState::Idle, session: None, built: 0 }),
    {
        PlaybackEngine { state: PlaybackState::Idle, session: None, pipelines_built: 0 }
    }

    pub fn state(&self) -> (r: PlaybackState)
        ensures
            r == self@.state,
    {
        self.state
    }

    pub fn pipelines_built(&self) -> (r: u64)
        ensures
            r as nat == self@.built,
    {
        self.pipelines_built
    }

    /// The path and position of the active sink, if any.
    pub fn session(&self) -> (r: Option<(String, u64)>)
        ensures
            r is Some <==> self@.session is Some,
            r is Some ==> (r->0).0@ == self@.session->0.path && (r->0).1 as nat
                == self@.session->0.position,
    {
        match &self.session {
            Some(s) => Some((s.path.clone(), s.position)),
            None => None,
        }
    }

    /// Applies one command and returns what the render context must do.
    pub fn handle(&mut self, cmd: &PlayerCommand) -> (r: EngineAction)
        requires
            old(self)@.built < u64::MAX,
        ensures
            final(self)@ == command_step(old(self)@, *cmd),
            command_action(old(self)@, *cmd, r),
    {
        match cmd {
            PlayerCommand::Play(path) => {
                self.session = None;
                self.state = PlaybackState::Idle;
                self.pipelines_built = self.pipelines_built + 1;
                EngineAction::OpenAndPlay(path.clone())
            },
            PlayerCommand::Pause => {
                if self.state == PlaybackState::Playing {
                    self.state = PlaybackState::Paused;
                }
                if self.session.is_some() {
                    EngineAction::SuspendSink
                } else {
                    EngineAction::Nothing
                }
            },
            PlayerCommand::Resume => {
                if self.state == PlaybackState::Paused {
                    self.state = PlaybackState::Playing;
                }
                if self.session.is_some() {
                    EngineAction::ResumeSink
                } else {
                    EngineAction::Nothing
                }
            },
            PlayerCommand::Stop => {
                let had = self.session.is_some();
                self.session = None;
                self.state = PlaybackState::Idle;
                if had {
                    EngineAction::DiscardSink
                } else {
                    EngineAction::Nothing
                }
            },
            PlayerCommand::SetVolume => {
                if self.session.is_some() {
                    EngineAction::ApplyVolume
                } else {
                    EngineAction::Nothing
                }
            },
            PlayerCommand::Seek => {
                if self.session.is_some() {
                    EngineAction::ApplySeek
                } else {
                    EngineAction::Nothing
                }
            },
            PlayerCommand::SetEq => EngineAction::Nothing,
        }
    }

    /// Records the outcome of opening and decoding `path` for a play.
    pub fn play_opened(&mut self, path: String, ok: bool)
        ensures
            final(self)@ == opened_step(old(self)@, path@, ok),
    {
        if ok {
            self.session = Some(Session { path, position: 0 });
            self.state = PlaybackState::Playing;
        } else {
            self.session = None;
            self.state = PlaybackState::Idle;
        }
    }

    /// The device pulls one sample: a playing sink emits the sample at its
    /// position and moves on; otherwise nothing is emitted.
    pub fn emit_sample(&mut self) -> (r: Option<u64>)
        requires
            old(self)@.session is Some ==> old(self)@.session->0.position < u64::MAX,
        ensures
            final(self)@ == emit_step(old(self)@),
            r == if emits(old(self)@) {
                Some(old(self)@.session->0.position as u64)
            } else {
                None
            },
    {
        if self.state == PlaybackState::Playing {
            match &mut self.session {
                Some(s) => {
                    let at = s.position;
                    s.position = at + 1;
                    return Some(at);
                },
                None => {},
            }
        }
        None
    }
}

/// Every sequence of commands keeps the engine's one invariant: a sink
/// exists exactly when the engine is not idle, so there is never more than
/// one.
pub proof fn lemma_run_keeps_single_sink(v: EngineView, cmds: Seq<(PlayerCommand, bool)>)
    requires
        engine_wf(v),
    ensures
        engine_wf(run(v, cmds)),
    decreases cmds.len(),
{
    if cmds.len() > 0 {
        lemma_run_keeps_single_sink(v, cmds.drop_last());
    }
}

/// Each play builds exactly one decode pipeline, and nothing else builds
/// one.
pub proof fn lemma_pipelines_match_plays(v: EngineView, cmds: Seq<(PlayerCommand, bool)>)
    ensures
        run(v, cmds).built == v.built + count_plays(cmds),
    decreases cmds.len(),
{
    if cmds.len() > 0 {
        lemma_pipelines_match_plays(v, cmds.drop_last());
    }
}

/// Playing `a` and then `b` before `a` ends leaves one sink, which plays `b`
/// from its start, and two pipelines built.
pub proof fn lemma_second_play_supersedes(v: EngineView, a: String, b: String)
    ensures
        ({
            let w = settle(settle(v, PlayerCommand::Play(a), true), PlayerCommand::Play(b), true);
            &&& w.state == PlaybackState::Playing
            &&& w.session == Some(SessionView { path: b@, position: 0 })
            &&& w.built == v.built + 2
        }),
{
}

/// Stop on an idle engine changes nothing and asks for nothing.
pub proof fn lemma_stop_when_idle(v: EngineView)
    requires
        engine_wf(v),
        v.state == PlaybackState::Idle,
    ensures
        command_step(v, PlayerCommand::Stop) == v,
        command_action(v, PlayerCommand::Stop, EngineAction::Nothing),
{
}

/// Pausing and at once resuming a playing sink keeps its position: the
/// next sample emitted is the one right after the last sample emitted
/// before the pause.
pub proof fn lemma_pause_resume_keeps_position(v: EngineView)
    requires
        engine_wf(v),
        v.state == PlaybackState::Playing,
    ensures
        ({
            let before = emit_step(v);
            let after = command_step(
                command_step(before, PlayerCommand::Pause),
                PlayerCommand::Resume,
            );
            &&& after == before
            &&& emits(after)
            &&& after.session->0.position == v.session->0.position + 1
        }),
{
}

} // verus!
