//! The player: the state machine that consumes commands, drives decoding
//! and analysis, and reports status events. The surrounding task — the
//! codec, the audio device and the channels — lives outside the verified
//! core; it calls one transition function per step, and each says exactly
//! how the player's state changes and what the task must do next.

use vstd::prelude::*;

use crate::sample::{PreviewSample, PREVIEW_SAMPLES_PER_PACKET};
use crate::track::{Track, TrackView};

verus! {

/// Commands the UI sends to the player.
#[derive(Debug)]
pub enum Message {
    /// Toggle between playing and paused.
    TogglePlay,
    /// Load the file at the given path, replacing the current track.
    Load(String),
}

/// Status events the player reports to the UI.
#[derive(Debug)]
pub enum Event {
    /// So many packets were decoded, analyzed and appended since the last
    /// event; always at least one.
    PlayedPackage(usize),
    /// A load failed — bad path or unsupported codec — and the player is
    /// idle again.
    LoadFailed(String),
    /// The whole track has been decoded and analyzed.
    AnalysisComplete,
}

/// What the surrounding task must do after a command was handled.
#[derive(Debug)]
pub enum PlayerAction {
    /// Nothing beyond the state change.
    Stay,
    /// Probe the file at the path and start decoding it.
    StartLoad(String),
}

/// Playback states of the player.
#[derive(Clone, Copy, PartialEq, Eq, Structural, Debug)]
pub enum PlayerState {
    /// No track, nothing to do.
    Idle,
    /// A load was accepted; the probe's outcome is pending.
    Loading,
    /// Decoding, analyzing and playing.
    Playing,
    /// Suspended; the track and position are kept.
    Paused,
}

/// `TogglePlay`: `Playing` and `Paused` swap; `Idle` and `Loading`
/// ignore it.
pub open spec fn toggled(s: PlayerState) -> PlayerState {
    match s {
        PlayerState::Playing => PlayerState::Paused,
        PlayerState::Paused => PlayerState::Playing,
        _ => s,
    }
}

/// The mathematical content of a `Player`.
pub ghost struct PlayerView {
    /// Playback state.
    pub state: PlayerState,
    /// The current track, when one is loaded or playing.
    pub track: Option<TrackView>,
    /// Playback position, in decoded packets.
    pub position: int,
}

impl PlayerView {
    /// While the player plays or is paused, a track is always loaded.
    pub open spec fn wf(self) -> bool {
        self.state is Playing || self.state is Paused ==> self.track is Some
    }
}

/// Owns the playback state machine: at most one live track, the playback
/// position in packets, and the current state.
pub struct Player {
    state: PlayerState,
    track: Option<Track>,
    position: usize,
}

impl View for Player {
    type V = PlayerView;

    closed spec fn view(&self) -> PlayerView {
        PlayerView {
            state: self.state,
            track: match self.track {
                Some(t) => Some(t@),
                None => None,
            },
            position: self.position as int,
        }
    }
}

impl Player {
    /// A fresh player: idle, no track, position zero.
    pub fn new() -> (r: Player)
        ensures
            r@.state is Idle,
            r@.track is None,
            r@.position == 0,
            r@.wf(),
    {
        Player { state: PlayerState::Idle, track: None, position: 0 }
    }

    /// Current playback state.
    pub fn state(&self) -> (r: PlayerState)
        ensures
            r == self@.state,
    {
        self.state
    }

    /// Playback position, in decoded packets.
    pub fn position(&self) -> (r: usize)
        ensures
            r as int == self@.position,
    {
        self.position
    }

    /// The current track, if any.
    pub fn current_track(&self) -> (r: Option<&Track>)
        ensures
            match r {
                Some(t) => self@.track == Some(t@),
                None => self@.track is None,
            },
    {
        self.track.as_ref()
    }

    /// Handles one command. `TogglePlay` swaps `Playing` and `Paused` and is
    /// a no-op while idle or loading; `Load` always moves to `Loading` and
    /// asks the task to start the load. The track and position are untouched
    /// until the load's outcome is known.
    pub fn handle_message(&mut self, msg: Message) -> (a: PlayerAction)
        requires
            old(self)@.wf(),
        ensures
            final(self)@.wf(),
            final(self)@.track == old(self)@.track,
            final(self)@.position == old(self)@.position,
            match msg {
                Message::TogglePlay => {
                    &&& final(self)@.state == toggled(old(self)@.state)
                    &&& a is Stay
                },
                Message::Load(path) => {
                    &&& final(self)@.state is Loading
                    &&& a == PlayerAction::StartLoad(path)
                },
            },
    {
        match msg {
            Message::TogglePlay => {
                self.state = match self.state {
                    PlayerState::Playing => PlayerState::Paused,
                    PlayerState::Paused => PlayerState::Playing,
                    other => other,
                };
                PlayerAction::Stay
            },
            Message::Load(path) => {
                self.state = PlayerState::Loading;
                PlayerAction::StartLoad(path)
            },
        }
    }

    /// A pending load succeeded: the old track is discarded, the fresh one
    /// takes its place, analysis restarts from packet zero, and playback
    /// starts at once.
    pub fn on_load_success(&mut self, track: Track)
        requires
            old(self)@.state is Loading,
        ensures
            final(self)@.wf(),
            final(self)@.state is Playing,
            final(self)@.track == Some(track@),
            final(self)@.position == 0,
    {
        self.track = Some(track);
        self.position = 0;
        self.state = PlayerState::Playing;
    }

    /// A pending load failed: the player reports why and is idle again,
    /// with no track.
    pub fn on_load_failure(&mut self, reason: String) -> (e: Event)
        requires
            old(self)@.state is Loading,
        ensures
            final(self)@.wf(),
            final(self)@.state is Idle,
            final(self)@.track is None,
            final(self)@.position == 0,
            e == Event::LoadFailed(reason),
    {
        self.track = None;
        self.position = 0;
        self.state = PlayerState::Idle;
        Event::LoadFailed(reason)
    }

    /// One decode step: one packet's worth of analyzer output — exactly
    /// `PREVIEW_SAMPLES_PER_PACKET` samples, as `analyzer::downsample`
    /// produces — is appended to the track's preview buffer, the position
    /// advances by one packet, and the event reporting one played packet is
    /// returned. The caller downsamples before this call, so a lock around
    /// the player is held only for the append, never across the analysis.
    pub fn decode_step(&mut self, samples: &Vec<PreviewSample>) -> (e: Event)
        requires
            old(self)@.state is Playing,
            old(self)@.track is Some,
            old(self)@.position < usize::MAX,
            samples@.len() == PREVIEW_SAMPLES_PER_PACKET,
        ensures
            final(self)@.wf(),
            final(self)@.state is Playing,
            final(self)@.position == old(self)@.position + 1,
            final(self)@.track matches Some(t) && {
                let t0 = old(self)@.track->Some_0;
                &&& t.buffer == t0.buffer + samples@
                &&& t.same_identity(t0)
                &&& t.estimate == t0.estimate
                &&& t.analyzed == t0.analyzed
            },
            e == Event::PlayedPackage(1usize),
    {
        let mut track = self.track.take().unwrap();
        track.append_preview_samples(samples);
        self.track = Some(track);
        self.position = self.position + 1;
        Event::PlayedPackage(1)
    }

    /// The end of the stream was reached (or decoding failed persistently):
    /// the track is marked analyzed, keeps everything analyzed so far, and
    /// the player goes idle.
    pub fn on_end_of_stream(&mut self) -> (e: Event)
        requires
            old(self)@.track is Some,
        ensures
            final(self)@.wf(),
            final(self)@.state is Idle,
            final(self)@.position == old(self)@.position,
            final(self)@.track matches Some(t) && {
                let t0 = old(self)@.track->Some_0;
                &&& t.analyzed
                &&& t.buffer == t0.buffer
                &&& t.same_identity(t0)
                &&& t.estimate == t0.estimate
            },
            e == Event::AnalysisComplete,
    {
        let mut track = self.track.take().unwrap();
        track.mark_analyzed();
        self.track = Some(track);
        self.state = PlayerState::Idle;
        Event::AnalysisComplete
    }
}

} // verus!
