use vstd::prelude::*;

verus! {

/// Volume is kept in ten-thousandths: `VOLUME_FULL` is unity gain.
pub const VOLUME_FULL: u32 = 10000;

/// Pitch is kept in hundredths of a percent.
pub const PITCH_MIN: i32 = -9900;

pub const PITCH_MAX: i32 = 10000;

/// At or below this pitch the deck is frozen: paused, silent, and at the
/// smallest speed.
pub const PITCH_STOP_THRESHOLD: i32 = -9900;

/// Playback speed is kept in ten-thousandths: `SPEED_NORMAL` is 1.0.
pub const SPEED_NORMAL: u32 = 10000;

/// The smallest speed handed to the output (never zero).
pub const MIN_PLAYBACK_SPEED: u32 = 1;

/// One instruction for the output sink that a deck drives.
#[derive(PartialEq, Eq, Structural, Clone, Copy, Debug)]
pub enum SinkCommand {
    Play,
    Pause,
    Stop,
    /// Volume in ten-thousandths.
    SetVolume(u32),
    /// Speed in ten-thousandths.
    SetSpeed(u32),
}

/// What the output has to do when a new track replaces the current one.
pub struct TrackSwap {
    /// The sink in use, if any, must be stopped before it is dropped.
    pub stop_previous: bool,
    /// Instructions for the freshly created sink, in order.
    pub commands: Vec<SinkCommand>,
}

/// The state of a deck as the contracts see it.
pub struct DeckModel {
    pub id: u8,
    pub volume: u32,
    pub pitch: i32,
    pub muted: bool,
    pub playing: bool,
    pub track: Option<Seq<char>>,
    pub has_sink: bool,
}

pub open spec fn clamp(x: int, lo: int, hi: int) -> int {
    if x < lo {
        lo
    } else if x > hi {
        hi
    } else {
        x
    }
}

/// Linear pitch-to-speed mapping, floored at the minimal speed.
pub open spec fn speed_of(pitch: int) -> u32 {
    if SPEED_NORMAL + pitch < MIN_PLAYBACK_SPEED {
        MIN_PLAYBACK_SPEED
    } else {
        (SPEED_NORMAL + pitch) as u32
    }
}

pub open spec fn text_view(label: Option<String>) -> Option<Seq<char>> {
    match label {
        Some(s) => Some(s@),
        None => None,
    }
}

impl DeckModel {
    pub open spec fn wf(self) -> bool {
        &&& self.volume <= VOLUME_FULL
        &&& PITCH_MIN <= self.pitch <= PITCH_MAX
    }

    pub open spec fn initial(id: u8) -> DeckModel {
        DeckModel {
            id,
            volume: VOLUME_FULL,
            pitch: 0,
            muted: false,
            playing: false,
            track: None,
            has_sink: false,
        }
    }

    /// The volume the listener hears: none while pitch-muted.
    pub open spec fn effective_volume(self) -> u32 {
        if self.muted {
            0
        } else {
            self.volume
        }
    }

    pub open spec fn loaded(self, track: Option<Seq<char>>) -> DeckModel {
        DeckModel { track, has_sink: true, playing: false, ..self }
    }

    /// Set-up of a new sink: paused, at the speed and volume of the deck.
    pub open spec fn setup_commands(self) -> Seq<SinkCommand> {
        seq![
            SinkCommand::Pause,
            SinkCommand::SetSpeed(speed_of(self.pitch as int)),
            SinkCommand::SetVolume(self.effective_volume()),
        ]
    }

    pub open spec fn cleared(self) -> DeckModel {
        DeckModel { track: None, has_sink: false, playing: false, ..self }
    }

    pub open spec fn clear_commands(self) -> Seq<SinkCommand> {
        if self.has_sink {
            seq![SinkCommand::Stop]
        } else {
            seq![]
        }
    }

    pub open spec fn toggled(self) -> DeckModel {
        if self.has_sink {
            DeckModel { playing: !self.playing, ..self }
        } else {
            self
        }
    }

    pub open spec fn toggle_commands(self) -> Seq<SinkCommand> {
        if !self.has_sink {
            seq![]
        } else if self.playing {
            seq![SinkCommand::Pause]
        } else if self.muted {
            seq![]
        } else {
            seq![SinkCommand::Play]
        }
    }

    pub open spec fn with_volume(self, v: int) -> DeckModel {
        DeckModel { volume: clamp(v, 0, VOLUME_FULL as int) as u32, ..self }
    }

    pub open spec fn volume_commands(self, v: int) -> Seq<SinkCommand> {
        if self.has_sink && !self.muted {
            seq![SinkCommand::SetVolume(clamp(v, 0, VOLUME_FULL as int) as u32)]
        } else {
            seq![]
        }
    }

    pub open spec fn with_pitch(self, p: int) -> DeckModel {
        let c = clamp(p, PITCH_MIN as int, PITCH_MAX as int);
        DeckModel { pitch: c as i32, muted: c <= PITCH_STOP_THRESHOLD, ..self }
    }

    pub open spec fn pitch_commands(self, p: int) -> Seq<SinkCommand> {
        let c = clamp(p, PITCH_MIN as int, PITCH_MAX as int);
        if !self.has_sink {
            seq![]
        } else if c <= PITCH_STOP_THRESHOLD {
            seq![
                SinkCommand::Pause,
                SinkCommand::SetSpeed(MIN_PLAYBACK_SPEED),
                SinkCommand::SetVolume(0),
            ]
        } else {
            let base = seq![SinkCommand::SetSpeed(speed_of(c)), SinkCommand::SetVolume(self.volume)];
            if self.playing {
                base.push(SinkCommand::Play)
            } else {
                base
            }
        }
    }
}

/// What an output sink does with the instructions it receives.
pub struct SinkModel {
    pub playing: bool,
    pub stopped: bool,
    pub volume: u32,
    pub speed: u32,
}

pub open spec fn apply_command(s: SinkModel, c: SinkCommand) -> SinkModel {
    match c {
        SinkCommand::Play => SinkModel { playing: true, ..s },
        SinkCommand::Pause => SinkModel { playing: false, ..s },
        SinkCommand::Stop => SinkModel { playing: false, stopped: true, ..s },
        SinkCommand::SetVolume(v) => SinkModel { volume: v, ..s },
        SinkCommand::SetSpeed(v) => SinkModel { speed: v, ..s },
    }
}

pub open spec fn run_commands(s: SinkModel, cs: Seq<SinkCommand>) -> SinkModel
    decreases cs.len(),
{
    if cs.len() == 0 {
        s
    } else {
        run_commands(apply_command(s, cs[0]), cs.drop_first())
    }
}

/// Pitch at the stop threshold freezes a loaded deck: its sink ends paused
/// and silent, even while the deck is playing. Pitch back at zero then gives
/// the sink normal speed and the configured volume (not zero), and the sink
/// plays again exactly when the deck is playing.
pub proof fn lemma_pitch_mute_restores(d: DeckModel, s: SinkModel)
    requires
        d.wf(),
        d.has_sink,
    ensures
        ({
            let d1 = d.with_pitch(PITCH_STOP_THRESHOLD as int);
            let s1 = run_commands(s, d.pitch_commands(PITCH_STOP_THRESHOLD as int));
            &&& d1.muted
            &&& d1.effective_volume() == 0
            &&& s1.volume == 0
            &&& !s1.playing
            &&& s1.speed == MIN_PLAYBACK_SPEED
        }),
        ({
            let d1 = d.with_pitch(PITCH_STOP_THRESHOLD as int);
            let s1 = run_commands(s, d.pitch_commands(PITCH_STOP_THRESHOLD as int));
            let d2 = d1.with_pitch(0);
            let s2 = run_commands(s1, d1.pitch_commands(0));
            &&& !d2.muted
            &&& d2.effective_volume() == d.volume
            &&& s2.volume == d.volume
            &&& s2.speed == SPEED_NORMAL
            &&& s2.playing == d.playing
        }),
{
    reveal_with_fuel(run_commands, 4);
}

/// One playback deck: its loaded track, volume, pitch and transport state.
/// The deck does not own the output sink; it says what the sink must do.
pub struct Deck {
    id: u8,
    volume: u32,
    pitch_percent: i32,
    pitch_muted: bool,
    is_playing: bool,
    loaded_track: Option<String>,
    has_sink: bool,
}

impl View for Deck {
    type V = DeckModel;

    closed spec fn view(&self) -> DeckModel {
        DeckModel {
            id: self.id,
            volume: self.volume,
            pitch: self.pitch_percent,
            muted: self.pitch_muted,
            playing: self.is_playing,
            track: text_view(self.loaded_track),
            has_sink: self.has_sink,
        }
    }
}

impl Deck {
    #[verifier::type_invariant]
    spec fn inv(&self) -> bool {
        self@.wf()
    }

    pub fn new(id: u8) -> (r: Deck)
        ensures
            r@ == DeckModel::initial(id),
    {
        Deck {
            id,
            volume: VOLUME_FULL,
            pitch_percent: 0,
            pitch_muted: false,
            is_playing: false,
            loaded_track: None,
            has_sink: false,
        }
    }

    pub fn id(&self) -> (r: u8)
        ensures
            r == self@.id,
    {
        self.id
    }

    /// Volume in ten-thousandths.
    pub fn volume(&self) -> (r: u32)
        ensures
            r == self@.volume,
            r <= VOLUME_FULL,
    {
        proof {
            use_type_invariant(self);
        }
        self.volume
    }

    /// Pitch in hundredths of a percent.
    pub fn pitch_percent(&self) -> (r: i32)
        ensures
            r == self@.pitch,
            PITCH_MIN <= r <= PITCH_MAX,
    {
        proof {
            use_type_invariant(self);
        }
        self.pitch_percent
    }

    pub fn is_playing(&self) -> (r: bool)
        ensures
            r == self@.playing,
    {
        self.is_playing
    }

    pub fn loaded_track(&self) -> (r: Option<&String>)
        ensures
            r is Some <==> self@.track is Some,
            r is Some ==> self@.track == Some(r->0@),
    {
        self.loaded_track.as_ref()
    }

    fn speed_for(pitch: i32) -> (r: u32)
        ensures
            r == speed_of(pitch as int),
    {
        let s: i64 = SPEED_NORMAL as i64 + pitch as i64;
        if s < MIN_PLAYBACK_SPEED as i64 {
            MIN_PLAYBACK_SPEED
        } else if s > u32::MAX as i64 {
            u32::MAX
        } else {
            s as u32
        }
    }

    /// Takes a freshly opened track: the deck stays paused, and the new sink
    /// gets the deck's speed and audible volume.
    pub fn load_track(&mut self, label: Option<String>) -> (r: TrackSwap)
        ensures
            final(self)@ == old(self)@.loaded(text_view(label)),
            r.stop_previous == old(self)@.has_sink,
            r.commands@ == old(self)@.setup_commands(),
    {
        proof {
            use_type_invariant(&*self);
        }
        let volume = if self.pitch_muted {
            0
        } else {
            self.volume
        };
        let commands = vec![
            SinkCommand::Pause,
            SinkCommand::SetSpeed(Self::speed_for(self.pitch_percent)),
            SinkCommand::SetVolume(volume),
        ];
        let stop_previous = self.has_sink;
        self.loaded_track = label;
        self.has_sink = true;
        self.is_playing = false;
        assert(commands@ =~= old(self)@.setup_commands());
        TrackSwap { stop_previous, commands }
    }

    /// Unloads the track, stopping the sink if there is one.
    pub fn clear_track(&mut self) -> (r: Vec<SinkCommand>)
        ensures
            final(self)@ == old(self)@.cleared(),
            r@ == old(self)@.clear_commands(),
    {
        proof {
            use_type_invariant(&*self);
        }
        let mut r = Vec::new();
        if self.has_sink {
            r.push(SinkCommand::Stop);
        }
        self.has_sink = false;
        self.loaded_track = None;
        self.is_playing = false;
        assert(r@ =~= old(self)@.clear_commands());
        r
    }

    /// Flips between playing and paused; nothing happens without a track.
    /// A pitch-muted deck is marked as playing but its sink stays paused.
    pub fn toggle_playback(&mut self) -> (r: Vec<SinkCommand>)
        ensures
            final(self)@ == old(self)@.toggled(),
            r@ == old(self)@.toggle_commands(),
    {
        proof {
            use_type_invariant(&*self);
        }
        let mut r = Vec::new();
        if self.has_sink {
            if self.is_playing {
                r.push(SinkCommand::Pause);
                self.is_playing = false;
            } else {
                self.is_playing = true;
                if !self.pitch_muted {
                    r.push(SinkCommand::Play);
                }
            }
        }
        assert(r@ =~= old(self)@.toggle_commands());
        r
    }

    /// Sets the volume, clamped to `[0, VOLUME_FULL]`; a pitch-muted sink
    /// stays silent.
    pub fn set_volume(&mut self, volume: i64) -> (r: Vec<SinkCommand>)
        ensures
            final(self)@ == old(self)@.with_volume(volume as int),
            r@ == old(self)@.volume_commands(volume as int),
    {
        proof {
            use_type_invariant(&*self);
        }
        let clamped: u32 = if volume < 0 {
            0
        } else if volume > VOLUME_FULL as i64 {
            VOLUME_FULL
        } else {
            volume as u32
        };
        self.volume = clamped;
        let mut r = Vec::new();
        if self.has_sink && !self.pitch_muted {
            r.push(SinkCommand::SetVolume(clamped));
        }
        assert(r@ =~= old(self)@.volume_commands(volume as int));
        r
    }

    /// Sets the pitch, clamped to `[PITCH_MIN, PITCH_MAX]`. At the stop
    /// threshold the deck is muted: the sink is paused, slowed to the minimal
    /// speed and silenced. Above it the sink gets the matching speed and the
    /// configured volume back, and resumes if the deck is playing.
    pub fn set_pitch_percent(&mut self, percent: i64) -> (r: Vec<SinkCommand>)
        ensures
            final(self)@ == old(self)@.with_pitch(percent as int),
            r@ == old(self)@.pitch_commands(percent as int),
    {
        proof {
            use_type_invariant(&*self);
        }
        let clamped: i32 = if percent < PITCH_MIN as i64 {
            PITCH_MIN
        } else if percent > PITCH_MAX as i64 {
            PITCH_MAX
        } else {
            percent as i32
        };
        self.pitch_percent = clamped;
        let mut r = Vec::new();
        if clamped <= PITCH_STOP_THRESHOLD {
            self.pitch_muted = true;
            if self.has_sink {
                r.push(SinkCommand::Pause);
                r.push(SinkCommand::SetSpeed(MIN_PLAYBACK_SPEED));
                r.push(SinkCommand::SetVolume(0));
            }
        } else {
            self.pitch_muted = false;
            if self.has_sink {
                r.push(SinkCommand::SetSpeed(Self::speed_for(clamped)));
                r.push(SinkCommand::SetVolume(self.volume));
                if self.is_playing {
                    r.push(SinkCommand::Play);
                }
            }
        }
        assert(r@ =~= old(self)@.pitch_commands(percent as int));
        r
    }
}

} // verus!
