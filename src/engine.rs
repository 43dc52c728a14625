use vstd::prelude::*;
use crate::deck::{text_view, Deck, DeckModel, SinkCommand, TrackSwap, VOLUME_FULL};
use crate::mixer::Mixer;
use crate::text::{is_blank, trimmed};

verus! {

/// Number of decks the engine drives; their ids run from 1 to this.
pub const DECK_COUNT: u8 = 6;

/// Failures of deck operations.
#[derive(PartialEq, Eq, Structural, Clone, Copy, Debug)]
pub enum EngineError {
    /// No deck carries this id.
    DeckNotFound(u8),
    /// The track path is empty or blank.
    EmptyPath,
}

/// A snapshot of one deck for the host.
pub struct DeckState {
    pub id: u8,
    /// Volume in ten-thousandths.
    pub volume: u32,
    /// Pitch in hundredths of a percent.
    pub pitch_percent: i32,
    pub is_playing: bool,
    pub loaded_track: Option<String>,
}

/// A snapshot of the mixer for the host.
pub struct MixerState {
    /// Master volume in ten-thousandths.
    pub master_volume: u32,
    pub deck_channels: Vec<u8>,
}

pub struct EngineState {
    pub mixer: MixerState,
    pub decks: Vec<DeckState>,
}

/// The outcome of an operation on one deck: its new state, and what its
/// sink must do.
pub struct DeckUpdate {
    pub state: DeckState,
    pub commands: Vec<SinkCommand>,
}

pub open spec fn describes(st: DeckState, m: DeckModel) -> bool {
    &&& st.id == m.id
    &&& st.volume == m.volume
    &&& st.pitch_percent == m.pitch
    &&& st.is_playing == m.playing
    &&& text_view(st.loaded_track) == m.track
}

/// Where the deck with a given id is kept.
pub open spec fn slot_of(id: u8) -> Option<int> {
    if 1 <= id <= DECK_COUNT {
        Some(id - 1)
    } else {
        None
    }
}

pub open spec fn channel_ids() -> Seq<u8> {
    seq![1u8, 2u8, 3u8, 4u8, 5u8, 6u8]
}

/// A track path must hold more than white space.
pub fn check_track_path(path: &str) -> (r: Result<(), EngineError>)
    ensures
        trimmed(path@).len() == 0 ==> r == Err::<(), EngineError>(EngineError::EmptyPath),
        trimmed(path@).len() > 0 ==> r is Ok,
{
    if is_blank(path) {
        Err(EngineError::EmptyPath)
    } else {
        Ok(())
    }
}

/// Snapshot of a deck.
pub fn deck_state(d: &Deck) -> (r: DeckState)
    ensures
        describes(r, d@),
{
    let loaded_track = match d.loaded_track() {
        Some(s) => Some(s.clone()),
        None => None,
    };
    DeckState {
        id: d.id(),
        volume: d.volume(),
        pitch_percent: d.pitch_percent(),
        is_playing: d.is_playing(),
        loaded_track,
    }
}

/// The engine: a mixer and a fixed set of decks, kept in order of id so
/// that the deck with id `k` sits at index `k - 1`.
pub struct DjEngine {
    mixer: Mixer,
    decks: Vec<Deck>,
}

impl DjEngine {
    /// The decks sit in order of id, and the mixer lists their channels.
    pub closed spec fn wf(&self) -> bool {
        &&& self.decks@.len() == DECK_COUNT
        &&& forall|i: int| 0 <= i < DECK_COUNT ==> #[trigger] self.decks@[i]@.id == i + 1
        &&& self.mixer@.channels == channel_ids()
    }

    /// The decks, in order of id.
    pub closed spec fn decks(&self) -> Seq<DeckModel> {
        self.decks@.map_values(|d: Deck| d@)
    }

    pub closed spec fn mixer(&self) -> crate::mixer::MixerModel {
        self.mixer@
    }

    /// Six empty decks, ids 1 to 6, and a mixer over them at full volume.
    pub fn new() -> (r: DjEngine)
        ensures
            r.wf(),
            r.decks().len() == DECK_COUNT,
            forall|i: int| 0 <= i < DECK_COUNT ==> #[trigger] r.decks()[i] == DeckModel::initial((i + 1) as u8),
            r.mixer().master_volume == VOLUME_FULL,
            r.mixer().channels == channel_ids(),
    {
        let mut decks: Vec<Deck> = Vec::new();
        let mut ids: Vec<u8> = Vec::new();
        let mut id: u8 = 1;
        while id <= DECK_COUNT
            invariant
                1 <= id <= DECK_COUNT + 1,
                decks@.len() == id - 1,
                ids@.len() == id - 1,
                forall|i: int| 0 <= i < id - 1 ==> #[trigger] decks@[i]@ == DeckModel::initial((i + 1) as u8),
                forall|i: int| 0 <= i < id - 1 ==> #[trigger] ids@[i] == i + 1,
            decreases DECK_COUNT + 1 - id,
        {
            let d = Deck::new(id);
            decks.push(d);
            ids.push(id);
            id += 1;
        }
        assert(ids@ =~= channel_ids());
        let mixer = Mixer::new(ids);
        let r = DjEngine { mixer, decks };
        assert(forall|i: int| 0 <= i < DECK_COUNT ==> #[trigger] r.decks()[i] == r.decks@[i]@);
        r
    }

    /// A well-formed engine has six decks, and the deck at index `i` carries
    /// the id `i + 1`; its mixer lists the channels 1 to 6.
    pub proof fn lemma_wf_layout(&self)
        requires
            self.wf(),
        ensures
            self.decks().len() == DECK_COUNT,
            forall|i: int| 0 <= i < DECK_COUNT ==> #[trigger] self.decks()[i].id == i + 1,
            self.mixer().channels == channel_ids(),
    {
        assert forall|i: int| 0 <= i < DECK_COUNT implies #[trigger] self.decks()[i].id == i + 1 by {
            assert(self.decks()[i] == self.decks@[i]@);
        }
    }

    /// A liveness answer for the host.
    pub fn ping(&self) -> (r: String)
        ensures
            r@ == "sound_engine base ready"@,
    {
        String::from_str("sound_engine base ready")
    }

    fn slot(&self, deck_id: u8) -> (r: Option<usize>)
        ensures
            match r {
                Some(k) => slot_of(deck_id) == Some(k as int),
                None => slot_of(deck_id) is None,
            },
    {
        if 1 <= deck_id && deck_id <= DECK_COUNT {
            Some((deck_id - 1) as usize)
        } else {
            None
        }
    }

    /// Snapshots of all decks, in order of id.
    pub fn get_decks(&self) -> (r: Vec<DeckState>)
        ensures
            r@.len() == self.decks().len(),
            forall|i: int| 0 <= i < r@.len() ==> describes(#[trigger] r@[i], self.decks()[i]),
    {
        let mut r: Vec<DeckState> = Vec::new();
        let mut i: usize = 0;
        while i < self.decks.len()
            invariant
                i <= self.decks@.len(),
                r@.len() == i,
                forall|j: int| 0 <= j < i ==> describes(#[trigger] r@[j], self.decks()[j]),
            decreases self.decks@.len() - i,
        {
            let st = deck_state(&self.decks[i]);
            r.push(st);
            i += 1;
        }
        r
    }

    pub fn get_mixer(&self) -> (r: MixerState)
        ensures
            r.master_volume == self.mixer().master_volume,
            r.deck_channels@ == self.mixer().channels,
    {
        let channels = self.mixer.channels();
        let mut deck_channels: Vec<u8> = Vec::new();
        let mut i: usize = 0;
        while i < channels.len()
            invariant
                channels@ == self.mixer().channels,
                i <= channels@.len(),
                deck_channels@ == channels@.subrange(0, i as int),
            decreases channels@.len() - i,
        {
            deck_channels.push(channels[i]);
            i += 1;
            assert(deck_channels@ =~= channels@.subrange(0, i as int));
        }
        assert(deck_channels@ =~= channels@);
        MixerState { master_volume: self.mixer.master_volume(), deck_channels }
    }

    pub fn get_state(&self) -> (r: EngineState)
        ensures
            r.mixer.master_volume == self.mixer().master_volume,
            r.mixer.deck_channels@ == self.mixer().channels,
            r.decks@.len() == self.decks().len(),
            forall|i: int| 0 <= i < r.decks@.len() ==> describes(#[trigger] r.decks@[i], self.decks()[i]),
    {
        EngineState { mixer: self.get_mixer(), decks: self.get_decks() }
    }

    /// Snapshot of the deck with this id, if there is one.
    pub fn get_deck(&self, deck_id: u8) -> (r: Option<DeckState>)
        requires
            self.wf(),
        ensures
            match slot_of(deck_id) {
                Some(k) => r is Some && describes(r->0, self.decks()[k]),
                None => r is None,
            },
    {
        match self.slot(deck_id) {
            Some(k) => Some(deck_state(&self.decks[k])),
            None => None,
        }
    }

    /// Flips the deck between playing and paused.
    pub fn toggle_deck_playback(&mut self, deck_id: u8) -> (r: Result<DeckUpdate, EngineError>)
        requires
            old(self).wf(),
        ensures
            final(self).wf(),
            final(self).mixer() == old(self).mixer(),
            match slot_of(deck_id) {
                Some(k) => {
                    &&& r is Ok
                    &&& final(self).decks() == old(self).decks().update(k, old(self).decks()[k].toggled())
                    &&& r->Ok_0.commands@ == old(self).decks()[k].toggle_commands()
                    &&& describes(r->Ok_0.state, final(self).decks()[k])
                },
                None => {
                    &&& r is Err
                    &&& r->Err_0 == EngineError::DeckNotFound(deck_id)
                    &&& final(self).decks() == old(self).decks()
                },
            },
    {
        match self.slot(deck_id) {
            Some(k) => {
                let commands = self.decks[k].toggle_playback();
                let state = deck_state(&self.decks[k]);
                assert(self.decks() =~= old(self).decks().update(k as int, old(self).decks()[k as int].toggled()));
                Ok(DeckUpdate { state, commands })
            },
            None => Err(EngineError::DeckNotFound(deck_id)),
        }
    }

    /// Sets the deck's volume, in ten-thousandths, clamped to unity.
    pub fn set_deck_volume(&mut self, deck_id: u8, volume: i64) -> (r: Result<DeckUpdate, EngineError>)
        requires
            old(self).wf(),
        ensures
            final(self).wf(),
            final(self).mixer() == old(self).mixer(),
            match slot_of(deck_id) {
                Some(k) => {
                    &&& r is Ok
                    &&& final(self).decks() == old(self).decks().update(k, old(self).decks()[k].with_volume(volume as int))
                    &&& r->Ok_0.commands@ == old(self).decks()[k].volume_commands(volume as int)
                    &&& describes(r->Ok_0.state, final(self).decks()[k])
                },
                None => {
                    &&& r is Err
                    &&& r->Err_0 == EngineError::DeckNotFound(deck_id)
                    &&& final(self).decks() == old(self).decks()
                },
            },
    {
        match self.slot(deck_id) {
            Some(k) => {
                let commands = self.decks[k].set_volume(volume);
                let state = deck_state(&self.decks[k]);
                assert(self.decks() =~= old(self).decks().update(k as int, old(self).decks()[k as int].with_volume(volume as int)));
                Ok(DeckUpdate { state, commands })
            },
            None => Err(EngineError::DeckNotFound(deck_id)),
        }
    }

    /// Sets the deck's pitch, in hundredths of a percent, clamped to its range.
    pub fn set_deck_pitch(&mut self, deck_id: u8, pitch_percent: i64) -> (r: Result<DeckUpdate, EngineError>)
        requires
            old(self).wf(),
        ensures
            final(self).wf(),
            final(self).mixer() == old(self).mixer(),
            match slot_of(deck_id) {
                Some(k) => {
                    &&& r is Ok
                    &&& final(self).decks() == old(self).decks().update(k, old(self).decks()[k].with_pitch(pitch_percent as int))
                    &&& r->Ok_0.commands@ == old(self).decks()[k].pitch_commands(pitch_percent as int)
                    &&& describes(r->Ok_0.state, final(self).decks()[k])
                },
                None => {
                    &&& r is Err
                    &&& r->Err_0 == EngineError::DeckNotFound(deck_id)
                    &&& final(self).decks() == old(self).decks()
                },
            },
    {
        match self.slot(deck_id) {
            Some(k) => {
                let commands = self.decks[k].set_pitch_percent(pitch_percent);
                let state = deck_state(&self.decks[k]);
                assert(self.decks() =~= old(self).decks().update(k as int, old(self).decks()[k as int].with_pitch(pitch_percent as int)));
                Ok(DeckUpdate { state, commands })
            },
            None => Err(EngineError::DeckNotFound(deck_id)),
        }
    }

    /// Unloads the deck's track.
    pub fn clear_deck(&mut self, deck_id: u8) -> (r: Result<DeckUpdate, EngineError>)
        requires
            old(self).wf(),
        ensures
            final(self).wf(),
            final(self).mixer() == old(self).mixer(),
            match slot_of(deck_id) {
                Some(k) => {
                    &&& r is Ok
                    &&& final(self).decks() == old(self).decks().update(k, old(self).decks()[k].cleared())
                    &&& r->Ok_0.commands@ == old(self).decks()[k].clear_commands()
                    &&& describes(r->Ok_0.state, final(self).decks()[k])
                },
                None => {
                    &&& r is Err
                    &&& r->Err_0 == EngineError::DeckNotFound(deck_id)
                    &&& final(self).decks() == old(self).decks()
                },
            },
    {
        match self.slot(deck_id) {
            Some(k) => {
                let commands = self.decks[k].clear_track();
                let state = deck_state(&self.decks[k]);
                assert(self.decks() =~= old(self).decks().update(k as int, old(self).decks()[k as int].cleared()));
                Ok(DeckUpdate { state, commands })
            },
            None => Err(EngineError::DeckNotFound(deck_id)),
        }
    }

    /// Puts a freshly opened track on the deck; the caller has already made
    /// the new sink, and applies the returned instructions to it.
    pub fn load_track(&mut self, deck_id: u8, label: Option<String>) -> (r: Result<TrackSwap, EngineError>)
        requires
            old(self).wf(),
        ensures
            final(self).wf(),
            final(self).mixer() == old(self).mixer(),
            match slot_of(deck_id) {
                Some(k) => {
                    &&& r is Ok
                    &&& final(self).decks() == old(self).decks().update(k, old(self).decks()[k].loaded(text_view(label)))
                    &&& r->Ok_0.stop_previous == old(self).decks()[k].has_sink
                    &&& r->Ok_0.commands@ == old(self).decks()[k].setup_commands()
                },
                None => {
                    &&& r is Err
                    &&& r->Err_0 == EngineError::DeckNotFound(deck_id)
                    &&& final(self).decks() == old(self).decks()
                },
            },
    {
        match self.slot(deck_id) {
            Some(k) => {
                let swap = self.decks[k].load_track(label);
                assert(self.decks() =~= old(self).decks().update(k as int, old(self).decks()[k as int].loaded(text_view(label))));
                Ok(swap)
            },
            None => Err(EngineError::DeckNotFound(deck_id)),
        }
    }
}

} // verus!
