use vstd::prelude::*;
use crate::deck::VOLUME_FULL;

verus! {

/// The master section: master volume and the ordered deck channels.
pub struct Mixer {
    master_volume: u32,
    deck_channels: Vec<u8>,
}

pub struct MixerModel {
    pub master_volume: u32,
    pub channels: Seq<u8>,
}

impl View for Mixer {
    type V = MixerModel;

    closed spec fn view(&self) -> MixerModel {
        MixerModel { master_volume: self.master_volume, channels: self.deck_channels@ }
    }
}

impl Mixer {
    /// A mixer at full master volume over the given deck channels.
    pub fn new(deck_channels: Vec<u8>) -> (r: Mixer)
        ensures
            r@.master_volume == VOLUME_FULL,
            r@.channels == deck_channels@,
    {
        Mixer { master_volume: VOLUME_FULL, deck_channels }
    }

    /// Master volume in ten-thousandths.
    pub fn master_volume(&self) -> (r: u32)
        ensures
            r == self@.master_volume,
    {
        self.master_volume
    }

    pub fn channels(&self) -> (r: &[u8])
        ensures
            r@ == self@.channels,
    {
        self.deck_channels.as_slice()
    }
}

} // verus!
