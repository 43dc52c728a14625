use vstd::prelude::*;

verus! {

/// Only the first this many seconds of a track are analysed.
pub const MAX_ANALYSIS_SECONDS: usize = 90;

/// Frame length of the spectral flux analysis, in samples.
pub const FLUX_WINDOW: usize = 4096;

/// Largest step between flux frames, in samples.
pub const FLUX_HOP: usize = 256;

/// Below this many samples there is no envelope at all.
pub const MIN_FLUX_WINDOW: usize = 512;

/// The envelope rate, in Hz, that downsampling aims at.
pub const TARGET_FLUX_RATE: u64 = 220;

pub const BPM_MIN: u64 = 60;

pub const BPM_MAX: u64 = 200;

/// Number of tempo ratios weighed when scoring a lag.
pub const HARMONIC_COUNT: usize = 7;

/// `a / b` rounded to the nearest integer, halves upwards.
pub open spec fn round_div(a: int, b: int) -> int
    recommends
        b > 0,
{
    (2 * a + b) / (2 * b)
}

/// How the mono signal is cut into flux frames.
pub struct FramePlan {
    /// Samples per frame.
    pub window: usize,
    /// Samples between the starts of two frames.
    pub hop: usize,
    /// Number of whole frames in the signal.
    pub frames: usize,
}

pub open spec fn plan_window(len: nat) -> nat {
    if len < FLUX_WINDOW {
        len
    } else {
        FLUX_WINDOW as nat
    }
}

pub open spec fn plan_hop(window: nat) -> nat {
    let h = if window / 4 < FLUX_HOP {
        window / 4
    } else {
        FLUX_HOP as nat
    };
    if h < 1 {
        1
    } else {
        h
    }
}

impl FramePlan {
    pub open spec fn describes(self, len: nat) -> bool {
        let window = plan_window(len);
        let hop = plan_hop(window);
        &&& self.window == window
        &&& self.hop == hop
        &&& self.frames == (len - window) / (hop as int) + 1
    }
}

/// The block length by which the native envelope (one value per hop) is
/// averaged down: the integer nearest to `native rate / 220`, at least 1.
pub open spec fn downsample_factor_of(sample_rate: int, hop: int) -> int {
    let f = round_div(sample_rate, hop * TARGET_FLUX_RATE);
    if f < 1 {
        1
    } else {
        f
    }
}

/// The downsampled envelope rate is `sample_rate / span` with
/// `span = hop * factor`: for a native rate `R = sample_rate / hop` it is
/// `R / round(R / 220)` when that rounding is at least 1, and `R` unchanged
/// otherwise.
pub open spec fn envelope_span(sample_rate: int, hop: int) -> int {
    hop * downsample_factor_of(sample_rate, hop)
}

pub proof fn lemma_downsampled_rate(sample_rate: int, hop: int)
    requires
        hop > 0,
        sample_rate >= 0,
    ensures
        round_div(sample_rate, hop * TARGET_FLUX_RATE) >= 1 ==> envelope_span(sample_rate, hop)
            == hop * round_div(sample_rate, hop * TARGET_FLUX_RATE),
        round_div(sample_rate, hop * TARGET_FLUX_RATE) < 1 ==> envelope_span(sample_rate, hop)
            == hop,
{
}

/// The lags, in envelope samples, that can hold a tempo between 60 and 200
/// BPM.
pub struct LagRange {
    pub min_lag: usize,
    pub max_lag: usize,
}

/// For an envelope rate of `sample_rate / span` Hz: the lag of 200 BPM and
/// the lag of 60 BPM, each rounded to the nearest sample.
pub open spec fn min_lag_of(sample_rate: int, span: int) -> int {
    round_div(60 * sample_rate, BPM_MAX * span)
}

pub open spec fn max_lag_of(sample_rate: int, span: int) -> int {
    round_div(60 * sample_rate, BPM_MIN * span)
}

/// The ratios `p / q` of the tempo family weighed for a lag, strongest
/// first: 1, 1/2, 2, 3/2, 2/3, 4/3, 3/4.
pub open spec fn harmonic_ratio(k: int) -> (int, int) {
    if k == 0 {
        (1, 1)
    } else if k == 1 {
        (1, 2)
    } else if k == 2 {
        (2, 1)
    } else if k == 3 {
        (3, 2)
    } else if k == 4 {
        (2, 3)
    } else if k == 5 {
        (4, 3)
    } else {
        (3, 4)
    }
}

/// What came of one attempt to read and decode a packet.
#[derive(PartialEq, Eq, Structural, Clone, Copy, Debug)]
pub enum PacketEvent {
    /// The packet belongs to another track.
    OtherTrack,
    /// The packet decoded into this many mono samples.
    Decoded(usize),
    /// The source ended (an I/O end condition from the reader or the
    /// decoder).
    EndOfStream,
    /// The decoder must be reset before it can go on.
    ResetRequired,
    /// This packet alone could not be decoded.
    Undecodable,
    /// Any other error.
    Fatal,
}

/// What the decoding loop does next.
#[derive(PartialEq, Eq, Structural, Clone, Copy, Debug)]
pub enum DecodeStep {
    ReadNext,
    ResetDecoder,
    Finish,
    Fail,
}

/// Integer planning of the tempo analysis: how the signal is framed, how
/// the onset envelope is downsampled, and which lags are compared.
pub struct AnalysisEngine;

impl AnalysisEngine {
    /// Maximum number of samples decoded for analysis at a given sample rate.
    pub fn analysis_sample_limit(sample_rate: u32) -> (r: usize)
        ensures
            r == sample_rate * MAX_ANALYSIS_SECONDS || (r == usize::MAX && sample_rate
                * MAX_ANALYSIS_SECONDS > usize::MAX),
    {
        let total: u64 = sample_rate as u64 * MAX_ANALYSIS_SECONDS as u64;
        if total > usize::MAX as u64 {
            usize::MAX
        } else {
            total as usize
        }
    }

    /// Frames for a signal of `len` samples: a window of 4096 samples (or the
    /// whole signal if shorter), a hop of a quarter window capped at 256 (at
    /// least 1). A signal shorter than 512 samples has no frames.
    pub fn flux_frame_plan(len: usize) -> (r: Option<FramePlan>)
        ensures
            len < MIN_FLUX_WINDOW ==> r is None,
            len >= MIN_FLUX_WINDOW ==> r is Some && r->0.describes(len as nat),
    {
        let window = if len < FLUX_WINDOW {
            len
        } else {
            FLUX_WINDOW
        };
        if window < MIN_FLUX_WINDOW {
            return None;
        }
        let quarter = window / 4;
        let capped = if quarter < FLUX_HOP {
            quarter
        } else {
            FLUX_HOP
        };
        let hop = if capped < 1 {
            1
        } else {
            capped
        };
        let frames = (len - window) / hop + 1;
        Some(FramePlan { window, hop, frames })
    }

    pub fn downsample_factor(sample_rate: u32, hop: u32) -> (r: u32)
        requires
            hop > 0,
        ensures
            r == downsample_factor_of(sample_rate as int, hop as int),
            r >= 1,
    {
        let b: u64 = hop as u64 * TARGET_FLUX_RATE;
        let f: u64 = (2 * sample_rate as u64 + b) / (2 * b);
        assert(f <= sample_rate) by (nonlinear_arith)
            requires
                b >= 220,
                f == (2 * sample_rate + b) / (2 * b),
        ;
        if f < 1 {
            1
        } else {
            f as u32
        }
    }

    /// The lag range searched for an envelope of `len` values at
    /// `sample_rate / (hop * factor)` Hz. Absent when the envelope has fewer
    /// than 4 values, when the shortest lag rounds to 0, or when the longest
    /// lag does not fit in the envelope.
    pub fn lag_range(sample_rate: u32, hop: u32, factor: u32, len: usize) -> (r: Option<LagRange>)
        requires
            hop > 0,
            factor > 0,
        ensures
            ({
                let span = hop * factor;
                let lo = min_lag_of(sample_rate as int, span as int);
                let hi = max_lag_of(sample_rate as int, span as int);
                &&& (len < 4 || lo == 0 || hi >= len) ==> r is None
                &&& !(len < 4 || lo == 0 || hi >= len) ==> r is Some && r->0.min_lag == lo
                    && r->0.max_lag == hi
            }),
    {
        if len < 4 {
            return None;
        }
        assert(1 <= (hop as int) * (factor as int) <= 0xffff_ffff * 0xffff_ffff) by (nonlinear_arith)
            requires
                1 <= hop <= 0xffff_ffff,
                1 <= factor <= 0xffff_ffff,
        ;
        let span: u64 = hop as u64 * factor as u64;
        let sr: u128 = sample_rate as u128;
        let bmax: u128 = 200u128 * (span as u128);
        let bmin: u128 = 60u128 * (span as u128);
        assert(bmax == BPM_MAX * (hop * factor));
        let lo: u128 = (2 * (60 * sr) + bmax) / (2 * bmax);
        let hi: u128 = (2 * (60 * sr) + bmin) / (2 * bmin);
        if lo == 0 || hi >= len as u128 {
            return None;
        }
        assert(lo <= hi) by (nonlinear_arith)
            requires
                bmin > 0,
                3 * bmax == 10 * bmin,
                lo == (2 * (60 * sr) + bmax) / (2 * bmax),
                hi == (2 * (60 * sr) + bmin) / (2 * bmin),
        ;
        Some(LagRange { min_lag: lo as usize, max_lag: hi as usize })
    }

    /// The lag related to `lag` by the `k`-th ratio, rounded to the nearest
    /// sample; absent when it falls outside `1 .. table_len`.
    pub fn harmonic_lag(lag: usize, k: usize, table_len: usize) -> (r: Option<usize>)
        requires
            k < HARMONIC_COUNT,
        ensures
            ({
                let (p, q) = harmonic_ratio(k as int);
                let idx = round_div(lag * p, q);
                &&& (idx == 0 || idx >= table_len) ==> r is None
                &&& !(idx == 0 || idx >= table_len) ==> r == Some(idx as usize)
            }),
    {
        let (p, q): (u128, u128) = if k == 0 {
            (1, 1)
        } else if k == 1 {
            (1, 2)
        } else if k == 2 {
            (2, 1)
        } else if k == 3 {
            (3, 2)
        } else if k == 4 {
            (2, 3)
        } else if k == 5 {
            (4, 3)
        } else {
            (3, 4)
        };
        let idx: u128 = (2 * (lag as u128 * p) + q) / (2 * q);
        if idx == 0 || idx >= table_len as u128 {
            None
        } else {
            Some(idx as usize)
        }
    }

    /// The decision after one packet, given the samples collected before it
    /// and the cap on them: stop cleanly at the end of the stream or once
    /// the cap is reached, reset the decoder when asked, skip packets of
    /// other tracks and packets that will not decode, fail on anything else.
    pub fn next_decode_step(collected: usize, limit: usize, event: PacketEvent) -> (r: DecodeStep)
        ensures
            event is EndOfStream ==> r is Finish,
            event is ResetRequired ==> r is ResetDecoder,
            (event is Undecodable || event is OtherTrack) ==> r is ReadNext,
            event is Fatal ==> r is Fail,
            event is Decoded ==> (r is ReadNext <==> collected + event->Decoded_0 < limit) && (r is Finish
                <==> collected + event->Decoded_0 >= limit),
    {
        match event {
            PacketEvent::OtherTrack => DecodeStep::ReadNext,
            PacketEvent::Decoded(n) => {
                if n < limit && collected < limit - n {
                    DecodeStep::ReadNext
                } else {
                    DecodeStep::Finish
                }
            },
            PacketEvent::EndOfStream => DecodeStep::Finish,
            PacketEvent::ResetRequired => DecodeStep::ResetDecoder,
            PacketEvent::Undecodable => DecodeStep::ReadNext,
            PacketEvent::Fatal => DecodeStep::Fail,
        }
    }

    /// Whether enough audio was decoded for analysis: at least one second.
    pub fn enough_audio(collected: usize, sample_rate: u32) -> (r: bool)
        ensures
            r == (collected >= sample_rate),
    {
        collected as u64 >= sample_rate as u64
    }
}

} // verus!
