use vstd::prelude::*;
use vstd::string::StringSliceAdditionalSpecFns;

verus! {

/// Largest gap, in seconds, between a stored analysis timestamp and the
/// file's modification time for which the stored tempo is still trusted.
pub const BPM_TIMESTAMP_TOLERANCE_SECS: u64 = 2;

/// Custom tag key under which the hot-cue list is kept, as JSON.
pub const HOT_CUES_STORAGE_KEY: &'static str = "NEVEALDJ::HOTCUES";

/// Custom tag key under which the time of the last tempo write is kept, in
/// unix seconds.
pub const BPM_TIMESTAMP_KEY: &'static str = "NEVEALDJ::BPM_TIMESTAMP";

/// Absolute difference of two timestamps.
pub open spec fn gap(a: u64, b: u64) -> nat {
    if a >= b {
        (a - b) as nat
    } else {
        (b - a) as nat
    }
}

/// Whether two unix timestamps lie within the tolerance of each other.
pub fn timestamps_close(a: u64, b: u64) -> (r: bool)
    ensures
        r == (gap(a, b) <= BPM_TIMESTAMP_TOLERANCE_SECS),
{
    if a >= b {
        a - b <= BPM_TIMESTAMP_TOLERANCE_SECS
    } else {
        b - a <= BPM_TIMESTAMP_TOLERANCE_SECS
    }
}

/// Whether a tempo found in the tags must be replaced by a fresh analysis.
///
/// No tag value: always analyse. A known modification time: the stored
/// analysis timestamp must lie within the tolerance of it. An unknown
/// modification time: only a tag value without any stored timestamp is
/// distrusted.
pub open spec fn needs_refresh(has_tag_bpm: bool, file_mtime: Option<u64>, stored: Option<u64>) -> bool {
    if !has_tag_bpm {
        true
    } else {
        match file_mtime {
            Some(m) => match stored {
                Some(s) => gap(s, m) > BPM_TIMESTAMP_TOLERANCE_SECS,
                None => true,
            },
            None => stored is None,
        }
    }
}

/// Decides whether the stored tempo is stale.
pub fn bpm_needs_refresh(has_tag_bpm: bool, file_mtime: Option<u64>, stored: Option<u64>) -> (r: bool)
    ensures
        r == needs_refresh(has_tag_bpm, file_mtime, stored),
{
    if !has_tag_bpm {
        return true;
    }
    match file_mtime {
        Some(m) => match stored {
            Some(s) => !timestamps_close(s, m),
            None => true,
        },
        None => stored.is_none(),
    }
}

/// The tempo to report for a track, and whether it has to be written back.
pub struct BpmResolution<T> {
    pub bpm: Option<T>,
    pub persist: bool,
}

/// Chooses between the tempo stored in the tags and a freshly analysed one.
/// A fresh value replaces the stored one (and is marked for persistence)
/// exactly when the stored one is stale and analysis produced a value;
/// otherwise the stored value is kept as it is.
pub fn resolve_bpm<T: Copy>(
    tag_bpm: Option<T>,
    analysis_bpm: Option<T>,
    file_mtime: Option<u64>,
    stored: Option<u64>,
) -> (r: BpmResolution<T>)
    ensures
        needs_refresh(tag_bpm is Some, file_mtime, stored) && analysis_bpm is Some ==> r.bpm
            == analysis_bpm && r.persist,
        !(needs_refresh(tag_bpm is Some, file_mtime, stored) && analysis_bpm is Some) ==> r.bpm
            == tag_bpm && !r.persist,
{
    let stale = bpm_needs_refresh(tag_bpm.is_some(), file_mtime, stored);
    if stale && analysis_bpm.is_some() {
        BpmResolution { bpm: analysis_bpm, persist: true }
    } else {
        BpmResolution { bpm: tag_bpm, persist: false }
    }
}

/// A stored timestamp exactly at the tolerance is trusted; one second more
/// and the tempo is analysed again.
pub proof fn lemma_cache_tolerance(t: u64)
    requires
        t <= u64::MAX - 3,
    ensures
        !needs_refresh(true, Some((t + 2) as u64), Some(t)),
        needs_refresh(true, Some((t + 3) as u64), Some(t)),
{
}

pub open spec fn is_digit(c: u8) -> bool {
    48 <= c <= 57
}

pub open spec fn all_digits(ds: Seq<u8>) -> bool {
    forall|i: int| 0 <= i < ds.len() ==> is_digit(#[trigger] ds[i])
}

/// The number written by a sequence of decimal digits.
pub open spec fn decimal_value(ds: Seq<u8>) -> nat
    decreases ds.len(),
{
    if ds.len() == 0 {
        0
    } else {
        decimal_value(ds.drop_last()) * 10 + (ds.last() - 48) as nat
    }
}

/// The digits of an unsigned number in text, past an optional `+`.
pub open spec fn unsigned_digits(b: Seq<u8>) -> Seq<u8> {
    if b.len() > 0 && b[0] == 43 {
        b.drop_first()
    } else {
        b
    }
}

/// The value of a `u64` written in decimal: an optional `+`, then at least
/// one digit and nothing else; absent when the text is malformed or the
/// value does not fit.
pub open spec fn parsed_u64(b: Seq<u8>) -> Option<u64> {
    let ds = unsigned_digits(b);
    if ds.len() > 0 && all_digits(ds) && decimal_value(ds) <= u64::MAX {
        Some(decimal_value(ds) as u64)
    } else {
        None
    }
}

proof fn lemma_decimal_grows(ds: Seq<u8>, j: int)
    requires
        0 <= j <= ds.len(),
        all_digits(ds),
    ensures
        decimal_value(ds.subrange(0, j)) <= decimal_value(ds),
    decreases ds.len() - j,
{
    if j < ds.len() {
        lemma_decimal_grows(ds, j + 1);
        let p = ds.subrange(0, j + 1);
        assert(p.drop_last() =~= ds.subrange(0, j));
        assert(is_digit(ds[j]));
    } else {
        assert(ds.subrange(0, j) =~= ds);
    }
}

/// Reads the analysis timestamp stored in a tag: a decimal `u64`.
pub fn parse_bpm_timestamp(text: &str) -> (r: Option<u64>)
    ensures
        r == parsed_u64(text.spec_bytes()),
{
    let b = text.as_bytes();
    let ghost bs = b@;
    let n = b.len();
    let start: usize = if n > 0 && b[0] == 43u8 { 1 } else { 0 };
    let ghost ds = unsigned_digits(bs);
    assert(ds =~= bs.subrange(start as int, n as int));
    if start >= n {
        return None;
    }
    let mut acc: u64 = 0;
    let mut i: usize = start;
    while i < n
        invariant
            b@ == bs,
            bs == text.spec_bytes(),
            ds == unsigned_digits(bs),
            n == bs.len(),
            start <= i <= n,
            ds =~= bs.subrange(start as int, n as int),
            all_digits(ds.subrange(0, i - start)),
            acc as nat == decimal_value(ds.subrange(0, i - start)),
        decreases n - i,
    {
        let c = b[i];
        if c < 48u8 || c > 57u8 {
            assert(!is_digit(ds[i - start]));
            assert(!all_digits(ds));
            return None;
        }
        let ghost prev = ds.subrange(0, i - start);
        let ghost next = ds.subrange(0, i - start + 1);
        assert(next.drop_last() =~= prev);
        assert(next.last() == c);
        let d = (c - 48u8) as u64;
        match acc.checked_mul(10) {
            Some(m) => match m.checked_add(d) {
                Some(v) => {
                    acc = v;
                },
                None => {
                    proof {
                        assert(all_digits(next));
                        assert(decimal_value(next) == acc * 10 + d);
                        assert(decimal_value(next) > u64::MAX);
                        if all_digits(ds) {
                            lemma_decimal_grows(ds, i - start + 1);
                        }
                    }
                    return None;
                },
            },
            None => {
                proof {
                    assert(all_digits(next));
                    if all_digits(ds) {
                        lemma_decimal_grows(ds, i - start + 1);
                    }
                }
                return None;
            },
        }
        i += 1;
    }
    assert(ds.subrange(0, n - start) =~= ds);
    Some(acc)
}

} // verus!
