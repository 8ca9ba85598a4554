//! One capture channel while it records: muting, alignment with the clock, the
//! level meter and the saved track.

use vstd::prelude::*;

verus! {

/// The rate that a channel counts with.
pub open spec fn counted_rate(rate: u32) -> int {
    if rate == 0 {
        1
    } else {
        rate as int
    }
}

/// The samples that a channel should have after this time.
pub open spec fn clock_samples(elapsed_ms: int, rate: u32) -> int {
    elapsed_ms * counted_rate(rate) / 1000
}

/// The silence to put before a buffer of `len` samples, so that the channel
/// catches up with the clock: gaps of up to 30 ms are jitter, and no more than
/// five minutes come at once.
pub open spec fn missing_silence(elapsed_ms: int, produced: int, len: int, rate: u32) -> int {
    let sr = counted_rate(rate);
    let gap = clock_samples(elapsed_ms, rate) - (produced + len);
    if gap <= sr * 30 / 1000 {
        0
    } else if gap > sr * 300 {
        sr * 300
    } else {
        gap
    }
}

/// So many samples of silence.
pub open spec fn silence_of<T>(n: int, silence: T) -> Seq<T> {
    Seq::new(n as nat, |i: int| silence)
}

/// Puts silence before a buffer so that the channel's sample count catches up
/// with real time. A source that delivers nothing while it is quiet would fall
/// behind the clock otherwise.
pub fn pad_to_wallclock<T: Copy>(
    elapsed_ms: u64,
    produced: u64,
    mono: Vec<T>,
    rate: u32,
    silence: T,
) -> (r: Vec<T>)
    requires
        elapsed_ms * counted_rate(rate) <= u64::MAX,
        produced + mono@.len() <= u64::MAX,
        missing_silence(elapsed_ms as int, produced as int, mono@.len() as int, rate)
            <= usize::MAX,
    ensures
        r@ == silence_of(
            missing_silence(elapsed_ms as int, produced as int, mono@.len() as int, rate),
            silence,
        ) + mono@,
{
    let sr: u64 = if rate == 0 {
        1
    } else {
        rate as u64
    };
    assert(sr * 30 <= 0xffff_ffff * 30);
    assert(sr * 300 <= 0xffff_ffff * 300);
    let target: u64 = elapsed_ms * sr / 1000;
    let have: u64 = produced + mono.len() as u64;
    let mut pad: u64 = target.saturating_sub(have);
    if pad <= sr * 30 / 1000 {
        pad = 0;
    }
    if pad > sr * 300 {
        pad = sr * 300;
    }
    if pad > 0 {
        let n: usize = pad as usize;
        let mut b: Vec<T> = Vec::new();
        let mut i: usize = 0;
        while i < n
            invariant
                i <= n,
                b@ == silence_of(i as int, silence),
            decreases n - i,
        {
            b.push(silence);
            i += 1;
        }
        let mut mono = mono;
        b.append(&mut mono);
        b
    } else {
        assert(silence_of(0, silence) + mono@ =~= mono@);
        mono
    }
}

/// A buffer of a muted channel: silence of the same length.
pub fn muted_frame<T: Copy>(muted: bool, frame: Vec<T>, silence: T) -> (r: Vec<T>)
    ensures
        r@ == (if muted {
            silence_of(frame@.len() as int, silence)
        } else {
            frame@
        }),
{
    if !muted {
        return frame;
    }
    let n: usize = frame.len();
    let mut b: Vec<T> = Vec::new();
    let mut i: usize = 0;
    while i < n
        invariant
            i <= n,
            b@ == silence_of(i as int, silence),
        decreases n - i,
    {
        b.push(silence);
        i += 1;
    }
    b
}

/// Time between two level reports, in nanoseconds.
pub const LEVEL_INTERVAL_NS: u64 = 33_000_000;

/// The state of a channel.
#[derive(Debug, Clone, Copy, PartialEq, Eq, Structural)]
pub struct Channel {
    /// Samples so far, silence counted.
    pub produced: u64,
    /// When the level was last reported, in nanoseconds of the session.
    pub last_level_ns: u64,
    /// The track is being saved.
    pub saving: bool,
}

impl Channel {
    /// A channel at the start of a session.
    pub fn new(saving: bool) -> (r: Channel)
        ensures
            r == (Channel { produced: 0, last_level_ns: 0, saving }),
    {
        Channel { produced: 0, last_level_ns: 0, saving }
    }

    /// Whether the level is reported now: at a fixed pace, however small the
    /// buffers are.
    pub fn level_due(&mut self, elapsed_ns: u64) -> (r: bool)
        ensures
            r == (elapsed_ns - old(self).last_level_ns >= LEVEL_INTERVAL_NS),
            *final(self) == (if r {
                Channel { last_level_ns: elapsed_ns, ..*old(self) }
            } else {
                *old(self)
            }),
    {
        let due = elapsed_ns.saturating_sub(self.last_level_ns) >= LEVEL_INTERVAL_NS;
        if due {
            self.last_level_ns = elapsed_ns;
        }
        due
    }

    /// Takes a buffer, and gives it back aligned with the clock.
    pub fn take<T: Copy>(&mut self, elapsed_ms: u64, frame: Vec<T>, rate: u32, silence: T) -> (r:
        Vec<T>)
        requires
            elapsed_ms * counted_rate(rate) <= u64::MAX,
            missing_silence(
                elapsed_ms as int,
                old(self).produced as int,
                frame@.len() as int,
                rate,
            ) <= usize::MAX,
            old(self).produced + frame@.len() + missing_silence(
                elapsed_ms as int,
                old(self).produced as int,
                frame@.len() as int,
                rate,
            ) <= u64::MAX,
        ensures
            r@ == silence_of(
                missing_silence(
                    elapsed_ms as int,
                    old(self).produced as int,
                    frame@.len() as int,
                    rate,
                ),
                silence,
            ) + frame@,
            *final(self) == (Channel {
                produced: (old(self).produced + r@.len()) as u64,
                ..*old(self)
            }),
            final(self).produced == old(self).produced + r@.len(),
    {
        let r = pad_to_wallclock(elapsed_ms, self.produced, frame, rate, silence);
        self.produced = self.produced + r.len() as u64;
        r
    }

    /// Writing the track failed: that is reported once, and nothing more is
    /// written. The transcription goes on.
    pub fn write_failed(&mut self, channel: &str, why: &str) -> (r: Option<String>)
        ensures
            r is Some == old(self).saving,
            r matches Some(t) ==> t@ == "writing the "@ + channel@ + " audio file failed: "@ + why@
                + " — audio saving stopped (transcription continues)"@,
            *final(self) == (Channel { saving: false, ..*old(self) }),
    {
        if !self.saving {
            return None;
        }
        self.saving = false;
        let mut r = "writing the ".to_string();
        r.push_str(channel);
        r.push_str(" audio file failed: ");
        r.push_str(why);
        r.push_str(" — audio saving stopped (transcription continues)");
        Some(r)
    }
}

/// The notice when the track cannot be created.
pub fn create_failed_text(channel: &str, why: &str) -> (r: String)
    ensures
        r@ == "couldn't create the "@ + channel@ + " audio file: "@ + why@
            + " — recording continues without saved audio"@,
{
    let mut r = "couldn't create the ".to_string();
    r.push_str(channel);
    r.push_str(" audio file: ");
    r.push_str(why);
    r.push_str(" — recording continues without saved audio");
    r
}

/// The notice when the track cannot be completed.
pub fn finalize_failed_text(channel: &str, why: &str) -> (r: String)
    ensures
        r@ == "finalizing the "@ + channel@ + " audio file failed: "@ + why@
            + " — the saved track may be unreadable"@,
{
    let mut r = "finalizing the ".to_string();
    r.push_str(channel);
    r.push_str(" audio file failed: ");
    r.push_str(why);
    r.push_str(" — the saved track may be unreadable");
    r
}

/// After every buffer a channel agrees with the clock: it is behind by no more
/// than the jitter, unless the gap was longer than five minutes; and silence
/// never takes it past the clock.
pub proof fn channels_keep_time(elapsed_ms: int, produced: int, len: int, rate: u32)
    requires
        0 <= elapsed_ms,
        0 <= produced,
        0 <= len,
    ensures
        ({
            let pad = missing_silence(elapsed_ms, produced, len, rate);
            let after = produced + pad + len;
            let sr = counted_rate(rate);
            &&& clock_samples(elapsed_ms, rate) - (produced + len) <= sr * 300
                ==> after >= clock_samples(elapsed_ms, rate) - sr * 30 / 1000
            &&& pad > 0 ==> after <= clock_samples(elapsed_ms, rate)
        }),
{
}

/// Two channels that take a buffer at the same time, at the same rate, stay
/// together: once silence was put before both, they hold the same number of
/// samples, however much each had delivered.
pub proof fn channels_stay_aligned(
    elapsed_ms: int,
    rate: u32,
    produced_a: int,
    len_a: int,
    produced_b: int,
    len_b: int,
)
    requires
        0 < missing_silence(elapsed_ms, produced_a, len_a, rate) < counted_rate(rate) * 300,
        0 < missing_silence(elapsed_ms, produced_b, len_b, rate) < counted_rate(rate) * 300,
    ensures
        produced_a + missing_silence(elapsed_ms, produced_a, len_a, rate) + len_a == produced_b
            + missing_silence(elapsed_ms, produced_b, len_b, rate) + len_b,
{
}

/// Muting does not move a channel in time: a muted buffer has the length of the
/// buffer it replaces.
pub proof fn muting_keeps_time<T>(frame: Seq<T>, silence: T)
    ensures
        silence_of(frame.len() as int, silence).len() == frame.len(),
{
}

/// Samples are counted by the clock: a whole number of them for every second, and those
/// that are complete of a part of one.
pub proof fn seconds_have_their_samples(elapsed_ms: int, rate: u32, seconds: int)
    requires
        0 <= elapsed_ms,
        rate > 0,
    ensures
        clock_samples(seconds * 1000, rate) == seconds * rate,
        1000 * clock_samples(elapsed_ms, rate) <= elapsed_ms * rate < 1000 * clock_samples(
            elapsed_ms,
            rate,
        ) + 1000,
        clock_samples(elapsed_ms, 0) == elapsed_ms / 1000,
{
    let r = rate as int;
    assert(seconds * 1000 * r == 1000 * (seconds * r)) by (nonlinear_arith);
    assert(1000 * (seconds * r) / 1000 == seconds * r);
}

/// A gap of up to thirty milliseconds is left, a longer one is filled to the sample, and
/// of one beyond five minutes so much is filled.
pub proof fn gaps_are_filled_to_the_sample(elapsed_ms: int, produced: int, len: int, rate: u32)
    requires
        rate > 0,
    ensures
        ({
            let behind = clock_samples(elapsed_ms, rate) - produced - len;
            let pad = missing_silence(elapsed_ms, produced, len, rate);
            &&& 1000 * behind <= 30 * rate ==> pad == 0
            &&& 1000 * behind > 30 * rate && behind <= 300 * rate ==> pad == behind
            &&& behind > 300 * rate ==> pad == 300 * rate
        }),
{
}

/// Silence is so many samples, all of them silent.
pub proof fn silence_is_silent<T>(n: int, silence: T, i: int)
    requires
        0 <= i < n,
    ensures
        silence_of(n, silence).len() == n,
        silence_of(n, silence)[i] == silence,
{
}

} // verus!
