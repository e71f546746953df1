//! Background sound mixed under the speech of the server-side track.
use crate::media::{AudioFrame, FrameView, Samples, SamplesView, INTERNAL_SAMPLERATE};
use vstd::prelude::*;

verus! {

/// Settings of the background sound. The levels and the speed are the IEEE-754
/// bits of single-precision numbers.
#[derive(Debug, PartialEq, Eq)]
pub struct AmbianceOption {
    pub path: Option<String>,
    pub duck_level: Option<u32>,
    pub normal_level: Option<u32>,
    pub transition_speed: Option<u32>,
    pub enabled: Option<bool>,
}

/// The value itself where there is one, else the fallback.
pub open spec fn or_else<T>(value: Option<T>, fallback: Option<T>) -> Option<T> {
    if value is Some {
        value
    } else {
        fallback
    }
}

impl AmbianceOption {
    /// Fills every setting that is still open from `other`.
    pub fn merge(&mut self, other: &AmbianceOption)
        ensures
            final(self).path == or_else(old(self).path, other.path),
            final(self).duck_level == or_else(old(self).duck_level, other.duck_level),
            final(self).normal_level == or_else(old(self).normal_level, other.normal_level),
            final(self).transition_speed == or_else(
                old(self).transition_speed,
                other.transition_speed,
            ),
            final(self).enabled == or_else(old(self).enabled, other.enabled),
    {
        if self.path.is_none() {
            self.path = other.path.clone();
        }
        if self.duck_level.is_none() {
            self.duck_level = other.duck_level;
        }
        if self.normal_level.is_none() {
            self.normal_level = other.normal_level;
        }
        if self.transition_speed.is_none() {
            self.transition_speed = other.transition_speed;
        }
        if self.enabled.is_none() {
            self.enabled = other.enabled;
        }
    }
}

impl Clone for AmbianceOption {
    fn clone(&self) -> (r: Self)
        ensures
            r == *self,
    {
        AmbianceOption {
            path: self.path.clone(),
            duck_level: self.duck_level,
            normal_level: self.normal_level,
            transition_speed: self.transition_speed,
            enabled: self.enabled,
        }
    }
}

impl Default for AmbianceOption {
    fn default() -> (r: Self)
        ensures
            r == (AmbianceOption {
                path: None,
                duck_level: None,
                normal_level: None,
                transition_speed: None,
                enabled: None,
            }),
    {
        AmbianceOption {
            path: None,
            duck_level: None,
            normal_level: None,
            transition_speed: None,
            enabled: None,
        }
    }
}

/// Why an [`AmbianceProcessor`] could not be made.
#[derive(Debug, Clone, Copy, PartialEq, Eq)]
pub enum AmbianceError {
    /// The settings name no sound file.
    PathRequired,
}

impl AmbianceError {
    /// The error in words.
    pub fn message(&self) -> (r: String)
        ensures
            r@ == match *self {
                AmbianceError::PathRequired => "Ambiance path required"@,
            },
    {
        match self {
            AmbianceError::PathRequired => "Ambiance path required".to_string(),
        }
    }
}

/// Bits of the single-precision number 0.3.
pub const DEFAULT_NORMAL_LEVEL: u32 = 0x3e99_999a;

/// Bits of the single-precision number 0.1.
pub const DEFAULT_DUCK_LEVEL: u32 = 0x3dcc_cccd;

/// Bits of the single-precision number 0.01.
pub const DEFAULT_TRANSITION_SPEED: u32 = 0x3c23_d70a;

/// One step of the playhead in 1/65536 samples, at which the loop is played at
/// its own rate.
pub const UNIT_STEP: u32 = 0x1_0000;

/// A looped background sound and its playhead. Levels and speed are held as
/// the IEEE-754 bits of single-precision numbers.
pub struct AmbianceProcessor {
    pub samples: Vec<i16>,
    pub cursor: usize,
    pub duck_level: u32,
    pub normal_level: u32,
    pub enabled: bool,
    pub current_level: u32,
    pub transition_speed: u32,
    pub resample_phase: u32,
    pub resample_step: u32,
}

/// The playhead step in 1/65536 samples for an output rate.
pub open spec fn step_for(rate: u32) -> int {
    (INTERNAL_SAMPLERATE * 65536) / (rate as int)
}

/// Position of the playhead `n` draws after it stood at `cursor` and `phase`.
pub open spec fn cursor_after(cursor: int, phase: int, step: int, n: int, len: int) -> int {
    (cursor + (phase + n * step) / 65536) % len
}

/// Fraction of the playhead `n` draws after it stood at `phase`.
pub open spec fn phase_after(phase: int, step: int, n: int) -> int {
    (phase + n * step) % 65536
}

/// `ambient` scaled by `gain`/256, rounded down.
pub open spec fn scaled(ambient: i16, gain: i32) -> int {
    (ambient * gain) / 256
}

/// `signal` with `ambient` under it; what goes over the range is folded back
/// by a quarter of the excess.
pub open spec fn soft_mixed(signal: i16, ambient: i16, gain: i32) -> i16 {
    let mixed = signal + scaled(ambient, gain);
    if mixed > 32767 {
        (32767 - (mixed - 32767) / 4) as i32 as i16
    } else if mixed < -32768 {
        (-32768 + (-32768 - mixed) / 4) as i32 as i16
    } else {
        mixed as i16
    }
}

/// Whether no product of a sample and `gain` leaves the 32-bit range.
pub open spec fn gain_fits(samples: Seq<i16>, gain: i32) -> bool {
    forall|i: int|
        0 <= i < samples.len() ==> i32::MIN <= #[trigger] samples[i] * gain <= i32::MAX
}

/// `x`/256 rounded down.
fn floor_shift8(x: i64) -> (r: i32)
    requires
        i32::MIN <= x <= i32::MAX,
    ensures
        r == (x as int) / 256,
        -8388608 <= r <= 8388607,
{
    let lifted: i64 = x + 0x100_0000_0000;
    let q: i64 = lifted / 256;
    let r: i64 = q - 0x1_0000_0000;
    r as i32
}

/// `signal` with `ambient` under it at `gain`/256.
pub fn soft_mix(signal: i16, ambient: i16, gain: i32) -> (r: i16)
    requires
        i32::MIN <= ambient * gain <= i32::MAX,
    ensures
        r == soft_mixed(signal, ambient, gain),
{
    let product: i64 = ambient as i64 * gain as i64;
    let part: i32 = floor_shift8(product);
    let mixed: i32 = signal as i32 + part;
    if mixed > 32767 {
        let over: i32 = mixed - 32767;
        let folded: i32 = 32767 - over / 4;
        folded as i16
    } else if mixed < -32768 {
        let under: i32 = -32768 - mixed;
        let folded: i32 = -32768 + under / 4;
        folded as i16
    } else {
        mixed as i16
    }
}

/// At gain zero the signal passes unchanged.
pub proof fn law_silent_gain_keeps_signal(signal: i16, ambient: i16)
    ensures
        soft_mixed(signal, ambient, 0) == signal,
{
    assert(ambient * 0 == 0);
}

/// At gains of at most 256 the fold never wraps: the mix stays on the side on
/// which it overflowed, at a distance of a quarter of the excess from the
/// limit, and an excess is at most the full range.
pub proof fn law_unit_gain_never_wraps(signal: i16, ambient: i16, gain: i32)
    requires
        0 <= gain <= 256,
    ensures
        ({
            let mixed = signal + scaled(ambient, gain);
            &&& mixed > 32767 ==> soft_mixed(signal, ambient, gain) == 32767 - (mixed - 32767) / 4
            &&& mixed < -32768 ==> soft_mixed(signal, ambient, gain) == -32768 + (-32768 - mixed)
                / 4
            &&& -32768 <= mixed <= 32767 ==> soft_mixed(signal, ambient, gain) == mixed
        }),
{
    assert(-8388608 <= ambient * gain <= 8388352) by (nonlinear_arith)
        requires
            -32768 <= ambient <= 32767,
            0 <= gain <= 256,
    ;
}

impl AmbianceProcessor {
    /// The playhead stands on a sample, with a fraction below one sample.
    pub open spec fn wf(&self) -> bool {
        &&& self.samples@.len() > 0 ==> self.cursor < self.samples@.len()
        &&& self.resample_phase < 65536
    }

    /// The sample under the playhead `n` draws from now at an output rate.
    pub open spec fn ambient_at(&self, rate: u32, n: int) -> i16 {
        self.samples@[cursor_after(
            self.cursor as int,
            self.resample_phase as int,
            step_for(rate),
            n,
            self.samples@.len() as int,
        )]
    }

    /// Everything but the playhead is as in `other`.
    pub open spec fn same_settings(&self, other: &AmbianceProcessor) -> bool {
        &&& self.samples@ == other.samples@
        &&& self.duck_level == other.duck_level
        &&& self.normal_level == other.normal_level
        &&& self.enabled == other.enabled
        &&& self.transition_speed == other.transition_speed
    }

    /// The playhead of `self` stands `n` draws after that of `other`.
    pub open spec fn advanced(&self, other: &AmbianceProcessor, rate: u32, n: int) -> bool {
        &&& self.cursor == cursor_after(
            other.cursor as int,
            other.resample_phase as int,
            step_for(rate),
            n,
            other.samples@.len() as int,
        )
        &&& self.resample_phase == phase_after(
            other.resample_phase as int,
            step_for(rate),
            n,
        )
        &&& n > 0 ==> self.resample_step == step_for(rate)
    }

    /// The sound file that the settings name.
    pub fn required_path(option: &AmbianceOption) -> (r: Result<String, AmbianceError>)
        ensures
            option.path matches Some(p) ==> r == Ok::<String, AmbianceError>(p),
            option.path is None ==> r == Err::<String, AmbianceError>(AmbianceError::PathRequired),
    {
        match &option.path {
            Some(p) => Ok(p.clone()),
            None => Err(AmbianceError::PathRequired),
        }
    }

    /// A processor that loops `samples`, loaded from the file that the
    /// settings name, with its playhead at the start.
    pub fn new(option: AmbianceOption, samples: Vec<i16>) -> (r: Result<Self, AmbianceError>)
        ensures
            r is Ok <==> option.path is Some,
            r matches Ok(p) ==> {
                &&& p.wf()
                &&& p.samples == samples
                &&& p.cursor == 0
                &&& p.duck_level == option.duck_level.unwrap_or(DEFAULT_DUCK_LEVEL)
                &&& p.normal_level == option.normal_level.unwrap_or(DEFAULT_NORMAL_LEVEL)
                &&& p.current_level == p.normal_level
                &&& p.enabled == option.enabled.unwrap_or(true)
                &&& p.transition_speed == option.transition_speed.unwrap_or(
                    DEFAULT_TRANSITION_SPEED,
                )
                &&& p.resample_phase == 0
                &&& p.resample_step == UNIT_STEP
            },
            r matches Err(e) ==> e == AmbianceError::PathRequired,
    {
        if option.path.is_none() {
            return Err(AmbianceError::PathRequired);
        }
        let normal_level: u32 = option.normal_level.unwrap_or(DEFAULT_NORMAL_LEVEL);
        Ok(
            AmbianceProcessor {
                samples,
                cursor: 0,
                duck_level: option.duck_level.unwrap_or(DEFAULT_DUCK_LEVEL),
                normal_level,
                enabled: option.enabled.unwrap_or(true),
                current_level: normal_level,
                transition_speed: option.transition_speed.unwrap_or(DEFAULT_TRANSITION_SPEED),
                resample_phase: 0,
                resample_step: UNIT_STEP,
            },
        )
    }

    /// Switches the background sound on or off.
    pub fn set_enabled(&mut self, enabled: bool)
        ensures
            *final(self) == (AmbianceProcessor { enabled, ..*old(self) }),
    {
        self.enabled = enabled;
    }

    /// Sets the level under silence and the level under speech.
    pub fn set_levels(&mut self, normal: u32, duck: u32)
        ensures
            *final(self) == (AmbianceProcessor {
                normal_level: normal,
                duck_level: duck,
                ..*old(self)
            }),
    {
        self.normal_level = normal;
        self.duck_level = duck;
    }

    /// The sample under the playhead, which then moves on by one output sample.
    pub fn get_ambient_sample_with_rate(&mut self, target_sample_rate: u32) -> (r: i16)
        requires
            old(self).wf(),
            target_sample_rate > 0,
        ensures
            final(self).wf(),
            old(self).samples@.len() == 0 ==> r == 0 && *final(self) == *old(self),
            old(self).samples@.len() > 0 ==> {
                &&& r == old(self).samples@[old(self).cursor as int]
                &&& final(self).advanced(old(self), target_sample_rate, 1)
                &&& final(self).same_settings(old(self))
                &&& final(self).current_level == old(self).current_level
            },
    {
        if self.samples.len() == 0 {
            return 0;
        }
        let count: usize = self.samples.len();
        let ghost len = self.samples@.len() as int;
        let ghost start = self.cursor as int;
        let wide: u64 = INTERNAL_SAMPLERATE as u64 * 65536;
        let step: u64 = wide / target_sample_rate as u64;
        assert(step <= wide) by (nonlinear_arith)
            requires
                step == wide / (target_sample_rate as u64),
                target_sample_rate > 0,
        ;
        self.resample_step = step as u32;
        let sample: i16 = self.samples[self.cursor];
        let ghost total = self.resample_phase + self.resample_step;
        self.resample_phase = self.resample_phase + self.resample_step;
        let ghost mut k: int = 0;
        proof {
            assert(start % len == start) by (nonlinear_arith)
                requires
                    0 <= start < len,
            ;
        }
        while self.resample_phase >= 0x1_0000
            invariant
                count == len == self.samples@.len(),
                len > 0,
                0 <= start,
                0 <= k,
                self.resample_phase == total - k * 65536,
                self.cursor == (start + k) % len,
                self.cursor < len,
                self.samples@ == old(self).samples@,
                self.resample_step == step,
                self.duck_level == old(self).duck_level,
                self.normal_level == old(self).normal_level,
                self.enabled == old(self).enabled,
                self.transition_speed == old(self).transition_speed,
                self.current_level == old(self).current_level,
            decreases self.resample_phase,
        {
            self.resample_phase = self.resample_phase - 0x1_0000;
            if self.cursor + 1 == count {
                self.cursor = 0;
            } else {
                self.cursor = self.cursor + 1;
            }
            proof {
                lemma_next_mod(start + k, len);
                k = k + 1;
            }
        }
        proof {
            assert(total / 65536 == k && total % 65536 == total - k * 65536) by (nonlinear_arith)
                requires
                    0 <= total - k * 65536 < 65536,
            ;
            assert(1 * step_for(target_sample_rate) == step_for(target_sample_rate));
        }
        sample
    }
}

/// The remainder of the next number.
proof fn lemma_next_mod(x: int, m: int)
    requires
        m > 0,
        0 <= x,
    ensures
        (x + 1) % m == if x % m + 1 == m {
            0
        } else {
            x % m + 1
        },
{
    vstd::arithmetic::div_mod::lemma_fundamental_div_mod(x, m);
    vstd::arithmetic::div_mod::lemma_mod_bound(x, m);
    let q = x / m;
    let r = x % m;
    assert(m * q == q * m) by (nonlinear_arith);
    if r + 1 == m {
        assert(x + 1 == m * (q + 1)) by (nonlinear_arith)
            requires
                x == m * q + r,
                r + 1 == m,
        ;
        vstd::arithmetic::div_mod::lemma_fundamental_div_mod_converse(x + 1, m, q + 1, 0);
    } else {
        vstd::arithmetic::div_mod::lemma_fundamental_div_mod_converse(x + 1, m, q, r + 1);
    }
}

/// One more draw after `n` draws.
proof fn lemma_one_more(cursor: int, phase: int, step: int, n: int, len: int)
    requires
        0 <= cursor < len,
        0 <= phase < 65536,
        0 <= step,
        0 <= n,
    ensures
        cursor_after(
            cursor_after(cursor, phase, step, n, len),
            phase_after(phase, step, n),
            step,
            1,
            len,
        ) == cursor_after(cursor, phase, step, n + 1, len),
        phase_after(phase_after(phase, step, n), step, 1) == phase_after(phase, step, n + 1),
        0 <= cursor_after(cursor, phase, step, n, len) < len,
        0 <= phase_after(phase, step, n) < 65536,
{
    let total = phase + n * step;
    assert(0 <= n * step) by (nonlinear_arith)
        requires
            0 <= n,
            0 <= step,
    ;
    assert((n + 1) * step == n * step + step) by (nonlinear_arith);
    assert(1 * step == step);
    let moved = (total % 65536 + step) / 65536;
    assert((total + step) / 65536 == total / 65536 + moved);
    vstd::arithmetic::div_mod::lemma_add_mod_noop_right(moved, cursor + total / 65536, len);
    vstd::arithmetic::div_mod::lemma_mod_bound(cursor + total / 65536, len);
}

/// The frame index to which interleaved sample `i * channels + c` belongs.
proof fn lemma_interleaved(i: int, c: int, channels: int)
    requires
        0 <= i,
        0 <= c < channels,
    ensures
        (i * channels + c) / channels == i,
{
    assert(i * channels + c == channels * i + c) by (nonlinear_arith);
    vstd::arithmetic::div_mod::lemma_fundamental_div_mod_converse(
        i * channels + c,
        channels,
        i,
        c,
    );
}

/// How many samples per channel a 20 ms frame has.
pub open spec fn idle_frame_size(rate: u32) -> int {
    (rate * 20) / 1000
}

/// The output rate of a frame: its own, or the internal one where it has none.
pub open spec fn output_rate(frame: FrameView) -> u32 {
    if frame.sample_rate > 0 {
        frame.sample_rate
    } else {
        INTERNAL_SAMPLERATE
    }
}

/// The number of channels of a frame, at least one.
pub open spec fn output_channels(frame: FrameView) -> u16 {
    if frame.channels > 1 {
        frame.channels
    } else {
        1
    }
}

impl AmbianceProcessor {
    /// Whether frames pass untouched.
    pub open spec fn inert(&self) -> bool {
        !self.enabled || self.samples@.len() == 0
    }

    /// Whether the server side speaks in a frame.
    pub open spec fn speaking(frame: FrameView) -> bool {
        match frame.samples {
            SamplesView::PCM { samples } => samples.len() > 0,
            SamplesView::RTP { .. } => true,
            SamplesView::Empty => false,
        }
    }

    /// The speech of a frame with the background sound under it.
    pub open spec fn mixed_pcm(&self, speech: Seq<i16>, rate: u32, channels: int, gain: i32) -> Seq<
        i16,
    > {
        Seq::new(
            speech.len(),
            |i: int|
                if i < (speech.len() / (channels as nat)) * channels {
                    soft_mixed(speech[i], self.ambient_at(rate, i / channels), gain)
                } else {
                    speech[i]
                },
        )
    }

    /// A 20 ms frame of background sound alone.
    pub open spec fn idle_pcm(&self, rate: u32, channels: int, gain: i32) -> Seq<i16> {
        Seq::new(
            (idle_frame_size(rate) * channels) as nat,
            |i: int| scaled(self.ambient_at(rate, i / channels), gain) as i32 as i16,
        )
    }

    /// The frame as the processor leaves it.
    pub open spec fn processed(&self, frame: FrameView, gain: i32) -> FrameView {
        let rate = output_rate(frame);
        let channels = output_channels(frame);
        if self.inert() {
            frame
        } else {
            match frame.samples {
                SamplesView::PCM { samples } => FrameView {
                    samples: SamplesView::PCM {
                        samples: self.mixed_pcm(samples, rate, channels as int, gain),
                    },
                    ..frame
                },
                SamplesView::Empty => FrameView {
                    samples: SamplesView::PCM {
                        samples: self.idle_pcm(rate, channels as int, gain),
                    },
                    sample_rate: rate,
                    channels: channels,
                    ..frame
                },
                SamplesView::RTP { .. } => frame,
            }
        }
    }

    /// How many background samples a frame draws.
    pub open spec fn draws(&self, frame: FrameView) -> int {
        match frame.samples {
            SamplesView::PCM { samples } => (samples.len() / (output_channels(frame) as nat)) as int,
            SamplesView::Empty => idle_frame_size(output_rate(frame)),
            SamplesView::RTP { .. } => 0,
        }
    }

    /// The level towards which a frame moves the background sound: the ducked
    /// one under speech, else the normal one. `None` where frames pass
    /// untouched.
    pub fn target_level(&self, frame: &AudioFrame) -> (r: Option<u32>)
        ensures
            r == if self.inert() {
                None::<u32>
            } else if Self::speaking(frame@) {
                Some(self.duck_level)
            } else {
                Some(self.normal_level)
            },
    {
        if !self.enabled || self.samples.len() == 0 {
            return None;
        }
        let speaking: bool = match &frame.samples {
            Samples::PCM { samples } => samples.len() > 0,
            Samples::RTP { .. } => true,
            Samples::Empty => false,
        };
        if speaking {
            Some(self.duck_level)
        } else {
            Some(self.normal_level)
        }
    }

    /// Mixes the background sound into speech.
    fn mix_pcm(&mut self, samples: &mut Vec<i16>, rate: u32, channels: usize, gain: i32)
        requires
            old(self).wf(),
            old(self).samples@.len() > 0,
            gain_fits(old(self).samples@, gain),
            rate > 0,
            channels > 0,
        ensures
            final(self).wf(),
            final(self).same_settings(old(self)),
            final(self).current_level == old(self).current_level,
            final(self).advanced(
                old(self),
                rate,
                (old(samples)@.len() / (channels as nat)) as int,
            ),
            final(samples)@ == old(self).mixed_pcm(old(samples)@, rate, channels as int, gain),
    {
        let ghost first = *self;
        let ghost speech = samples@;
        let ghost len = self.samples@.len() as int;
        let ghost goal = first.mixed_pcm(speech, rate, channels as int, gain);
        let count: usize = samples.len() / channels;
        let total: usize = samples.len();
        assert(count * channels <= total) by (nonlinear_arith)
            requires
                count == total / channels,
                channels > 0,
        ;
        assert(step_for(rate) >= 0) by (nonlinear_arith)
            requires
                rate > 0,
        ;
        let mut i: usize = 0;
        let mut at: usize = 0;
        assert(cursor_after(
            first.cursor as int,
            first.resample_phase as int,
            step_for(rate),
            0,
            len,
        ) == first.cursor) by {
            assert(0 * step_for(rate) == 0);
            vstd::arithmetic::div_mod::lemma_small_mod(first.cursor as nat, len as nat);
        }
        while i < count
            invariant
                0 <= i <= count,
                total == speech.len() == samples@.len() == goal.len(),
                count == speech.len() / (channels as nat),
                count * channels <= total,
                at == i * channels,
                channels > 0,
                rate > 0,
                step_for(rate) >= 0,
                len == first.samples@.len(),
                len > 0,
                first == *old(self),
                first.wf(),
                gain_fits(first.samples@, gain),
                self.wf(),
                self.same_settings(&first),
                self.current_level == first.current_level,
                self.advanced(&first, rate, i as int),
                goal == first.mixed_pcm(speech, rate, channels as int, gain),
                forall|j: int| 0 <= j < at ==> samples@[j] == goal[j],
                forall|j: int| at <= j < total ==> samples@[j] == speech[j],
            decreases count - i,
        {
            let ghost mid = *self;
            let ambient: i16 = self.get_ambient_sample_with_rate(rate);
            proof {
                lemma_one_more(
                    first.cursor as int,
                    first.resample_phase as int,
                    step_for(rate),
                    i as int,
                    len,
                );
                assert(ambient == first.ambient_at(rate, i as int));
                assert(i32::MIN <= first.samples@[mid.cursor as int] * gain <= i32::MAX);
                assert((i + 1) * channels == i * channels + channels) by (nonlinear_arith);
                assert((i + 1) * channels <= count * channels) by (nonlinear_arith)
                    requires
                        i + 1 <= count,
                        channels > 0,
                ;
            }
            let mut c: usize = 0;
            while c < channels
                invariant
                    0 <= c <= channels,
                    0 <= i < count,
                    at == i * channels + c,
                    i * channels + channels <= count * channels,
                    count * channels <= total,
                    total == speech.len() == samples@.len() == goal.len(),
                    count == speech.len() / (channels as nat),
                    i32::MIN <= ambient * gain <= i32::MAX,
                    ambient == first.ambient_at(rate, i as int),
                    goal == first.mixed_pcm(speech, rate, channels as int, gain),
                    forall|j: int| 0 <= j < at ==> samples@[j] == goal[j],
                    forall|j: int| at <= j < total ==> samples@[j] == speech[j],
                decreases channels - c,
            {
                let mixed: i16 = soft_mix(samples[at], ambient, gain);
                proof {
                    lemma_interleaved(i as int, c as int, channels as int);
                    assert(goal[at as int] == mixed);
                }
                samples.set(at, mixed);
                at = at + 1;
                c = c + 1;
            }
            i = i + 1;
        }
        assert(samples@ =~= goal);
    }

    /// A 20 ms frame of background sound alone.
    fn fill_idle(&mut self, rate: u32, channels: usize, gain: i32) -> (r: Vec<i16>)
        requires
            old(self).wf(),
            old(self).samples@.len() > 0,
            gain_fits(old(self).samples@, gain),
            rate > 0,
            channels > 0,
        ensures
            final(self).wf(),
            final(self).same_settings(old(self)),
            final(self).current_level == old(self).current_level,
            final(self).advanced(old(self), rate, idle_frame_size(rate)),
            r@ == old(self).idle_pcm(rate, channels as int, gain),
    {
        let ghost first = *self;
        let ghost len = self.samples@.len() as int;
        let ghost goal = first.idle_pcm(rate, channels as int, gain);
        let size: u64 = rate as u64 * 20 / 1000;
        let mut r: Vec<i16> = Vec::new();
        assert(step_for(rate) >= 0) by (nonlinear_arith)
            requires
                rate > 0,
        ;
        let mut i: u64 = 0;
        assert(cursor_after(
            first.cursor as int,
            first.resample_phase as int,
            step_for(rate),
            0,
            len,
        ) == first.cursor) by {
            assert(0 * step_for(rate) == 0);
            vstd::arithmetic::div_mod::lemma_small_mod(first.cursor as nat, len as nat);
        }
        assert(0 * channels == 0);
        while i < size
            invariant
                0 <= i <= size,
                size == idle_frame_size(rate),
                channels > 0,
                rate > 0,
                step_for(rate) >= 0,
                len == first.samples@.len(),
                len > 0,
                first == *old(self),
                first.wf(),
                gain_fits(first.samples@, gain),
                self.wf(),
                self.same_settings(&first),
                self.current_level == first.current_level,
                self.advanced(&first, rate, i as int),
                goal == first.idle_pcm(rate, channels as int, gain),
                r@.len() == i * channels,
                forall|j: int| 0 <= j < r@.len() ==> r@[j] == goal[j],
            decreases size - i,
        {
            let ghost mid = *self;
            let ambient: i16 = self.get_ambient_sample_with_rate(rate);
            proof {
                lemma_one_more(
                    first.cursor as int,
                    first.resample_phase as int,
                    step_for(rate),
                    i as int,
                    len,
                );
                assert(ambient == first.ambient_at(rate, i as int));
                assert(i32::MIN <= first.samples@[mid.cursor as int] * gain <= i32::MAX);
                assert((i + 1) * channels == i * channels + channels) by (nonlinear_arith);
                assert((i + 1) * channels <= size * channels) by (nonlinear_arith)
                    requires
                        i + 1 <= size,
                        channels > 0,
                ;
            }
            let product: i64 = ambient as i64 * gain as i64;
            let part: i32 = floor_shift8(product);
            let value: i16 = part as i16;
            let mut c: usize = 0;
            while c < channels
                invariant
                    0 <= c <= channels,
                    0 <= i < size,
                    size == idle_frame_size(rate),
                    r@.len() == i * channels + c,
                    i * channels + channels <= size * channels,
                    value == scaled(ambient, gain) as i32 as i16,
                    ambient == first.ambient_at(rate, i as int),
                    goal == first.idle_pcm(rate, channels as int, gain),
                    forall|j: int| 0 <= j < r@.len() ==> r@[j] == goal[j],
                decreases channels - c,
            {
                proof {
                    lemma_interleaved(i as int, c as int, channels as int);
                }
                r.push(value);
                c = c + 1;
            }
            i = i + 1;
        }
        assert(r@ =~= goal);
        r
    }

    /// Mixes the background sound at `gain`/256 into a frame with speech, or
    /// fills an empty frame with 20 ms of it. `level` is the level that the
    /// gain stands for. An RTP frame passes untouched.
    pub fn process_frame(&mut self, frame: &mut AudioFrame, level: u32, gain: i32)
        requires
            old(self).wf(),
            gain_fits(old(self).samples@, gain),
        ensures
            final(self).wf(),
            final(frame)@ == old(self).processed(old(frame)@, gain),
            old(self).inert() ==> *final(self) == *old(self),
            !old(self).inert() ==> {
                &&& final(self).same_settings(old(self))
                &&& final(self).current_level == level
                &&& final(self).advanced(
                    old(self),
                    output_rate(old(frame)@),
                    old(self).draws(old(frame)@),
                )
            },
    {
        if !self.enabled || self.samples.len() == 0 {
            return;
        }
        let ghost first = *self;
        let ghost before = frame@;
        self.current_level = level;
        let rate: u32 = if frame.sample_rate > 0 {
            frame.sample_rate
        } else {
            INTERNAL_SAMPLERATE
        };
        let channels: u16 = if frame.channels > 1 {
            frame.channels
        } else {
            1
        };
        let mut samples: Samples = Samples::Empty;
        std::mem::swap(&mut frame.samples, &mut samples);
        match samples {
            Samples::PCM { samples: mut speech } => {
                self.mix_pcm(&mut speech, rate, channels as usize, gain);
                frame.samples = Samples::PCM { samples: speech };
                assert(first.mixed_pcm(before.samples->PCM_samples, rate, channels as int, gain)
                    =~= (AmbianceProcessor { current_level: level, ..first }).mixed_pcm(
                    before.samples->PCM_samples,
                    rate,
                    channels as int,
                    gain,
                ));
            },
            Samples::Empty => {
                let filled: Vec<i16> = self.fill_idle(rate, channels as usize, gain);
                frame.samples = Samples::PCM { samples: filled };
                frame.sample_rate = rate;
                frame.channels = channels;
                assert(first.idle_pcm(rate, channels as int, gain) =~= (AmbianceProcessor {
                    current_level: level,
                    ..first
                }).idle_pcm(rate, channels as int, gain));
            },
            Samples::RTP { payload_type, payload, sequence_number } => {
                frame.samples = Samples::RTP { payload_type, payload, sequence_number };
                proof {
                    let len = self.samples@.len() as int;
                    assert(0 * step_for(rate) == 0);
                    vstd::arithmetic::div_mod::lemma_small_mod(self.cursor as nat, len as nat);
                }
            },
        }
        assert(frame@ =~= first.processed(before, gain));
    }
}

/// Drawing samples in two portions moves the playhead as drawing them in one
/// does: no sample of the loop is skipped or played twice between frames.
pub proof fn law_draws_join(cursor: int, phase: int, step: int, n: int, m: int, len: int)
    requires
        len > 0,
    ensures
        phase_after(phase_after(phase, step, n), step, m) == phase_after(phase, step, n + m),
        cursor_after(
            cursor_after(cursor, phase, step, n, len),
            phase_after(phase, step, n),
            step,
            m,
            len,
        ) == cursor_after(cursor, phase, step, n + m, len),
{
    assert((n + m) * step == n * step + m * step) by (nonlinear_arith);
    let a = phase + n * step;
    let b = m * step;
    assert((a + b) % 65536 == (a % 65536 + b) % 65536);
    assert((a + b) / 65536 == a / 65536 + (a % 65536 + b) / 65536);
    let x = cursor + a / 65536;
    let y = (a % 65536 + b) / 65536;
    vstd::arithmetic::div_mod::lemma_add_mod_noop_right(y, x, len);
    assert((y + x % len) % len == (y + x) % len);
}

/// A setting that is there wins over another; one that is not takes the other.
pub proof fn law_own_setting_wins<T>(value: T, fallback: Option<T>)
    ensures
        or_else(Some(value), fallback) == Some(value),
        or_else(None, fallback) == fallback,
{
}

/// The playhead steps by the ratio of the loop's rate to the output rate, in parts
/// of 65536, rounded down.
pub proof fn law_step_is_the_ratio(rate: u32)
    requires
        rate > 0,
    ensures
        step_for(rate) * rate <= 16000 * 65536 < (step_for(rate) + 1) * rate,
{
    let wide: int = 16000int * 65536;
    let r = rate as int;
    vstd::arithmetic::div_mod::lemma_fundamental_div_mod(wide, r);
    assert((wide / r) * r == r * (wide / r)) by (nonlinear_arith);
    assert((wide / r + 1) * r == (wide / r) * r + r) by (nonlinear_arith);
}

/// At an output rate that fits a whole number of times into that of the loop, the
/// loop is played at its own pitch: each draw goes that many samples on, and at the
/// end of the loop it goes on at its start.
#[verifier::spinoff_prover]
pub proof fn law_loop_keeps_its_pitch(p: AmbianceProcessor, rate: u32, times: int, k: int)
    requires
        p.wf(),
        p.samples@.len() > 0,
        rate > 0,
        rate * times == 16000,
        k >= 0,
    ensures
        p.ambient_at(rate, k) == p.samples@[(p.cursor + k * times) % (p.samples@.len() as int)],
{
    let r = rate as int;
    assert(16000 * 65536 == (times * 65536) * r) by (nonlinear_arith)
        requires
            r * times == 16000,
    ;
    vstd::arithmetic::div_mod::lemma_div_multiples_vanish(times * 65536, r);
    assert((times * 65536) * r == r * (times * 65536)) by (nonlinear_arith);
    assert(step_for(rate) == times * 65536);
    assert(k * (times * 65536) == (k * times) * 65536) by (nonlinear_arith);
    assert((p.resample_phase + (k * times) * 65536) / 65536 == k * times);
}

/// At the loop's own rate and at full gain, silence comes out as the loop itself,
/// from the playhead on, on every channel alike; and so does an empty frame.
#[verifier::spinoff_prover]
pub proof fn law_loop_is_heard(
    p: AmbianceProcessor,
    silence: Seq<i16>,
    channels: int,
    i: int,
)
    requires
        p.wf(),
        p.samples@.len() > 0,
        channels > 0,
        forall|j: int| 0 <= j < silence.len() ==> #[trigger] silence[j] == 0,
        silence.len() as int % channels == 0,
        0 <= i,
    ensures
        ({
            let len = p.samples@.len() as int;
            let mixed = p.mixed_pcm(silence, 16000, channels, 256);
            let idle = p.idle_pcm(16000, channels, 256);
            &&& mixed.len() == silence.len()
            &&& i < mixed.len() ==> mixed[i] == p.samples@[(p.cursor + i / channels) % len]
            &&& idle.len() == 320 * channels
            &&& i < idle.len() ==> idle[i] == p.samples@[(p.cursor + i / channels) % len]
        }),
{
    let k = i / channels;
    assert(0 <= k) by (nonlinear_arith)
        requires
            0 <= i,
            channels > 0,
            k == i / channels,
    ;
    law_loop_keeps_its_pitch(p, 16000, 1, k);
    assert(k * 1 == k);
    let heard = p.ambient_at(16000, k);
    assert((heard * 256) / 256 == heard as int);
    assert(0 <= 320 * channels) by (nonlinear_arith)
        requires
            channels > 0,
    ;
    let n = silence.len() as int;
    vstd::arithmetic::div_mod::lemma_fundamental_div_mod(n, channels);
    assert((n / channels) * channels == n) by (nonlinear_arith)
        requires
            n == channels * (n / channels) + n % channels,
            n % channels == 0,
    ;
}

/// However often it is drawn from the loop, the playhead stands on it: what comes
/// is a sample of the loop.
pub proof fn law_playhead_stays_on_the_loop(p: AmbianceProcessor, rate: u32, k: int)
    requires
        p.samples@.len() > 0,
    ensures
        p.samples@.contains(p.ambient_at(rate, k)),
{
    let at = cursor_after(
        p.cursor as int,
        p.resample_phase as int,
        step_for(rate),
        k,
        p.samples@.len() as int,
    );
    vstd::arithmetic::div_mod::lemma_mod_bound(
        p.cursor + (p.resample_phase + k * step_for(rate)) / 65536,
        p.samples@.len() as int,
    );
    assert(p.samples@[at] == p.ambient_at(rate, k));
}

/// Sample by sample: in a mixed frame, what stands on any channel of the `k`-th
/// group is the speech there, mixed with the sample under the playhead after `k`
/// draws. In an empty frame that sample stands there alone, at its gain.
#[verifier::spinoff_prover]
pub proof fn law_each_group_takes_one_draw(
    p: AmbianceProcessor,
    at: AmbianceProcessor,
    speech: Seq<i16>,
    rate: u32,
    channels: int,
    gain: i32,
    k: int,
    c: int,
)
    requires
        p.wf(),
        p.samples@.len() > 0,
        rate > 0,
        channels > 0,
        0 <= k,
        0 <= c < channels,
        at.advanced(&p, rate, k),
        at.samples@ == p.samples@,
    ensures
        (k + 1) * channels <= speech.len() ==> p.mixed_pcm(speech, rate, channels, gain)[k
            * channels + c] == soft_mixed(
            speech[k * channels + c],
            at.samples@[at.cursor as int],
            gain,
        ),
        k < rate * 20 / 1000 && 0 <= gain <= 256 ==> p.idle_pcm(rate, channels, gain)[k * channels
            + c] == scaled(at.samples@[at.cursor as int], gain),
{
    lemma_interleaved(k, c, channels);
    let i = k * channels + c;
    assert((k + 1) * channels == k * channels + channels) by (nonlinear_arith);
    assert(0 <= k * channels) by (nonlinear_arith)
        requires
            0 <= k,
            0 < channels,
    ;
    if (k + 1) * channels <= speech.len() {
        let groups = speech.len() as int / channels;
        assert(k < groups && i < groups * channels) by (nonlinear_arith)
            requires
                groups == speech.len() as int / channels,
                (k + 1) * channels <= speech.len(),
                channels > 0,
                i == k * channels + c,
                c < channels,
        ;
        assert((speech.len() / (channels as nat)) * channels == groups * channels);
    }
    let size = idle_frame_size(rate);
    if k < size {
        assert((k + 1) * channels <= size * channels) by (nonlinear_arith)
            requires
                k + 1 <= size,
                0 < channels,
        ;
        let heard = at.samples@[at.cursor as int];
        if 0 <= gain <= 256 {
            assert(-8388608 <= heard * gain <= 8388352) by (nonlinear_arith)
                requires
                    -32768 <= heard <= 32767,
                    0 <= gain <= 256,
            ;
            assert(-32768 <= scaled(heard, gain) <= 32767);
        }
    }
}

/// A frame that comes in two parts is mixed as if it came in one: the second part
/// goes on where the first left the playhead.
#[verifier::spinoff_prover]
pub proof fn law_mix_joins(
    p: AmbianceProcessor,
    later: AmbianceProcessor,
    a: Seq<i16>,
    b: Seq<i16>,
    rate: u32,
    channels: int,
    groups: int,
    gain: i32,
)
    requires
        p.wf(),
        p.samples@.len() > 0,
        rate > 0,
        channels > 0,
        groups >= 0,
        a.len() == groups * channels,
        later.samples@ == p.samples@,
        later.advanced(&p, rate, groups),
    ensures
        p.mixed_pcm(a + b, rate, channels, gain) == p.mixed_pcm(a, rate, channels, gain)
            + later.mixed_pcm(b, rate, channels, gain),
{
    let whole = a + b;
    let an = a.len() as int;
    let bn = b.len() as int;
    let ch = channels;
    assert(an / ch == groups) by {
        vstd::arithmetic::div_mod::lemma_div_multiples_vanish(groups, ch);
        assert(groups * ch == ch * groups) by (nonlinear_arith);
    }
    vstd::arithmetic::div_mod::lemma_div_plus_one(bn, ch);
    assert((an + bn) / ch == groups + bn / ch) by {
        vstd::arithmetic::div_mod::lemma_hoist_over_denominator(bn, groups, ch as nat);
    }
    assert(((an + bn) / ch) * ch == an + (bn / ch) * ch) by (nonlinear_arith)
        requires
            (an + bn) / ch == groups + bn / ch,
            an == groups * ch,
    ;
    assert(bn / ch >= 0 && (bn / ch) * ch >= 0) by (nonlinear_arith)
        requires
            bn >= 0,
            ch > 0,
    ;
    let left = p.mixed_pcm(whole, rate, ch, gain);
    let right = p.mixed_pcm(a, rate, ch, gain) + later.mixed_pcm(b, rate, ch, gain);
    assert forall|i: int| 0 <= i < whole.len() implies left[i] == right[i] by {
        assert((a.len() / (ch as nat)) * ch == an);
        assert((b.len() / (ch as nat)) * ch == (bn / ch) * ch);
        assert((whole.len() / (ch as nat)) * ch == an + (bn / ch) * ch);
        if i >= an {
            let j = i - an;
            assert(i / ch == groups + j / ch) by {
                vstd::arithmetic::div_mod::lemma_hoist_over_denominator(j, groups, ch as nat);
            }
            law_draws_join(
                p.cursor as int,
                p.resample_phase as int,
                step_for(rate),
                groups,
                j / ch,
                p.samples@.len() as int,
            );
            assert(whole[i] == b[j]);
        } else {
            assert(whole[i] == a[i]);
        }
    }
    assert(left =~= right);
}

/// What a mix leaves alone: the number of samples, and those behind the last whole
/// group.
pub proof fn law_odd_samples_pass(
    p: AmbianceProcessor,
    speech: Seq<i16>,
    rate: u32,
    channels: int,
    gain: i32,
    i: int,
)
    requires
        channels > 0,
        0 <= i < speech.len(),
        speech.len() - i <= speech.len() as int % channels,
    ensures
        p.mixed_pcm(speech, rate, channels, gain).len() == speech.len(),
        p.mixed_pcm(speech, rate, channels, gain)[i] == speech[i],
{
    let n = speech.len() as int;
    vstd::arithmetic::div_mod::lemma_fundamental_div_mod(n, channels);
    assert((n / channels) * channels == channels * (n / channels)) by (nonlinear_arith);
    assert((speech.len() / (channels as nat)) * channels == (n / channels) * channels);
}

/// A scaled sample is its product with the gain in parts of 256, rounded down: at
/// gain 256 it is the sample itself.
pub proof fn law_scale_is_the_gain(ambient: i16, gain: i32)
    ensures
        scaled(ambient, gain) * 256 <= ambient * gain < (scaled(ambient, gain) + 1) * 256,
        gain == 256 ==> scaled(ambient, gain) == ambient,
{
}

/// Whatever the gain: a sum that fits comes out as it is, and one that does not is
/// taken back from the limit by a quarter of what goes over it, as long as that
/// stays in the range.
pub proof fn law_mix_is_the_sum(signal: i16, ambient: i16, gain: i32)
    ensures
        ({
            let sum = signal + scaled(ambient, gain);
            let out = soft_mixed(signal, ambient, gain);
            &&& -32768 <= sum <= 32767 ==> out == sum
            &&& 32767 < sum <= 32767 + 4 * 65535 ==> 4 * (32767 - out) <= sum - 32767 < 4 * (32767
                - out) + 4
            &&& -32768 - 4 * 65535 <= sum < -32768 ==> 4 * (out + 32768) <= -32768 - sum < 4 * (out
                + 32768) + 4
        }),
{
}

/// Under a background sound a frame stays the frame that it was: name, time,
/// packet and speech probability are kept. A frame with samples keeps their
/// number, its rate and its channels; one with a packet is kept whole; and so is
/// every frame where the sound is off or the loop is empty.
pub proof fn law_frame_stays_itself(p: AmbianceProcessor, frame: FrameView, gain: i32)
    ensures
        ({
            let after = p.processed(frame, gain);
            &&& after.track_id == frame.track_id && after.timestamp == frame.timestamp
            &&& after.src_packet == frame.src_packet
            &&& after.speech_probability == frame.speech_probability
            &&& !p.enabled || p.samples@.len() == 0 ==> after == frame
            &&& frame.samples is RTP ==> after == frame
            &&& frame.samples matches SamplesView::PCM { samples } ==> {
                &&& after.sample_rate == frame.sample_rate && after.channels == frame.channels
                &&& after.samples matches SamplesView::PCM { samples: mixed }
                &&& mixed.len() == samples.len()
            }
        }),
{
}

/// Speech is mixed at the rate of its frame, and group by group of its channels;
/// a frame without a rate counts as one at the internal rate, one without
/// channels as mono.
pub proof fn law_speech_is_mixed_at_its_rate(
    p: AmbianceProcessor,
    frame: FrameView,
    speech: Seq<i16>,
    gain: i32,
)
    requires
        p.enabled,
        p.samples@.len() > 0,
        frame.samples == (SamplesView::PCM { samples: speech }),
    ensures
        ({
            let rate = if frame.sample_rate == 0 {
                16000u32
            } else {
                frame.sample_rate
            };
            let channels = if frame.channels == 0 {
                1int
            } else {
                frame.channels as int
            };
            &&& p.processed(frame, gain).samples == (SamplesView::PCM {
                samples: p.mixed_pcm(speech, rate, channels, gain),
            })
            &&& p.draws(frame) == speech.len() as int / channels
        }),
{
}

/// An empty frame is filled with twenty milliseconds of the background sound, at
/// the rate and with the channels that it has, and then carries both.
pub proof fn law_empty_frame_is_filled(p: AmbianceProcessor, frame: FrameView, gain: i32)
    requires
        p.enabled,
        p.samples@.len() > 0,
        frame.samples is Empty,
    ensures
        ({
            let rate = if frame.sample_rate == 0 {
                16000u32
            } else {
                frame.sample_rate
            };
            let channels = if frame.channels == 0 {
                1u16
            } else {
                frame.channels
            };
            let after = p.processed(frame, gain);
            &&& after.sample_rate == rate && after.channels == channels
            &&& after.samples matches SamplesView::PCM { samples: idle }
            &&& idle == p.idle_pcm(rate, channels as int, gain)
            &&& idle.len() == p.draws(frame) * channels
            &&& p.draws(frame) * 1000 <= rate * 20 < (p.draws(frame) + 1) * 1000
        }),
{
    let size = idle_frame_size(output_rate(frame));
    let channels = output_channels(frame) as int;
    assert(0 <= size * channels) by (nonlinear_arith)
        requires
            0 <= size,
            0 < channels,
    ;
}

/// Whoever is heard in a frame is taken for speaking: decoded samples, or a packet
/// that is still to be decoded. A packet draws nothing of the background sound.
pub proof fn law_speech_is_noticed(p: AmbianceProcessor, frame: FrameView)
    ensures
        frame.samples matches SamplesView::PCM { samples } ==> (AmbianceProcessor::speaking(frame)
            <==> samples.len() != 0),
        frame.samples is RTP ==> AmbianceProcessor::speaking(frame) && p.draws(frame) == 0,
        frame.samples is Empty ==> !AmbianceProcessor::speaking(frame),
        p.inert() <==> (p.enabled ==> p.samples@.len() == 0),
{
}

/// Gains of up to 256 times the full one fit whatever the loop holds.
pub proof fn law_usual_gains_fit(samples: Seq<i16>, gain: i32)
    requires
        -65535 <= gain <= 65535,
    ensures
        gain_fits(samples, gain),
{
    assert forall|i: int| 0 <= i < samples.len() implies i32::MIN <= #[trigger] samples[i] * gain
        <= i32::MAX by {
        let s = samples[i];
        assert(-2147483648 <= s * gain <= 2147483647) by (nonlinear_arith)
            requires
                -32768 <= s <= 32767,
                -65535 <= gain <= 65535,
        ;
    }
}

/// Whoever has the same settings plays the same loop at the same levels, at the same
/// speed and just as much; and after a draw the playhead steps by the ratio of the
/// rates.
pub proof fn law_same_settings_play_alike(
    a: AmbianceProcessor,
    b: AmbianceProcessor,
    rate: u32,
    n: int,
)
    ensures
        a.same_settings(&b) ==> {
            &&& a.samples@ == b.samples@ && a.enabled == b.enabled
            &&& a.duck_level == b.duck_level && a.normal_level == b.normal_level
            &&& a.transition_speed == b.transition_speed
        },
        a.advanced(&b, rate, n) && n > 0 ==> a.resample_step == step_for(rate),
{
}

}
