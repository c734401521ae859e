//! The expansion audio chip: a 128-byte register file shared between bus
//! I/O and synthesis, eight wavetable channels that derive their state from
//! fixed 8-byte slots in that file, and a round-robin scheduler that updates
//! exactly one channel per completed countdown.

use vstd::arithmetic::div_mod::{
    lemma_div_denominator, lemma_fundamental_div_mod, lemma_mod_bound, lemma_mod_self_0,
    lemma_small_mod,
};
use vstd::prelude::*;

use crate::ring_buffer::{rv_pushed, RingBuffer, RingView};

verus! {

/// Offsets of a channel's registers within its 8-byte slot.
pub const AUDIO_FREQ_LOW: usize = 0;
pub const AUDIO_PHASE_LOW: usize = 1;
pub const AUDIO_FREQ_MID: usize = 2;
pub const AUDIO_PHASE_MID: usize = 3;
pub const AUDIO_FREQ_HIGH: usize = 4;
pub const AUDIO_WAVE_LENGTH: usize = 4;
pub const AUDIO_PHASE_HIGH: usize = 5;
pub const AUDIO_WAVE_ADDRESS: usize = 6;
pub const AUDIO_VOLUME: usize = 7;

/// The fixed processor clock rate used for the estimated-frequency readout.
pub const NTSC_CLOCK_RATE: u64 = 1_789_773;

/// Capacity of each channel's inspection sample ring.
pub const CHANNEL_RING_LENGTH: usize = 32768;

/// The register file is a fixed 128-byte array.
pub open spec fn audio_ram_wf(ram: Seq<u8>) -> bool {
    ram.len() == 0x80
}

/// Channel slots start at 0x40 and are 8 bytes apart; the last begins at
/// 0x78.
pub open spec fn valid_channel_base(base: int) -> bool {
    &&& 0x40 <= base <= 0x78
    &&& (base - 0x40) % 8 == 0
}

/// The 18-bit phase accumulator of the slot at `base` (the high byte is
/// stored whole, so the raw value can span 24 bits).
pub open spec fn phase_at(ram: Seq<u8>, base: int) -> int {
    ram[base + 5] * 0x10000 + ram[base + 3] * 0x100 + ram[base + 1]
}

/// The 18-bit frequency of the slot at `base`: low 8, mid 8, high 2 bits.
pub open spec fn frequency_at(ram: Seq<u8>, base: int) -> int {
    (ram[base + 4] & 0x03) * 0x10000 + ram[base + 2] * 0x100 + ram[base]
}

/// The wavetable length of the slot at `base`: always in [4, 256], a
/// multiple of 4.
pub open spec fn length_at(ram: Seq<u8>, base: int) -> int {
    256 - (ram[base + 4] & 0xFC)
}

/// The wavetable base address of the slot at `base`.
pub open spec fn wave_address_at(ram: Seq<u8>, base: int) -> int {
    ram[base + 6] as int
}

/// The 4-bit volume of the slot at `base`.
pub open spec fn volume_at(ram: Seq<u8>, base: int) -> int {
    (ram[base + 7] & 0x0F) as int
}

/// The 4-bit wave sample at `index`: two samples per byte, even indices in
/// the low nibble, odd indices in the high nibble. Wave data and channel
/// registers share the file and may overlap.
pub open spec fn sample_at(ram: Seq<u8>, index: int) -> int {
    if index % 2 == 0 {
        (ram[index / 2] & 0x0F) as int
    } else {
        ((ram[index / 2] & 0xF0) >> 4) as int
    }
}

/// How many channels are active: 1 + bits 4-6 of the global byte at 0x7F,
/// always in [1, 8].
pub open spec fn enabled_count(ram: Seq<u8>) -> int {
    1 + ((ram[0x7F] >> 4) & 0x07)
}

/// The register file with the phase accumulator of the slot at `base` set
/// to `phase` (low, mid and high bytes written back).
pub open spec fn store_phase(ram: Seq<u8>, base: int, phase: int) -> Seq<u8> {
    ram.update(base + 1, (phase % 0x100) as u8)
        .update(base + 3, ((phase / 0x100) % 0x100) as u8)
        .update(base + 5, ((phase / 0x10000) % 0x100) as u8)
}

/// The phase after one synthesis step: advance by the frequency, wrapping at
/// `length << 16`.
pub open spec fn updated_phase(ram: Seq<u8>, base: int) -> int {
    (phase_at(ram, base) + frequency_at(ram, base)) % (length_at(ram, base) * 0x10000)
}

/// The register file after one synthesis step of the slot at `base`.
pub open spec fn ram_after_update(ram: Seq<u8>, base: int) -> Seq<u8> {
    store_phase(ram, base, updated_phase(ram, base))
}

/// The wavetable index sampled after one synthesis step.
pub open spec fn updated_sample_index(ram: Seq<u8>, base: int) -> int {
    (wave_address_at(ram, base) + updated_phase(ram, base) / 0x10000) % 0x100
}

/// The output after one synthesis step: the unsigned nibble biased so that 8
/// is the center, scaled by the 4-bit volume. The sample is fetched from the
/// file as it stands after the phase write-back.
pub open spec fn updated_output(ram: Seq<u8>, base: int) -> int {
    (sample_at(ram_after_update(ram, base), updated_sample_index(ram, base)) - 8) * volume_at(ram, base)
}

/// Numerator of the estimated continuous frequency, kept as an exact
/// rational: `clock_rate * frequency`.
pub open spec fn rate_num_of(ram: Seq<u8>, base: int) -> int {
    NTSC_CLOCK_RATE * frequency_at(ram, base)
}

/// Denominator of the estimated continuous frequency:
/// `15 * 65536 * length * enabled_channel_count`.
pub open spec fn rate_den_of(ram: Seq<u8>, base: int) -> int {
    15 * 0x10000 * length_at(ram, base) * enabled_count(ram)
}

proof fn lemma_nibbles(b: u8)
    by (bit_vector)
    ensures
        (b & 0x0F) <= 15,
        ((b & 0xF0) >> 4) <= 15,
        (b & 0x03) <= 3,
        (b & 0xFC) <= 252,
        (b & 0xFC) % 4 == 0,
        ((b >> 4) & 0x07) <= 7,
        ((b & 0x70) >> 4) == ((b >> 4) & 0x07),
        (b & 0x01) == b % 2,
{
}

proof fn lemma_pack24(hi: u8, mid: u8, lo: u8)
    by (bit_vector)
    ensures
        ((hi as u32) << 16) | (((mid as u32) << 8) | (lo as u32)) == (hi as int) * 0x10000 + (mid as int)
            * 0x100 + (lo as int),
{
}

proof fn lemma_unpack24(p: u32)
    by (bit_vector)
    requires
        p < 0x1000000,
    ensures
        (p & 0xFF) == p % 0x100,
        ((p & 0xFF00) >> 8) == (p / 0x100) % 0x100,
        ((p & 0xFF0000) >> 16) == (p / 0x10000) % 0x100,
{
}

proof fn lemma_u32_low_byte(x: u32)
    by (bit_vector)
    ensures
        (x & 0xFF) == x % 0x100,
        (x >> 16) == x / 0x10000,
{
}

proof fn lemma_shl16(l: u32)
    by (bit_vector)
    requires
        l <= 256,
    ensures
        (l << 16) == (l as int) * 0x10000,
{
}

/// Abstract value of one audio channel.
#[verifier::ext_equal]
pub ghost struct ChannelView {
    /// Inspection-only mute: suppresses the chip's mixed output, never the
    /// simulation.
    pub muted: bool,
    /// The slot this channel is permanently bound to.
    pub base: int,
    /// The last computed output sample.
    pub output: int,
    /// Estimated continuous frequency, as an exact rational.
    pub rate_num: int,
    pub rate_den: int,
    /// The volume captured at the last synthesis step.
    pub tracked_volume: int,
    /// The inspection sample ring.
    pub samples: RingView,
}

impl ChannelView {
    pub open spec fn wf(self) -> bool {
        &&& valid_channel_base(self.base)
        &&& self.rate_den > 0
        &&& -120 <= self.output <= 105
        &&& self.samples.wf()
    }
}

/// One wavetable channel: all numeric state lives in the shared register
/// file; the channel itself caches only its last output and the inspection
/// readouts.
pub struct Namco163AudioChannel {
    pub debug_disable: bool,
    pub channel_address: usize,
    pub current_output: i16,
    pub tracked_frequency_num: u64,
    pub tracked_frequency_den: u64,
    pub tracked_volume: u8,
    pub output_buffer: RingBuffer,
}

impl View for Namco163AudioChannel {
    type V = ChannelView;

    open spec fn view(&self) -> ChannelView {
        ChannelView {
            muted: self.debug_disable,
            base: self.channel_address as int,
            output: self.current_output as int,
            rate_num: self.tracked_frequency_num as int,
            rate_den: self.tracked_frequency_den as int,
            tracked_volume: self.tracked_volume as int,
            samples: self.output_buffer@,
        }
    }
}

/// Fetches the 4-bit nibble-packed sample at `sample_index` from the
/// register file.
pub fn audio_sample(audio_ram: &Vec<u8>, sample_index: u8) -> (r: u8)
    requires
        audio_ram_wf(audio_ram@),
    ensures
        r == sample_at(audio_ram@, sample_index as int),
        r <= 15,
{
    let byte_index = (sample_index / 2) as usize;
    let sample_byte = audio_ram[byte_index];
    proof {
        lemma_nibbles(sample_byte);
        lemma_nibbles(sample_index);
    }
    if sample_index & 0x1 == 0 {
        sample_byte & 0x0F
    } else {
        (sample_byte & 0xF0) >> 4
    }
}

/// Reads the count of active channels from the global byte at 0x7F.
pub fn enabled_channels_of(audio_ram: &Vec<u8>) -> (r: u8)
    requires
        audio_ram_wf(audio_ram@),
    ensures
        r == enabled_count(audio_ram@),
        1 <= r <= 8,
{
    let b = audio_ram[0x7F];
    proof {
        lemma_nibbles(b);
    }
    1 + ((b & 0x70) >> 4)
}

impl Namco163AudioChannel {
    pub open spec fn wf(&self) -> bool {
        self@.wf()
    }

    /// A channel bound permanently to the slot at `channel_address`, with
    /// everything else quiet.
    pub fn new(channel_address: usize) -> (r: Namco163AudioChannel)
        requires
            valid_channel_base(channel_address as int),
        ensures
            r.wf(),
            r@.muted == false,
            r@.base == channel_address as int,
            r@.output == 0,
            r@.rate_num == 0,
            r@.rate_den == 1,
            r@.tracked_volume == 0,
            r@.samples.data.len() == CHANNEL_RING_LENGTH,
            r@.samples.index == 0,
    {
        Namco163AudioChannel {
            debug_disable: false,
            channel_address,
            current_output: 0,
            tracked_frequency_num: 0,
            tracked_frequency_den: 1,
            tracked_volume: 0,
            output_buffer: RingBuffer::new(CHANNEL_RING_LENGTH),
        }
    }

    /// The raw 18-bit phase accumulator read from this channel's slot.
    pub fn phase(&self, audio_ram: &Vec<u8>) -> (r: u32)
        requires
            audio_ram_wf(audio_ram@),
            valid_channel_base(self.channel_address as int),
        ensures
            r == phase_at(audio_ram@, self.channel_address as int),
            r < 0x1000000,
    {
        let phase_low = audio_ram[self.channel_address + AUDIO_PHASE_LOW] as u32;
        let phase_mid = audio_ram[self.channel_address + AUDIO_PHASE_MID] as u32;
        let phase_high = audio_ram[self.channel_address + AUDIO_PHASE_HIGH] as u32;
        proof {
            lemma_pack24(
                audio_ram@[self.channel_address + 5],
                audio_ram@[self.channel_address + 3],
                audio_ram@[self.channel_address + 1],
            );
        }
        (phase_high << 16) | ((phase_mid << 8) | phase_low)
    }

    /// Writes a phase value back into this channel's slot, three bytes.
    pub fn write_phase(&self, audio_ram: &mut Vec<u8>, phase: u32)
        requires
            audio_ram_wf(old(audio_ram)@),
            valid_channel_base(self.channel_address as int),
            phase < 0x1000000,
        ensures
            final(audio_ram)@ == store_phase(old(audio_ram)@, self.channel_address as int, phase as int),
    {
        proof {
            lemma_unpack24(phase);
        }
        let phase_low = (phase & 0xFF) as u8;
        let phase_mid = ((phase & 0xFF00) >> 8) as u8;
        let phase_high = ((phase & 0xFF0000) >> 16) as u8;
        audio_ram.set(self.channel_address + AUDIO_PHASE_LOW, phase_low);
        audio_ram.set(self.channel_address + AUDIO_PHASE_MID, phase_mid);
        audio_ram.set(self.channel_address + AUDIO_PHASE_HIGH, phase_high);
    }

    /// The 18-bit frequency read from this channel's slot.
    pub fn frequency(&self, audio_ram: &Vec<u8>) -> (r: u32)
        requires
            audio_ram_wf(audio_ram@),
            valid_channel_base(self.channel_address as int),
        ensures
            r == frequency_at(audio_ram@, self.channel_address as int),
            r < 0x40000,
    {
        let freq_low = audio_ram[self.channel_address + AUDIO_FREQ_LOW] as u32;
        let freq_mid = audio_ram[self.channel_address + AUDIO_FREQ_MID] as u32;
        let freq_high = (audio_ram[self.channel_address + AUDIO_FREQ_HIGH] & 0b0000_0011) as u32;
        proof {
            lemma_nibbles(audio_ram@[self.channel_address + 4]);
            lemma_pack24(
                audio_ram@[self.channel_address + 4] & 0x03,
                audio_ram@[self.channel_address + 2],
                audio_ram@[self.channel_address as int],
            );
        }
        (freq_high << 16) | ((freq_mid << 8) | freq_low)
    }

    /// The wavetable length read from this channel's slot.
    pub fn length(&self, audio_ram: &Vec<u8>) -> (r: u32)
        requires
            audio_ram_wf(audio_ram@),
            valid_channel_base(self.channel_address as int),
        ensures
            r == length_at(audio_ram@, self.channel_address as int),
            4 <= r <= 256,
            r % 4 == 0,
    {
        let length_byte = (audio_ram[self.channel_address + AUDIO_WAVE_LENGTH] & 0b1111_1100) as u32;
        proof {
            lemma_nibbles(audio_ram@[self.channel_address + 4]);
        }
        256 - length_byte
    }

    /// The wavetable base address read from this channel's slot.
    pub fn wave_address(&self, audio_ram: &Vec<u8>) -> (r: u8)
        requires
            audio_ram_wf(audio_ram@),
            valid_channel_base(self.channel_address as int),
        ensures
            r == wave_address_at(audio_ram@, self.channel_address as int),
    {
        audio_ram[self.channel_address + AUDIO_WAVE_ADDRESS]
    }

    /// The 4-bit volume read from this channel's slot.
    pub fn volume(&self, audio_ram: &Vec<u8>) -> (r: u8)
        requires
            audio_ram_wf(audio_ram@),
            valid_channel_base(self.channel_address as int),
        ensures
            r == volume_at(audio_ram@, self.channel_address as int),
            r <= 15,
    {
        let b = audio_ram[self.channel_address + AUDIO_VOLUME];
        proof {
            lemma_nibbles(b);
        }
        b & 0x0F
    }

    /// One synthesis step: advance the phase accumulator (wrapping at
    /// `length << 16`), write it back, fetch the addressed wave sample from
    /// the file as written, and cache the biased, volume-scaled output along
    /// with the inspection readouts.
    pub fn update(&mut self, audio_ram: &mut Vec<u8>)
        requires
            audio_ram_wf(old(audio_ram)@),
            old(self).wf(),
        ensures
            final(self).wf(),
            final(audio_ram)@ == ram_after_update(old(audio_ram)@, old(self)@.base),
            final(self)@ == (ChannelView {
                output: updated_output(old(audio_ram)@, old(self)@.base),
                rate_num: rate_num_of(old(audio_ram)@, old(self)@.base),
                rate_den: rate_den_of(old(audio_ram)@, old(self)@.base),
                tracked_volume: volume_at(old(audio_ram)@, old(self)@.base),
                ..old(self)@
            }),
    {
        let ghost base = self.channel_address as int;
        let current_phase = self.phase(audio_ram);
        let frequency = self.frequency(audio_ram);
        let length = self.length(audio_ram);
        let sample_address = self.wave_address(audio_ram) as u32;
        let volume = self.volume(audio_ram);

        proof {
            lemma_shl16(length);
        }
        let window = length << 16;
        let new_phase = (current_phase + frequency) % window;
        assert(new_phase as int == updated_phase(old(audio_ram)@, base));
        self.write_phase(audio_ram, new_phase);

        proof {
            lemma_u32_low_byte(new_phase);
            lemma_u32_low_byte((sample_address + (new_phase >> 16)) as u32);
        }
        let sample_index = (sample_address + (new_phase >> 16)) & 0xFF;
        assert(sample_index as int == updated_sample_index(old(audio_ram)@, base));
        let sample = audio_sample(audio_ram, sample_index as u8);

        let s16 = sample as i16;
        let v16 = volume as i16;
        assert(-120 <= (s16 - 8) * v16 <= 105) by (nonlinear_arith)
            requires
                0 <= s16 <= 15,
                0 <= v16 <= 15,
        ;
        self.current_output = (s16 - 8) * v16;

        let enabled = enabled_channels_of(audio_ram);
        assert(enabled_count(audio_ram@) == enabled_count(old(audio_ram)@));
        let f64v = frequency as u64;
        assert(NTSC_CLOCK_RATE * f64v <= NTSC_CLOCK_RATE * 0x40000) by (nonlinear_arith)
            requires
                f64v < 0x40000,
        ;
        self.tracked_frequency_num = NTSC_CLOCK_RATE * f64v;
        let l64 = length as u64;
        let e64 = enabled as u64;
        assert(983040 * l64 <= 251658240 && 0 < 983040 * l64 * e64 <= 2013265920) by (nonlinear_arith)
            requires
                4 <= l64 <= 256,
                1 <= e64 <= 8,
        ;
        self.tracked_frequency_den = 15u64 * 65536u64 * l64 * e64;
        self.tracked_volume = volume;
    }

    /// The channel's display name, "WAVE 1" through "WAVE 8" by slot.
    pub fn name(&self) -> (r: String)
        requires
            valid_channel_base(self.channel_address as int),
        ensures
            r@ == name_of_base(self.channel_address as int),
    {
        let n = (self.channel_address - 0x40) / 8 + 1;
        match n {
            1 => "WAVE 1".to_owned(),
            2 => "WAVE 2".to_owned(),
            3 => "WAVE 3".to_owned(),
            4 => "WAVE 4".to_owned(),
            5 => "WAVE 5".to_owned(),
            6 => "WAVE 6".to_owned(),
            7 => "WAVE 7".to_owned(),
            _ => "WAVE 8".to_owned(),
        }
    }

    /// The owning chip's display name.
    pub fn chip(&self) -> (r: String)
        ensures
            r@ == "N163"@,
    {
        "N163".to_owned()
    }

    /// Read-only access to the inspection sample ring.
    pub fn sample_buffer(&self) -> (r: &RingBuffer)
        ensures
            r@ == self@.samples,
    {
        &self.output_buffer
    }

    /// Pushes the last computed output into the inspection ring; called once
    /// per host sample tick, independent of the synthesis schedule.
    pub fn record_current_output(&mut self)
        requires
            old(self).wf(),
        ensures
            final(self).wf(),
            final(self)@ == (ChannelView {
                samples: rv_pushed(old(self)@.samples, old(self).current_output),
                ..old(self)@
            }),
    {
        self.output_buffer.push(self.current_output);
    }

    /// The smallest sample the channel can emit.
    pub fn min_sample(&self) -> (r: i16)
        ensures
            r == -128,
    {
        -128
    }

    /// The largest sample the channel can emit.
    pub fn max_sample(&self) -> (r: i16)
        ensures
            r == 127,
    {
        127
    }

    pub fn muted(&self) -> (r: bool)
        ensures
            r == self@.muted,
    {
        self.debug_disable
    }

    /// Suppresses this channel in the chip's mixed output; the underlying
    /// simulation (phase and frequency accumulation) is untouched.
    pub fn mute(&mut self)
        ensures
            final(self)@ == (ChannelView { muted: true, ..old(self)@ }),
    {
        self.debug_disable = true;
    }

    pub fn unmute(&mut self)
        ensures
            final(self)@ == (ChannelView { muted: false, ..old(self)@ }),
    {
        self.debug_disable = false;
    }

    /// Whether the channel is currently audible: positive volume and a
    /// positive estimated frequency.
    pub fn playing(&self) -> (r: bool)
        requires
            self@.rate_den > 0,
        ensures
            r == (self@.tracked_volume > 0 && self@.rate_num > 0),
    {
        self.tracked_volume > 0 && self.tracked_frequency_num > 0
    }

    /// The estimated continuous frequency for visualization, as the exact
    /// rational cached by the last synthesis step.
    pub fn rate(&self) -> (r: PlaybackRate)
        ensures
            r == (PlaybackRate::FundamentalFrequency {
                num: self.tracked_frequency_num,
                den: self.tracked_frequency_den,
            }),
    {
        PlaybackRate::FundamentalFrequency {
            num: self.tracked_frequency_num,
            den: self.tracked_frequency_den,
        }
    }

    /// The volume readout for visualization: an index out of 15.
    pub fn volume_readout(&self) -> (r: Option<Volume>)
        ensures
            r == Some(Volume::VolumeIndex { index: self.tracked_volume, max: 15u8 }),
    {
        Some(Volume::VolumeIndex { index: self.tracked_volume, max: 15 })
    }

    /// This channel kind exposes no timbre readout.
    pub fn timbre(&self) -> (r: Option<Timbre>)
        ensures
            r is None,
    {
        None
    }
}

/// The display name of the channel whose slot starts at `base`: slots from
/// 0x40 up are numbered "WAVE 1" through "WAVE 8".
pub open spec fn name_of_base(base: int) -> Seq<char> {
    let n = (base - 0x40) / 8 + 1;
    if n == 1 {
        "WAVE 1"@
    } else if n == 2 {
        "WAVE 2"@
    } else if n == 3 {
        "WAVE 3"@
    } else if n == 4 {
        "WAVE 4"@
    } else if n == 5 {
        "WAVE 5"@
    } else if n == 6 {
        "WAVE 6"@
    } else if n == 7 {
        "WAVE 7"@
    } else {
        "WAVE 8"@
    }
}

/// Pitch readout for visualization: an exact rational estimate of the
/// fundamental frequency (presentation layers may divide it out).
#[derive(Clone, Copy, PartialEq, Eq, Structural, Debug)]
pub enum PlaybackRate {
    FundamentalFrequency { num: u64, den: u64 },
}

/// Loudness readout for visualization: an index out of a maximum.
#[derive(Clone, Copy, PartialEq, Eq, Structural, Debug)]
pub enum Volume {
    VolumeIndex { index: u8, max: u8 },
}

/// Tone-quality readout for visualization; wavetable channels expose none.
#[derive(Clone, Copy, PartialEq, Eq, Structural, Debug)]
pub enum Timbre {
    PatchIndex { index: u8, max: u8 },
}

/// Abstract value of the expansion audio chip.
#[verifier::ext_equal]
pub ghost struct AudioView {
    /// The shared 128-byte register file.
    pub ram: Seq<u8>,
    /// The eight channels, index 0 bound to the highest slot (0x78).
    pub channels: Seq<ChannelView>,
    /// Ticks left until the next channel service.
    pub delay: int,
    /// The round-robin cursor.
    pub cursor: int,
    /// The chip's externally visible mixed output.
    pub output: int,
}

impl AudioView {
    pub open spec fn wf(self) -> bool {
        &&& audio_ram_wf(self.ram)
        &&& self.channels.len() == 8
        &&& forall|i: int| 0 <= i < 8 ==> (#[trigger] self.channels[i]).wf()
        &&& forall|i: int| 0 <= i < 8 ==> (#[trigger] self.channels[i]).base == 0x40 + 8 * (7 - i)
        &&& 0 <= self.cursor < 8
        &&& 0 <= self.delay <= 15
        &&& -120 <= self.output <= 105
    }
}

/// A channel's cached state after one synthesis step against `ram`.
pub open spec fn channel_after_update(c: ChannelView, ram: Seq<u8>) -> ChannelView {
    ChannelView {
        output: updated_output(ram, c.base),
        rate_num: rate_num_of(ram, c.base),
        rate_den: rate_den_of(ram, c.base),
        tracked_volume: volume_at(ram, c.base),
        ..c
    }
}

/// A channel with its last output pushed into its inspection ring.
pub open spec fn channel_recorded(c: ChannelView) -> ChannelView {
    ChannelView { samples: rv_pushed(c.samples, c.output as i16), ..c }
}

/// The chip when the countdown has run out: exactly the channel under the
/// cursor is updated; the mixed output takes that channel's fresh output
/// (zero when it is muted); the cursor advances, wrapping to 0 at the
/// enabled count read live from the file; the countdown resets to 15.
pub open spec fn chip_serviced(a: AudioView) -> AudioView {
    let base = a.channels[a.cursor].base;
    let ram2 = ram_after_update(a.ram, base);
    AudioView {
        ram: ram2,
        channels: a.channels.update(a.cursor, channel_after_update(a.channels[a.cursor], a.ram)),
        output: if a.channels[a.cursor].muted {
            0
        } else {
            updated_output(a.ram, base)
        },
        cursor: if a.cursor + 1 >= enabled_count(ram2) {
            0
        } else {
            a.cursor + 1
        },
        delay: 15,
    }
}

/// One clock tick: a live countdown just decrements; a countdown that runs
/// out services exactly one channel. A fresh countdown of 15 therefore
/// yields a service 15 ticks later, not immediately.
pub open spec fn chip_after_clock(a: AudioView) -> AudioView {
    if a.delay > 1 {
        AudioView { delay: a.delay - 1, ..a }
    } else {
        chip_serviced(a)
    }
}

/// The chip after every channel's output was recorded for inspection.
pub open spec fn chip_recorded(a: AudioView) -> AudioView {
    AudioView { channels: Seq::new(a.channels.len(), |i: int| channel_recorded(a.channels[i])), ..a }
}

/// The expansion audio chip: the shared register file, the eight channels,
/// and the round-robin schedule that services one channel per completed
/// countdown of 15 processor clocks.
pub struct Namco163Audio {
    pub internal_ram: Vec<u8>,
    pub channels: Vec<Namco163AudioChannel>,
    pub channel_delay_counter: u8,
    pub current_channel: usize,
    pub current_output: i16,
}

impl View for Namco163Audio {
    type V = AudioView;

    open spec fn view(&self) -> AudioView {
        AudioView {
            ram: self.internal_ram@,
            channels: self.channels@.map_values(|c: Namco163AudioChannel| c@),
            delay: self.channel_delay_counter as int,
            cursor: self.current_channel as int,
            output: self.current_output as int,
        }
    }
}

impl Namco163Audio {
    pub open spec fn wf(&self) -> bool {
        self@.wf()
    }

    /// A quiet chip: zeroed register file, all channels bound to their
    /// slots (channel 0 to the highest, 0x78), countdown and cursor at 0.
    pub fn new() -> (r: Namco163Audio)
        ensures
            r.wf(),
            r@.ram == Seq::new(0x80, |i: int| 0u8),
            r@.delay == 0,
            r@.cursor == 0,
            r@.output == 0,
            forall|i: int| 0 <= i < 8 ==> {
                let c = #[trigger] r@.channels[i];
                c.muted == false && c.output == 0 && c.rate_num == 0 && c.tracked_volume == 0
                    && c.samples.data.len() == CHANNEL_RING_LENGTH && c.samples.index == 0
            },
    {
        let internal_ram = crate::memory_block::zeroed_bytes(0x80);
        let mut channels: Vec<Namco163AudioChannel> = Vec::new();
        let mut i: usize = 0;
        while i < 8
            invariant
                i <= 8,
                channels@.len() == i,
                forall|j: int| 0 <= j < i ==> {
                    let c = (#[trigger] channels@[j])@;
                    c.wf() && c.base == 0x40 + 8 * (7 - j) && c.muted == false && c.output == 0
                        && c.rate_num == 0 && c.tracked_volume == 0
                        && c.samples.data.len() == CHANNEL_RING_LENGTH && c.samples.index == 0
                },
            decreases 8 - i,
        {
            channels.push(Namco163AudioChannel::new(0x40 + 0x8 * (7 - i)));
            i = i + 1;
        }
        let chip = Namco163Audio {
            internal_ram,
            channels,
            channel_delay_counter: 0,
            current_channel: 0,
            current_output: 0,
        };
        proof {
            assert(chip@.ram =~= Seq::new(0x80, |i: int| 0u8));
        }
        chip
    }

    /// The count of simultaneously active channels, read live from the
    /// global byte of the register file; always in [1, 8].
    pub fn enabled_channels(&self) -> (r: usize)
        requires
            audio_ram_wf(self@.ram),
        ensures
            r == enabled_count(self@.ram),
            1 <= r <= 8,
    {
        enabled_channels_of(&self.internal_ram) as usize
    }

    /// One processor clock: decrement a live countdown, and service exactly
    /// one channel when it runs out.
    pub fn clock(&mut self)
        requires
            old(self).wf(),
        ensures
            final(self).wf(),
            final(self)@ == chip_after_clock(old(self)@),
    {
        if self.channel_delay_counter > 0 {
            self.channel_delay_counter = self.channel_delay_counter - 1;
        }

        if self.channel_delay_counter == 0 {
            let c = self.current_channel;
            assert(self@.channels[c as int] == self.channels@[c as int]@);
            assert(self.channels@[c as int]@.wf());
            self.channels[c].update(&mut self.internal_ram);
            if self.channels[c].debug_disable {
                self.current_output = 0;
            } else {
                self.current_output = self.channels[c].current_output;
            }
            self.current_channel = c + 1;
            if self.current_channel >= self.enabled_channels() {
                self.current_channel = 0;
            }
            self.channel_delay_counter = 15;
            proof {
                assert(self@.channels =~~= chip_serviced(old(self)@).channels);
                assert(self@ =~~= chip_after_clock(old(self)@));
            }
        } else {
            proof {
                assert(self@ =~~= chip_after_clock(old(self)@));
            }
        }
    }

    /// Pushes every channel's last output into its own inspection ring;
    /// independent of the update schedule, no effect on synthesis.
    pub fn record_output(&mut self)
        requires
            old(self).wf(),
        ensures
            final(self).wf(),
            final(self)@ == chip_recorded(old(self)@),
    {
        let mut i: usize = 0;
        while i < 8
            invariant
                i <= 8,
                self.channels@.len() == 8,
                self.internal_ram@ == old(self)@.ram,
                self.channel_delay_counter == old(self).channel_delay_counter,
                self.current_channel == old(self).current_channel,
                self.current_output == old(self).current_output,
                old(self).wf(),
                forall|j: int| 0 <= j < i ==> (#[trigger] self.channels@[j])@ == channel_recorded(
                    old(self)@.channels[j],
                ),
                forall|j: int| i <= j < 8 ==> (#[trigger] self.channels@[j])@ == old(self)@.channels[j],
            decreases 8 - i,
        {
            assert(self.channels@[i as int]@.wf());
            self.channels[i].record_current_output();
            i = i + 1;
        }
        proof {
            assert(self@.channels =~~= chip_recorded(old(self)@).channels);
            assert(self@ =~~= chip_recorded(old(self)@));
        }
    }
}

/// The enabled-channel count always decodes into [1, 8].
pub proof fn lemma_enabled_count_bounds(ram: Seq<u8>)
    requires
        audio_ram_wf(ram),
    ensures
        1 <= enabled_count(ram) <= 8,
{
    lemma_nibbles(ram[0x7F]);
}

/// The wavetable length register always decodes into [4, 256], in steps
/// of 4.
pub proof fn lemma_length_bounds(ram: Seq<u8>, base: int)
    requires
        audio_ram_wf(ram),
        valid_channel_base(base),
    ensures
        4 <= length_at(ram, base) <= 256,
        length_at(ram, base) % 4 == 0,
{
    lemma_nibbles(ram[base + 4]);
    let k = (ram[base + 4] & 0xFC) as int;
    assert((256 - k) % 4 == 0) by (nonlinear_arith)
        requires
            k % 4 == 0,
            0 <= k <= 252,
    ;
}

/// Writing a 24-bit phase into a slot and reading it back yields the same
/// value.
proof fn lemma_phase_roundtrip(ram: Seq<u8>, base: int, p: int)
    requires
        audio_ram_wf(ram),
        valid_channel_base(base),
        0 <= p < 0x1000000,
    ensures
        phase_at(store_phase(ram, base, p), base) == p,
{
    lemma_fundamental_div_mod(p, 0x100);
    lemma_fundamental_div_mod(p / 0x100, 0x100);
    lemma_div_denominator(p, 0x100, 0x100);
    lemma_mod_bound(p, 0x100);
    lemma_mod_bound(p / 0x100, 0x100);
    assert(0 <= p / 0x10000 < 0x100) by (nonlinear_arith)
        requires
            0 <= p < 0x1000000,
    ;
    lemma_small_mod((p / 0x10000) as nat, 0x100);
}

/// A synthesis step touches only the three phase bytes of its slot; every
/// other register byte, the global enabled-count byte among them, is kept.
pub proof fn lemma_update_touches_only_phase(ram: Seq<u8>, base: int)
    requires
        audio_ram_wf(ram),
        valid_channel_base(base),
    ensures
        ram_after_update(ram, base).len() == ram.len(),
        forall|j: int|
            0 <= j < ram.len() && j != base + 1 && j != base + 3 && j != base + 5
                ==> ram_after_update(ram, base)[j] == ram[j],
        enabled_count(ram_after_update(ram, base)) == enabled_count(ram),
        length_at(ram_after_update(ram, base), base) == length_at(ram, base),
{
}

/// After a synthesis step the phase accumulator lies inside the wavetable
/// window: `0 <= phase < (length << 16)`, and that is what the slot now
/// stores.
pub proof fn lemma_phase_in_window(ram: Seq<u8>, base: int)
    requires
        audio_ram_wf(ram),
        valid_channel_base(base),
    ensures
        0 <= updated_phase(ram, base) < length_at(ram, base) * 0x10000,
        phase_at(ram_after_update(ram, base), base) == updated_phase(ram, base),
{
    lemma_length_bounds(ram, base);
    let l = length_at(ram, base);
    let w = l * 0x10000;
    assert(4 * 0x10000 <= w <= 0x1000000) by (nonlinear_arith)
        requires
            4 <= l <= 256,
            w == l * 0x10000,
    ;
    lemma_mod_bound(phase_at(ram, base) + frequency_at(ram, base), w);
    lemma_phase_roundtrip(ram, base, updated_phase(ram, base));
}

/// The freshly computed output obeys the bias-and-scale formula's range,
/// and the estimated-frequency rational is well-formed.
pub proof fn lemma_output_bounds(ram: Seq<u8>, base: int)
    requires
        audio_ram_wf(ram),
        valid_channel_base(base),
    ensures
        -120 <= updated_output(ram, base) <= 105,
        rate_den_of(ram, base) > 0,
        rate_num_of(ram, base) >= 0,
{
    let ram2 = ram_after_update(ram, base);
    let idx = updated_sample_index(ram, base);
    lemma_mod_bound(wave_address_at(ram, base) + updated_phase(ram, base) / 0x10000, 0x100);
    lemma_phase_in_window(ram, base);
    assert(0 <= updated_phase(ram, base) / 0x10000) by (nonlinear_arith)
        requires
            0 <= updated_phase(ram, base),
    ;
    assert(0 <= idx < 0x100);
    lemma_nibbles(ram2[idx / 2]);
    let s = sample_at(ram2, idx);
    assert(0 <= s <= 15);
    lemma_nibbles(ram[base + 7]);
    let v = volume_at(ram, base);
    assert(-120 <= (s - 8) * v <= 105) by (nonlinear_arith)
        requires
            0 <= s <= 15,
            0 <= v <= 15,
    ;
    lemma_length_bounds(ram, base);
    lemma_enabled_count_bounds(ram);
    let l = length_at(ram, base);
    let e = enabled_count(ram);
    assert(15 * 0x10000 * l * e > 0) by (nonlinear_arith)
        requires
            l >= 4,
            e >= 1,
    ;
    assert(NTSC_CLOCK_RATE * frequency_at(ram, base) >= 0) by (nonlinear_arith)
        requires
            frequency_at(ram, base) >= 0,
    ;
    lemma_nibbles(ram[base + 4]);
}

/// One clock tick preserves well-formedness and never changes the
/// enabled-channel count: the serviced channel writes only its own phase
/// bytes, never the global byte.
pub proof fn lemma_clock_preserves_wf(a: AudioView)
    requires
        a.wf(),
    ensures
        chip_after_clock(a).wf(),
        enabled_count(chip_after_clock(a).ram) == enabled_count(a.ram),
{
    if a.delay <= 1 {
        let base = a.channels[a.cursor].base;
        lemma_update_touches_only_phase(a.ram, base);
        lemma_output_bounds(a.ram, base);
        lemma_enabled_count_bounds(a.ram);
    }
}

/// Round-robin law: with the cursor inside the enabled range `0..n-1`, a
/// tick that services a channel services exactly the one under the cursor
/// and advances the cursor cyclically modulo `n`; every other channel,
/// those at `n..7` among them, is left untouched, and the cursor stays
/// inside `0..n-1`.
pub proof fn lemma_round_robin_step(a: AudioView)
    requires
        a.wf(),
        a.cursor < enabled_count(a.ram),
    ensures
        ({
            let n = enabled_count(a.ram);
            let a2 = chip_after_clock(a);
            &&& a2.wf()
            &&& enabled_count(a2.ram) == n
            &&& 0 <= a2.cursor < n
            &&& (a.delay <= 1 ==> a2.cursor == (a.cursor + 1) % n)
            &&& (a.delay <= 1 ==> a2.channels == a.channels.update(
                a.cursor,
                channel_after_update(a.channels[a.cursor], a.ram),
            ))
            &&& (a.delay <= 1 ==> forall|i: int|
                0 <= i < 8 && i != a.cursor ==> a2.channels[i] == a.channels[i])
            &&& (a.delay > 1 ==> a2.cursor == a.cursor && a2.channels == a.channels)
        }),
{
    lemma_clock_preserves_wf(a);
    lemma_enabled_count_bounds(a.ram);
    let n = enabled_count(a.ram);
    if a.delay <= 1 {
        if a.cursor + 1 >= n {
            assert(a.cursor + 1 == n);
            lemma_mod_self_0(n);
        } else {
            lemma_small_mod((a.cursor + 1) as nat, n as nat);
        }
    }
}

/// The chip after `k` clock ticks.
pub open spec fn chip_after_clocks(a: AudioView, k: nat) -> AudioView
    decreases k,
{
    if k == 0 {
        a
    } else {
        chip_after_clock(chip_after_clocks(a, (k - 1) as nat))
    }
}

/// The countdown gates the cadence: for the first `delay - 1` ticks the
/// chip only counts down and services nothing, so a freshly reset
/// countdown of 15 yields the next service exactly 15 ticks later, never
/// immediately.
pub proof fn lemma_countdown_cadence(a: AudioView, k: nat)
    requires
        a.wf(),
        k < a.delay,
    ensures
        ({
            let a2 = chip_after_clocks(a, k);
            &&& a2.delay == a.delay - k
            &&& a2.ram == a.ram
            &&& a2.channels == a.channels
            &&& a2.cursor == a.cursor
            &&& a2.output == a.output
        }),
    decreases k,
{
    if k > 0 {
        lemma_countdown_cadence(a, (k - 1) as nat);
    }
}

/// The round-robin invariant holds over any run of ticks: the enabled
/// count stays pinned, the cursor never leaves `0..n-1`, and the channels
/// at `n..7` are never touched.
pub proof fn lemma_round_robin_run(a: AudioView, k: nat)
    requires
        a.wf(),
        a.cursor < enabled_count(a.ram),
    ensures
        ({
            let n = enabled_count(a.ram);
            let a2 = chip_after_clocks(a, k);
            &&& a2.wf()
            &&& enabled_count(a2.ram) == n
            &&& 0 <= a2.cursor < n
            &&& forall|i: int| n <= i < 8 ==> a2.channels[i] == a.channels[i]
        }),
    decreases k,
{
    if k > 0 {
        lemma_round_robin_run(a, (k - 1) as nat);
        lemma_round_robin_step(chip_after_clocks(a, (k - 1) as nat));
    }
}

} // verus!
