//! Audio formats, device configuration negotiation and the routing of
//! captured blocks.

use vstd::prelude::*;

verus! {

/// Sample rate preferred for speech capture, in Hz.
pub const PREFERRED_SAMPLE_RATE: u32 = 16000;

/// Highest minimum rate a configuration may require to be usable, in Hz.
pub const MAX_ACCEPTED_MIN_RATE: u32 = 44100;

/// Bits of every stored sample.
pub const BITS_PER_SAMPLE: u16 = 16;

/// How each sample of a PCM stream is encoded.
#[derive(Debug, Clone, Copy, PartialEq, Eq, Structural)]
pub enum SampleEncoding {
    Int,
    Float,
}

/// The layout of a PCM stream.
#[derive(Debug, Clone, Copy, PartialEq, Eq, Structural)]
pub struct AudioFormat {
    pub channels: u16,
    pub sample_rate: u32,
    pub bits_per_sample: u16,
    pub encoding: SampleEncoding,
}

/// The format of stored audio at a given rate: mono, 16-bit integer PCM.
pub open spec fn mono_pcm16(sample_rate: u32) -> AudioFormat {
    AudioFormat {
        channels: 1,
        sample_rate,
        bits_per_sample: 16,
        encoding: SampleEncoding::Int,
    }
}

impl AudioFormat {
    /// Mono 16-bit integer PCM at `sample_rate`.
    pub fn mono(sample_rate: u32) -> (r: AudioFormat)
        ensures
            r == mono_pcm16(sample_rate),
    {
        AudioFormat { channels: 1, sample_rate, bits_per_sample: BITS_PER_SAMPLE, encoding: SampleEncoding::Int }
    }

    /// The format used when no earlier recording fixes one.
    pub fn default_format() -> (r: AudioFormat)
        ensures
            r == mono_pcm16(16000),
    {
        AudioFormat::mono(PREFERRED_SAMPLE_RATE)
    }
}

/// One input configuration range offered by a capture device.
#[derive(Debug, Clone, Copy, PartialEq, Eq, Structural)]
pub struct ConfigRange {
    pub channels: u16,
    pub min_sample_rate: u32,
    pub max_sample_rate: u32,
}

/// The stream parameters chosen for a capture device.
#[derive(Debug, Clone, Copy, PartialEq, Eq, Structural)]
pub struct StreamSettings {
    pub channels: u16,
    pub sample_rate: u32,
}

/// A range is usable when it has a channel, reaches 16 kHz and does not
/// require more than 44.1 kHz.
pub open spec fn usable(c: ConfigRange) -> bool {
    c.channels >= 1 && c.min_sample_rate <= 44100 && c.max_sample_rate >= 16000
}

/// Position of the first usable range, if there is one.
pub open spec fn first_usable(cs: Seq<ConfigRange>) -> Option<int> {
    if exists|i: int| 0 <= i < cs.len() && usable(cs[i]) {
        Some(choose|i: int| 0 <= i < cs.len() && usable(cs[i]) && forall|j: int| 0 <= j < i ==> !usable(cs[j]))
    } else {
        None
    }
}

/// The stream channel count: mono when the device offers it.
pub open spec fn stream_channels(c: ConfigRange) -> u16 {
    if c.channels < 1 { c.channels } else { 1 }
}

/// Rate policy for speech: 16 kHz when the range includes it, else the
/// range's minimum.
pub open spec fn speech_rate(c: ConfigRange) -> u32 {
    if c.min_sample_rate <= 16000 && 16000 <= c.max_sample_rate {
        16000
    } else {
        c.min_sample_rate
    }
}

/// Settings that the speech policy picks from a list of offered ranges.
pub open spec fn speech_settings(cs: Seq<ConfigRange>) -> Option<StreamSettings> {
    match first_usable(cs) {
        Some(i) => Some(StreamSettings { channels: stream_channels(cs[i]), sample_rate: speech_rate(cs[i]) }),
        None => None,
    }
}

/// Finds the first usable range.
pub fn find_usable(cs: &Vec<ConfigRange>) -> (r: Option<usize>)
    ensures
        match r {
            Some(i) => i < cs@.len() && first_usable(cs@) == Some(i as int),
            None => first_usable(cs@) is None,
        },
{
    let mut i: usize = 0;
    while i < cs.len()
        invariant
            i <= cs@.len(),
            forall|j: int| 0 <= j < i ==> !usable(#[trigger] cs@[j]),
        decreases cs@.len() - i,
    {
        let c = cs[i];
        if c.channels >= 1 && c.min_sample_rate <= MAX_ACCEPTED_MIN_RATE && c.max_sample_rate >= PREFERRED_SAMPLE_RATE {
            proof {
                assert(usable(cs@[i as int]));
                let k = choose|k: int| 0 <= k < cs@.len() && usable(cs@[k]) && forall|j: int| 0 <= j < k ==> !usable(cs@[j]);
                assert(0 <= k < cs@.len() && usable(cs@[k]) && forall|j: int| 0 <= j < k ==> !usable(cs@[j]));
                if k < i {
                } else if k > i {
                    assert(!usable(cs@[i as int]));
                }
            }
            return Some(i);
        }
        i = i + 1;
    }
    None
}

/// The channel count to open a stream with: mono whenever offered.
pub fn channels_for(c: ConfigRange) -> (r: u16)
    ensures
        r == stream_channels(c),
{
    if c.channels < 1 { c.channels } else { 1 }
}

/// Negotiates stream settings for speech capture: the first usable range,
/// 16 kHz when it includes that rate, else its minimum rate; mono when
/// the device offers it.
pub fn negotiate_speech(cs: &Vec<ConfigRange>) -> (r: Option<StreamSettings>)
    ensures
        r == speech_settings(cs@),
{
    match find_usable(cs) {
        Some(i) => {
            let c = cs[i];
            let rate = if c.min_sample_rate <= PREFERRED_SAMPLE_RATE && PREFERRED_SAMPLE_RATE <= c.max_sample_rate {
                PREFERRED_SAMPLE_RATE
            } else {
                c.min_sample_rate
            };
            Some(StreamSettings { channels: channels_for(c), sample_rate: rate })
        },
        None => None,
    }
}

/// What the capture callback does with one block of input.
#[derive(Debug, Clone, Copy, PartialEq, Eq, Structural)]
pub struct BlockRoute {
    /// Feed the block's level to the level meter.
    pub meter: bool,
    /// Hand the block's samples to the segment writer.
    pub write: bool,
}

/// Routing of a captured block: nothing once capture has stopped; while
/// capturing the meter stays live, and samples are stored only when not
/// paused.
pub fn route_block(capturing: bool, paused: bool) -> (r: BlockRoute)
    ensures
        r.meter == capturing,
        r.write == (capturing && !paused),
{
    BlockRoute { meter: capturing, write: capturing && !paused }
}

/// The slot holding a session's open segment writer. The capture callback
/// writes through it while it holds a writer; pause and stop take the
/// writer out to finalize it, after which blocks are dropped.
pub struct WriterSlot<W> {
    writer: Option<W>,
}

impl<W> View for WriterSlot<W> {
    type V = Option<W>;

    closed spec fn view(&self) -> Option<W> {
        self.writer
    }
}

impl<W> WriterSlot<W> {
    /// A slot with no writer.
    pub fn empty() -> (r: WriterSlot<W>)
        ensures
            r@ is None,
    {
        WriterSlot { writer: None }
    }

    /// A slot holding `writer`.
    pub fn holding(writer: W) -> (r: WriterSlot<W>)
        ensures
            r@ == Some(writer),
    {
        WriterSlot { writer: Some(writer) }
    }

    /// Puts `writer` in the slot and hands back the one it replaces.
    pub fn install(&mut self, writer: W) -> (prev: Option<W>)
        ensures
            prev == old(self)@,
            final(self)@ == Some(writer),
    {
        let prev = self.writer.take();
        self.writer = Some(writer);
        prev
    }

    /// Takes the writer out, leaving the slot empty.
    pub fn take(&mut self) -> (r: Option<W>)
        ensures
            (r, final(self)@) == take_outcome(old(self)@),
    {
        self.writer.take()
    }

    /// Whether the slot holds a writer.
    pub fn is_open(&self) -> (r: bool)
        ensures
            r == self@ is Some,
    {
        self.writer.is_some()
    }
}

/// What `WriterSlot::take` hands back, and the slot it leaves: the writer
/// it held, and an empty slot.
pub open spec fn take_outcome<W>(slot: Option<W>) -> (Option<W>, Option<W>) {
    (slot, None)
}

/// Finalizing a segment goes through `WriterSlot::take`: a second take on
/// the same slot hands back no writer, so nothing is finalized or written
/// a second time, and it leaves the slot as the first take left it.
pub proof fn lemma_finalize_idempotent<W>(slot: Option<W>)
    ensures
        ({
            let (first, between) = take_outcome(slot);
            let (second, after) = take_outcome(between);
            &&& first == slot
            &&& second is None
            &&& after == between
        }),
{
}

} // verus!
