use std::collections::VecDeque;
use vstd::prelude::*;

verus! {

/// The bit pattern of the `f32` value 1.0: full volume.
pub const UNIT_VOLUME_BITS: u32 = 0x3f80_0000;

/// How much captured audio the microphone buffer holds at most, in milliseconds.
/// Older samples are dropped beyond this so that latency does not build up.
pub const MAX_BUFFERED_MS: u64 = 200;

/// The number of interleaved samples that `MAX_BUFFERED_MS` of audio takes.
pub open spec fn spec_buffer_capacity(sample_rate: u32, channels: u16) -> int {
    sample_rate as int * channels as int * MAX_BUFFERED_MS as int / 1000
}

/// The size of the microphone buffer for a capture format: `MAX_BUFFERED_MS`
/// worth of interleaved samples (cut to `usize`, as a cast does).
pub fn buffer_capacity(sample_rate: u32, channels: u16) -> (n: usize)
    ensures
        n == spec_buffer_capacity(sample_rate, channels) as usize,
{
    proof {
        assert(sample_rate as int * channels as int <= 0xffff_ffff * 0xffff) by (nonlinear_arith)
            requires
                sample_rate <= 0xffff_ffff,
                channels <= 0xffff,
        ;
    }
    let samples_per_second: u64 = sample_rate as u64 * channels as u64;
    let total: u64 = samples_per_second * MAX_BUFFERED_MS / 1000;
    #[verifier::truncate]
    (total as usize)
}

/// What a `MicControl` holds.
pub struct MicSettings {
    /// Whether the microphone is heard.
    pub enabled: bool,
    /// Its volume, as the bits of an `f32`.
    pub volume_bits: u32,
}

/// The switches of a microphone capture: whether it is heard, and at what
/// volume. The volume is kept as the bits of an `f32`.
pub struct MicControl {
    enabled: bool,
    volume_bits: u32,
}

impl View for MicControl {
    type V = MicSettings;

    closed spec fn view(&self) -> MicSettings {
        MicSettings { enabled: self.enabled, volume_bits: self.volume_bits }
    }
}

impl MicControl {
    /// A new capture starts muted, at full volume.
    pub fn new() -> (c: Self)
        ensures
            !c@.enabled,
            c@.volume_bits == UNIT_VOLUME_BITS,
    {
        MicControl { enabled: false, volume_bits: UNIT_VOLUME_BITS }
    }

    /// Turns the microphone on or off.
    pub fn set_enabled(&mut self, enabled: bool)
        ensures
            final(self)@.enabled == enabled,
            final(self)@.volume_bits == old(self)@.volume_bits,
    {
        self.enabled = enabled;
    }

    /// Sets the volume (the bits of an `f32`).
    pub fn set_volume(&mut self, volume_bits: u32)
        ensures
            final(self)@.volume_bits == volume_bits,
            final(self)@.enabled == old(self)@.enabled,
    {
        self.volume_bits = volume_bits;
    }

    /// Whether the microphone is heard.
    pub fn is_enabled(&self) -> (r: bool)
        ensures
            r == self@.enabled,
    {
        self.enabled
    }

    /// The volume, as the bits of an `f32`.
    pub fn volume_bits(&self) -> (r: u32)
        ensures
            r == self@.volume_bits,
    {
        self.volume_bits
    }
}

/// Toggling the microphone twice (each time reading whether it is heard and
/// setting the opposite, as `MicControl::is_enabled` and `set_enabled` do)
/// returns the flipped state, then the original one, and leaves the settings
/// as they were.
pub proof fn toggling_twice_restores(
    before: MicSettings,
    first: bool,
    middle: MicSettings,
    second: bool,
    after: MicSettings,
)
    requires
        first == !before.enabled,
        middle.enabled == first,
        middle.volume_bits == before.volume_bits,
        second == !middle.enabled,
        after.enabled == second,
        after.volume_bits == middle.volume_bits,
    ensures
        first == !before.enabled,
        second == before.enabled,
        after == before,
{
}

/// The newest `capacity` items of `s` (all of them when there are no more).
pub open spec fn keep_newest<T>(s: Seq<T>, capacity: nat) -> Seq<T> {
    if s.len() <= capacity {
        s
    } else {
        s.skip(s.len() - capacity)
    }
}

/// What the buffer keeps never exceeds its capacity, and is the newest part
/// of what was pushed: the samples at the end, in their order.
pub proof fn newest_fit_and_are_a_suffix<T>(s: Seq<T>, capacity: nat)
    ensures
        keep_newest(s, capacity).len() <= capacity,
        keep_newest(s, capacity).len() <= s.len(),
        keep_newest(s, capacity).len() == s.len() || keep_newest(s, capacity).len() == capacity,
        forall|i: int|
            0 <= i < keep_newest(s, capacity).len() ==> #[trigger] keep_newest(s, capacity)[i]
                == s[s.len() - keep_newest(s, capacity).len() + i],
{
}

/// A bounded first-in first-out buffer of captured samples: when more than
/// its capacity is pushed, the oldest samples are dropped.
pub struct RingBuffer<T> {
    data: VecDeque<T>,
    max_len: usize,
}

impl<T> RingBuffer<T> {
    #[verifier::type_invariant]
    spec fn bounded(self) -> bool {
        self.data@.len() <= self.max_len
    }

    /// The samples held, oldest first.
    pub closed spec fn contents(&self) -> Seq<T> {
        self.data@
    }

    /// The most samples the buffer holds.
    pub closed spec fn capacity(&self) -> nat {
        self.max_len as nat
    }

    /// An empty buffer that holds at most `max_len` samples.
    pub fn new(max_len: usize) -> (b: Self)
        ensures
            b.contents().len() == 0,
            b.capacity() == max_len,
    {
        RingBuffer { data: VecDeque::with_capacity(max_len), max_len }
    }

    /// The number of samples held; never more than the capacity.
    pub fn len(&self) -> (n: usize)
        ensures
            n == self.contents().len(),
            n <= self.capacity(),
    {
        proof {
            use_type_invariant(self);
        }
        self.data.len()
    }

    /// Appends `samples`, then drops the oldest samples until no more than the
    /// capacity are left.
    pub fn push_samples(&mut self, samples: &[T])
        where
            T: Copy,
        ensures
            final(self).contents() == keep_newest(
                old(self).contents() + samples@,
                old(self).capacity(),
            ),
            final(self).capacity() == old(self).capacity(),
            final(self).contents().len() <= final(self).capacity(),
    {
        let ghost start = self.data@;
        let mut queue: VecDeque<T> = VecDeque::new();
        std::mem::swap(&mut queue, &mut self.data);
        let n: usize = samples.len();
        let mut i: usize = 0;
        while i < n
            invariant
                n == samples@.len(),
                i <= n,
                queue@ == start + samples@.take(i as int),
            decreases n - i,
        {
            queue.push_back(samples[i]);
            i = i + 1;
            assert(samples@.take(i as int) =~= samples@.take(i - 1).push(samples@[i - 1]));
        }
        assert(samples@.take(n as int) =~= samples@);
        let ghost all = queue@;
        let ghost mut dropped: int = 0;
        while queue.len() > self.max_len
            invariant
                0 <= dropped <= all.len(),
                queue@ == all.skip(dropped),
                all.len() > self.max_len ==> dropped <= all.len() - self.max_len,
                all.len() <= self.max_len ==> dropped == 0,
            decreases queue@.len(),
        {
            queue.pop_front();
            proof {
                dropped = dropped + 1;
                assert(queue@ =~= all.skip(dropped));
            }
        }
        proof {
            if all.len() <= self.max_len {
                assert(all.skip(0) =~= all);
            }
        }
        self.data = queue;
    }

    /// Takes the oldest sample, if any.
    pub fn pop_front(&mut self) -> (r: Option<T>)
        ensures
            final(self).capacity() == old(self).capacity(),
            match r {
                Some(x) => {
                    &&& old(self).contents().len() > 0
                    &&& x == old(self).contents()[0]
                    &&& final(self).contents() == old(self).contents().drop_first()
                },
                None => {
                    &&& old(self).contents().len() == 0
                    &&& final(self).contents() == old(self).contents()
                },
            },
    {
        proof {
            use_type_invariant(&*self);
        }
        let mut queue: VecDeque<T> = VecDeque::new();
        std::mem::swap(&mut queue, &mut self.data);
        let r = queue.pop_front();
        self.data = queue;
        r
    }
}

/// What the microphone output plays next.
#[derive(Debug, Clone, Copy, PartialEq, Eq)]
pub enum MicOutput<T> {
    /// The microphone is heard: this captured sample (or silence when the
    /// buffer is empty), still to be scaled by the volume.
    Heard(T),
    /// The microphone is muted: silence.
    Muted,
}

/// Takes the next sample for the microphone output. The oldest buffered
/// sample is always taken, so the buffer drains while muted too; when the
/// microphone is heard, that sample (or `silence` if none was buffered) is
/// returned for scaling.
pub fn take_mic_sample<T: Copy>(buffer: &mut RingBuffer<T>, control: &MicControl, silence: T) -> (r:
    MicOutput<T>)
    ensures
        final(buffer).capacity() == old(buffer).capacity(),
        final(buffer).contents() == if old(buffer).contents().len() > 0 {
            old(buffer).contents().drop_first()
        } else {
            old(buffer).contents()
        },
        r == if control@.enabled {
            MicOutput::Heard(
                if old(buffer).contents().len() > 0 {
                    old(buffer).contents()[0]
                } else {
                    silence
                },
            )
        } else {
            MicOutput::Muted
        },
{
    let sample = match buffer.pop_front() {
        Some(s) => s,
        None => silence,
    };
    if control.is_enabled() {
        MicOutput::Heard(sample)
    } else {
        MicOutput::Muted
    }
}

} // verus!
