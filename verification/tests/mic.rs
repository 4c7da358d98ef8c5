use soundboard::mic::{
    buffer_capacity, take_mic_sample, MicControl, MicOutput, RingBuffer, MAX_BUFFERED_MS,
    UNIT_VOLUME_BITS,
};

#[test]
fn unit_volume_is_one() {
    assert_eq!(f32::from_bits(UNIT_VOLUME_BITS), 1.0);
}

#[test]
fn new_control_is_muted_at_full_volume() {
    let c = MicControl::new();
    assert!(!c.is_enabled());
    assert_eq!(f32::from_bits(c.volume_bits()), 1.0);
}

#[test]
fn control_switches_independently() {
    let mut c = MicControl::new();
    c.set_enabled(true);
    assert!(c.is_enabled());
    c.set_volume(0.25f32.to_bits());
    assert!(c.is_enabled());
    assert_eq!(f32::from_bits(c.volume_bits()), 0.25);
    c.set_enabled(false);
    assert!(!c.is_enabled());
    assert_eq!(f32::from_bits(c.volume_bits()), 0.25);
}

#[test]
fn capacity_is_200_ms_of_interleaved_samples() {
    assert_eq!(MAX_BUFFERED_MS, 200);
    assert_eq!(buffer_capacity(48000, 2), 19200);
    assert_eq!(buffer_capacity(44100, 1), 8820);
    assert_eq!(buffer_capacity(0, 2), 0);
    assert_eq!(buffer_capacity(8001, 1), 1600);
}

#[test]
fn capacity_of_largest_format_does_not_overflow() {
    let expected = (u32::MAX as u64 * u16::MAX as u64 * 200 / 1000) as usize;
    assert_eq!(buffer_capacity(u32::MAX, u16::MAX), expected);
}

#[test]
fn ring_buffer_is_first_in_first_out() {
    let mut b = RingBuffer::new(8);
    b.push_samples(&[1.0f32, 2.0, 3.0]);
    assert_eq!(b.len(), 3);
    assert_eq!(b.pop_front(), Some(1.0));
    assert_eq!(b.pop_front(), Some(2.0));
    b.push_samples(&[4.0]);
    assert_eq!(b.pop_front(), Some(3.0));
    assert_eq!(b.pop_front(), Some(4.0));
    assert_eq!(b.pop_front(), None);
    assert_eq!(b.len(), 0);
}

#[test]
fn ring_buffer_drops_oldest_beyond_capacity() {
    let mut b = RingBuffer::new(3);
    b.push_samples(&[1, 2]);
    b.push_samples(&[3, 4, 5]);
    assert_eq!(b.len(), 3);
    assert_eq!(b.pop_front(), Some(3));
    assert_eq!(b.pop_front(), Some(4));
    assert_eq!(b.pop_front(), Some(5));
    assert_eq!(b.pop_front(), None);
}

#[test]
fn ring_buffer_keeps_newest_of_one_large_push() {
    let mut b = RingBuffer::new(2);
    b.push_samples(&[1, 2, 3, 4, 5, 6]);
    assert_eq!(b.len(), 2);
    assert_eq!(b.pop_front(), Some(5));
    assert_eq!(b.pop_front(), Some(6));
}

#[test]
fn zero_capacity_ring_buffer_holds_nothing() {
    let mut b = RingBuffer::new(0);
    b.push_samples(&[1u8, 2, 3]);
    assert_eq!(b.len(), 0);
    assert_eq!(b.pop_front(), None);
}

#[test]
fn mic_sample_is_taken_even_when_muted() {
    let mut b = RingBuffer::new(4);
    b.push_samples(&[0.5f32, 0.25]);
    let mut c = MicControl::new();
    assert_eq!(take_mic_sample(&mut b, &c, 0.0), MicOutput::Muted);
    assert_eq!(b.len(), 1);
    c.set_enabled(true);
    assert_eq!(take_mic_sample(&mut b, &c, 0.0), MicOutput::Heard(0.25));
    assert_eq!(take_mic_sample(&mut b, &c, 0.0), MicOutput::Heard(0.0));
    assert_eq!(b.len(), 0);
}

#[test]
fn toggling_control_twice_restores_it() {
    let mut c = MicControl::new();
    c.set_volume(0.5f32.to_bits());
    let first = !c.is_enabled();
    c.set_enabled(first);
    let second = !c.is_enabled();
    c.set_enabled(second);
    assert!(first);
    assert!(!second);
    assert!(!c.is_enabled());
    assert_eq!(f32::from_bits(c.volume_bits()), 0.5);
}
