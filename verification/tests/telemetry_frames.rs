use stm32_quad::orientation::{F32Bits, SpatialOrientation, BUFF_SIZE};
use stm32_quad::telemetry::{TelemetryReader, BUF_SIZE, CHUNK_SIZE, EOT};

fn orientation(pitch: f32, roll: f32) -> SpatialOrientation {
    SpatialOrientation {
        pitch: F32Bits { bits: pitch.to_bits() },
        roll: F32Bits { bits: roll.to_bits() },
    }
}

fn chunk(bytes: &[u8]) -> ([u8; CHUNK_SIZE], usize) {
    let mut c = [0u8; CHUNK_SIZE];
    c[..bytes.len()].copy_from_slice(bytes);
    (c, bytes.len())
}

#[test]
fn byte_array_is_little_endian_pitch_then_roll() {
    let o = orientation(1.5, -2.25);
    let b = o.to_byte_array();
    assert_eq!(&b[..4], &1.5f32.to_le_bytes());
    assert_eq!(&b[4..], &(-2.25f32).to_le_bytes());
    assert_eq!(b.len(), BUFF_SIZE);
}

#[test]
fn byte_array_round_trip() {
    for (p, r) in [(0.0f32, 0.0f32), (1.0, -1.0), (0.123, 3.5e7), (f32::MAX, f32::MIN)] {
        let o = orientation(p, r);
        assert_eq!(SpatialOrientation::from_byte_slice(&o.to_byte_array()), o);
    }
    let raw = [1u8, 2, 3, 4, 5, 6, 7, 8];
    assert_eq!(SpatialOrientation::from_byte_slice(&raw).to_byte_array(), raw);
    let o = SpatialOrientation::from_byte_slice(&raw);
    assert_eq!(o.pitch.bits, 0x0403_0201);
    assert_eq!(o.roll.bits, 0x0807_0605);
}

#[test]
fn sent_frame_is_read_back() {
    let o = orientation(0.5, -0.75);
    let mut frame = vec![EOT];
    frame.extend_from_slice(&o.to_byte_array());
    let mut r = TelemetryReader::new();
    let (c, n) = chunk(&frame);
    assert_eq!(r.receive(&c, n), o);
}

#[test]
fn frame_at_buffer_start_without_eot_is_read() {
    let o = orientation(2.0, 4.0);
    let mut r = TelemetryReader::new();
    let (c, n) = chunk(&o.to_byte_array());
    assert_eq!(r.receive(&c, n), o);
}

#[test]
fn incomplete_or_closed_frame_keeps_last_reading() {
    let o = orientation(2.0, 4.0);
    let mut r = TelemetryReader::new();
    let (c, n) = chunk(&o.to_byte_array());
    assert_eq!(r.receive(&c, n), o);
    // A trailing EOT leaves an empty last piece.
    let (c, n) = chunk(&[EOT]);
    assert_eq!(r.receive(&c, n), o);
    // Three bytes after the EOT are not a whole frame.
    let (c, n) = chunk(&[9, 9, 9]);
    assert_eq!(r.receive(&c, n), o);
}

#[test]
fn nothing_read_shows_level() {
    let mut r = TelemetryReader::new();
    let (c, _) = chunk(&[1, 2, 3]);
    assert_eq!(r.receive(&c, 0), orientation(0.0, 0.0));
}

#[test]
fn buffer_restarts_when_a_chunk_would_not_fit() {
    let mut r = TelemetryReader::new();
    // 16 + 16 bytes fill the buffer to 32; the next chunk would pass 40.
    let (c, n) = chunk(&[7u8; CHUNK_SIZE]);
    r.receive(&c, n);
    r.receive(&c, n);
    let o = orientation(-1.0, 1.0);
    let mut frame = vec![EOT];
    frame.extend_from_slice(&o.to_byte_array());
    let (c, n) = chunk(&frame);
    assert!(2 * CHUNK_SIZE + CHUNK_SIZE >= BUF_SIZE);
    assert_eq!(r.receive(&c, n), o);
}

#[test]
fn frame_split_across_chunks_is_read() {
    let o = orientation(0.25, 0.5);
    let mut frame = vec![EOT];
    frame.extend_from_slice(&o.to_byte_array());
    let mut r = TelemetryReader::new();
    let (c, n) = chunk(&frame[..4]);
    assert_eq!(r.receive(&c, n), orientation(0.0, 0.0));
    let (c, n) = chunk(&frame[4..]);
    assert_eq!(r.receive(&c, n), o);
}

#[test]
fn frame_holding_an_eot_byte_is_not_read() {
    let o = SpatialOrientation {
        pitch: F32Bits { bits: EOT as u32 },
        roll: F32Bits { bits: 1.0f32.to_bits() },
    };
    let mut frame = vec![EOT];
    frame.extend_from_slice(&o.to_byte_array());
    let mut r = TelemetryReader::new();
    let (c, n) = chunk(&frame);
    assert_eq!(r.receive(&c, n), orientation(0.0, 0.0));
}
