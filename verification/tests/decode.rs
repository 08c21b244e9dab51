use stateful_filter::decode::{decode_recording, to_u16_le, to_u64_le, DecodeError};

#[test]
fn to_u16_le_reads_low_byte_first() {
    assert_eq!(to_u16_le(&[0x34, 0x12]), Some(0x1234));
    assert_eq!(to_u16_le(&[0xff, 0xff]), Some(u16::MAX));
    assert_eq!(to_u16_le(&[0x01, 0x00, 0xee]), Some(1));
}

#[test]
fn to_u16_le_needs_two_bytes() {
    assert_eq!(to_u16_le(&[]), None);
    assert_eq!(to_u16_le(&[0x34]), None);
}

#[test]
fn to_u64_le_reads_low_byte_first() {
    assert_eq!(
        to_u64_le(&[0x08, 0x07, 0x06, 0x05, 0x04, 0x03, 0x02, 0x01]),
        Some(0x0102_0304_0506_0708)
    );
    assert_eq!(to_u64_le(&[0xff; 8]), Some(u64::MAX));
    assert_eq!(to_u64_le(&[1, 0, 0, 0, 0, 0, 0, 0, 0xee]), Some(1));
    assert_eq!(to_u64_le(&[0, 0, 0, 0, 0, 0, 0, 0x80]), Some(1 << 63));
}

#[test]
fn to_u64_le_needs_eight_bytes() {
    assert_eq!(to_u64_le(&[]), None);
    assert_eq!(to_u64_le(&[1, 2, 3, 4, 5, 6, 7]), None);
}

fn recording_bytes(centroids: &[u64], interval: f64, resolution: f64, samples: &[u16]) -> Vec<u8> {
    let mut bytes = Vec::new();
    bytes.extend((centroids.len() as u64).to_le_bytes());
    for c in centroids {
        bytes.extend(c.to_le_bytes());
    }
    bytes.extend(interval.to_bits().to_le_bytes());
    bytes.extend(resolution.to_bits().to_le_bytes());
    bytes.extend((samples.len() as u64).to_le_bytes());
    for s in samples {
        bytes.extend(s.to_le_bytes());
    }
    bytes
}

#[test]
fn decode_recording_reads_every_field() {
    let centroids = [3u64, 70_000, u64::MAX];
    let samples = [0u16, 1, 0x1234, u16::MAX, 7];
    let mut bytes = recording_bytes(&centroids, 2.5e-5, 0.125, &samples);
    let rec = decode_recording(&bytes).unwrap();
    assert_eq!(rec.centroids, centroids);
    assert_eq!(f64::from_bits(rec.interval_bits), 2.5e-5);
    assert_eq!(f64::from_bits(rec.resolution_bits), 0.125);
    assert_eq!(rec.samples, samples);
    // Bytes behind the last sample are not read.
    bytes.extend([9, 9, 9]);
    let rec = decode_recording(&bytes).unwrap();
    assert_eq!(rec.centroids, centroids);
    assert_eq!(rec.samples, samples);
}

#[test]
fn decode_recording_accepts_an_empty_recording() {
    let bytes = recording_bytes(&[], 1.0, 1.0, &[]);
    assert_eq!(bytes.len(), 32);
    let rec = decode_recording(&bytes).unwrap();
    assert!(rec.centroids.is_empty());
    assert!(rec.samples.is_empty());
}

#[test]
fn decode_recording_names_the_truncated_part() {
    let bytes = recording_bytes(&[3, 4], 1.0, 1.0, &[5, 6, 7]);
    assert_eq!(bytes.len(), 8 + 16 + 24 + 6);
    assert_eq!(decode_recording(&bytes[..0]).err(), Some(DecodeError::NoEventCount));
    assert_eq!(decode_recording(&bytes[..7]).err(), Some(DecodeError::NoEventCount));
    assert_eq!(decode_recording(&bytes[..8]).err(), Some(DecodeError::TruncatedCentroids));
    assert_eq!(decode_recording(&bytes[..23]).err(), Some(DecodeError::TruncatedCentroids));
    assert_eq!(decode_recording(&bytes[..24]).err(), Some(DecodeError::TruncatedHeader));
    assert_eq!(decode_recording(&bytes[..47]).err(), Some(DecodeError::TruncatedHeader));
    assert_eq!(decode_recording(&bytes[..48]).err(), Some(DecodeError::TruncatedSamples));
    assert_eq!(decode_recording(&bytes[..53]).err(), Some(DecodeError::TruncatedSamples));
    assert!(decode_recording(&bytes[..54]).is_ok());
}

#[test]
fn decode_recording_refuses_counts_that_cannot_fit() {
    let mut bytes = vec![0xffu8; 8];
    bytes.extend([0u8; 64]);
    assert_eq!(decode_recording(&bytes).err(), Some(DecodeError::TruncatedCentroids));
    let mut bytes = recording_bytes(&[], 1.0, 1.0, &[]);
    bytes[24..32].copy_from_slice(&[0xff; 8]);
    bytes.extend([0u8; 64]);
    assert_eq!(decode_recording(&bytes).err(), Some(DecodeError::TruncatedSamples));
}
