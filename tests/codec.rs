use skin_cache::codec::{compact, decompact, CodecError};
use skin_cache::imaging::encode;
use skin_cache::pixels::{PixelGrid, Rgba};

fn sample_grid(side: u32, alpha: bool) -> PixelGrid {
    let mut pixels = Vec::new();
    for y in 0..side {
        for x in 0..side {
            let a = if alpha { ((x * 37 + y) % 256) as u8 } else { 255 };
            pixels.push(Rgba { r: (x * 31 % 256) as u8, g: (y * 17 % 256) as u8, b: ((x ^ y) % 256) as u8, a });
        }
    }
    PixelGrid { width: side, height: side, alpha, pixels }
}

#[test]
fn round_trip_of_encoded_avatar() {
    let png = encode(&sample_grid(8, false)).expect("encodes");
    let payload = compact(&png).expect("the encoder's output compacts");
    assert_eq!(payload.len() + 44, png.len());
    assert_eq!(decompact(&payload), Ok(png));
}

#[test]
fn round_trip_of_encoded_skin() {
    let png = encode(&sample_grid(64, true)).expect("encodes");
    let payload = compact(&png).expect("the encoder's output compacts");
    assert_eq!(decompact(&payload), Ok(png));
}

#[test]
fn payload_keeps_header_and_data_only() {
    let png = encode(&sample_grid(8, false)).unwrap();
    let payload = compact(&png).unwrap();
    assert_eq!(&payload[..13], &png[16..29]);
    assert_eq!(&payload[13..], &png[41..png.len() - 16]);
    assert_eq!(&payload[0..4], &[0, 0, 0, 8]);
    assert_eq!(payload[9], 2);
}

#[test]
fn rebuilt_checksums_are_real() {
    let png = encode(&sample_grid(8, true)).unwrap();
    let payload = compact(&png).unwrap();
    let rebuilt = decompact(&payload).unwrap();
    // the header checksum is CRC-32 of tag and fields, not a copy of them
    assert_eq!(&rebuilt[29..33], &crc32fast::hash(&png[12..29]).to_be_bytes());
}

#[test]
fn truncated_payload_is_corrupted() {
    assert_eq!(decompact(&vec![]), Err(CodecError::Corrupted));
    assert_eq!(decompact(&vec![0, 0, 0, 8, 0, 0, 0, 8, 8, 2, 0, 0, 0]), Err(CodecError::Corrupted));
}

#[test]
fn bad_header_is_corrupted() {
    let png = encode(&sample_grid(8, false)).unwrap();
    let mut payload = compact(&png).unwrap();
    payload[8] = 16;
    assert_eq!(decompact(&payload), Err(CodecError::Corrupted));
    payload[8] = 8;
    payload[0] = 0;
    payload[1] = 0;
    payload[2] = 0;
    payload[3] = 0;
    assert_eq!(decompact(&payload), Err(CodecError::Corrupted));
}

#[test]
fn foreign_stream_is_refused() {
    let mut png = encode(&sample_grid(8, false)).unwrap();
    assert!(compact(&png).is_some());
    let last = png.len() - 20;
    png[last] ^= 1;
    assert!(compact(&png).is_none());
    assert!(compact(&vec![1, 2, 3]).is_none());
}
