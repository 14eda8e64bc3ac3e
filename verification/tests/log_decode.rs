use usbd::diag::{Level, Timestamp, drain_from_image};
use usbd::log_stream::{Fragment, TAG_SYMTAB_STRING, TAG_TIMESTAMP, decode_log};

fn text(f: &Fragment) -> &[u8] {
    match f {
        Fragment::Text(v) => v,
        other => panic!("expected text, got {:?}", kind(other)),
    }
}

fn kind(f: &Fragment) -> &'static str {
    match f {
        Fragment::Text(_) => "text",
        Fragment::Level(_) => "level",
        Fragment::CompressedString { .. } => "compressed string",
        Fragment::Timestamp(_) => "timestamp",
    }
}

#[test]
fn plain_text_is_one_fragment() {
    let bytes = b"hello, world".to_vec();
    let (frags, consumed) = decode_log(&bytes);
    assert_eq!(consumed, bytes.len());
    assert_eq!(frags.len(), 1);
    assert_eq!(text(&frags[0]), b"hello, world");
}

#[test]
fn empty_input_decodes_to_nothing() {
    let (frags, consumed) = decode_log(&Vec::new());
    assert!(frags.is_empty());
    assert_eq!(consumed, 0);
}

#[test]
fn level_marker_then_text() {
    // INFO marker (reserved string-table address 2), then a message
    let mut bytes = vec![TAG_SYMTAB_STRING, 2];
    bytes.extend_from_slice(b"USB reset");
    let (frags, consumed) = decode_log(&bytes);
    assert_eq!(consumed, bytes.len());
    assert_eq!(frags.len(), 2);
    assert!(matches!(frags[0], Fragment::Level(Level::Info)));
    assert_eq!(text(&frags[1]), b"USB reset");
}

#[test]
fn compressed_string_reference() {
    let bytes = vec![TAG_SYMTAB_STRING, 42];
    let (frags, consumed) = decode_log(&bytes);
    assert_eq!(consumed, 2);
    assert!(matches!(frags[0], Fragment::CompressedString { addr: 42 }));
}

#[test]
fn timestamp_frame_is_little_endian_ticks() {
    let bytes = vec![TAG_TIMESTAMP, 0x01, 0x02, 0x03];
    let (frags, consumed) = decode_log(&bytes);
    assert_eq!(consumed, 4);
    match frags[0] {
        Fragment::Timestamp(Timestamp(ticks)) => assert_eq!(ticks, 0x030201),
        ref other => panic!("expected timestamp, got {:?}", kind(other)),
    }
}

#[test]
fn interleaved_stream() {
    let mut bytes = vec![TAG_TIMESTAMP, 0, 0x80, 0, TAG_SYMTAB_STRING, 0];
    bytes.extend_from_slice(b"oops: ");
    bytes.push(TAG_SYMTAB_STRING);
    bytes.push(99);
    let (frags, consumed) = decode_log(&bytes);
    assert_eq!(consumed, bytes.len());
    assert_eq!(frags.len(), 4);
    assert!(matches!(frags[0], Fragment::Timestamp(Timestamp(0x8000))));
    assert!(matches!(frags[1], Fragment::Level(Level::Error)));
    assert_eq!(text(&frags[2]), b"oops: ");
    assert!(matches!(frags[3], Fragment::CompressedString { addr: 99 }));
}

#[test]
fn incomplete_frames_stay_in_the_buffer() {
    // a symtab tag with its address byte missing
    let mut bytes = b"log ".to_vec();
    bytes.push(TAG_SYMTAB_STRING);
    let (frags, consumed) = decode_log(&bytes);
    assert_eq!(consumed, 4);
    assert_eq!(frags.len(), 1);
    assert_eq!(text(&frags[0]), b"log ");
    // a timestamp tag with only two of its three tick bytes
    let bytes = vec![TAG_TIMESTAMP, 1, 2];
    let (frags, consumed) = decode_log(&bytes);
    assert!(frags.is_empty());
    assert_eq!(consumed, 0);
}

#[test]
fn truncated_utf8_waits_for_more_bytes() {
    // a three-byte encoding cut off after two bytes
    let mut bytes = b"ok".to_vec();
    bytes.extend_from_slice(&[0xe2, 0x82]);
    let (frags, consumed) = decode_log(&bytes);
    assert_eq!(consumed, 2);
    assert_eq!(frags.len(), 1);
    assert_eq!(text(&frags[0]), b"ok");
    // once the rest arrives, the code point decodes as text
    let whole = vec![0xe2, 0x82, 0xac];
    let (frags, consumed) = decode_log(&whole);
    assert_eq!(consumed, 3);
    assert_eq!(text(&frags[0]), "\u{20ac}".as_bytes());
}

#[test]
fn multibyte_utf8_text() {
    let bytes = "grün αβ 🚀".as_bytes().to_vec();
    let (frags, consumed) = decode_log(&bytes);
    assert_eq!(consumed, bytes.len());
    assert_eq!(frags.len(), 1);
    assert_eq!(text(&frags[0]), bytes.as_slice());
}

#[test]
fn overlong_and_surrogate_encodings_are_not_text() {
    // 0xC0 0x80 is an overlong encoding of NUL: decoding stops at it
    let (frags, consumed) = decode_log(&vec![0xc0, 0x80]);
    assert!(frags.is_empty());
    assert_eq!(consumed, 0);
    // 0xED 0xA0 0x80 encodes a surrogate: likewise not valid text
    let (_frags, consumed) = decode_log(&vec![0xed, 0xa0, 0x80]);
    assert_eq!(consumed, 0);
}

#[test]
fn drained_ring_buffer_decodes_across_the_wrap() {
    // the stream "<INFO> boot" written into a 16-byte ring so that it wraps
    let mut stream = vec![TAG_SYMTAB_STRING, 2];
    stream.extend_from_slice(b" boot");
    let cap = 16u32;
    let read = 12u32;
    let mut image = vec![0u8; cap as usize];
    for (k, b) in stream.iter().enumerate() {
        image[((read as usize) + k) % cap as usize] = *b;
    }
    let write = read + stream.len() as u32;
    let drained = drain_from_image(&image, read, write);
    assert_eq!(drained, stream);
    let (frags, consumed) = decode_log(&drained);
    assert_eq!(consumed, stream.len());
    assert!(matches!(frags[0], Fragment::Level(Level::Info)));
    assert_eq!(text(&frags[1]), b" boot");
}
