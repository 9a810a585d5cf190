use std::time::Duration;
use ttyrec::frame::encode_frame;
use ttyrec::wire::{u32_from_le, u32_to_le, Header, HEADER_LEN};
use ttyrec::Error;

#[test]
fn wire_u32_little_endian() {
    assert_eq!(u32_to_le(0), [0, 0, 0, 0]);
    assert_eq!(u32_to_le(123_456), [64, 226, 1, 0]);
    assert_eq!(u32_to_le(0x0403_0201), [1, 2, 3, 4]);
    assert_eq!(u32_to_le(u32::MAX), [255, 255, 255, 255]);
    assert_eq!(u32_from_le([64, 226, 1, 0]), 123_456);
    assert_eq!(u32_from_le([1, 2, 3, 4]), 0x0403_0201);
    assert_eq!(u32_from_le([255, 255, 255, 255]), u32::MAX);
    for x in [0u32, 1, 255, 256, 65_535, 65_536, 16_777_215, 16_777_216, 0xdead_beef] {
        assert_eq!(u32_to_le(x), x.to_le_bytes());
        assert_eq!(u32_from_le(u32_to_le(x)), x);
    }
}

#[test]
fn wire_header_bytes() {
    assert_eq!(HEADER_LEN, 12);
    let header = Header::new(38, 123_456, 10).unwrap();
    assert_eq!((header.secs, header.micros, header.len), (38, 123_456, 10));
    assert_eq!(header.to_bytes(), [38, 0, 0, 0, 64, 226, 1, 0, 10, 0, 0, 0]);
    let back = Header::from_bytes(&[38, 0, 0, 0, 64, 226, 1, 0, 10, 0, 0, 0]);
    assert_eq!((back.secs, back.micros, back.len), (38, 123_456, 10));
    assert_eq!(back.len(), 10);
    assert_eq!(back.time(), Duration::new(38, 123_456_000));
}

#[test]
fn wire_header_time_adds_seconds_and_microseconds() {
    let header = Header {
        secs: 1,
        micros: 2_500_000,
        len: 0,
    };
    assert_eq!(header.time(), Duration::new(3, 500_000_000));
    let largest = Header {
        secs: u32::MAX,
        micros: u32::MAX,
        len: u32::MAX,
    };
    assert_eq!(
        largest.time(),
        Duration::from_micros(4_294_967_295_000_000 + 4_294_967_295)
    );
    assert_eq!(largest.to_bytes(), [255; 12]);
}

#[test]
fn wire_header_limits() {
    assert!(Header::new(u64::from(u32::MAX), 0, 0).is_ok());
    match Header::new(u64::from(u32::MAX) + 1, 0, 0) {
        Err(Error::FrameTooLong { input }) => assert_eq!(input, 4_294_967_296),
        other => panic!("expected FrameTooLong, got {:?}", other),
    }
    match Header::new(0, 0, (u32::MAX as usize) + 1) {
        Err(Error::FrameTooBig { input }) => assert_eq!(input, 4_294_967_296),
        other => panic!("expected FrameTooBig, got {:?}", other),
    }
    // too many seconds are reported before too many bytes
    match Header::new(u64::MAX, 0, usize::MAX) {
        Err(Error::FrameTooLong { input }) => assert_eq!(input, u64::MAX),
        other => panic!("expected FrameTooLong, got {:?}", other),
    }
}

#[test]
fn wire_encode_frame() {
    assert_eq!(
        encode_frame(38, 123_456, b"\x1b[2Jfoobar").unwrap(),
        vec![
            38, 0, 0, 0, 64, 226, 1, 0, 10, 0, 0, 0, 27, 91, 50, 74, 102, 111, 111, 98, 97, 114,
        ]
    );
    match encode_frame(1 << 32, 0, b"") {
        Err(Error::FrameTooLong { input }) => assert_eq!(input, 1 << 32),
        other => panic!("expected FrameTooLong, got {:?}", other),
    }
}
