use std::time::Duration;
use ttyrec::{Error, Frame};

#[test]
fn frame_test_basic() {
    let tests = vec![
        (
            Frame {
                time: Duration::new(0, 0),
                data: vec![],
            },
            vec![0, 0, 0, 0, 0, 0, 0, 0, 0, 0, 0, 0],
        ),
        (
            Frame {
                time: Duration::new(38, 123_456_000),
                data: b"\x1b[2Jfoobar".to_vec(),
            },
            vec![
                38, 0, 0, 0, 64, 226, 1, 0, 10, 0, 0, 0, 27, 91, 50, 74, 102, 111, 111, 98, 97,
                114,
            ],
        ),
    ];
    for (frame, bytes) in tests {
        assert_eq!(Vec::<u8>::try_from(frame).unwrap(), bytes);
    }
}

#[test]
fn frame_time_below_a_microsecond_is_dropped() {
    let frame = Frame {
        time: Duration::new(1, 2_999),
        data: vec![7],
    };
    assert_eq!(
        Vec::<u8>::try_from(frame).unwrap(),
        vec![1, 0, 0, 0, 2, 0, 0, 0, 1, 0, 0, 0, 7]
    );
}

#[test]
fn frame_with_largest_seconds_is_written() {
    let frame = Frame {
        time: Duration::new(u64::from(u32::MAX), 999_999_999),
        data: vec![],
    };
    assert_eq!(
        Vec::<u8>::try_from(frame).unwrap(),
        vec![255, 255, 255, 255, 63, 66, 15, 0, 0, 0, 0, 0]
    );
}

#[test]
fn frame_with_too_many_seconds_is_too_long() {
    let frame = Frame {
        time: Duration::new(1 << 32, 0),
        data: b"x".to_vec(),
    };
    match Vec::<u8>::try_from(frame) {
        Err(Error::FrameTooLong { input }) => assert_eq!(input, 4_294_967_296),
        other => panic!("expected FrameTooLong, got {:?}", other),
    }
}

#[test]
fn frame_bytes_are_little_endian() {
    let frame = Frame {
        time: Duration::new(0x0403_0201, 0x0a_0908 * 1_000),
        data: vec![0; 0x0102],
    };
    let bytes = Vec::<u8>::try_from(frame).unwrap();
    assert_eq!(bytes.len(), 12 + 0x0102);
    assert_eq!(&bytes[..12], &[1, 2, 3, 4, 8, 9, 10, 0, 2, 1, 0, 0]);
    assert!(bytes[12..].iter().all(|b| *b == 0));
}

#[test]
fn frame_equality_and_clone() {
    let frame = Frame {
        time: Duration::from_micros(5),
        data: vec![1, 2, 3],
    };
    let copy = frame.clone();
    assert_eq!(frame, copy);
    assert_ne!(
        frame,
        Frame {
            time: Duration::from_micros(6),
            data: vec![1, 2, 3],
        }
    );
}
