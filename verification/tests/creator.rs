use std::time::{Duration, Instant};
use ttyrec::{Creator, Error, Frame, Parser};

#[test]
fn creator_test_basic() {
    let mut creator = Creator::new();
    let base_time = Instant::now();

    let zero_frame: Vec<u8> = creator.frame_at(base_time, b"").unwrap();
    assert_eq!(zero_frame, vec![0, 0, 0, 0, 0, 0, 0, 0, 0, 0, 0, 0]);

    let data_frame: Vec<u8> = creator
        .frame_at(
            base_time + Duration::new(38, 123_456_000),
            b"\x1b[2Jfoobar",
        )
        .unwrap();
    assert_eq!(
        data_frame,
        vec![
            38, 0, 0, 0, 64, 226, 1, 0, 10, 0, 0, 0, 27, 91, 50, 74, 102, 111, 111, 98, 97, 114,
        ],
    );
}

#[test]
fn creator_then_parser_byte_by_byte() {
    let mut creator = Creator::new();
    let base_time = Instant::now();
    let mut bytes = creator.frame_at(base_time, b"").unwrap();
    bytes.extend(
        creator
            .frame_at(base_time + Duration::new(38, 123_456_000), b"\x1b[2Jfoobar")
            .unwrap(),
    );
    assert_eq!(bytes.len(), 34);
    let mut parser = Parser::new();
    for (i, byte) in bytes.into_iter().enumerate() {
        parser.add_bytes(&[byte]);
        let got = parser.next_frame();
        match i + 1 {
            12 => assert_eq!(
                got,
                Some(Frame {
                    time: Duration::new(0, 0),
                    data: vec![],
                })
            ),
            34 => assert_eq!(
                got,
                Some(Frame {
                    time: Duration::new(38, 123_456_000),
                    data: b"\x1b[2Jfoobar".to_vec(),
                })
            ),
            _ => assert_eq!(got, None),
        }
    }
}

#[test]
fn creator_times_are_since_the_first_frame() {
    let mut creator = Creator::default();
    let base_time = Instant::now();
    creator
        .frame_at(base_time + Duration::new(100, 0), b"a")
        .unwrap();
    // the time in the second frame is counted from the first one, not
    // from the one before
    creator
        .frame_at(base_time + Duration::new(103, 0), b"b")
        .unwrap();
    let third = creator
        .frame_at(base_time + Duration::new(107, 500_000), b"c")
        .unwrap();
    assert_eq!(third, vec![7, 0, 0, 0, 244, 1, 0, 0, 1, 0, 0, 0, 99]);
}

#[test]
fn creator_time_before_the_first_frame_is_zero() {
    let mut creator = Creator::new();
    let base_time = Instant::now() + Duration::new(10, 0);
    creator.frame_at(base_time, b"").unwrap();
    let earlier = creator
        .frame_at(base_time - Duration::new(5, 0), b"z")
        .unwrap();
    assert_eq!(earlier, vec![0, 0, 0, 0, 0, 0, 0, 0, 1, 0, 0, 0, 122]);
}

#[test]
fn creator_refuses_too_many_seconds_and_goes_on() {
    let mut creator = Creator::new();
    let base_time = Instant::now();
    creator.frame_at(base_time, b"").unwrap();
    match creator.frame_at(base_time + Duration::new(1 << 32, 0), b"late") {
        Err(Error::FrameTooLong { input }) => assert_eq!(input, 4_294_967_296),
        other => panic!("expected FrameTooLong, got {:?}", other),
    }
    // the base time is what it was
    let next = creator
        .frame_at(base_time + Duration::new(2, 0), b"")
        .unwrap();
    assert_eq!(next, vec![2, 0, 0, 0, 0, 0, 0, 0, 0, 0, 0, 0]);
}

#[test]
fn creator_frame_uses_the_clock() {
    let mut creator = Creator::new();
    let first = creator.frame(b"hi").unwrap();
    assert_eq!(first, vec![0, 0, 0, 0, 0, 0, 0, 0, 2, 0, 0, 0, 104, 105]);
    let second = creator.frame(b"").unwrap();
    assert_eq!(second.len(), 12);
    assert_eq!(&second[8..], &[0, 0, 0, 0]);
    // well under a minute has passed
    assert_eq!(&second[1..4], &[0, 0, 0]);
    assert!(second[0] < 60);
}

#[test]
fn creator_clone_keeps_the_base_time() {
    let mut creator = Creator::new();
    let base_time = Instant::now();
    creator.frame_at(base_time, b"").unwrap();
    let mut copy = creator.clone();
    let bytes = copy.frame_at(base_time + Duration::new(3, 0), b"").unwrap();
    assert_eq!(bytes, vec![3, 0, 0, 0, 0, 0, 0, 0, 0, 0, 0, 0]);
}
