use barrier_gate::nec::{decode_nec, DecodeError, RemoteFrame, FRAME_PULSES};
use barrier_gate::remote::{action_token, map_command, token_for_pulses, LogicalAction};

fn train(bytes: [u8; 4]) -> Vec<u32> {
    let mut p = vec![9000, 4500];
    for b in bytes.iter() {
        for j in 0..8 {
            p.push(560);
            p.push(if (b >> j) & 1 == 1 { 1690 } else { 560 });
        }
    }
    p
}

#[test]
fn short_trains_have_invalid_header() {
    assert_eq!(decode_nec(&[]), Err(DecodeError::InvalidHeader));
    let full = train([0x00, 0xFF, 0x45, 0xBA]);
    for n in 0..FRAME_PULSES {
        assert_eq!(decode_nec(&full[..n]), Err(DecodeError::InvalidHeader));
    }
    assert!(decode_nec(&full).is_ok());
}

#[test]
fn literal_open_button_frame() {
    let p = train([0x00, 0xFF, 0x45, 0xBA]);
    assert_eq!(p.len(), 66);
    assert_eq!(p[0], 9000);
    assert_eq!(p[1], 4500);
    let f = decode_nec(&p).unwrap();
    assert_eq!(f, RemoteFrame { address: 0x00, command: 0x45 });
    assert_eq!(map_command(f.command), LogicalAction::Open);
}

#[test]
fn valid_frames_decode_to_address_and_command() {
    for &(a, c) in [(0x00u8, 0x46u8), (0x12, 0x34), (0xFF, 0x00), (0xA5, 0x5A)].iter() {
        let p = train([a, !a, c, !c]);
        assert_eq!(decode_nec(&p), Ok(RemoteFrame { address: a, command: c }));
    }
}

#[test]
fn corrupted_complement_bit_is_checksum_mismatch() {
    let (a, c) = (0x00u8, 0x45u8);
    for k in 0..8 {
        let p = train([a, !a ^ (1 << k), c, !c]);
        assert_eq!(decode_nec(&p), Err(DecodeError::ChecksumMismatch));
        let p = train([a, !a, c, !c ^ (1 << k)]);
        assert_eq!(decode_nec(&p), Err(DecodeError::ChecksumMismatch));
    }
}

#[test]
fn header_out_of_range() {
    let mut p = train([0x00, 0xFF, 0x45, 0xBA]);
    p[0] = 8499;
    assert_eq!(decode_nec(&p), Err(DecodeError::InvalidHeader));
    p[0] = 9501;
    assert_eq!(decode_nec(&p), Err(DecodeError::InvalidHeader));
    p[0] = 9000;
    p[1] = 3999;
    assert_eq!(decode_nec(&p), Err(DecodeError::InvalidHeader));
    p[1] = 5001;
    assert_eq!(decode_nec(&p), Err(DecodeError::InvalidHeader));
}

#[test]
fn header_bounds_are_inclusive() {
    let mut p = train([0x00, 0xFF, 0x45, 0xBA]);
    p[0] = 8500;
    p[1] = 5000;
    assert!(decode_nec(&p).is_ok());
    p[0] = 9500;
    p[1] = 4000;
    assert!(decode_nec(&p).is_ok());
}

#[test]
fn bit_timing_out_of_range() {
    let good = train([0x00, 0xFF, 0x45, 0xBA]);
    let mut p = good.clone();
    p[10] = 399;
    assert_eq!(decode_nec(&p), Err(DecodeError::InvalidBitTiming));
    let mut p = good.clone();
    p[65] = 1000;
    assert_eq!(decode_nec(&p), Err(DecodeError::InvalidBitTiming));
    let mut p = good.clone();
    p[3] = 2000;
    assert_eq!(decode_nec(&p), Err(DecodeError::InvalidBitTiming));
}

#[test]
fn extra_pulses_after_frame_are_ignored() {
    let mut p = train([0x10, 0xEF, 0x46, 0xB9]);
    p.push(560);
    p.push(12345);
    assert_eq!(decode_nec(&p), Ok(RemoteFrame { address: 0x10, command: 0x46 }));
}

#[test]
fn command_mapping() {
    assert_eq!(map_command(0x45), LogicalAction::Open);
    assert_eq!(map_command(0x46), LogicalAction::ToggleLock);
    assert_eq!(map_command(0x47), LogicalAction::Unknown(0x47));
    assert_eq!(action_token(LogicalAction::Open), Some(b"100".to_vec()));
    assert_eq!(action_token(LogicalAction::ToggleLock), Some(b"90".to_vec()));
    assert_eq!(action_token(LogicalAction::Unknown(7)), None);
}

#[test]
fn pulses_to_token() {
    let (f, a, t) = token_for_pulses(&train([0x00, 0xFF, 0x46, 0xB9])).unwrap();
    assert_eq!(f, RemoteFrame { address: 0, command: 0x46 });
    assert_eq!(a, LogicalAction::ToggleLock);
    assert_eq!(t, Some(b"90".to_vec()));
    let (_, a, t) = token_for_pulses(&train([0x00, 0xFF, 0x16, 0xE9])).unwrap();
    assert_eq!(a, LogicalAction::Unknown(0x16));
    assert_eq!(t, None);
    assert_eq!(token_for_pulses(&[9000, 4500]), Err(DecodeError::InvalidHeader));
}
