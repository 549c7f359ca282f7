use classfile::error::DecodeError;
use classfile::utilities::ByteShifter;

/// A small deterministic generator, so that the sampled buffers are the same
/// on every run.
fn sample_bytes(seed: u64, length: usize) -> Vec<u8> {
    let mut state = seed;
    let mut bytes = Vec::with_capacity(length);
    for _ in 0..length {
        state = state
            .wrapping_mul(6364136223846793005)
            .wrapping_add(1442695040888963407);
        bytes.push((state >> 33) as u8);
    }
    bytes
}

#[test]
fn new_cursor_stands_at_zero() {
    let bytes = [1u8, 2, 3];
    let shifter = ByteShifter::new(&bytes);
    assert_eq!(shifter.position(), 0);
}

#[test]
fn read_byte_walks_the_buffer() {
    let bytes = [0xCAu8, 0xFE, 0xBA];
    let mut shifter = ByteShifter::new(&bytes);
    assert_eq!(shifter.read_byte(), Ok(0xCA));
    assert_eq!(shifter.position(), 1);
    assert_eq!(shifter.read_byte(), Ok(0xFE));
    assert_eq!(shifter.position(), 2);
    assert_eq!(shifter.read_byte(), Ok(0xBA));
    assert_eq!(shifter.position(), 3);
}

#[test]
fn read_byte_past_the_end_fails_and_stays() {
    let bytes = [7u8];
    let mut shifter = ByteShifter::new(&bytes);
    assert_eq!(shifter.read_byte(), Ok(7));
    assert_eq!(
        shifter.read_byte(),
        Err(DecodeError::OutOfBounds { position: 1, length: 1 })
    );
    assert_eq!(shifter.position(), 1);
    assert_eq!(
        shifter.read_byte(),
        Err(DecodeError::OutOfBounds { position: 1, length: 1 })
    );
}

#[test]
fn read_on_empty_buffer_fails() {
    let bytes: [u8; 0] = [];
    let mut shifter = ByteShifter::new(&bytes);
    assert_eq!(
        shifter.read_byte(),
        Err(DecodeError::OutOfBounds { position: 0, length: 0 })
    );
    assert_eq!(
        shifter.read_2_bytes(),
        Err(DecodeError::OutOfBounds { position: 0, length: 0 })
    );
    assert_eq!(
        shifter.read_4_bytes(),
        Err(DecodeError::OutOfBounds { position: 0, length: 0 })
    );
    assert_eq!(
        shifter.read_8_bytes(),
        Err(DecodeError::OutOfBounds { position: 0, length: 0 })
    );
    assert_eq!(shifter.position(), 0);
}

#[test]
fn read_2_bytes_is_big_endian() {
    let bytes = [0x12u8, 0x34];
    let mut shifter = ByteShifter::new(&bytes);
    assert_eq!(shifter.read_2_bytes(), Ok(0x1234));
    assert_eq!(shifter.position(), 2);
}

#[test]
fn read_4_bytes_is_big_endian() {
    let bytes = [0x12u8, 0x34, 0x56, 0x78];
    let mut shifter = ByteShifter::new(&bytes);
    assert_eq!(shifter.read_4_bytes(), Ok(0x1234_5678));
    assert_eq!(shifter.position(), 4);
}

#[test]
fn read_8_bytes_is_big_endian() {
    let bytes = [0x01u8, 0x23, 0x45, 0x67, 0x89, 0xAB, 0xCD, 0xEF];
    let mut shifter = ByteShifter::new(&bytes);
    assert_eq!(shifter.read_8_bytes(), Ok(0x0123_4567_89AB_CDEF));
    assert_eq!(shifter.position(), 8);
}

#[test]
fn wide_reads_of_extreme_values() {
    let ones = [0xFFu8; 8];
    assert_eq!(ByteShifter::new(&ones).read_2_bytes(), Ok(u16::MAX));
    assert_eq!(ByteShifter::new(&ones).read_4_bytes(), Ok(u32::MAX));
    assert_eq!(ByteShifter::new(&ones).read_8_bytes(), Ok(u64::MAX));
    let top = [0x80u8, 0, 0, 0, 0, 0, 0, 0];
    assert_eq!(ByteShifter::new(&top).read_2_bytes(), Ok(0x8000));
    assert_eq!(ByteShifter::new(&top).read_4_bytes(), Ok(0x8000_0000));
    assert_eq!(ByteShifter::new(&top).read_8_bytes(), Ok(0x8000_0000_0000_0000));
    let low = [0u8, 0, 0, 0, 0, 0, 0, 1];
    assert_eq!(ByteShifter::new(&low).read_8_bytes(), Ok(1));
}

#[test]
fn skip_bytes_moves_without_reading() {
    let bytes = [0xCAu8, 0xFE, 0xBA, 0xBE, 0x00, 0x2A];
    let mut shifter = ByteShifter::new(&bytes);
    shifter.skip_bytes(4);
    assert_eq!(shifter.position(), 4);
    assert_eq!(shifter.read_2_bytes(), Ok(42));
    shifter.skip_bytes(0);
    assert_eq!(shifter.position(), 6);
}

#[test]
fn skip_past_the_end_makes_the_next_read_fail() {
    let bytes = [1u8, 2];
    let mut shifter = ByteShifter::new(&bytes);
    shifter.skip_bytes(5);
    assert_eq!(shifter.position(), 5);
    assert_eq!(
        shifter.read_byte(),
        Err(DecodeError::OutOfBounds { position: 5, length: 2 })
    );
    assert_eq!(
        shifter.read_4_bytes(),
        Err(DecodeError::OutOfBounds { position: 5, length: 2 })
    );
    assert_eq!(shifter.position(), 5);
}

#[test]
fn short_read_consumes_what_is_left() {
    let bytes = [0x12u8, 0x34, 0x56];
    let mut shifter = ByteShifter::new(&bytes);
    assert_eq!(
        shifter.read_4_bytes(),
        Err(DecodeError::OutOfBounds { position: 3, length: 3 })
    );
    assert_eq!(shifter.position(), 3);

    let mut shifter = ByteShifter::new(&bytes);
    assert_eq!(shifter.read_2_bytes(), Ok(0x1234));
    assert_eq!(
        shifter.read_2_bytes(),
        Err(DecodeError::OutOfBounds { position: 3, length: 3 })
    );
    assert_eq!(shifter.position(), 3);

    let seven = [0u8; 7];
    let mut shifter = ByteShifter::new(&seven);
    assert_eq!(
        shifter.read_8_bytes(),
        Err(DecodeError::OutOfBounds { position: 7, length: 7 })
    );
    assert_eq!(shifter.position(), 7);
}

#[test]
fn read_2_bytes_composes_two_byte_reads() {
    for seed in 0..64u64 {
        let bytes = sample_bytes(seed, 2);
        let mut narrow = ByteShifter::new(&bytes);
        let higher = narrow.read_byte().unwrap() as u16;
        let lower = narrow.read_byte().unwrap() as u16;
        let mut wide = ByteShifter::new(&bytes);
        assert_eq!(wide.read_2_bytes(), Ok((higher << 8) | lower));
        assert_eq!(wide.position(), narrow.position());
    }
}

#[test]
fn read_4_bytes_composes_two_half_reads() {
    for seed in 64..128u64 {
        let bytes = sample_bytes(seed, 4);
        let mut narrow = ByteShifter::new(&bytes);
        let higher = narrow.read_2_bytes().unwrap() as u32;
        let lower = narrow.read_2_bytes().unwrap() as u32;
        let mut wide = ByteShifter::new(&bytes);
        assert_eq!(wide.read_4_bytes(), Ok((higher << 16) | lower));
        assert_eq!(wide.position(), narrow.position());
    }
}

#[test]
fn read_8_bytes_composes_two_word_reads() {
    for seed in 128..192u64 {
        let bytes = sample_bytes(seed, 8);
        let mut narrow = ByteShifter::new(&bytes);
        let higher = narrow.read_4_bytes().unwrap() as u64;
        let lower = narrow.read_4_bytes().unwrap() as u64;
        let mut wide = ByteShifter::new(&bytes);
        assert_eq!(wide.read_8_bytes(), Ok((higher << 32) | lower));
        assert_eq!(wide.position(), narrow.position());
    }
}

#[test]
fn wide_reads_agree_with_std_big_endian() {
    for seed in 192..256u64 {
        let bytes = sample_bytes(seed, 8);
        let two = u16::from_be_bytes([bytes[0], bytes[1]]);
        let four = u32::from_be_bytes([bytes[0], bytes[1], bytes[2], bytes[3]]);
        let mut eight_bytes = [0u8; 8];
        eight_bytes.copy_from_slice(&bytes);
        let eight = u64::from_be_bytes(eight_bytes);
        assert_eq!(ByteShifter::new(&bytes).read_2_bytes(), Ok(two));
        assert_eq!(ByteShifter::new(&bytes).read_4_bytes(), Ok(four));
        assert_eq!(ByteShifter::new(&bytes).read_8_bytes(), Ok(eight));
    }
}

#[test]
fn failing_reads_compose_like_their_parts() {
    for length in 0..8usize {
        let bytes = sample_bytes(1000 + length as u64, length);

        let mut narrow = ByteShifter::new(&bytes);
        let mut by_parts = narrow.read_4_bytes().map(|word| word as u64);
        if by_parts.is_ok() {
            by_parts = narrow.read_4_bytes().map(|word| word as u64);
        }
        let mut wide = ByteShifter::new(&bytes);
        let whole = wide.read_8_bytes();
        assert!(whole.is_err());
        assert_eq!(whole, by_parts);
        assert_eq!(wide.position(), narrow.position());
        assert_eq!(
            whole,
            Err(DecodeError::OutOfBounds { position: length, length })
        );
    }
}
