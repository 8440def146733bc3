use filecrypt::chunking::{encrypt_chunks, ChunkCursor, MIN_CHUNK_SIZE};
use filecrypt::encryption::{encrypt, Ciphertext};
use filecrypt::error::CryptError;
use filecrypt::keys::{PublicKey, PADDING_OVERHEAD};

/// A usable public key with a modulus of `size` bytes. Encryption needs no
/// more than an odd modulus above the exponent.
fn public_key_of_size(size: usize) -> PublicKey {
    let mut modulus = vec![0x01u8; size];
    modulus[0] = 0xc3;
    PublicKey { modulus, exponent: vec![3] }
}

#[test]
fn cursor_starts_at_chunk_one() {
    let cursor = ChunkCursor::start(117);
    assert_eq!(cursor, ChunkCursor { offset: 0, chunk_size: 117, chunk_number: 1 });
}

#[test]
fn window_is_the_chunk_size_or_the_rest() {
    let cursor = ChunkCursor { offset: 234, chunk_size: 117, chunk_number: 3 };
    assert_eq!(cursor.end(1000), 351);
    assert_eq!(cursor.end(351), 351);
    assert_eq!(cursor.end(300), 300);
    assert_eq!(cursor.end(234), 234);
}

#[test]
fn window_does_not_overflow() {
    let cursor = ChunkCursor { offset: 10, chunk_size: usize::MAX, chunk_number: 1 };
    assert_eq!(cursor.end(20), 20);
}

#[test]
fn success_advances_by_the_chunk_size() {
    let cursor = ChunkCursor { offset: 117, chunk_size: 117, chunk_number: 2 };
    assert_eq!(
        cursor.after_success(1000),
        Some(ChunkCursor { offset: 234, chunk_size: 117, chunk_number: 3 })
    );
}

#[test]
fn success_at_an_exact_multiple_leaves_one_empty_chunk() {
    let cursor = ChunkCursor { offset: 117, chunk_size: 117, chunk_number: 2 };
    assert_eq!(
        cursor.after_success(234),
        Some(ChunkCursor { offset: 234, chunk_size: 117, chunk_number: 3 })
    );
    let last = ChunkCursor { offset: 234, chunk_size: 117, chunk_number: 3 };
    assert_eq!(last.after_success(234), None);
}

#[test]
fn success_past_the_end_completes() {
    let cursor = ChunkCursor { offset: 234, chunk_size: 117, chunk_number: 3 };
    assert_eq!(cursor.after_success(300), None);
    assert_eq!(ChunkCursor::start(117).after_success(0), None);
}

#[test]
fn too_long_halves_the_chunk_size_and_stays() {
    let cursor = ChunkCursor { offset: 234, chunk_size: 117, chunk_number: 3 };
    match cursor.after_too_long(117, 128) {
        Ok(next) => assert_eq!(next, ChunkCursor { offset: 234, chunk_size: 58, chunk_number: 3 }),
        Err(other) => panic!("unexpected {:?}", other),
    }
    let at_floor = ChunkCursor { offset: 0, chunk_size: 20, chunk_number: 1 };
    match at_floor.after_too_long(20, 128) {
        Ok(next) => assert_eq!(next.chunk_size, MIN_CHUNK_SIZE),
        Err(other) => panic!("unexpected {:?}", other),
    }
}

#[test]
fn halving_below_the_floor_fails() {
    let cursor = ChunkCursor { offset: 40, chunk_size: 19, chunk_number: 3 };
    assert_eq!(MIN_CHUNK_SIZE, 10);
    match cursor.after_too_long(19, 30) {
        Err(CryptError::ChunkEncryptionFailure { chunk_number, chunk_len, key_size }) => {
            assert_eq!((chunk_number, chunk_len, key_size), (3, 19, 30));
        }
        other => panic!("unexpected {:?}", other),
    }
}

#[test]
fn capacity_is_size_less_the_padding() {
    assert_eq!(PADDING_OVERHEAD, 11);
    let key = public_key_of_size(128);
    assert_eq!(key.size(), 128);
    assert_eq!(key.capacity(), 117);
    assert_eq!(public_key_of_size(11).capacity(), 0);
    assert_eq!(public_key_of_size(5).capacity(), 0);
    assert_eq!(public_key_of_size(12).capacity(), 1);
}

#[test]
fn size_ignores_leading_zero_bytes_of_the_modulus() {
    let mut modulus = vec![0u8, 0u8];
    modulus.extend_from_slice(&public_key_of_size(64).modulus);
    let key = PublicKey { modulus, exponent: vec![0, 3] };
    assert_eq!(key.size(), 64);
    assert_eq!(key.capacity(), 53);
    let input = vec![9u8; 53];
    match encrypt(&key, &input, false) {
        Ok(Ciphertext::Single(block)) => assert_eq!(block.len(), 64),
        other => panic!("unexpected {:?}", other),
    }
}

#[test]
fn fifty_thousand_bytes_make_428_chunks() {
    let key = public_key_of_size(128);
    let input: Vec<u8> = (0..50_000usize).map(|i| (i % 251) as u8).collect();
    let chunks = encrypt_chunks(&key, &input).expect("chunks");
    assert_eq!(chunks.len(), 428);
    for (index, chunk) in chunks.iter().enumerate() {
        assert_eq!(chunk.number, index + 1);
        assert_eq!(chunk.offset, index * 117);
        assert!(chunk.len <= 117);
        assert_eq!(chunk.ciphertext.len(), 128);
    }
    assert_eq!(chunks[426].len, 117);
    assert_eq!(chunks[427].offset, 49_959);
    assert_eq!(chunks[427].len, 41);
    assert_eq!(chunks.iter().map(|chunk| chunk.len).sum::<usize>(), 50_000);
}

#[test]
fn an_exact_multiple_ends_with_an_empty_chunk() {
    let key = public_key_of_size(64);
    let input = vec![1u8; 2 * 53];
    let chunks = encrypt_chunks(&key, &input).expect("chunks");
    assert_eq!(chunks.len(), 3);
    assert_eq!((chunks[0].offset, chunks[0].len), (0, 53));
    assert_eq!((chunks[1].offset, chunks[1].len), (53, 53));
    assert_eq!((chunks[2].offset, chunks[2].len, chunks[2].number), (106, 0, 3));
    assert_eq!(chunks[2].ciphertext.len(), 64);
}

#[test]
fn an_empty_input_makes_one_empty_chunk() {
    let key = public_key_of_size(64);
    let chunks = encrypt_chunks(&key, &[]).expect("chunks");
    assert_eq!(chunks.len(), 1);
    assert_eq!((chunks[0].number, chunks[0].offset, chunks[0].len), (1, 0, 0));
    assert_eq!(chunks[0].ciphertext.len(), 64);
}

#[test]
fn a_key_with_room_for_one_byte_makes_one_chunk_per_byte() {
    let key = public_key_of_size(12);
    let chunks = encrypt_chunks(&key, &[1, 2, 3, 4, 5]).expect("chunks");
    assert_eq!(chunks.len(), 6);
    assert_eq!(chunks[4].len, 1);
    assert_eq!(chunks[5].len, 0);
}

#[test]
fn a_key_without_room_gives_up_at_the_first_chunk() {
    for size in [11usize, 10, 3] {
        let key = public_key_of_size(size);
        match encrypt_chunks(&key, &[1, 2, 3]) {
            Err(CryptError::ChunkEncryptionFailure { chunk_number, chunk_len, key_size }) => {
                assert_eq!((chunk_number, chunk_len, key_size), (1, 0, size));
            }
            other => panic!("unexpected {:?}", other),
        }
    }
}

#[test]
fn an_unusable_key_fails_the_first_chunk() {
    let mut even = public_key_of_size(64);
    even.modulus[63] = 0x02;
    assert!(matches!(encrypt_chunks(&even, &[1, 2, 3]), Err(CryptError::EncryptionFailure(_))));
    let small_exponent = PublicKey { modulus: public_key_of_size(64).modulus, exponent: vec![1] };
    assert!(matches!(
        encrypt_chunks(&small_exponent, &[1, 2, 3]),
        Err(CryptError::EncryptionFailure(_))
    ));
}

#[test]
fn an_input_that_fits_is_one_block() {
    let key = public_key_of_size(128);
    let input = vec![5u8; 100];
    match encrypt(&key, &input, true) {
        Ok(Ciphertext::Single(block)) => {
            assert_eq!(block.len(), 128);
            assert_ne!(&block[..100], &input[..]);
        }
        other => panic!("unexpected {:?}", other),
    }
    let full = vec![5u8; 117];
    assert!(matches!(encrypt(&key, &full, false), Ok(Ciphertext::Single(_))));
}

#[test]
fn an_empty_input_that_fits_is_one_block() {
    let key = public_key_of_size(128);
    match encrypt(&key, &[], true) {
        Ok(Ciphertext::Single(block)) => assert_eq!(block.len(), 128),
        other => panic!("unexpected {:?}", other),
    }
}

#[test]
fn two_hundred_bytes_exceed_a_128_byte_key() {
    let key = public_key_of_size(128);
    let input = vec![5u8; 200];
    match encrypt(&key, &input, true) {
        Ok(Ciphertext::Chunked(chunks)) => {
            assert_eq!(chunks.len(), 2);
            assert_eq!((chunks[0].len, chunks[1].len), (117, 83));
        }
        other => panic!("unexpected {:?}", other),
    }
    match encrypt(&key, &input, false) {
        Err(CryptError::MessageTooLarge { input_len, capacity }) => {
            assert_eq!((input_len, capacity), (200, 117));
        }
        other => panic!("unexpected {:?}", other),
    }
}

#[test]
fn one_byte_over_the_capacity_needs_chunks() {
    let key = public_key_of_size(128);
    let input = vec![5u8; 118];
    assert!(matches!(encrypt(&key, &input, true), Ok(Ciphertext::Chunked(_))));
    assert!(matches!(encrypt(&key, &input, false), Err(CryptError::MessageTooLarge { .. })));
}

#[test]
fn an_unusable_key_fails_whatever_the_input() {
    let mut even = public_key_of_size(64);
    even.modulus[63] = 0x02;
    assert!(matches!(encrypt(&even, &[1], true), Err(CryptError::EncryptionFailure(_))));
    assert!(matches!(encrypt(&even, &[1u8; 500], false), Err(CryptError::EncryptionFailure(_))));
    let above = PublicKey { modulus: vec![3], exponent: vec![5] };
    assert!(matches!(encrypt(&above, &[], true), Err(CryptError::EncryptionFailure(_))));
}

#[test]
fn encryption_is_randomised() {
    let key = public_key_of_size(128);
    let input = vec![5u8; 50];
    let first = match encrypt(&key, &input, false) {
        Ok(Ciphertext::Single(block)) => block,
        other => panic!("unexpected {:?}", other),
    };
    let second = match encrypt(&key, &input, false) {
        Ok(Ciphertext::Single(block)) => block,
        other => panic!("unexpected {:?}", other),
    };
    assert_ne!(first, second);
}
