use wasm_bench::cpu_hash::{digest, digest_reply, FNV_OFFSET_BASIS, FNV_PRIME, HASH_PASSES};
use wasm_bench::encoding::{u32_to_be, u32_to_le, u64_to_le};
use wasm_bench::mem_random::{scatter, scatter_slot, TABLE_SIZE};
use wasm_bench::mem_stream::{fill_cyclic, stream_reply, stream_sum, sum_bytes, STREAM_SIZE};
use wasm_bench::net_checksum::{checksum, checksum_reply};
use wasm_bench::net_scan::{count_markers, count_reply};

fn fnv_reference(mut h: u64, data: &[u8]) -> u64 {
    for &b in data {
        h ^= b as u64;
        h = h.wrapping_mul(0x100000001b3);
    }
    h
}

#[test]
fn encodings_put_bytes_in_order() {
    assert_eq!(u32_to_le(0x1234_5678), vec![0x78, 0x56, 0x34, 0x12]);
    assert_eq!(u32_to_be(0x1234_5678), vec![0x12, 0x34, 0x56, 0x78]);
    assert_eq!(
        u64_to_le(0x0102_0304_0506_0708),
        vec![0x08, 0x07, 0x06, 0x05, 0x04, 0x03, 0x02, 0x01]
    );
    assert_eq!(u32_to_le(0x1234_5678), 0x1234_5678u32.to_le_bytes().to_vec());
    assert_eq!(u32_to_be(0xdead_beef), 0xdead_beefu32.to_be_bytes().to_vec());
    assert_eq!(u64_to_le(u64::MAX - 5), (u64::MAX - 5).to_le_bytes().to_vec());
}

#[test]
fn encodings_read_back_to_the_value() {
    for &x in &[0u32, 1, 0x80, 0xffff_ffff, 0x0a0b_0c0d] {
        let le = u32_to_le(x);
        assert_eq!(u32::from_le_bytes([le[0], le[1], le[2], le[3]]), x);
        let be = u32_to_be(x);
        assert_eq!(u32::from_be_bytes([be[0], be[1], be[2], be[3]]), x);
    }
    let v = u64_to_le(0x1122_3344_5566_7788);
    let mut a = [0u8; 8];
    a.copy_from_slice(&v);
    assert_eq!(u64::from_le_bytes(a), 0x1122_3344_5566_7788);
}

#[test]
fn checksum_of_empty_packet_is_all_ones() {
    assert_eq!(checksum(&[]), 0xffff_ffff);
}

#[test]
fn checksum_reads_big_endian_words() {
    assert_eq!(checksum(&[0x01, 0x02]), !0x0102u32);
    assert_eq!(checksum(&[0x01, 0x02, 0x03, 0x04]), !(0x0102u32 + 0x0304));
}

#[test]
fn checksum_counts_a_trailing_odd_byte_unshifted() {
    assert_eq!(checksum(&[0x01, 0x02, 0x03]), !(0x0102u32 + 0x03));
    assert_eq!(checksum(&[0xff]), !0xffu32);
}

#[test]
fn checksum_wraps_modulo_two_to_the_32() {
    // 65538 words of 0xffff sum to 65538 * 65535 = 2^32 + 65534.
    let data = vec![0xffu8; 2 * 65538];
    assert_eq!(checksum(&data), !65534u32);
}

#[test]
fn checksum_splits_at_even_boundaries() {
    let a = [0x12u8, 0x34, 0x56, 0x78];
    let b = [0x9au8, 0xbc, 0xde];
    let mut ab = a.to_vec();
    ab.extend_from_slice(&b);
    let sum_a = !checksum(&a);
    let sum_b = !checksum(&b);
    assert_eq!(checksum(&ab), !(sum_a.wrapping_add(sum_b)));
}

#[test]
fn checksum_reply_is_big_endian() {
    let data = [0x00u8, 0x01];
    assert_eq!(checksum_reply(&data), (!1u32).to_be_bytes().to_vec());
    assert_eq!(checksum_reply(&data), vec![0xff, 0xff, 0xff, 0xfe]);
}

#[test]
fn digest_of_empty_request_is_offset_basis() {
    assert_eq!(digest(&[]), FNV_OFFSET_BASIS);
    assert_eq!(FNV_OFFSET_BASIS, 0xcbf29ce484222325);
    assert_eq!(FNV_PRIME, 0x100000001b3);
}

#[test]
fn digest_continues_across_passes() {
    let data = b"hello";
    let mut h = FNV_OFFSET_BASIS;
    for _ in 0..HASH_PASSES {
        h = fnv_reference(h, data);
    }
    assert_eq!(digest(data), h);
}

#[test]
fn digest_is_fnv1a_of_the_repeated_request() {
    let data = b"GET /";
    let repeated: Vec<u8> = data.repeat(HASH_PASSES as usize);
    assert_eq!(digest(data), fnv_reference(FNV_OFFSET_BASIS, &repeated));
}

#[test]
fn single_fnv_pass_matches_known_value() {
    // FNV-1a 64 of "a" is 0xaf63dc4c8601ec8c.
    assert_eq!(fnv_reference(FNV_OFFSET_BASIS, b"a"), 0xaf63dc4c8601ec8c);
}

#[test]
fn digest_reply_is_little_endian() {
    let data = b"xyz";
    assert_eq!(digest_reply(data), digest(data).to_le_bytes().to_vec());
}

#[test]
fn scan_counts_request_line_markers() {
    assert_eq!(count_markers(b"GET / HTTP/1.1\r\n"), 2);
    assert_eq!(count_markers(b"POSTPOST"), 2);
    assert_eq!(count_markers(b"HTTPOST"), 2);
    assert_eq!(count_markers(b"get / http"), 0);
    assert_eq!(count_markers(b"GET"), 0);
    assert_eq!(count_markers(b""), 0);
    assert_eq!(count_markers(b"HTTP"), 1);
    assert_eq!(count_markers(b"GET "), 1);
}

#[test]
fn scan_of_concatenation_finds_at_least_the_parts() {
    let a = b"xxHTT";
    let b = b"PGET y";
    let mut ab = a.to_vec();
    ab.extend_from_slice(b);
    assert_eq!(count_markers(a), 0);
    assert_eq!(count_markers(b), 1);
    assert_eq!(count_markers(&ab), 2);
}

#[test]
fn scan_reply_is_little_endian() {
    assert_eq!(count_reply(b"POST / HTTP"), vec![2, 0, 0, 0]);
}

#[test]
fn stream_buffer_cycles_through_request() {
    let buf = fill_cyclic(&[1, 2, 3]);
    assert_eq!(buf.len(), STREAM_SIZE);
    assert_eq!(&buf[..7], &[1, 2, 3, 1, 2, 3, 1]);
    assert_eq!(buf[STREAM_SIZE - 1], [1u8, 2, 3][(STREAM_SIZE - 1) % 3]);
}

#[test]
fn stream_sum_of_single_byte() {
    assert_eq!(stream_sum(&[1]), STREAM_SIZE as u64);
    assert_eq!(stream_sum(&[255]), 255 * STREAM_SIZE as u64);
}

#[test]
fn stream_sum_counts_whole_cycles_and_the_rest() {
    let input = [1u8, 2, 3];
    let cycles = (STREAM_SIZE / 3) as u64;
    let rest = STREAM_SIZE % 3;
    let rest_sum: u64 = input[..rest].iter().map(|&b| b as u64).sum();
    assert_eq!(stream_sum(&input), cycles * 6 + rest_sum);
    assert_eq!(stream_sum(&input), 33_554_431);
}

#[test]
fn sum_bytes_adds_all_bytes() {
    assert_eq!(sum_bytes(&[]), 0);
    assert_eq!(sum_bytes(&[10, 20, 255]), 285);
}

#[test]
fn stream_reply_is_little_endian() {
    assert_eq!(stream_reply(&[2]), (2 * STREAM_SIZE as u64).to_le_bytes().to_vec());
}

#[test]
fn scatter_slots_follow_the_multiplier() {
    assert_eq!(scatter_slot(0), 0);
    assert_eq!(scatter_slot(1), (2_654_435_761u64 % TABLE_SIZE as u64) as usize);
    assert_eq!(scatter_slot(255), ((255u64 * 2_654_435_761) % TABLE_SIZE as u64) as usize);
    // The same position whether the product is taken in 32 or 64 bits.
    for b in 0..=255u8 {
        let narrow = (b as u32).wrapping_mul(2_654_435_761u32) as usize % TABLE_SIZE;
        assert_eq!(scatter_slot(b), narrow);
    }
}

#[test]
fn scatter_counts_bumps_modulo_256() {
    let input = [1u8, 2, 3];
    let table = scatter(&input);
    assert_eq!(table.len(), TABLE_SIZE);
    // 8 Mi steps over 3 bytes: bytes 1 and 2 get 2796203 bumps, byte 3 gets 2796202.
    assert_eq!(table[scatter_slot(1)], (2_796_203u32 % 256) as u8);
    assert_eq!(table[scatter_slot(2)], (2_796_203u32 % 256) as u8);
    assert_eq!(table[scatter_slot(3)], (2_796_202u32 % 256) as u8);
    let sources = [scatter_slot(1), scatter_slot(2), scatter_slot(3)];
    for (j, &c) in table.iter().enumerate() {
        if c != 0 {
            assert!(sources.contains(&j));
        }
    }
}

#[test]
fn scatter_of_one_byte_wraps_to_zero() {
    // 8 Mi bumps of one counter wrap to 0.
    let table = scatter(&[7]);
    assert!(table.iter().all(|&c| c == 0));
}

#[test]
fn checksum_ignores_word_order() {
    let a = [0x12u8, 0x34, 0xab, 0xcd, 0x00, 0x07];
    let b = [0x00u8, 0x07, 0x12, 0x34, 0xab, 0xcd];
    assert_eq!(checksum(&a), checksum(&b));
    // swapping bytes inside a word changes the word, and the checksum
    let c = [0x34u8, 0x12, 0xab, 0xcd, 0x00, 0x07];
    assert_ne!(checksum(&a), checksum(&c));
}

#[test]
fn sum_bytes_beyond_the_stream_size() {
    let buf = vec![255u8; STREAM_SIZE + 10];
    assert_eq!(sum_bytes(&buf), 255 * (STREAM_SIZE as u64 + 10));
}
