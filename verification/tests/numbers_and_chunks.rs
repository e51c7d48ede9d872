use chuncord::chunks::{chunk_window, count_chunks, MAX_CHUNK_BYTES};
use chuncord::decimal::{parse_u64, to_decimal};
use chuncord::read_ext::{read_max, ReadStep};

#[test]
fn decimal_writes_canonical_numerals() {
    assert_eq!(to_decimal(0), "0");
    assert_eq!(to_decimal(7), "7");
    assert_eq!(to_decimal(10), "10");
    assert_eq!(to_decimal(26_210_000), "26210000");
    assert_eq!(to_decimal(u64::MAX), "18446744073709551615");
}

#[test]
fn decimal_reads_numerals_and_nothing_else() {
    assert_eq!(parse_u64("0"), Some(0));
    assert_eq!(parse_u64("007"), Some(7));
    assert_eq!(parse_u64("+15"), Some(15));
    assert_eq!(parse_u64("18446744073709551615"), Some(u64::MAX));
    assert_eq!(parse_u64("18446744073709551616"), None);
    assert_eq!(parse_u64("99999999999999999999999"), None);
    assert_eq!(parse_u64(""), None);
    assert_eq!(parse_u64("+"), None);
    assert_eq!(parse_u64("-1"), None);
    assert_eq!(parse_u64("1 "), None);
    assert_eq!(parse_u64("1_000"), None);
    assert_eq!(parse_u64("12a"), None);
    assert_eq!(parse_u64("++1"), None);
}

#[test]
fn decimal_reading_undoes_writing() {
    for n in [0u64, 1, 9, 10, 99, 100, 12345, u64::MAX - 1, u64::MAX] {
        assert_eq!(parse_u64(&to_decimal(n)), Some(n));
    }
}

#[test]
fn chunk_count_rounds_up_and_is_never_zero() {
    assert_eq!(count_chunks(0, 8), 1);
    assert_eq!(count_chunks(1, 8), 1);
    assert_eq!(count_chunks(3, 8), 1);
    assert_eq!(count_chunks(8, 8), 1);
    assert_eq!(count_chunks(9, 8), 2);
    assert_eq!(count_chunks(16, 8), 2);
    assert_eq!(count_chunks(17, 8), 3);
    assert_eq!(count_chunks(u64::MAX, 1), u64::MAX);
    assert_eq!(count_chunks(u64::MAX, u64::MAX), 1);
    assert_eq!(count_chunks(52_420_001, MAX_CHUNK_BYTES), 3);
    assert_eq!(MAX_CHUNK_BYTES, 26_210_000);
}

#[test]
fn chunk_windows_tile_the_file() {
    for (size, bound) in [(0u64, 8u64), (3, 8), (8, 8), (16, 8), (17, 8), (100, 7), (5, 1)] {
        let n = count_chunks(size, bound);
        let mut at = 0;
        for k in 0..n {
            let (offset, length) = chunk_window(size, bound, k);
            assert_eq!(offset, at);
            assert!(length <= bound);
            if k + 1 < n {
                assert_eq!(length, bound);
            }
            if size > 0 {
                assert!(length > 0);
            }
            at += length;
        }
        assert_eq!(at, size);
    }
}

#[test]
fn chunks_put_together_in_order_are_the_file() {
    for size in [0usize, 1, 7, 8, 9, 16, 23, 24] {
        let data: Vec<u8> = (0..size).map(|i| (i * 7 + 3) as u8).collect();
        let bound = 8u64;
        let mut back = Vec::new();
        for k in 0..count_chunks(size as u64, bound) {
            let (offset, length) = chunk_window(size as u64, bound, k);
            back.extend_from_slice(&data[offset as usize..(offset + length) as usize]);
        }
        assert_eq!(back, data);
    }
}

#[test]
fn read_max_asks_again_until_full_or_end() {
    assert_eq!(read_max(0, 10, None), ReadStep::Again { filled: 0 });
    assert_eq!(read_max(0, 0, None), ReadStep::Done { bytes_read: 0 });
    assert_eq!(read_max(0, 10, Some(4)), ReadStep::Again { filled: 4 });
    assert_eq!(read_max(4, 10, Some(6)), ReadStep::Done { bytes_read: 10 });
    assert_eq!(read_max(4, 10, Some(0)), ReadStep::Done { bytes_read: 4 });
    assert_eq!(read_max(0, 10, Some(10)), ReadStep::Done { bytes_read: 10 });
}
