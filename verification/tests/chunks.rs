use zenoh_cdn::chunks::{chunk_span, get_bytes_from_file, write_destination_file};
use zenoh_cdn::error::CdnError;
use zenoh_cdn::types::{can_count_chunks, chunk_count, DEFAULT_CHUNK_SIZE};

fn pattern(len: usize) -> Vec<u8> {
    (0..len).map(|i| (i * 31 % 251) as u8).collect()
}

fn rebuild(file: &[u8], chunk_size: usize, order: &[usize]) -> Vec<u8> {
    let mut dest = vec![0xEEu8; file.len()];
    for &i in order {
        let chunk = get_bytes_from_file(file, i, chunk_size).unwrap();
        assert_eq!(write_destination_file(&mut dest, &chunk, i, chunk_size), Ok(()));
    }
    dest
}

#[test]
fn default_chunk_size_is_one_mebibyte() {
    assert_eq!(DEFAULT_CHUNK_SIZE, 1_048_576);
}

#[test]
fn chunk_count_is_one_more_than_the_full_chunks() {
    assert_eq!(chunk_count(2_500_000, 1_048_576), 3);
    assert_eq!(chunk_count(0, 1_048_576), 1);
    assert_eq!(chunk_count(1, 1_048_576), 1);
    assert_eq!(chunk_count(1_048_575, 1_048_576), 1);
    assert_eq!(chunk_count(10, 3), 4);
    assert_eq!(chunk_count(5, 1), 6);
}

#[test]
fn chunk_count_adds_a_chunk_on_exact_multiples() {
    assert_eq!(chunk_count(1_048_576, 1_048_576), 2);
    assert_eq!(chunk_count(2_097_152, 1_048_576), 3);
    assert_eq!(chunk_count(9, 3), 4);
}

#[test]
fn chunks_can_be_counted_unless_the_size_is_zero_or_the_count_too_large() {
    assert!(can_count_chunks(0, 1));
    assert!(can_count_chunks(2_500_000, 1_048_576));
    assert!(can_count_chunks(u64::MAX, 1_048_576) || usize::MAX as u64 != u64::MAX);
    assert!(can_count_chunks(usize::MAX as u64 - 1, 1));
    assert!(!can_count_chunks(usize::MAX as u64, 1));
    assert!(!can_count_chunks(0, 0));
    assert!(!can_count_chunks(10, 0));
}

#[test]
fn chunk_count_follows_the_formula() {
    for size in 0..200u64 {
        for chunk_size in 1..20usize {
            assert_eq!(chunk_count(size, chunk_size) as u64, size / chunk_size as u64 + 1);
        }
    }
}

#[test]
fn chunk_span_gives_offset_and_length() {
    assert_eq!(chunk_span(2_500_000, 0, 1_048_576), Ok((0, 1_048_576)));
    assert_eq!(chunk_span(2_500_000, 1, 1_048_576), Ok((1_048_576, 1_048_576)));
    assert_eq!(chunk_span(2_500_000, 2, 1_048_576), Ok((2_097_152, 402_848)));
    assert_eq!(chunk_span(10, 3, 3), Ok((9, 1)));
    assert_eq!(chunk_span(0, 0, 5), Ok((0, 0)));
    assert_eq!(chunk_span(7, 5, 0), Ok((0, 0)));
}

#[test]
fn chunk_span_is_empty_right_at_the_end() {
    assert_eq!(chunk_span(2_097_152, 2, 1_048_576), Ok((2_097_152, 0)));
    assert_eq!(chunk_span(9, 3, 3), Ok((9, 0)));
}

#[test]
fn chunk_span_refuses_a_chunk_beyond_the_end() {
    assert_eq!(chunk_span(2_500_000, 3, 1_048_576), Err(CdnError::ChunkOutOfRange));
    assert_eq!(chunk_span(9, 4, 3), Err(CdnError::ChunkOutOfRange));
    assert_eq!(chunk_span(0, 1, 1), Err(CdnError::ChunkOutOfRange));
    assert_eq!(chunk_span(u64::MAX, usize::MAX, usize::MAX), Err(CdnError::ChunkOutOfRange));
}

#[test]
fn get_bytes_from_file_cuts_the_chunk_out() {
    let file = pattern(10);
    assert_eq!(get_bytes_from_file(&file, 0, 4), Ok(file[0..4].to_vec()));
    assert_eq!(get_bytes_from_file(&file, 1, 4), Ok(file[4..8].to_vec()));
    assert_eq!(get_bytes_from_file(&file, 2, 4), Ok(file[8..10].to_vec()));
    assert_eq!(get_bytes_from_file(&file, 0, 100), Ok(file.clone()));
    assert_eq!(get_bytes_from_file(&file, 5, 2), Ok(vec![]));
    assert_eq!(get_bytes_from_file(&[], 0, 4), Ok(vec![]));
}

#[test]
fn get_bytes_from_file_refuses_a_chunk_beyond_the_end() {
    let file = pattern(10);
    assert_eq!(get_bytes_from_file(&file, 3, 4), Err(CdnError::ChunkOutOfRange));
    assert_eq!(get_bytes_from_file(&file, 6, 2), Err(CdnError::ChunkOutOfRange));
    assert_eq!(get_bytes_from_file(&[], 1, 4), Err(CdnError::ChunkOutOfRange));
}

#[test]
fn write_destination_file_writes_at_the_chunks_place() {
    let mut dest = vec![0u8; 10];
    assert_eq!(write_destination_file(&mut dest, &[1, 2, 3], 2, 3), Ok(()));
    assert_eq!(dest, vec![0, 0, 0, 0, 0, 0, 1, 2, 3, 0]);
    assert_eq!(write_destination_file(&mut dest, &[9], 3, 3), Ok(()));
    assert_eq!(dest, vec![0, 0, 0, 0, 0, 0, 1, 2, 3, 9]);
    assert_eq!(write_destination_file(&mut dest, &[7, 7, 7], 0, 3), Ok(()));
    assert_eq!(dest, vec![7, 7, 7, 0, 0, 0, 1, 2, 3, 9]);
}

#[test]
fn write_destination_file_takes_an_empty_chunk_at_the_end() {
    let mut dest = vec![5u8; 6];
    assert_eq!(write_destination_file(&mut dest, &[], 2, 3), Ok(()));
    assert_eq!(dest, vec![5u8; 6]);
    let mut empty: Vec<u8> = vec![];
    assert_eq!(write_destination_file(&mut empty, &[], 0, 3), Ok(()));
}

#[test]
fn write_destination_file_refuses_what_does_not_fit() {
    let mut dest = vec![5u8; 6];
    assert_eq!(write_destination_file(&mut dest, &[1, 2, 3], 2, 2), Err(CdnError::ChunkOutOfRange));
    assert_eq!(dest, vec![5u8; 6]);
    assert_eq!(write_destination_file(&mut dest, &[1], 7, 1), Err(CdnError::ChunkOutOfRange));
    assert_eq!(write_destination_file(&mut dest, &[1], 6, 1), Err(CdnError::ChunkOutOfRange));
    assert_eq!(
        write_destination_file(&mut dest, &[1], usize::MAX, usize::MAX),
        Err(CdnError::ChunkOutOfRange)
    );
    assert_eq!(write_destination_file(&mut dest, &[], 4, 2), Err(CdnError::ChunkOutOfRange));
    assert_eq!(dest, vec![5u8; 6]);
}

#[test]
fn cutting_and_rebuilding_gives_the_file_back() {
    for size in [0usize, 1, 2, 9, 10, 11, 64, 100, 255] {
        let file = pattern(size);
        for chunk_size in [1usize, 2, 3, 5, 10, 64, 1000] {
            let chunks = chunk_count(size as u64, chunk_size);
            let order: Vec<usize> = (0..chunks).collect();
            assert_eq!(rebuild(&file, chunk_size, &order), file, "{} by {}", size, chunk_size);
        }
    }
}

#[test]
fn chunks_may_be_written_in_any_order() {
    let file = pattern(23);
    let chunks = chunk_count(23, 5);
    assert_eq!(chunks, 5);
    assert_eq!(rebuild(&file, 5, &[4, 3, 2, 1, 0]), file);
    assert_eq!(rebuild(&file, 5, &[2, 0, 4, 1, 3]), file);
    assert_eq!(rebuild(&file, 5, &[0, 0, 1, 2, 2, 3, 4, 1]), file);
}

#[test]
fn the_trailing_chunk_of_an_exact_multiple_is_empty() {
    let file = pattern(12);
    let chunks = chunk_count(12, 4);
    assert_eq!(chunks, 4);
    assert_eq!(get_bytes_from_file(&file, 3, 4), Ok(vec![]));
    assert_eq!(rebuild(&file, 4, &[0, 1, 2, 3]), file);
}
