use rle_decode::{check_request, rle_decode, RequestError};

#[test]
fn test_basic() {
    let mut buf = vec![1, 2, 3, 4, 5];
    rle_decode(&mut buf, 3, 10);
    assert_eq!(buf, &[1, 2, 3, 4, 5, 3, 4, 5, 3, 4, 5, 3, 4, 5, 3]);
}

#[test]
fn test_zero_repeat() {
    let mut buf = vec![1, 2, 3, 4, 5];
    rle_decode(&mut buf, 3, 0);
    assert_eq!(buf, &[1, 2, 3, 4, 5]);
}

#[test]
fn fragment_is_whole_buffer() {
    let mut buf = vec![7u8, 8];
    rle_decode(&mut buf, 2, 5);
    assert_eq!(buf, vec![7, 8, 7, 8, 7, 8, 7]);
}

#[test]
fn doubling_round_boundaries() {
    let mut buf = vec![1u32];
    rle_decode(&mut buf, 1, 7);
    assert_eq!(buf, vec![1, 1, 1, 1, 1, 1, 1, 1]);
    assert_eq!(buf.len(), 8);
}

#[test]
fn matches_one_at_a_time_expansion() {
    let start: Vec<u16> = vec![9, 4, 1, 6, 2, 8, 5];
    for f in 1..=start.len() {
        for n in 0..40usize {
            let mut fast = start.clone();
            rle_decode(&mut fast, f, n);
            let mut naive = start.clone();
            let base = start.len() - f;
            for i in 0..n {
                naive.push(start[base + i % f]);
            }
            assert_eq!(fast, naive);
            assert_eq!(fast.len(), start.len() + n);
        }
    }
}

#[test]
fn zero_fill_keeps_buffer() {
    for f in 1..=4usize {
        let mut buf = vec![3i64, -1, 4, -1];
        rle_decode(&mut buf, f, 0);
        assert_eq!(buf, vec![3, -1, 4, -1]);
    }
}

#[test]
fn pair_elements_are_copied() {
    let mut buf = vec![(1u8, 'a'), (2u8, 'b')];
    rle_decode(&mut buf, 1, 3);
    assert_eq!(buf, vec![(1, 'a'), (2, 'b'), (2, 'b'), (2, 'b'), (2, 'b')]);
}

#[test]
fn large_fill_from_single_byte() {
    let mut buf = vec![0xABu8];
    rle_decode(&mut buf, 1, 100_000);
    assert_eq!(buf.len(), 100_001);
    assert!(buf.iter().all(|&b| b == 0xAB));
}

#[test]
fn zero_fragment_is_refused() {
    assert_eq!(check_request(5, 0, 10), Err(RequestError::ZeroFragment));
    assert_eq!(check_request(5, 0, 0), Err(RequestError::ZeroFragment));
    assert_eq!(check_request(0, 0, 0), Err(RequestError::ZeroFragment));
}

#[test]
fn fragment_longer_than_buffer_is_refused() {
    assert_eq!(check_request(5, 10, 10), Err(RequestError::FragmentExceedsBuffer));
    assert_eq!(check_request(0, 1, 0), Err(RequestError::FragmentExceedsBuffer));
}

#[test]
fn size_overflow_is_refused() {
    assert_eq!(check_request(5, 4, usize::MAX), Err(RequestError::SizeOverflow));
    assert_eq!(check_request(1, 1, usize::MAX), Err(RequestError::SizeOverflow));
}

#[test]
fn valid_requests_are_accepted() {
    assert_eq!(check_request(5, 3, 10), Ok(()));
    assert_eq!(check_request(5, 5, 0), Ok(()));
    assert_eq!(check_request(0, 0, 0).is_ok(), false);
    assert_eq!(check_request(1, 1, usize::MAX - 1), Ok(()));
}
