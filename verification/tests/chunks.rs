use fetcher::chunks::{count_ranges, permits, split_ranges};

#[test]
fn ranges_cover_the_bytes() {
    assert_eq!(split_ranges(10, 4), vec![(0, 3), (4, 7), (8, 9)]);
    assert_eq!(split_ranges(8, 4), vec![(0, 3), (4, 7)]);
    assert_eq!(split_ranges(1, 10485760), vec![(0, 0)]);
    assert_eq!(split_ranges(0, 4), vec![]);
    assert_eq!(split_ranges(3, 1), vec![(0, 0), (1, 1), (2, 2)]);
    assert_eq!(
        split_ranges(u64::MAX, u64::MAX - 1),
        vec![(0, u64::MAX - 2), (u64::MAX - 1, u64::MAX - 1)]
    );
}

#[test]
fn each_byte_lies_in_one_range() {
    for total in [1u64, 5, 12, 13] {
        for chunk in [1u64, 2, 5, 20] {
            let ranges = split_ranges(total, chunk);
            for byte in 0..total {
                let found = ranges.iter().filter(|r| r.0 <= byte && byte <= r.1).count();
                assert_eq!(found, 1);
            }
            let held: u64 = ranges.iter().map(|r| r.1 - r.0 + 1).sum();
            assert_eq!(held, total);
            assert!(ranges.windows(2).all(|w| w[1].0 == w[0].1 + 1));
        }
    }
}

#[test]
fn permits_are_bounded() {
    assert_eq!(permits(8, 3), 3);
    assert_eq!(permits(2, 3), 2);
    assert_eq!(permits(0, 3), 1);
    assert_eq!(permits(8, 0), 1);
    assert_eq!(permits(0, 0), 1);
}

#[test]
fn ranges_are_counted() {
    assert_eq!(count_ranges(0, 4), 0);
    assert_eq!(count_ranges(8, 4), 2);
    assert_eq!(count_ranges(9, 4), 3);
    assert_eq!(count_ranges(u64::MAX, 1), u64::MAX);
    assert_eq!(count_ranges(100, 7), split_ranges(100, 7).len() as u64);
}
