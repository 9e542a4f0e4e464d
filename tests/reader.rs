use media_sort::util::io::StepableBuffReader;

const SAMPLE: [u8; 10] = [1, 2, 3, 4, 5, 6, 7, 8, 9, 10];

fn sample() -> StepableBuffReader<'static> {
    StepableBuffReader::new(&SAMPLE)
}

#[test]
fn reader_starts_at_zero_with_all_bytes_available() {
    let r = sample();
    assert_eq!(r.total_offset(), 0);
    assert_eq!(r.available(), 10);
}

#[test]
fn peak_does_not_move() {
    let r = sample();
    assert_eq!(r.peak(3), vec![1, 2, 3]);
    assert_eq!(r.peak(3), vec![1, 2, 3]);
    assert_eq!(r.total_offset(), 0);
}

#[test]
fn increment_moves_while_bytes_remain() {
    let mut r = sample();
    assert!(r.increment());
    assert_eq!(r.peak(1), vec![2]);
    assert!(r.increment_by(9));
    assert_eq!(r.available(), 0);
    assert!(!r.increment());
    assert_eq!(r.total_offset(), 10);
}

#[test]
fn increment_by_past_the_end_fails_and_stays() {
    let mut r = sample();
    assert!(r.increment_by(4));
    assert!(!r.increment_by(7));
    assert_eq!(r.total_offset(), 4);
    assert!(!r.increment_by(5000));
    assert_eq!(r.total_offset(), 4);
}

#[test]
fn read_consumes() {
    let mut r = sample();
    assert_eq!(r.read(4), vec![1, 2, 3, 4]);
    assert_eq!(r.read(2), vec![5, 6]);
    assert_eq!(r.total_offset(), 6);
}

#[test]
fn read_u32_in_both_orders() {
    let mut r = StepableBuffReader::new(&[0x12, 0x34, 0x56, 0x78, 0x12, 0x34, 0x56, 0x78]);
    assert_eq!(r.read_u32(true), 0x12345678);
    assert_eq!(r.read_u32(false), 0x78563412);
}

#[test]
fn read_to_end_returns_the_rest() {
    let mut r = sample();
    r.increment_by(7);
    assert_eq!(r.rest(), &[8, 9, 10]);
    assert_eq!(r.total_offset(), 7);
    assert_eq!(r.read_to_end(), vec![8, 9, 10]);
    assert_eq!(r.available(), 0);
}

#[test]
fn compare_bytes_moves_only_on_match() {
    let mut r = sample();
    assert!(!r.compare_bytes(vec![1, 3]));
    assert_eq!(r.total_offset(), 0);
    assert!(r.compare_bytes(vec![1, 2]));
    assert_eq!(r.total_offset(), 2);
}

#[test]
fn compare_endian_bytes_reverses_for_little_endian() {
    let mut r = StepableBuffReader::new(&[0x2a, 0x00, 0x00, 0x2a]);
    assert!(!r.compare_endian_bytes(vec![0x00, 0x2a], true));
    assert!(r.compare_endian_bytes(vec![0x00, 0x2a], false));
    assert!(r.compare_endian_bytes(vec![0x00, 0x2a], true));
    assert_eq!(r.available(), 0);
}

#[test]
fn compare_multiple_bytes_takes_the_first_match() {
    let mut r = sample();
    assert!(!r.compare_multiple_bytes(vec![vec![2], vec![3]]));
    assert!(r.compare_multiple_bytes(vec![vec![9], vec![1, 2, 3], vec![1]]));
    assert_eq!(r.total_offset(), 3);
}

#[test]
fn read_from_goes_to_an_absolute_offset() {
    let mut r = sample();
    assert_eq!(r.read_from(5, 3), vec![6, 7, 8]);
    assert_eq!(r.total_offset(), 8);
    assert_eq!(r.read_from(1, 2), vec![2, 3]);
    assert_eq!(r.total_offset(), 3);
}
