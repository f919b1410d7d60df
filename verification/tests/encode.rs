use vw_text::encode::{run_len_encode, zigzag_encode};

#[test]
fn zigzag_test() {
    assert_eq!(zigzag_encode(0), 0);
    assert_eq!(zigzag_encode(-1), 1);
    assert_eq!(zigzag_encode(1), 2);
    assert_eq!(zigzag_encode(-2), 3);
    assert_eq!(zigzag_encode(2), 4);
    assert_eq!(zigzag_encode(-3), 5);
    assert_eq!(zigzag_encode(3), 6);
}

#[test]
fn zigzag_extremes() {
    assert_eq!(zigzag_encode(i64::MAX), u64::MAX - 1);
    assert_eq!(zigzag_encode(i64::MIN), u64::MAX);
}

#[test]
fn run_len_encode_small_values_are_one_byte() {
    assert_eq!(run_len_encode(0), vec![0]);
    assert_eq!(run_len_encode(1), vec![1]);
    assert_eq!(run_len_encode(127), vec![127]);
}

#[test]
fn run_len_encode_continuation_bytes() {
    assert_eq!(run_len_encode(128), vec![128, 1]);
    assert_eq!(run_len_encode(300), vec![172, 2]);
    assert_eq!(run_len_encode(16384), vec![128, 128, 1]);
    assert_eq!(
        run_len_encode(u64::MAX),
        vec![255, 255, 255, 255, 255, 255, 255, 255, 255, 1]
    );
}
