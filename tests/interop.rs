use arb_interop::{arb, arb_sized, size_for_hint, ArbInterop, ArbValueTree, NewTreeError};
use proptest::test_runner::{Config, RngAlgorithm, TestRng, TestRunner};

fn runner_over(bytes: &[u8]) -> TestRunner {
    TestRunner::new_with_rng(Config::default(), TestRng::from_seed(RngAlgorithm::PassThrough, bytes))
}

#[test]
fn single_byte_end_to_end() {
    let mut run = runner_over(&[200]);
    let strategy = arb_sized::<u8>(1);
    assert_eq!(strategy.size(), 1);
    let mut tree = strategy.new_tree(&mut run).unwrap();
    assert_eq!(tree.current(), 200);
    // The empty prefix decodes too: a missing byte reads as 0.
    assert!(tree.simplify());
    assert_eq!(tree.current(), 0);
    // The cursor is at 0 now: no further shrinking, ever.
    assert!(!tree.simplify());
    assert!(!tree.simplify());
    assert_eq!(tree.current(), 0);
    assert!(tree.complicate());
    assert_eq!(tree.current(), 200);
    assert!(!tree.complicate());
    assert_eq!(tree.current(), 200);
}

#[test]
fn new_tree_decodes_drawn_bytes() {
    let mut run = runner_over(&[7, 1, 9, 9]);
    let mut tree = arb_sized::<u16>(2).new_tree(&mut run).unwrap();
    assert_eq!(tree.current(), 263);
    assert!(tree.simplify());
    assert_eq!(tree.current(), 7);
}

#[test]
fn new_tree_with_zero_size() {
    let mut run = runner_over(&[5]);
    let mut tree = arb_sized::<u32>(0).new_tree(&mut run).unwrap();
    assert_eq!(tree.current(), 0);
    assert!(!tree.simplify());
    assert!(!tree.complicate());
}

#[test]
fn cursor_only_decreases_until_stuck() {
    let mut tree = ArbValueTree::<u16>::new(vec![1, 2, 3]).unwrap();
    assert_eq!(tree.current(), 513);
    assert!(tree.simplify());
    assert_eq!(tree.current(), 513);
    assert!(tree.simplify());
    assert_eq!(tree.current(), 1);
    assert!(tree.simplify());
    assert_eq!(tree.current(), 0);
    for _ in 0..5 {
        assert!(!tree.simplify());
        assert_eq!(tree.current(), 0);
    }
}

#[test]
fn undo_is_single_level() {
    let mut tree = ArbValueTree::<u32>::new(vec![1, 2, 3, 4]).unwrap();
    assert_eq!(tree.current(), 67_305_985);
    assert!(tree.simplify());
    assert_eq!(tree.current(), 197_121);
    assert!(tree.simplify());
    assert_eq!(tree.current(), 513);
    assert!(tree.complicate());
    assert_eq!(tree.current(), 197_121);
    assert!(!tree.complicate());
    assert_eq!(tree.current(), 197_121);
}

#[test]
fn complicate_without_simplify_fails() {
    let mut tree = ArbValueTree::<u8>::new(vec![42]).unwrap();
    assert!(!tree.complicate());
    assert_eq!(tree.current(), 42);
}

#[test]
fn construction_is_deterministic() {
    let bytes = vec![0xde, 0xad, 0xbe, 0xef, 0x01, 0x02, 0x03, 0x04];
    let a = ArbValueTree::<u64>::new(bytes.clone()).unwrap();
    let b = ArbValueTree::<u64>::new(bytes).unwrap();
    assert_eq!(a.current(), b.current());
    assert_eq!(a.current(), 0x0403_0201_efbe_adde);
}

#[test]
fn decoded_value_outlives_its_bytes() {
    let mut bytes = vec![9u8, 8];
    let v = u16::decode(&bytes).unwrap();
    bytes[0] = 0;
    bytes.clear();
    drop(bytes);
    assert_eq!(v, 2057);

    let owned = vec![9u8, 8];
    let tree = ArbValueTree::<u16>::new(owned).unwrap();
    assert_eq!(tree.current(), 2057);
}

#[test]
fn integers_decode_little_endian_zero_padded() {
    assert_eq!(u8::decode(&[]).unwrap(), 0);
    assert_eq!(u8::decode(&[255, 1]).unwrap(), 255);
    assert_eq!(u16::decode(&[0x34, 0x12]).unwrap(), 0x1234);
    assert_eq!(u16::decode(&[0x34]).unwrap(), 0x34);
    assert_eq!(u32::decode(&[1, 0, 0, 1, 77]).unwrap(), 0x0100_0001);
    assert_eq!(u64::decode(&[0, 1]).unwrap(), 256);
    assert_eq!(u64::decode(&[255; 8]).unwrap(), u64::MAX);
}

#[test]
fn bool_decodes_lowest_bit() {
    assert!(bool::decode(&[3]).unwrap());
    assert!(!bool::decode(&[2]).unwrap());
    assert!(!bool::decode(&[]).unwrap());
}

#[test]
fn duplicate_keeps_value() {
    assert_eq!(77u32.duplicate(), 77);
    assert!(true.duplicate());
}

#[test]
fn size_hints_are_exact_for_integers() {
    assert_eq!(u8::size_hint(0), (1, Some(1)));
    assert_eq!(u16::size_hint(0), (2, Some(2)));
    assert_eq!(u32::size_hint(3), (4, Some(4)));
    assert_eq!(u64::size_hint(0), (8, Some(8)));
    assert_eq!(bool::size_hint(0), (1, Some(1)));
}

#[test]
fn size_for_hint_prefers_upper_bound() {
    assert_eq!(size_for_hint(4, Some(10)), 10);
    assert_eq!(size_for_hint(0, Some(0)), 0);
}

#[test]
fn size_for_hint_defaults_to_256() {
    assert_eq!(size_for_hint(4, None), 256);
    assert_eq!(size_for_hint(128, None), 256);
    assert_eq!(size_for_hint(200, None), 400);
    assert_eq!(size_for_hint(usize::MAX, None), usize::MAX);
}

#[test]
fn arb_sizes_from_hint() {
    assert_eq!(arb::<u8>().size(), 1);
    assert_eq!(arb::<u32>().size(), 4);
    assert_eq!(arb::<u64>().size(), 8);
    assert_eq!(arb::<bool>().size(), 1);
}

#[test]
fn strategies_of_one_size_are_equal() {
    let a = arb_sized::<u16>(12);
    let b = a.clone();
    let c = a;
    assert_eq!(a, b);
    assert_eq!(b, c);
    assert_eq!(b.size(), 12);
    assert_ne!(arb_sized::<u16>(3), arb_sized::<u16>(4));
    assert!(arb_sized::<u16>(3) < arb_sized::<u16>(4));
}

#[test]
fn mixed_run_shrinks_at_most_buffer_length() {
    let mut tree = ArbValueTree::<u16>::new(vec![5, 6, 7]).unwrap();
    let mut successes = 0;
    for round in 0..10 {
        if tree.simplify() {
            successes += 1;
        }
        if round % 2 == 0 {
            tree.complicate();
        }
    }
    assert!(successes <= 3);
    assert!(!tree.simplify());
    let _ = format!("{tree:?}");
}
