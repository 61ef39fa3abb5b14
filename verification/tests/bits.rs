use bevm::bits::{bit_at, set_bit_at, sub_sum};

#[test]
fn test_sub_sum() {
    assert_eq!(sub_sum(0xFu16, 3, 0), 0xF);
    assert_eq!(sub_sum(0xFu16, 2, 0), 0x7);
    assert_eq!(sub_sum(0xCu16, 3, 0), 0xC);
    assert_eq!(sub_sum(0xCu16, 2, 0), 0x4);
    assert_eq!(sub_sum(0xAu16, 3, 0), 0xA);
    assert_eq!(sub_sum(0xAu16, 2, 0), 0x2);
}

#[test]
fn bit_at_reads_each_bit() {
    assert!(bit_at(0x8000, 15));
    assert!(!bit_at(0x8000, 14));
    assert!(bit_at(0x0001, 0));
    assert!(!bit_at(0xFFFF, 16));
    assert!(!bit_at(0xFFFF, 200));
}

#[test]
fn set_bit_at_changes_one_bit() {
    assert_eq!(set_bit_at(0, 3, true), 8);
    assert_eq!(set_bit_at(0xFFFF, 3, false), 0xFFF7);
    assert_eq!(set_bit_at(0x1234, 16, true), 0x1234);
}
