use wasm_vm_core::hart::fregs::{FRegs, CANONICAL_NAN_F32};

#[test]
fn write_f32_boxes_and_read_f32_unboxes() {
    let mut f = FRegs::default();
    f.write_f32(3, 0x4048_0000);
    assert_eq!(f.read_raw(3), 0xFFFF_FFFF_4048_0000, "upper bits are all-ones box");
    assert_eq!(f.read_f32(3), 0x4048_0000);
}

#[test]
fn non_boxed_value_reads_as_canonical_nan() {
    let mut f = FRegs::default();
    f.write_raw(5, 0x3ff0_0000_0000_0000);
    assert_eq!(f.read_f32(5), CANONICAL_NAN_F32, "unboxed → canonical qNaN");
    f.write_raw(6, 0xFFFF_FFFE_1234_5678);
    assert_eq!(f.read_f32(6), CANONICAL_NAN_F32);
    f.write_raw(7, 0xFFFF_FFFF_7FC0_0001);
    assert_eq!(f.read_f32(7), 0x7FC0_0001);
}

#[test]
fn f0_is_an_ordinary_register() {
    let mut f = FRegs::default();
    f.write_f32(0, 0x1234_5678);
    assert_eq!(f.read_f32(0), 0x1234_5678, "f0 is not hardwired zero");
}

#[test]
fn registers_are_independent() {
    let mut f = FRegs::default();
    for n in 0..32u8 {
        f.write_raw(n, 0x0101_0101_0101_0101u64.wrapping_mul(u64::from(n) + 1));
    }
    for n in 0..32u8 {
        assert_eq!(f.read_raw(n), 0x0101_0101_0101_0101u64.wrapping_mul(u64::from(n) + 1));
    }
}
