use xhc_core::registers::runtime::mask_16_bits;

#[test]
fn it_mask_16_bits() {
    let addr: u32 = 0b1000_0000_0000_0000_1000_1111_0000_1111;
    assert_eq!(mask_16_bits(addr), 0b1000_1111_0000_1111);
}
