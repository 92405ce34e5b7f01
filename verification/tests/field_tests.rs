use periph_guard::device::{RegisterBlock, RegisterDesc, RegisterKind};
use periph_guard::field::Field;
use periph_guard::AccessError;

fn one_reg_block(reset_value: u32) -> RegisterBlock {
    RegisterBlock::new(vec![RegisterDesc {
        reset_value,
        kind: RegisterKind::ReadModifyWrite,
    }])
}

// A two-bit pin-mode field with named enumerants, as a GPIO mode field
// would declare them.
const MODE_INPUT: u32 = 0b00;
const MODE_OUTPUT: u32 = 0b01;
const MODE_ALTERNATE: u32 = 0b10;
const MODE_ANALOG: u32 = 0b11;

#[test]
fn field_round_trip_every_enumerant() {
    // write_field then read_field returns the written enumerant, for
    // every declared enumerant of the field.
    let moder9 = Field { offset: 18, width: 2 };
    for &v in &[MODE_INPUT, MODE_OUTPUT, MODE_ALTERNATE, MODE_ANALOG] {
        let mut blk = one_reg_block(0xffff_ffff);
        blk.write_field(0, moder9, v).unwrap();
        assert_eq!(blk.read_field(0, moder9), v);
    }
}

#[test]
fn enumerant_and_raw_integer_resolve_alike() {
    // A named enumerant and the raw integer with the same bit pattern
    // are the same value to the layer.
    let moder7 = Field { offset: 14, width: 2 };
    let mut by_name = one_reg_block(0);
    let mut by_raw = one_reg_block(0);
    by_name.write_field(0, moder7, MODE_OUTPUT).unwrap();
    by_raw.write_field(0, moder7, 0b01).unwrap();
    assert_eq!(by_name.read(0), by_raw.read(0));
}

#[test]
fn invalid_field_value_rejected_register_untouched() {
    let one_bit = Field { offset: 9, width: 1 };
    let mut blk = one_reg_block(0x55);
    let res = blk.write_field(0, one_bit, 2);
    assert_eq!(res, Err(AccessError::InvalidFieldValue));
    // Rejected, not truncated: nothing was programmed.
    assert_eq!(blk.read(0), 0x55);
}

#[test]
fn read_field_is_lsb_first_unsigned() {
    // Reading a field wider than one bit returns the unsigned integer
    // formed by the field's bits, least significant bit first.
    let mut blk = one_reg_block(0);
    blk.write(0, 0xabcd_1234);
    let byte1 = Field { offset: 8, width: 8 };
    assert_eq!(blk.read_field(0, byte1), 0x12);
    let nibble = Field { offset: 28, width: 4 };
    assert_eq!(blk.read_field(0, nibble), 0xa);
    let bit2 = Field { offset: 2, width: 1 };
    assert_eq!(blk.read_field(0, bit2), 1);
}

#[test]
fn field_mask_exact_values() {
    assert_eq!(Field { offset: 4, width: 3 }.mask_value(), 0x70);
    assert_eq!(Field { offset: 9, width: 1 }.mask_value(), 0x200);
    assert_eq!(Field { offset: 0, width: 32 }.mask_value(), 0xffff_ffff);
}

#[test]
fn full_width_field_accepts_every_value() {
    let whole = Field { offset: 0, width: 32 };
    let mut blk = one_reg_block(0);
    blk.write_field(0, whole, 0xffff_ffff).unwrap();
    assert_eq!(blk.read(0), 0xffff_ffff);
}

#[test]
fn is_wf_checks_layout() {
    assert!(Field { offset: 0, width: 1 }.is_wf());
    assert!(Field { offset: 31, width: 1 }.is_wf());
    assert!(Field { offset: 0, width: 32 }.is_wf());
    assert!(!Field { offset: 0, width: 0 }.is_wf());
    assert!(!Field { offset: 31, width: 2 }.is_wf());
    assert!(!Field { offset: 32, width: 1 }.is_wf());
}
