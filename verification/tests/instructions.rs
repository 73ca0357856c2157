use ckb_vm_decoder::instructions::{
    extract_opcode, instruction_length, set_instruction_length_n, Itype, R4type, Rtype, Utype,
};

#[test]
fn rtype_fields_read_back() {
    let r = Rtype(Rtype::new(0x1234, 31, 17, 200).0);
    assert_eq!((r.rd(), r.rs1(), r.rs2()), (31, 17, 200));
    assert_eq!(extract_opcode(r.0), 0x1234);
    assert_eq!(instruction_length(r.0), 0);
}

#[test]
fn r4type_places_rs3_in_its_own_byte() {
    let i = R4type::new(0x94, 1, 2, 3, 4).0;
    assert_eq!(i, 0x0004_0302_0000_0194);
    assert_eq!(R4type::new(0x94, 1, 2, 3, 0).0, Rtype::new(0x94, 1, 2, 3).0);
}

#[test]
fn opcode_and_length_have_their_own_bytes() {
    assert_eq!(Rtype::new(0x11, 5, 6, 7).0, 0x0000_0706_0000_0511);
    let with_len = set_instruction_length_n(Rtype::new(0x11, 5, 6, 7).0, 4);
    assert_eq!(with_len, 0x0000_0706_0200_0511);
    assert_eq!(instruction_length(with_len), 4);
    assert_eq!(extract_opcode(with_len), 0x11);
    assert_eq!(instruction_length(set_instruction_length_n(with_len, 30)), 30);
    assert_eq!(instruction_length(set_instruction_length_n(with_len, 2)), 2);
}

#[test]
fn lengths_beyond_thirty_do_not_fit() {
    // The length field has four bits: 32 bytes records as 0.
    assert_eq!(instruction_length(set_instruction_length_n(0, 32)), 0);
}

#[test]
fn utype_immediates_read_back() {
    for imm in [0, 1, -1, 0x1234_5000, i32::MIN, i32::MAX] {
        let u = Utype(set_instruction_length_n(Utype::new_s(0x25, 9, imm).0, 4));
        assert_eq!(u.immediate_s(), imm);
        assert_eq!(u.rd(), 9);
        assert_eq!(instruction_length(u.0), 4);
    }
}

#[test]
fn itype_immediate_is_sign_extended() {
    let i = Itype(Rtype::new(0x13, 3, 4, 0).0 | (((-5i64) as u64) << 40));
    assert_eq!(i.immediate_s(), -5);
    assert_eq!((i.rd(), i.rs1()), (3, 4));
    let j = Itype(Rtype::new(0x13, 3, 4, 0).0 | (0x7f_ffffu64 << 40));
    assert_eq!(j.immediate_s(), 0x7f_ffff);
}
