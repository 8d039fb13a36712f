use registry::bits::{get_flag, reset_bit, set_bit, set_flag};
use registry::fixed_str::{String16, String32, String4096, String64};
use registry::types::{BitField, Uint128, Uint16, Uint32, Uint64};

#[test]
fn flag_helpers_read_and_write_single_bits() {
    assert!(get_flag(0b0000_0100, 2));
    assert!(!get_flag(0b0000_0100, 1));
    assert_eq!(set_bit(0b0000_0001, 3), 0b0000_1001);
    assert_eq!(reset_bit(0b1111_1111, 7), 0b0111_1111);
    assert_eq!(set_flag(0, 5, true), 0b0010_0000);
    assert_eq!(set_flag(0xFF, 0, false), 0xFE);
}

#[test]
fn flag_write_then_read_keeps_other_bits() {
    let field = 0b1010_0101u8;
    for bit in 0..8u8 {
        for value in [true, false] {
            let written = set_flag(field, bit, value);
            assert_eq!(get_flag(written, bit), value);
            for other in 0..8u8 {
                if other != bit {
                    assert_eq!(get_flag(written, other), get_flag(field, other));
                }
            }
            assert_eq!(set_flag(written, bit, get_flag(written, bit)), written);
        }
    }
}

#[test]
fn bit_field_flags() {
    let mut b = BitField::default();
    assert_eq!(b.get_raw(), 0);
    b.set_flag(1, true);
    b.set_bit(true);
    assert_eq!(b.get_raw(), 0b11);
    assert!(b.get_flag(1));
    assert!(b.get_bit());
    b.set_flag(1, false);
    assert_eq!(b.get_raw(), 0b01);
    b.set_raw(0x80);
    assert!(b.get_flag(7));
    assert_eq!(BitField::from(true).get_raw(), 1);
    assert_eq!(BitField::from(false).get_raw(), 0);
}

#[test]
fn unsigned_cells_are_little_endian() {
    let x = Uint16::from(0x1234u16);
    assert_eq!(x.get_raw(), [0x34, 0x12]);
    let mut y = Uint32::default();
    assert_eq!(y.get(), 0);
    y.set(0xDEADBEEF);
    assert_eq!(y.get_raw(), [0xEF, 0xBE, 0xAD, 0xDE]);
    assert_eq!(y.get(), 0xDEADBEEF);
    let mut z = Uint64::default();
    z.set_raw([1, 0, 0, 0, 0, 0, 0, 1]);
    assert_eq!(z.get(), 0x0100_0000_0000_0001);
    let w = Uint128::from(u128::MAX);
    assert_eq!(w.get(), u128::MAX);
    assert_eq!(w.get_raw(), [0xFF; 16]);
}

#[test]
fn fixed_strings_round_trip_their_text() {
    let mut s = String16::new("hello");
    assert_eq!(s.get(), "hello");
    assert_eq!(&s.get_raw()[..6], b"hello\0");
    s.set("hi");
    assert_eq!(s.get(), "hi");
    // later bytes of the old text stay after the terminator
    assert_eq!(&s.get_raw()[..6], b"hi\0lo\0");
    let t = String32::new("");
    assert_eq!(t.get(), "");
    let u = String64::new("registry");
    assert_eq!(u.get(), "registry");
    let long = "x".repeat(4095);
    let v = String4096::new(&long);
    assert_eq!(v.get(), long.as_str());
    assert_eq!(String64::default().get_raw(), [0u8; 64]);
}

#[test]
fn fixed_string_raw_bytes_need_a_terminator_only_once() {
    let mut raw = [b'a'; 16];
    raw[3] = 0;
    let mut s = String16::default();
    s.set_raw(raw);
    assert_eq!(s.get(), "aaa");
}
