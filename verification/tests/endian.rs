use elf_codec::endian::Encoding;

#[test]
fn u16_conversion() {
    let expected: u16 = 1337;
    let _bytes = expected.to_be_bytes();
}

#[test]
fn read_u16_little_and_big() {
    let bytes = [0x39u8, 0x05];
    assert_eq!(Encoding::Little.read_u16(&bytes, 0), 1337);
    assert_eq!(Encoding::Big.read_u16(&bytes, 0), 0x3905);
}

#[test]
fn read_u32_little_and_big() {
    let bytes = [0x78u8, 0x56, 0x34, 0x12];
    assert_eq!(Encoding::Little.read_u32(&bytes, 0), 0x12345678);
    assert_eq!(Encoding::Big.read_u32(&bytes, 0), 0x78563412);
}

#[test]
fn read_u64_little_and_big() {
    let bytes = [0x01u8, 0x02, 0x03, 0x04, 0x05, 0x06, 0x07, 0x08];
    assert_eq!(Encoding::Little.read_u64(&bytes, 0), 0x0807060504030201);
    assert_eq!(Encoding::Big.read_u64(&bytes, 0), 0x0102030405060708);
}

#[test]
fn read_at_offset() {
    let bytes = [0xffu8, 0xff, 0xcd, 0xab];
    assert_eq!(Encoding::Little.read_u16(&bytes, 2), 0xabcd);
}

#[test]
fn write_u8_appends() {
    let mut out: Vec<u8> = vec![0x11];
    Encoding::Little.write_u8(0x22, &mut out);
    assert_eq!(out, vec![0x11, 0x22]);
}

#[test]
fn write_u16_bytes() {
    let mut little: Vec<u8> = Vec::new();
    Encoding::Little.write_u16(0x1234, &mut little);
    assert_eq!(little, vec![0x34, 0x12]);

    let mut big: Vec<u8> = Vec::new();
    Encoding::Big.write_u16(0x1234, &mut big);
    assert_eq!(big, vec![0x12, 0x34]);
}

#[test]
fn write_u32_bytes() {
    let mut little: Vec<u8> = Vec::new();
    Encoding::Little.write_u32(0x12345678, &mut little);
    assert_eq!(little, vec![0x78, 0x56, 0x34, 0x12]);

    let mut big: Vec<u8> = Vec::new();
    Encoding::Big.write_u32(0x12345678, &mut big);
    assert_eq!(big, vec![0x12, 0x34, 0x56, 0x78]);
}

#[test]
fn write_u64_bytes() {
    let mut little: Vec<u8> = Vec::new();
    Encoding::Little.write_u64(0x0102030405060708, &mut little);
    assert_eq!(little, vec![0x08, 0x07, 0x06, 0x05, 0x04, 0x03, 0x02, 0x01]);

    let mut big: Vec<u8> = Vec::new();
    Encoding::Big.write_u64(0x0102030405060708, &mut big);
    assert_eq!(big, vec![0x01, 0x02, 0x03, 0x04, 0x05, 0x06, 0x07, 0x08]);
}

#[test]
fn write_then_read_round_trip() {
    let mut out: Vec<u8> = Vec::new();
    Encoding::Big.write_u64(0xdeadbeefcafef00d, &mut out);
    assert_eq!(Encoding::Big.read_u64(&out, 0), 0xdeadbeefcafef00d);

    let mut out2: Vec<u8> = Vec::new();
    Encoding::Little.write_u32(0xfeedface, &mut out2);
    assert_eq!(Encoding::Little.read_u32(&out2, 0), 0xfeedface);
}
