use elf_codec::elf::file::AddressFormat;
use elf_codec::elf::file::Architecture;
use elf_codec::elf::file::Error;
use elf_codec::elf::file::File;
use elf_codec::elf::file::Header;
use elf_codec::elf::file::Identification;
use elf_codec::elf::file::Magic;
use elf_codec::elf::file::Type;
use elf_codec::elf::file::Version;
use elf_codec::elf::file::architecture_aware_read;
use elf_codec::elf::file::architecture_aware_write;
use elf_codec::elf::file::order_from_u8;
use elf_codec::elf::file::order_to_u8;
use elf_codec::endian::Encoding;

/// A 64-byte little-endian 64-bit relocatable-object header followed by an
/// arbitrary tail, as a stand-in for a small compiled object file.
fn sample_object() -> Vec<u8> {
    let mut bytes: Vec<u8> = vec![
        0x7f, 0x45, 0x4c, 0x46, // magic
        0x02, 0x01, // 64-bit, little-endian
        0x01, 0x00, 0x00, 0x00, 0x00, 0x00, 0x00, 0x00, 0x00, 0x00, // padding
        0x01, 0x00, // relocatable
        0x3e, 0x00, // x86-64
        0x01, 0x00, 0x00, 0x00, // current version
        0x00, 0x00, 0x00, 0x00, 0x00, 0x00, 0x00, 0x00, // entry
        0x00, 0x00, 0x00, 0x00, 0x00, 0x00, 0x00, 0x00, // phoff
        0x40, 0x00, 0x00, 0x00, 0x00, 0x00, 0x00, 0x00, // shoff
        0x00, 0x00, 0x00, 0x00, // flags
        0x40, 0x00, // ehsize
        0x00, 0x00, // phentsize
        0x00, 0x00, // phnum
        0x40, 0x00, // shentsize
        0x03, 0x00, // shnum
        0x01, 0x00, // shstrndx
    ];
    let tail: Vec<u8> = vec![
        0x00, 0x2e, 0x73, 0x68, 0x73, 0x74, 0x72, 0x74, 0x61, 0x62, 0x00, 0x2e, 0x74, 0x65, 0x78,
        0x74, 0x00,
    ];
    bytes.extend(tail);
    bytes
}

#[test]
fn from_io_valid() {
    let valid = [0x7fu8, 0x45, 0x4c, 0x46];
    assert!(Magic::from_io(&valid).is_ok());
}

#[test]
fn from_io_invalid() {
    let invalid = b"not at all invalid";
    let result = Magic::from_io(&invalid[..]);
    assert!(result.is_err(), "expected error for invalid input");
}

#[test]
fn round_trip() {
    let expected = sample_object();
    let parsed = match File::from_io(&expected) {
        Ok(f) => f,
        Err(e) => panic!("decode failed: {:?}", e),
    };

    let mut actual: Vec<u8> = Vec::new();
    let written = parsed.to_io(&mut actual);

    assert_eq!(expected.len(), written);
    assert_eq!(expected, actual);
}

#[test]
fn magic_validity() {
    assert!(Magic([0x7f, 0x45, 0x4c, 0x46]).is_valid());
    assert!(!Magic::new().is_valid());
    assert!(!Magic([0x7f, 0x45, 0x4c, 0x47]).is_valid());
    assert_eq!(Magic::len(), 4);
}

#[test]
fn identification_64bit_little() {
    // The magic, class 2 (64-bit) and order 1 (little) decode successfully
    // to the 64-bit address format.
    let bytes = [
        0x7fu8, 0x45, 0x4c, 0x46, 0x02, 0x01, 0x00, 0x00, 0x00, 0x00, 0x00, 0x00, 0x00, 0x00,
        0x00, 0x00,
    ];
    let ident = match Identification::from_io(&bytes) {
        Ok(i) => i,
        Err(e) => panic!("decode failed: {:?}", e),
    };
    assert_eq!(ident.class, AddressFormat::SixtyFourBit);
    assert_eq!(ident.data, Encoding::Little);
}

#[test]
fn identification_new_fields() {
    let ident = Identification::new(
        Magic([0x7f, 0x45, 0x4c, 0x46]),
        AddressFormat::ThirtyTwoBit,
        Encoding::Big,
    );
    assert_eq!(ident.class, AddressFormat::ThirtyTwoBit);
    assert_eq!(ident.data, Encoding::Big);
    assert_eq!(ident.remaining, [0u8; 10]);
    assert_eq!(Identification::len(), 16);
}

#[test]
fn invalid_magic_any_length() {
    // Wrong signatures fail with the invalid-magic parse error however long
    // the rest of the input is.
    let exactly_four = [0x7fu8, 0x45, 0x4c, 0x47];
    match File::from_io(&exactly_four) {
        Err(Error::Parse(m)) => assert_eq!(m, "invalid magic"),
        other => panic!("expected a parse error, got {:?}", other),
    }
    let mut long = sample_object();
    long[0] = 0x00;
    match File::from_io(&long) {
        Err(Error::Parse(m)) => assert_eq!(m, "invalid magic"),
        other => panic!("expected a parse error, got {:?}", other),
    }
}

#[test]
fn short_inputs_never_succeed() {
    // Every prefix of a valid stream shorter than the identification block
    // fails with the end-of-stream error; the empty and one-byte inputs too.
    let object = sample_object();
    for n in 0..16 {
        match Identification::from_io(&object[..n]) {
            Err(Error::IO(m)) => assert_eq!(m, "unexpected end of stream"),
            other => panic!("expected an end-of-stream error at {}, got {:?}", n, other),
        }
        assert!(File::from_io(&object[..n]).is_err());
    }
    // A truncation inside a later field is an end-of-stream error as well.
    match File::from_io(&object[..30]) {
        Err(Error::IO(m)) => assert_eq!(m, "unexpected end of stream"),
        other => panic!("expected an end-of-stream error, got {:?}", other),
    }
}

#[test]
fn unknown_address_class() {
    // A class byte of 0, and any value other than 1 or 2, is refused.
    let mut bytes = sample_object();
    for wrong in [0u8, 3, 0xff] {
        bytes[4] = wrong;
        match Identification::from_io(&bytes) {
            Err(Error::Parse(m)) => assert_eq!(m, "unknown address class"),
            other => panic!("expected a parse error, got {:?}", other),
        }
    }
}

#[test]
fn unknown_byte_order() {
    // An order byte of 0, and any value other than 1 or 2, is refused.
    let mut bytes = sample_object();
    for wrong in [0u8, 3, 9] {
        bytes[5] = wrong;
        match Identification::from_io(&bytes) {
            Err(Error::Parse(m)) => assert_eq!(m, "unknown byte order"),
            other => panic!("expected a parse error, got {:?}", other),
        }
    }
}

#[test]
fn unknown_object_type() {
    let mut bytes = sample_object();
    bytes[16] = 0x05;
    match Header::from_io(&bytes) {
        Err(Error::Parse(m)) => assert_eq!(m, "unknown object type"),
        other => panic!("expected a parse error, got {:?}", other),
    }
}

#[test]
fn unknown_architecture() {
    let mut bytes = sample_object();
    bytes[18] = 0x06;
    match Header::from_io(&bytes) {
        Err(Error::Parse(m)) => assert_eq!(m, "unknown architecture"),
        other => panic!("expected a parse error, got {:?}", other),
    }
}

#[test]
fn unknown_version() {
    // The zero sentinel and every code above 1 are refused.
    let mut bytes = sample_object();
    bytes[20] = 0x00;
    match Header::from_io(&bytes) {
        Err(Error::Parse(m)) => assert_eq!(m, "unknown version"),
        other => panic!("expected a parse error, got {:?}", other),
    }
    bytes[20] = 0x02;
    match Header::from_io(&bytes) {
        Err(Error::Parse(m)) => assert_eq!(m, "unknown version"),
        other => panic!("expected a parse error, got {:?}", other),
    }
}

#[test]
fn header_round_trip_32bit_little() {
    // Encoding a 32-bit little-endian header and decoding the bytes yields
    // the same header.
    let ident = Identification::new(
        Magic([0x7f, 0x45, 0x4c, 0x46]),
        AddressFormat::ThirtyTwoBit,
        Encoding::Little,
    );
    let header = Header::new(
        ident,
        Type::Executable,
        Architecture::I386,
        Version::Current,
        0x8048000,
        52,
        2212,
        0,
        52,
        32,
        2,
        40,
        5,
        2,
    );
    let mut encoded: Vec<u8> = Vec::new();
    let written = header.to_io(&mut encoded);
    assert_eq!(written, 52);
    assert_eq!(encoded.len(), 52);

    let decoded = match Header::from_io(&encoded) {
        Ok(h) => h,
        Err(e) => panic!("decode failed: {:?}", e),
    };
    assert_eq!(decoded.ident.class, AddressFormat::ThirtyTwoBit);
    assert_eq!(decoded.ident.data, Encoding::Little);
    assert_eq!(decoded.e_type, Type::Executable);
    assert_eq!(decoded.machine, Architecture::I386);
    assert_eq!(decoded.version, Version::Current);
    assert_eq!(decoded.entry, 0x8048000);
    assert_eq!(decoded.phoff, 52);
    assert_eq!(decoded.shoff, 2212);
    assert_eq!(decoded.flags, 0);
    assert_eq!(decoded.ehsize, 52);
    assert_eq!(decoded.phentsize, 32);
    assert_eq!(decoded.phnum, 2);
    assert_eq!(decoded.shentsize, 40);
    assert_eq!(decoded.shnum, 5);
    assert_eq!(decoded.shstrndx, 2);
}

#[test]
fn header_round_trip_64bit_big() {
    // Encoding a 64-bit big-endian header and decoding the bytes yields the
    // same header.
    let ident = Identification::new(
        Magic([0x7f, 0x45, 0x4c, 0x46]),
        AddressFormat::SixtyFourBit,
        Encoding::Big,
    );
    let header = Header::new(
        ident,
        Type::Dynamic,
        Architecture::S390,
        Version::Current,
        0x0000_0001_0040_2000,
        64,
        0x1_0000_0010,
        0x12345678,
        64,
        56,
        9,
        64,
        30,
        29,
    );
    let mut encoded: Vec<u8> = Vec::new();
    let written = header.to_io(&mut encoded);
    assert_eq!(written, 64);
    assert_eq!(encoded.len(), 64);

    let decoded = match Header::from_io(&encoded) {
        Ok(h) => h,
        Err(e) => panic!("decode failed: {:?}", e),
    };
    assert_eq!(decoded.ident.class, AddressFormat::SixtyFourBit);
    assert_eq!(decoded.ident.data, Encoding::Big);
    assert_eq!(decoded.e_type, Type::Dynamic);
    assert_eq!(decoded.machine, Architecture::S390);
    assert_eq!(decoded.version, Version::Current);
    assert_eq!(decoded.entry, 0x0000_0001_0040_2000);
    assert_eq!(decoded.phoff, 64);
    assert_eq!(decoded.shoff, 0x1_0000_0010);
    assert_eq!(decoded.flags, 0x12345678);
    assert_eq!(decoded.ehsize, 64);
    assert_eq!(decoded.phentsize, 56);
    assert_eq!(decoded.phnum, 9);
    assert_eq!(decoded.shentsize, 64);
    assert_eq!(decoded.shnum, 30);
    assert_eq!(decoded.shstrndx, 29);
}

#[test]
fn file_empty_tail_round_trip() {
    // A stream that is exactly one header long decodes to a file with an
    // empty tail and encodes back to the same bytes.
    let object = sample_object();
    let header_only = &object[..64];
    let parsed = match File::from_io(header_only) {
        Ok(f) => f,
        Err(e) => panic!("decode failed: {:?}", e),
    };
    assert!(parsed.remaining.is_empty());

    let mut actual: Vec<u8> = Vec::new();
    let written = parsed.to_io(&mut actual);
    assert_eq!(written, 64);
    assert_eq!(actual, header_only.to_vec());
}

#[test]
fn file_new_has_empty_tail() {
    let ident = Identification::new(
        Magic([0x7f, 0x45, 0x4c, 0x46]),
        AddressFormat::SixtyFourBit,
        Encoding::Little,
    );
    let header = Header::new(
        ident,
        Type::NoType,
        Architecture::NoMachine,
        Version::Current,
        0,
        0,
        0,
        0,
        0,
        0,
        0,
        0,
        0,
        0,
    );
    let file = File::new(header);
    assert!(file.remaining.is_empty());
    assert_eq!(file.header.len(), 64);
}

#[test]
fn address_width_follows_class() {
    // A 32-bit identification reads and writes 4-byte fields, widened to
    // u64; a 64-bit one reads and writes 8-byte fields.
    let magic = Magic([0x7f, 0x45, 0x4c, 0x46]);
    let ident32 = Identification::new(magic, AddressFormat::ThirtyTwoBit, Encoding::Little);
    let ident64 = Identification::new(magic, AddressFormat::SixtyFourBit, Encoding::Big);

    let bytes = [0x78u8, 0x56, 0x34, 0x12, 0x00, 0x00, 0x00, 0x00];
    assert_eq!(
        architecture_aware_read(&ident32, &Encoding::Little, &bytes, 0),
        0x12345678
    );
    assert_eq!(
        architecture_aware_read(&ident64, &Encoding::Big, &bytes, 0),
        0x7856341200000000
    );

    let mut out32: Vec<u8> = Vec::new();
    let written = architecture_aware_write(&ident32, 0x12345678, &Encoding::Little, &mut out32);
    assert_eq!(written, 4);
    assert_eq!(out32, vec![0x78, 0x56, 0x34, 0x12]);

    let mut out64: Vec<u8> = Vec::new();
    let written = architecture_aware_write(&ident64, 0x12345678, &Encoding::Big, &mut out64);
    assert_eq!(written, 8);
    assert_eq!(out64, vec![0x00, 0x00, 0x00, 0x00, 0x12, 0x34, 0x56, 0x78]);
}

#[test]
fn wire_code_tables() {
    // The bidirectional tables agree with themselves and refuse codes
    // outside the closed sets.
    assert_eq!(AddressFormat::from_u8(1), Some(AddressFormat::ThirtyTwoBit));
    assert_eq!(AddressFormat::from_u8(2), Some(AddressFormat::SixtyFourBit));
    assert_eq!(AddressFormat::from_u8(0), None);
    assert_eq!(AddressFormat::ThirtyTwoBit.to_u8(), 1);

    assert_eq!(Type::from_u16(4), Some(Type::Core));
    assert_eq!(Type::from_u16(5), None);
    assert_eq!(Type::Core.to_u16(), 4);

    assert_eq!(Architecture::from_u16(62), Some(Architecture::X86_64));
    assert_eq!(Architecture::from_u16(6), None);
    assert_eq!(Architecture::from_u16(75), Some(Architecture::VAX));
    assert_eq!(Architecture::VAX.to_u16(), 75);

    assert_eq!(Version::from_u32(1), Some(Version::Current));
    assert_eq!(Version::from_u32(2), None);
    assert_eq!(Version::Current.to_u32(), 1);
    assert_eq!(Version::NoVersion.to_u32(), 0);

    assert_eq!(order_from_u8(1), Some(Encoding::Little));
    assert_eq!(order_from_u8(2), Some(Encoding::Big));
    assert_eq!(order_from_u8(0), None);
    assert_eq!(order_to_u8(&Encoding::Big), 2);
}
