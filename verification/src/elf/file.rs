//! The ELF header codec.
//!
//! A byte stream is decoded in one linear pass: the magic signature, then the
//! identification block (address width and byte order), then the remaining
//! header fields in the width and order the identification selected, then an
//! opaque tail of all remaining bytes. Encoding is the exact inverse, field
//! for field.
//!
//! Every decoder is specified against a spec-level decoder over `Seq<u8>`
//! (`spec_decode_magic`, `spec_decode_ident`, `spec_decode_header`,
//! `spec_decode_file`), and every encoder against a spec-level byte layout
//! (`spec_encode_ident`, `spec_encode_header`, `spec_encode_file`). The
//! round-trip lemmas at the end of the module relate the two.

use vstd::prelude::*;
use vstd::slice::slice_subrange;
use vstd::slice::slice_to_vec;

use crate::endian::Encoding;
use crate::endian::lemma_u16_bytes_round_trip;
use crate::endian::lemma_u16_round_trip;
use crate::endian::lemma_u32_bytes_round_trip;
use crate::endian::lemma_u32_round_trip;
use crate::endian::lemma_u64_bytes_round_trip;
use crate::endian::lemma_u64_round_trip;
use crate::endian::spec_read_u16;
use crate::endian::spec_read_u32;
use crate::endian::spec_read_u64;
use crate::endian::spec_u16_bytes;
use crate::endian::spec_u32_bytes;
use crate::endian::spec_u64_bytes;

verus! {

/// The size of the identification block, in bytes.
pub const EI_NIDENT: usize = 16;

/// The four magic bytes that open every ELF file.
pub const EI_MAG0: u8 = 0x7f;

/// The byte value of 'E'.
pub const EI_MAG1: u8 = 0x45;

/// The byte value of 'L'.
pub const EI_MAG2: u8 = 0x4c;

/// The byte value of 'F'.
pub const EI_MAG3: u8 = 0x46;

/// A decode or encode failure: either the stream ended (or otherwise failed)
/// mid-field, or a wire value was outside its closed set.
#[derive(Debug)]
pub enum Error {
    IO(String),
    Parse(String),
}

/// The spec-level value of an [`Error`]: the same two cases over `Seq<char>`.
#[verifier::ext_equal]
pub enum ErrorView {
    IO(Seq<char>),
    Parse(Seq<char>),
}

impl View for Error {
    type V = ErrorView;

    open spec fn view(&self) -> ErrorView {
        match self {
            Error::IO(m) => ErrorView::IO(m@),
            Error::Parse(m) => ErrorView::Parse(m@),
        }
    }
}

/// The message carried by the I/O error for a stream that ends mid-field.
pub open spec fn msg_end_of_stream() -> Seq<char> {
    "unexpected end of stream"@
}

/// The message carried by the parse error for a wrong magic signature.
pub open spec fn msg_invalid_magic() -> Seq<char> {
    "invalid magic"@
}

/// The message carried by the parse error for an address-class byte outside
/// the closed set.
pub open spec fn msg_unknown_class() -> Seq<char> {
    "unknown address class"@
}

/// The message carried by the parse error for a byte-order byte outside the
/// closed set.
pub open spec fn msg_unknown_order() -> Seq<char> {
    "unknown byte order"@
}

/// The message carried by the parse error for an object-type code outside the
/// closed set.
pub open spec fn msg_unknown_type() -> Seq<char> {
    "unknown object type"@
}

/// The message carried by the parse error for an architecture code outside
/// the closed set.
pub open spec fn msg_unknown_machine() -> Seq<char> {
    "unknown architecture"@
}

/// The message carried by the parse error for a version code outside the
/// closed set.
pub open spec fn msg_unknown_version() -> Seq<char> {
    "unknown version"@
}

/// The spec-level value of a decode result: the decoded value's view, or the
/// error's.
pub open spec fn view_result<T: View>(r: Result<T, Error>) -> Result<T::V, ErrorView> {
    match r {
        Ok(v) => Ok(v@),
        Err(e) => Err(e@),
    }
}

/// The four magic bytes as a sequence.
pub open spec fn spec_elf_magic() -> Seq<u8> {
    seq![EI_MAG0, EI_MAG1, EI_MAG2, EI_MAG3]
}

/// What decoding the magic signature returns on `s`: the four bytes read, an
/// I/O error when fewer than four are there, a parse error when they are not
/// the ELF signature.
pub open spec fn spec_decode_magic(s: Seq<u8>) -> Result<Seq<u8>, ErrorView> {
    if s.len() < 4 {
        Err(ErrorView::IO(msg_end_of_stream()))
    } else if s.subrange(0, 4) == spec_elf_magic() {
        Ok(s.subrange(0, 4))
    } else {
        Err(ErrorView::Parse(msg_invalid_magic()))
    }
}

/// The 4-byte file signature.
#[derive(Debug, Clone, Copy)]
pub struct Magic(pub [u8; 4]);

impl View for Magic {
    type V = Seq<u8>;

    open spec fn view(&self) -> Seq<u8> {
        self.0@
    }
}

impl Magic {
    /// A magic value of four zero bytes.
    pub fn new() -> (m: Magic)
        ensures
            m@ =~= Seq::new(4, |i: int| 0u8),
    {
        let inner: [u8; 4] = [0; 4];
        Magic(inner)
    }

    /// Whether the stored bytes are exactly the ELF signature.
    pub fn is_valid(&self) -> (b: bool)
        ensures
            b == (self@ == spec_elf_magic()),
    {
        let b = self.0[0] == EI_MAG0 && self.0[1] == EI_MAG1 && self.0[2] == EI_MAG2 && self.0[3]
            == EI_MAG3;
        proof {
            if b {
                assert(self@ =~= spec_elf_magic());
            }
        }
        b
    }

    /// The encoded size of the signature, in bytes.
    pub fn len() -> (n: usize)
        ensures
            n == 4,
    {
        4
    }

    /// Decode the signature from the start of `input`.
    pub fn from_io(input: &[u8]) -> (r: Result<Magic, Error>)
        ensures
            view_result(r) == spec_decode_magic(input@),
    {
        if input.len() < 4 {
            return Err(Error::IO("unexpected end of stream".to_owned()));
        }
        let magic = Magic([input[0], input[1], input[2], input[3]]);
        proof {
            assert(magic@ =~= input@.subrange(0, 4));
        }
        if magic.is_valid() {
            Ok(magic)
        } else {
            Err(Error::Parse("invalid magic".to_owned()))
        }
    }

    /// Append the four stored bytes to `output`; returns the count written.
    pub fn to_io(&self, output: &mut Vec<u8>) -> (n: usize)
        ensures
            final(output)@ == old(output)@ + self@,
            n == 4,
    {
        append_bytes(output, self.0.as_slice());
        4
    }
}

/// Whether addresses and table offsets in the file are 4 or 8 bytes wide.
#[derive(Debug, Clone, Copy, PartialEq, Eq, Structural)]
pub enum AddressFormat {
    ThirtyTwoBit,
    SixtyFourBit,
}

/// The wire byte that encodes an address class.
pub open spec fn spec_class_code(c: AddressFormat) -> u8 {
    match c {
        AddressFormat::ThirtyTwoBit => 1,
        AddressFormat::SixtyFourBit => 2,
    }
}

/// The address class a wire byte denotes; the set is closed, everything
/// outside `{1, 2}` (the zero sentinel included) is refused.
pub open spec fn spec_class_of(b: u8) -> Option<AddressFormat> {
    if b == 1 {
        Some(AddressFormat::ThirtyTwoBit)
    } else if b == 2 {
        Some(AddressFormat::SixtyFourBit)
    } else {
        None
    }
}

impl AddressFormat {
    /// Map a wire byte to its address class.
    pub fn from_u8(value: u8) -> (r: Option<AddressFormat>)
        ensures
            r == spec_class_of(value),
    {
        match value {
            1 => Some(AddressFormat::ThirtyTwoBit),
            2 => Some(AddressFormat::SixtyFourBit),
            _ => None,
        }
    }

    /// Map an address class to its wire byte.
    pub fn to_u8(&self) -> (b: u8)
        ensures
            b == spec_class_code(*self),
    {
        match self {
            AddressFormat::ThirtyTwoBit => 1,
            AddressFormat::SixtyFourBit => 2,
        }
    }
}

/// The wire byte that encodes a byte order.
pub open spec fn spec_order_code(e: Encoding) -> u8 {
    match e {
        Encoding::Little => 1,
        Encoding::Big => 2,
    }
}

/// The byte order a wire byte denotes; the set is closed, everything outside
/// `{1, 2}` (the zero sentinel included) is refused.
pub open spec fn spec_order_of(b: u8) -> Option<Encoding> {
    if b == 1 {
        Some(Encoding::Little)
    } else if b == 2 {
        Some(Encoding::Big)
    } else {
        None
    }
}

/// Map a wire byte to its byte order.
pub fn order_from_u8(value: u8) -> (r: Option<Encoding>)
    ensures
        r == spec_order_of(value),
{
    match value {
        1 => Some(Encoding::Little),
        2 => Some(Encoding::Big),
        _ => None,
    }
}

/// Map a byte order to its wire byte.
pub fn order_to_u8(e: &Encoding) -> (b: u8)
    ensures
        b == spec_order_code(*e),
{
    match e {
        Encoding::Little => 1,
        Encoding::Big => 2,
    }
}

/// The 16-byte identification block: magic, address class, byte order, and
/// ten opaque padding bytes that are preserved but never interpreted.
#[derive(Debug, Clone, Copy)]
pub struct Identification {
    pub magic: Magic,
    pub class: AddressFormat,
    pub data: Encoding,
    pub remaining: [u8; 10],
}

/// The spec-level value of an [`Identification`].
#[verifier::ext_equal]
pub struct IdentificationView {
    pub magic: Seq<u8>,
    pub class: AddressFormat,
    pub data: Encoding,
    pub remaining: Seq<u8>,
}

impl View for Identification {
    type V = IdentificationView;

    open spec fn view(&self) -> IdentificationView {
        IdentificationView {
            magic: self.magic@,
            class: self.class,
            data: self.data,
            remaining: self.remaining@,
        }
    }
}

impl IdentificationView {
    /// An identification every decode yields: the true signature and ten
    /// padding bytes. The class and order fields are valid by type.
    pub open spec fn wf(self) -> bool {
        self.magic == spec_elf_magic() && self.remaining.len() == 10
    }
}

/// What decoding the identification block returns on `s`: the magic is
/// checked first, then the class byte and the order byte are mapped through
/// their closed tables, then the ten padding bytes are taken verbatim.
pub open spec fn spec_decode_ident(s: Seq<u8>) -> Result<IdentificationView, ErrorView> {
    match spec_decode_magic(s) {
        Err(e) => Err(e),
        Ok(magic) => if s.len() < 5 {
            Err(ErrorView::IO(msg_end_of_stream()))
        } else {
            match spec_class_of(s[4]) {
                None => Err(ErrorView::Parse(msg_unknown_class())),
                Some(class) => if s.len() < 6 {
                    Err(ErrorView::IO(msg_end_of_stream()))
                } else {
                    match spec_order_of(s[5]) {
                        None => Err(ErrorView::Parse(msg_unknown_order())),
                        Some(data) => if s.len() < 16 {
                            Err(ErrorView::IO(msg_end_of_stream()))
                        } else {
                            Ok(
                                IdentificationView {
                                    magic,
                                    class,
                                    data,
                                    remaining: s.subrange(6, 16),
                                },
                            )
                        },
                    }
                },
            }
        },
    }
}

/// The byte layout of an identification block: magic, the two wire bytes,
/// then the padding verbatim.
pub open spec fn spec_encode_ident(iv: IdentificationView) -> Seq<u8> {
    iv.magic + seq![spec_class_code(iv.class), spec_order_code(iv.data)] + iv.remaining
}

impl Identification {
    /// An identification with the given fields and zeroed padding.
    pub fn new(magic: Magic, class: AddressFormat, data: Encoding) -> (i: Identification)
        ensures
            i@.magic == magic@,
            i@.class == class,
            i@.data == data,
            i@.remaining =~= Seq::new(10, |j: int| 0u8),
    {
        Identification { magic, class, data, remaining: [0; 10] }
    }

    /// The encoded size of the identification block, in bytes.
    pub fn len() -> (n: usize)
        ensures
            n == EI_NIDENT,
    {
        EI_NIDENT
    }

    /// Decode the identification block from the start of `input`.
    pub fn from_io(input: &[u8]) -> (r: Result<Identification, Error>)
        ensures
            view_result(r) == spec_decode_ident(input@),
    {
        let magic = match Magic::from_io(input) {
            Ok(m) => m,
            Err(e) => return Err(e),
        };
        if input.len() < 5 {
            return Err(Error::IO("unexpected end of stream".to_owned()));
        }
        let class = match AddressFormat::from_u8(input[4]) {
            Some(c) => c,
            None => return Err(Error::Parse("unknown address class".to_owned())),
        };
        if input.len() < 6 {
            return Err(Error::IO("unexpected end of stream".to_owned()));
        }
        let data = match order_from_u8(input[5]) {
            Some(d) => d,
            None => return Err(Error::Parse("unknown byte order".to_owned())),
        };
        if input.len() < EI_NIDENT {
            return Err(Error::IO("unexpected end of stream".to_owned()));
        }
        let remaining: [u8; 10] = [
            input[6],
            input[7],
            input[8],
            input[9],
            input[10],
            input[11],
            input[12],
            input[13],
            input[14],
            input[15],
        ];
        let ident = Identification { magic, class, data, remaining };
        proof {
            assert(ident@.remaining =~= input@.subrange(6, 16));
        }
        Ok(ident)
    }

    /// Append the encoded identification block to `output`; returns the count
    /// written.
    pub fn to_io(&self, output: &mut Vec<u8>) -> (n: usize)
        ensures
            final(output)@ == old(output)@ + spec_encode_ident(self@),
            n == EI_NIDENT,
    {
        let n = self.magic.to_io(output);
        let class: u8 = self.class.to_u8();
        output.push(class);
        let data: u8 = order_to_u8(&self.data);
        output.push(data);
        append_bytes(output, self.remaining.as_slice());
        proof {
            assert(output@ =~= old(output)@ + spec_encode_ident(self@));
        }
        n + 12
    }
}

/// The object-file type.
#[derive(Debug, Clone, Copy, PartialEq, Eq, Structural)]
pub enum Type {
    NoType,
    Relocatable,
    Executable,
    Dynamic,
    Core,
}

/// The wire code of an object-file type.
pub open spec fn spec_type_code(t: Type) -> u16 {
    match t {
        Type::NoType => 0,
        Type::Relocatable => 1,
        Type::Executable => 2,
        Type::Dynamic => 3,
        Type::Core => 4,
    }
}

/// The object-file type a wire code denotes, over the closed table.
pub open spec fn spec_type_of(v: u16) -> Option<Type> {
    if v == 0 {
        Some(Type::NoType)
    } else if v == 1 {
        Some(Type::Relocatable)
    } else if v == 2 {
        Some(Type::Executable)
    } else if v == 3 {
        Some(Type::Dynamic)
    } else if v == 4 {
        Some(Type::Core)
    } else {
        None
    }
}

impl Type {
    /// Map a wire code to its object-file type.
    pub fn from_u16(value: u16) -> (r: Option<Type>)
        ensures
            r == spec_type_of(value),
    {
        match value {
            0 => Some(Type::NoType),
            1 => Some(Type::Relocatable),
            2 => Some(Type::Executable),
            3 => Some(Type::Dynamic),
            4 => Some(Type::Core),
            _ => None,
        }
    }

    /// Map an object-file type to its wire code.
    pub fn to_u16(&self) -> (v: u16)
        ensures
            v == spec_type_code(*self),
    {
        match self {
            Type::NoType => 0,
            Type::Relocatable => 1,
            Type::Executable => 2,
            Type::Dynamic => 3,
            Type::Core => 4,
        }
    }
}

/// The target instruction-set architecture, over a fixed numeric table.
#[derive(Debug, Clone, Copy, PartialEq, Eq, Structural)]
pub enum Architecture {
    NoMachine,
    M32,
    SPARC,
    I386,
    M68K,
    M88K,
    I860,
    MIPS,
    PARISC,
    SPARC32PLUS,
    PPC,
    PPC64,
    S390,
    ARM,
    SH,
    SPARCV9,
    IA_64,
    X86_64,
    VAX,
}

/// The wire code of an architecture.
pub open spec fn spec_machine_code(m: Architecture) -> u16 {
    match m {
        Architecture::NoMachine => 0,
        Architecture::M32 => 1,
        Architecture::SPARC => 2,
        Architecture::I386 => 3,
        Architecture::M68K => 4,
        Architecture::M88K => 5,
        Architecture::I860 => 7,
        Architecture::MIPS => 8,
        Architecture::PARISC => 9,
        Architecture::SPARC32PLUS => 18,
        Architecture::PPC => 20,
        Architecture::PPC64 => 21,
        Architecture::S390 => 22,
        Architecture::ARM => 40,
        Architecture::SH => 42,
        Architecture::SPARCV9 => 43,
        Architecture::IA_64 => 50,
        Architecture::X86_64 => 62,
        Architecture::VAX => 75,
    }
}

/// The architecture a wire code denotes, over the closed table.
pub open spec fn spec_machine_of(v: u16) -> Option<Architecture> {
    if v == 0 {
        Some(Architecture::NoMachine)
    } else if v == 1 {
        Some(Architecture::M32)
    } else if v == 2 {
        Some(Architecture::SPARC)
    } else if v == 3 {
        Some(Architecture::I386)
    } else if v == 4 {
        Some(Architecture::M68K)
    } else if v == 5 {
        Some(Architecture::M88K)
    } else if v == 7 {
        Some(Architecture::I860)
    } else if v == 8 {
        Some(Architecture::MIPS)
    } else if v == 9 {
        Some(Architecture::PARISC)
    } else if v == 18 {
        Some(Architecture::SPARC32PLUS)
    } else if v == 20 {
        Some(Architecture::PPC)
    } else if v == 21 {
        Some(Architecture::PPC64)
    } else if v == 22 {
        Some(Architecture::S390)
    } else if v == 40 {
        Some(Architecture::ARM)
    } else if v == 42 {
        Some(Architecture::SH)
    } else if v == 43 {
        Some(Architecture::SPARCV9)
    } else if v == 50 {
        Some(Architecture::IA_64)
    } else if v == 62 {
        Some(Architecture::X86_64)
    } else if v == 75 {
        Some(Architecture::VAX)
    } else {
        None
    }
}

impl Architecture {
    /// Map a wire code to its architecture.
    pub fn from_u16(value: u16) -> (r: Option<Architecture>)
        ensures
            r == spec_machine_of(value),
    {
        match value {
            0 => Some(Architecture::NoMachine),
            1 => Some(Architecture::M32),
            2 => Some(Architecture::SPARC),
            3 => Some(Architecture::I386),
            4 => Some(Architecture::M68K),
            5 => Some(Architecture::M88K),
            7 => Some(Architecture::I860),
            8 => Some(Architecture::MIPS),
            9 => Some(Architecture::PARISC),
            18 => Some(Architecture::SPARC32PLUS),
            20 => Some(Architecture::PPC),
            21 => Some(Architecture::PPC64),
            22 => Some(Architecture::S390),
            40 => Some(Architecture::ARM),
            42 => Some(Architecture::SH),
            43 => Some(Architecture::SPARCV9),
            50 => Some(Architecture::IA_64),
            62 => Some(Architecture::X86_64),
            75 => Some(Architecture::VAX),
            _ => None,
        }
    }

    /// Map an architecture to its wire code.
    pub fn to_u16(&self) -> (v: u16)
        ensures
            v == spec_machine_code(*self),
    {
        match self {
            Architecture::NoMachine => 0,
            Architecture::M32 => 1,
            Architecture::SPARC => 2,
            Architecture::I386 => 3,
            Architecture::M68K => 4,
            Architecture::M88K => 5,
            Architecture::I860 => 7,
            Architecture::MIPS => 8,
            Architecture::PARISC => 9,
            Architecture::SPARC32PLUS => 18,
            Architecture::PPC => 20,
            Architecture::PPC64 => 21,
            Architecture::S390 => 22,
            Architecture::ARM => 40,
            Architecture::SH => 42,
            Architecture::SPARCV9 => 43,
            Architecture::IA_64 => 50,
            Architecture::X86_64 => 62,
            Architecture::VAX => 75,
        }
    }
}

/// The file-format version.
#[derive(Debug, Clone, Copy, PartialEq, Eq, Structural)]
pub enum Version {
    NoVersion,
    Current,
}

/// The wire code of a version.
pub open spec fn spec_version_code(v: Version) -> u32 {
    match v {
        Version::NoVersion => 0,
        Version::Current => 1,
    }
}

/// The version a wire code denotes. Zero names the invalid version, which a
/// decode nevertheless refuses.
pub open spec fn spec_version_of(v: u32) -> Option<Version> {
    if v == 0 {
        Some(Version::NoVersion)
    } else if v == 1 {
        Some(Version::Current)
    } else {
        None
    }
}

impl Version {
    /// Map a wire code to its version.
    pub fn from_u32(value: u32) -> (r: Option<Version>)
        ensures
            r == spec_version_of(value),
    {
        match value {
            0 => Some(Version::NoVersion),
            1 => Some(Version::Current),
            _ => None,
        }
    }

    /// Map a version to its wire code.
    pub fn to_u32(&self) -> (v: u32)
        ensures
            v == spec_version_code(*self),
    {
        match self {
            Version::NoVersion => 0,
            Version::Current => 1,
        }
    }
}

/// How many bytes an address-sized field occupies under `c`.
pub open spec fn spec_addr_width(c: AddressFormat) -> int {
    match c {
        AddressFormat::ThirtyTwoBit => 4,
        AddressFormat::SixtyFourBit => 8,
    }
}

/// The encoded size of a whole header under `c`: the identification block,
/// three 16-bit and two 32-bit scalars, three address-sized fields, and five
/// more 16-bit scalars.
pub open spec fn spec_header_len(c: AddressFormat) -> int {
    40 + 3 * spec_addr_width(c)
}

/// The `u64` an address-sized byte sequence denotes: four bytes widened, or
/// eight bytes taken directly.
pub open spec fn spec_read_addr(c: AddressFormat, e: Encoding, s: Seq<u8>) -> u64
    recommends
        s.len() == spec_addr_width(c),
{
    match c {
        AddressFormat::ThirtyTwoBit => spec_read_u32(e, s) as u64,
        AddressFormat::SixtyFourBit => spec_read_u64(e, s),
    }
}

/// The bytes that lay out an address-sized field: four (the value narrowed)
/// or eight.
pub open spec fn spec_addr_bytes(c: AddressFormat, e: Encoding, v: u64) -> Seq<u8> {
    match c {
        AddressFormat::ThirtyTwoBit => spec_u32_bytes(e, v as u32),
        AddressFormat::SixtyFourBit => spec_u64_bytes(e, v),
    }
}

/// Read the address-sized field at `input[pos..]` as 32-bit or 64-bit
/// according to the identification, widened to `u64`.
pub fn architecture_aware_read(
    ident: &Identification,
    endian: &Encoding,
    input: &[u8],
    pos: usize,
) -> (v: u64)
    requires
        pos + spec_addr_width(ident.class) <= input@.len(),
    ensures
        v == spec_read_addr(
            ident.class,
            *endian,
            input@.subrange(pos as int, pos as int + spec_addr_width(ident.class)),
        ),
{
    match ident.class {
        AddressFormat::ThirtyTwoBit => endian.read_u32(input, pos) as u64,
        AddressFormat::SixtyFourBit => endian.read_u64(input, pos),
    }
}

/// Append the value as a 32-bit (narrowed) or 64-bit field according to the
/// identification; returns the count written.
pub fn architecture_aware_write(
    ident: &Identification,
    value: u64,
    endian: &Encoding,
    output: &mut Vec<u8>,
) -> (n: usize)
    ensures
        final(output)@ == old(output)@ + spec_addr_bytes(ident.class, *endian, value),
        n == spec_addr_width(ident.class),
{
    match ident.class {
        AddressFormat::ThirtyTwoBit => {
            endian.write_u32(value as u32, output);
            4
        },
        AddressFormat::SixtyFourBit => {
            endian.write_u64(value, output);
            8
        },
    }
}

/// The full fixed-size header: the identification block followed by the
/// scalar and enum fields, the three address-sized fields as wide as the
/// identification's class says.
#[derive(Debug, Clone, Copy)]
pub struct Header {
    pub ident: Identification,
    pub e_type: Type,
    pub machine: Architecture,
    pub version: Version,
    pub entry: u64,
    pub phoff: u64,
    pub shoff: u64,
    pub flags: u32,
    pub ehsize: u16,
    pub phentsize: u16,
    pub phnum: u16,
    pub shentsize: u16,
    pub shnum: u16,
    pub shstrndx: u16,
}

/// The spec-level value of a [`Header`].
#[verifier::ext_equal]
pub struct HeaderView {
    pub ident: IdentificationView,
    pub e_type: Type,
    pub machine: Architecture,
    pub version: Version,
    pub entry: u64,
    pub phoff: u64,
    pub shoff: u64,
    pub flags: u32,
    pub ehsize: u16,
    pub phentsize: u16,
    pub phnum: u16,
    pub shentsize: u16,
    pub shnum: u16,
    pub shstrndx: u16,
}

impl View for Header {
    type V = HeaderView;

    open spec fn view(&self) -> HeaderView {
        HeaderView {
            ident: self.ident@,
            e_type: self.e_type,
            machine: self.machine,
            version: self.version,
            entry: self.entry,
            phoff: self.phoff,
            shoff: self.shoff,
            flags: self.flags,
            ehsize: self.ehsize,
            phentsize: self.phentsize,
            phnum: self.phnum,
            shentsize: self.shentsize,
            shnum: self.shnum,
            shstrndx: self.shstrndx,
        }
    }
}

impl HeaderView {
    /// A header every decode yields: a well-formed identification, the
    /// current version, and address-sized fields that fit their width.
    pub open spec fn wf(self) -> bool {
        &&& self.ident.wf()
        &&& self.version == Version::Current
        &&& (self.ident.class is ThirtyTwoBit ==> self.entry < 0x1_0000_0000 && self.phoff
            < 0x1_0000_0000 && self.shoff < 0x1_0000_0000)
    }
}

/// What decoding a header returns on `s`: the identification block first,
/// then each field in order, every enum code checked against its closed
/// table, every field read whole or not at all.
pub open spec fn spec_decode_header(s: Seq<u8>) -> Result<HeaderView, ErrorView> {
    match spec_decode_ident(s) {
        Err(e) => Err(e),
        Ok(ident) => {
            let order = ident.data;
            let w = spec_addr_width(ident.class);
            if s.len() < 18 {
                Err(ErrorView::IO(msg_end_of_stream()))
            } else {
                match spec_type_of(spec_read_u16(order, s.subrange(16, 18))) {
                    None => Err(ErrorView::Parse(msg_unknown_type())),
                    Some(e_type) => if s.len() < 20 {
                        Err(ErrorView::IO(msg_end_of_stream()))
                    } else {
                        match spec_machine_of(spec_read_u16(order, s.subrange(18, 20))) {
                            None => Err(ErrorView::Parse(msg_unknown_machine())),
                            Some(machine) => if s.len() < 24 {
                                Err(ErrorView::IO(msg_end_of_stream()))
                            } else {
                                match spec_version_of(spec_read_u32(order, s.subrange(20, 24))) {
                                    Some(Version::Current) => if s.len() < 24 + w {
                                        Err(ErrorView::IO(msg_end_of_stream()))
                                    } else {
                                        let entry = spec_read_addr(
                                            ident.class,
                                            order,
                                            s.subrange(24, 24 + w),
                                        );
                                        if s.len() < 24 + 2 * w {
                                            Err(ErrorView::IO(msg_end_of_stream()))
                                        } else {
                                            let phoff = spec_read_addr(
                                                ident.class,
                                                order,
                                                s.subrange(24 + w, 24 + 2 * w),
                                            );
                                            if s.len() < 24 + 3 * w {
                                                Err(ErrorView::IO(msg_end_of_stream()))
                                            } else {
                                                let shoff = spec_read_addr(
                                                    ident.class,
                                                    order,
                                                    s.subrange(24 + 2 * w, 24 + 3 * w),
                                                );
                                                if s.len() < 28 + 3 * w {
                                                    Err(ErrorView::IO(msg_end_of_stream()))
                                                } else {
                                                    let flags = spec_read_u32(
                                                        order,
                                                        s.subrange(24 + 3 * w, 28 + 3 * w),
                                                    );
                                                    if s.len() < 30 + 3 * w {
                                                        Err(ErrorView::IO(msg_end_of_stream()))
                                                    } else {
                                                        let ehsize = spec_read_u16(
                                                            order,
                                                            s.subrange(28 + 3 * w, 30 + 3 * w),
                                                        );
                                                        if s.len() < 32 + 3 * w {
                                                            Err(ErrorView::IO(msg_end_of_stream()))
                                                        } else {
                                                            let phentsize = spec_read_u16(
                                                                order,
                                                                s.subrange(30 + 3 * w, 32 + 3 * w),
                                                            );
                                                            if s.len() < 34 + 3 * w {
                                                                Err(
                                                                    ErrorView::IO(
                                                                        msg_end_of_stream(),
                                                                    ),
                                                                )
                                                            } else {
                                                                let phnum = spec_read_u16(
                                                                    order,
                                                                    s.subrange(
                                                                        32 + 3 * w,
                                                                        34 + 3 * w,
                                                                    ),
                                                                );
                                                                if s.len() < 36 + 3 * w {
                                                                    Err(
                                                                        ErrorView::IO(
                                                                            msg_end_of_stream(),
                                                                        ),
                                                                    )
                                                                } else {
                                                                    let shentsize = spec_read_u16(
                                                                        order,
                                                                        s.subrange(
                                                                            34 + 3 * w,
                                                                            36 + 3 * w,
                                                                        ),
                                                                    );
                                                                    if s.len() < 38 + 3 * w {
                                                                        Err(
                                                                            ErrorView::IO(
                                                                                msg_end_of_stream(),
                                                                            ),
                                                                        )
                                                                    } else {
                                                                        let shnum = spec_read_u16(
                                                                            order,
                                                                            s.subrange(
                                                                                36 + 3 * w,
                                                                                38 + 3 * w,
                                                                            ),
                                                                        );
                                                                        if s.len() < 40 + 3 * w {
                                                                            Err(
                                                                                ErrorView::IO(
                                                                                    msg_end_of_stream(
                                                                                    ),
                                                                                ),
                                                                            )
                                                                        } else {
                                                                            let shstrndx =
                                                                                spec_read_u16(
                                                                                order,
                                                                                s.subrange(
                                                                                    38 + 3 * w,
                                                                                    40 + 3 * w,
                                                                                ),
                                                                            );
                                                                            Ok(
                                                                                HeaderView {
                                                                                    ident,
                                                                                    e_type,
                                                                                    machine,
                                                                                    version:
                                                                                        Version::Current,
                                                                                    entry,
                                                                                    phoff,
                                                                                    shoff,
                                                                                    flags,
                                                                                    ehsize,
                                                                                    phentsize,
                                                                                    phnum,
                                                                                    shentsize,
                                                                                    shnum,
                                                                                    shstrndx,
                                                                                },
                                                                            )
                                                                        }
                                                                    }
                                                                }
                                                            }
                                                        }
                                                    }
                                                }
                                            }
                                        }
                                    },
                                    _ => Err(ErrorView::Parse(msg_unknown_version())),
                                }
                            },
                        }
                    },
                }
            }
        },
    }
}

/// The byte layout of a header: the identification block, then each field in
/// order, in the identification's byte order and address width.
pub open spec fn spec_encode_header(hv: HeaderView) -> Seq<u8> {
    let order = hv.ident.data;
    spec_encode_ident(hv.ident) + spec_u16_bytes(order, spec_type_code(hv.e_type))
        + spec_u16_bytes(order, spec_machine_code(hv.machine)) + spec_u32_bytes(
        order,
        spec_version_code(hv.version),
    ) + spec_addr_bytes(hv.ident.class, order, hv.entry) + spec_addr_bytes(
        hv.ident.class,
        order,
        hv.phoff,
    ) + spec_addr_bytes(hv.ident.class, order, hv.shoff) + spec_u32_bytes(order, hv.flags)
        + spec_u16_bytes(order, hv.ehsize) + spec_u16_bytes(order, hv.phentsize) + spec_u16_bytes(
        order,
        hv.phnum,
    ) + spec_u16_bytes(order, hv.shentsize) + spec_u16_bytes(order, hv.shnum) + spec_u16_bytes(
        order,
        hv.shstrndx,
    )
}

impl Header {
    /// A header with the given fields.
    pub fn new(
        ident: Identification,
        e_type: Type,
        machine: Architecture,
        version: Version,
        entry: u64,
        phoff: u64,
        shoff: u64,
        flags: u32,
        ehsize: u16,
        phentsize: u16,
        phnum: u16,
        shentsize: u16,
        shnum: u16,
        shstrndx: u16,
    ) -> (h: Header)
        ensures
            h@ == (HeaderView {
                ident: ident@,
                e_type,
                machine,
                version,
                entry,
                phoff,
                shoff,
                flags,
                ehsize,
                phentsize,
                phnum,
                shentsize,
                shnum,
                shstrndx,
            }),
    {
        Header {
            ident,
            e_type,
            machine,
            version,
            entry,
            phoff,
            shoff,
            flags,
            ehsize,
            phentsize,
            phnum,
            shentsize,
            shnum,
            shstrndx,
        }
    }

    /// The encoded size of this header, in bytes: 52 for a 32-bit class, 64
    /// for a 64-bit one.
    pub fn len(&self) -> (n: usize)
        ensures
            n as int == spec_header_len(self@.ident.class),
    {
        match self.ident.class {
            AddressFormat::ThirtyTwoBit => 52,
            AddressFormat::SixtyFourBit => 64,
        }
    }

    /// Decode a header from the start of `input`.
    pub fn from_io(input: &[u8]) -> (r: Result<Header, Error>)
        ensures
            view_result(r) == spec_decode_header(input@),
    {
        let ident = match Identification::from_io(input) {
            Ok(i) => i,
            Err(e) => return Err(e),
        };
        let endian = ident.data;
        let w: usize = match ident.class {
            AddressFormat::ThirtyTwoBit => 4,
            AddressFormat::SixtyFourBit => 8,
        };
        proof {
            assert(w as int == spec_addr_width(ident@.class));
        }
        if input.len() < 18 {
            return Err(Error::IO("unexpected end of stream".to_owned()));
        }
        let e_type = match Type::from_u16(endian.read_u16(input, 16)) {
            Some(t) => t,
            None => return Err(Error::Parse("unknown object type".to_owned())),
        };
        if input.len() < 20 {
            return Err(Error::IO("unexpected end of stream".to_owned()));
        }
        let machine = match Architecture::from_u16(endian.read_u16(input, 18)) {
            Some(m) => m,
            None => return Err(Error::Parse("unknown architecture".to_owned())),
        };
        if input.len() < 24 {
            return Err(Error::IO("unexpected end of stream".to_owned()));
        }
        let version = match Version::from_u32(endian.read_u32(input, 20)) {
            Some(Version::Current) => Version::Current,
            _ => return Err(Error::Parse("unknown version".to_owned())),
        };
        if input.len() < 24 + w {
            return Err(Error::IO("unexpected end of stream".to_owned()));
        }
        let entry = architecture_aware_read(&ident, &endian, input, 24);
        if input.len() < 24 + 2 * w {
            return Err(Error::IO("unexpected end of stream".to_owned()));
        }
        let phoff = architecture_aware_read(&ident, &endian, input, 24 + w);
        if input.len() < 24 + 3 * w {
            return Err(Error::IO("unexpected end of stream".to_owned()));
        }
        let shoff = architecture_aware_read(&ident, &endian, input, 24 + 2 * w);
        if input.len() < 28 + 3 * w {
            return Err(Error::IO("unexpected end of stream".to_owned()));
        }
        let flags = endian.read_u32(input, 24 + 3 * w);
        if input.len() < 30 + 3 * w {
            return Err(Error::IO("unexpected end of stream".to_owned()));
        }
        let ehsize = endian.read_u16(input, 28 + 3 * w);
        if input.len() < 32 + 3 * w {
            return Err(Error::IO("unexpected end of stream".to_owned()));
        }
        let phentsize = endian.read_u16(input, 30 + 3 * w);
        if input.len() < 34 + 3 * w {
            return Err(Error::IO("unexpected end of stream".to_owned()));
        }
        let phnum = endian.read_u16(input, 32 + 3 * w);
        if input.len() < 36 + 3 * w {
            return Err(Error::IO("unexpected end of stream".to_owned()));
        }
        let shentsize = endian.read_u16(input, 34 + 3 * w);
        if input.len() < 38 + 3 * w {
            return Err(Error::IO("unexpected end of stream".to_owned()));
        }
        let shnum = endian.read_u16(input, 36 + 3 * w);
        if input.len() < 40 + 3 * w {
            return Err(Error::IO("unexpected end of stream".to_owned()));
        }
        let shstrndx = endian.read_u16(input, 38 + 3 * w);
        let header = Header {
            ident,
            e_type,
            machine,
            version,
            entry,
            phoff,
            shoff,
            flags,
            ehsize,
            phentsize,
            phnum,
            shentsize,
            shnum,
            shstrndx,
        };
        Ok(header)
    }

    /// Append the encoded header to `output`; returns the count written,
    /// which is exactly this header's encoded size.
    #[verifier::rlimit(100)]
    #[verifier::spinoff_prover]
    pub fn to_io(&self, output: &mut Vec<u8>) -> (n: usize)
        ensures
            final(output)@ == old(output)@ + spec_encode_header(self@),
            n as int == spec_header_len(self@.ident.class),
    {
        let n0 = self.ident.to_io(output);
        let endian = self.ident.data;
        endian.write_u16(self.e_type.to_u16(), output);
        endian.write_u16(self.machine.to_u16(), output);
        endian.write_u32(self.version.to_u32(), output);
        let a1 = architecture_aware_write(&self.ident, self.entry, &endian, output);
        let a2 = architecture_aware_write(&self.ident, self.phoff, &endian, output);
        let a3 = architecture_aware_write(&self.ident, self.shoff, &endian, output);
        endian.write_u32(self.flags, output);
        endian.write_u16(self.ehsize, output);
        endian.write_u16(self.phentsize, output);
        endian.write_u16(self.phnum, output);
        endian.write_u16(self.shentsize, output);
        endian.write_u16(self.shnum, output);
        endian.write_u16(self.shstrndx, output);
        proof {
            assert(output@ =~= old(output)@ + spec_encode_header(self@));
        }
        n0 + a1 + a2 + a3 + 24
    }
}

/// A whole file: the decoded header and, verbatim, every byte that followed
/// it in the source stream.
#[derive(Debug, Clone)]
pub struct File {
    pub header: Header,
    pub remaining: Vec<u8>,
}

/// The spec-level value of a [`File`].
#[verifier::ext_equal]
pub struct FileView {
    pub header: HeaderView,
    pub remaining: Seq<u8>,
}

impl View for File {
    type V = FileView;

    open spec fn view(&self) -> FileView {
        FileView { header: self.header@, remaining: self.remaining@ }
    }
}

impl FileView {
    /// A file every decode yields: a well-formed header; the tail is free.
    pub open spec fn wf(self) -> bool {
        self.header.wf()
    }
}

/// What decoding a file returns on `s`: the header from the front, then all
/// remaining bytes, uninterpreted, as the tail.
pub open spec fn spec_decode_file(s: Seq<u8>) -> Result<FileView, ErrorView> {
    match spec_decode_header(s) {
        Err(e) => Err(e),
        Ok(header) => Ok(
            FileView {
                header,
                remaining: s.subrange(spec_header_len(header.ident.class), s.len() as int),
            },
        ),
    }
}

/// The byte layout of a file: the header's layout, then the tail verbatim.
pub open spec fn spec_encode_file(fv: FileView) -> Seq<u8> {
    spec_encode_header(fv.header) + fv.remaining
}

impl File {
    /// A file with the given header and an empty tail.
    pub fn new(header: Header) -> (f: File)
        ensures
            f@.header == header@,
            f@.remaining == Seq::<u8>::empty(),
    {
        File { header, remaining: Vec::new() }
    }

    /// Decode a file from `input`: the header, then everything after it as
    /// the tail.
    pub fn from_io(input: &[u8]) -> (r: Result<File, Error>)
        ensures
            view_result(r) == spec_decode_file(input@),
    {
        let header = match Header::from_io(input) {
            Ok(h) => h,
            Err(e) => return Err(e),
        };
        let hlen = header.len();
        proof {
            assert(spec_header_len(header@.ident.class) <= input@.len());
        }
        let remaining = slice_to_vec(slice_subrange(input, hlen, input.len()));
        Ok(File { header, remaining })
    }

    /// Append the encoded file to `output`; returns the count written, which
    /// is exactly the header's encoded size plus the tail's length.
    pub fn to_io(&self, output: &mut Vec<u8>) -> (n: usize)
        requires
            spec_header_len(self@.header.ident.class) + self@.remaining.len() <= usize::MAX,
        ensures
            final(output)@ == old(output)@ + spec_encode_file(self@),
            n == spec_header_len(self@.header.ident.class) + self@.remaining.len(),
    {
        let amount = self.header.to_io(output);
        append_bytes(output, self.remaining.as_slice());
        proof {
            assert(output@ =~= old(output)@ + spec_encode_file(self@));
        }
        amount + self.remaining.len()
    }
}

/// Append every byte of `bytes` to `output`, in order.
fn append_bytes(output: &mut Vec<u8>, bytes: &[u8])
    ensures
        final(output)@ == old(output)@ + bytes@,
{
    let mut i: usize = 0;
    while i < bytes.len()
        invariant
            i <= bytes@.len(),
            output@ == old(output)@ + bytes@.subrange(0, i as int),
        decreases bytes@.len() - i,
    {
        output.push(bytes[i]);
        i = i + 1;
        proof {
            assert(output@ =~= old(output)@ + bytes@.subrange(0, i as int));
        }
    }
    proof {
        assert(old(output)@ + bytes@.subrange(0, bytes@.len() as int) =~= old(output)@ + bytes@);
    }
}

/// Reading an address-sized field and laying it out again at the same width
/// yields the same integer, provided the value fits four bytes when the
/// class is 32-bit.
pub proof fn lemma_addr_round_trip(c: AddressFormat, e: Encoding, v: u64)
    requires
        c is ThirtyTwoBit ==> v < 0x1_0000_0000,
    ensures
        spec_addr_bytes(c, e, v).len() == spec_addr_width(c),
        spec_read_addr(c, e, spec_addr_bytes(c, e, v)) == v,
{
    match c {
        AddressFormat::ThirtyTwoBit => {
            lemma_u32_round_trip(e, v as u32);
            assert(v < 0x1_0000_0000 ==> ((v as u32) as u64) == v) by (bit_vector);
        },
        AddressFormat::SixtyFourBit => {
            lemma_u64_round_trip(e, v);
        },
    }
}

/// Laying an address-sized byte sequence out again after reading it yields
/// the same bytes, and a four-byte read always fits 32 bits.
pub proof fn lemma_addr_bytes_round_trip(c: AddressFormat, e: Encoding, s: Seq<u8>)
    requires
        s.len() == spec_addr_width(c),
    ensures
        spec_addr_bytes(c, e, spec_read_addr(c, e, s)) == s,
        c is ThirtyTwoBit ==> spec_read_addr(c, e, s) < 0x1_0000_0000,
{
    match c {
        AddressFormat::ThirtyTwoBit => {
            let x = spec_read_u32(e, s);
            assert(((x as u64) as u32) == x && (x as u64) < 0x1_0000_0000) by (bit_vector);
            lemma_u32_bytes_round_trip(e, s);
        },
        AddressFormat::SixtyFourBit => {
            lemma_u64_bytes_round_trip(e, s);
        },
    }
}

/// The encoded header is exactly as long as its class says: 52 bytes for a
/// 32-bit class, 64 for a 64-bit one.
pub proof fn lemma_encode_header_len(hv: HeaderView)
    requires
        hv.wf(),
    ensures
        spec_encode_header(hv).len() == spec_header_len(hv.ident.class),
{
}

/// Decoding an encoded well-formed identification, with anything appended,
/// yields the identification back.
proof fn lemma_ident_decode_of_encode_plus(iv: IdentificationView, rest: Seq<u8>)
    requires
        iv.wf(),
    ensures
        spec_decode_ident(spec_encode_ident(iv) + rest) == Ok::<IdentificationView, ErrorView>(iv),
{
    let s = spec_encode_ident(iv) + rest;
    assert(s.subrange(0, 4) =~= iv.magic);
    assert(s[4] == spec_class_code(iv.class));
    assert(s[5] == spec_order_code(iv.data));
    assert(s.subrange(6, 16) =~= iv.remaining);
    assert(spec_class_of(spec_class_code(iv.class)) == Some(iv.class));
    assert(spec_order_of(spec_order_code(iv.data)) == Some(iv.data));
    assert(spec_decode_magic(s) == Ok::<Seq<u8>, ErrorView>(iv.magic));
    assert(spec_decode_ident(s) == Ok::<IdentificationView, ErrorView>(iv));
}

/// Decoding the exact encoding of a well-formed identification yields it
/// back.
pub proof fn lemma_ident_round_trip(iv: IdentificationView)
    requires
        iv.wf(),
    ensures
        spec_decode_ident(spec_encode_ident(iv)) == Ok::<IdentificationView, ErrorView>(iv),
{
    lemma_ident_decode_of_encode_plus(iv, Seq::<u8>::empty());
    assert(spec_encode_ident(iv) + Seq::<u8>::empty() =~= spec_encode_ident(iv));
}

/// The fields of `hv` laid out at their fixed offsets in `s`: the
/// identification decodes to `hv.ident`, and every later field's bytes stand
/// at the offsets the identification's class fixes.
pub open spec fn spec_header_bytes_match(hv: HeaderView, s: Seq<u8>) -> bool {
    let order = hv.ident.data;
    let c = hv.ident.class;
    let w = spec_addr_width(c);
    &&& spec_decode_ident(s) == Ok::<IdentificationView, ErrorView>(hv.ident)
    &&& s.len() >= 40 + 3 * w
    &&& s.subrange(16, 18) == spec_u16_bytes(order, spec_type_code(hv.e_type))
    &&& s.subrange(18, 20) == spec_u16_bytes(order, spec_machine_code(hv.machine))
    &&& s.subrange(20, 24) == spec_u32_bytes(order, spec_version_code(hv.version))
    &&& s.subrange(24, 24 + w) == spec_addr_bytes(c, order, hv.entry)
    &&& s.subrange(24 + w, 24 + 2 * w) == spec_addr_bytes(c, order, hv.phoff)
    &&& s.subrange(24 + 2 * w, 24 + 3 * w) == spec_addr_bytes(c, order, hv.shoff)
    &&& s.subrange(24 + 3 * w, 28 + 3 * w) == spec_u32_bytes(order, hv.flags)
    &&& s.subrange(28 + 3 * w, 30 + 3 * w) == spec_u16_bytes(order, hv.ehsize)
    &&& s.subrange(30 + 3 * w, 32 + 3 * w) == spec_u16_bytes(order, hv.phentsize)
    &&& s.subrange(32 + 3 * w, 34 + 3 * w) == spec_u16_bytes(order, hv.phnum)
    &&& s.subrange(34 + 3 * w, 36 + 3 * w) == spec_u16_bytes(order, hv.shentsize)
    &&& s.subrange(36 + 3 * w, 38 + 3 * w) == spec_u16_bytes(order, hv.shnum)
    &&& s.subrange(38 + 3 * w, 40 + 3 * w) == spec_u16_bytes(order, hv.shstrndx)
}

/// An encoded well-formed header, with anything appended, lays each field's
/// bytes at its fixed offset.
#[verifier::rlimit(100)]
#[verifier::spinoff_prover]
proof fn lemma_encode_header_layout(hv: HeaderView, rest: Seq<u8>)
    requires
        hv.wf(),
    ensures
        spec_header_bytes_match(hv, spec_encode_header(hv) + rest),
        spec_encode_header(hv).len() == spec_header_len(hv.ident.class),
{
    let order = hv.ident.data;
    let c = hv.ident.class;
    let w = spec_addr_width(c);
    let si = spec_encode_ident(hv.ident);
    let seg_t = spec_u16_bytes(order, spec_type_code(hv.e_type));
    let seg_m = spec_u16_bytes(order, spec_machine_code(hv.machine));
    let seg_v = spec_u32_bytes(order, spec_version_code(hv.version));
    let seg_e = spec_addr_bytes(c, order, hv.entry);
    let seg_p = spec_addr_bytes(c, order, hv.phoff);
    let seg_s = spec_addr_bytes(c, order, hv.shoff);
    let seg_f = spec_u32_bytes(order, hv.flags);
    let g1 = spec_u16_bytes(order, hv.ehsize);
    let g2 = spec_u16_bytes(order, hv.phentsize);
    let g3 = spec_u16_bytes(order, hv.phnum);
    let g4 = spec_u16_bytes(order, hv.shentsize);
    let g5 = spec_u16_bytes(order, hv.shnum);
    let g6 = spec_u16_bytes(order, hv.shstrndx);
    let s = spec_encode_header(hv) + rest;
    assert(si.len() == 16);
    assert(seg_e.len() == w && seg_p.len() == w && seg_s.len() == w);
    assert(s.len() == 40 + 3 * w + rest.len());
    lemma_ident_decode_of_encode_plus(
        hv.ident,
        seg_t + seg_m + seg_v + seg_e + seg_p + seg_s + seg_f + g1 + g2 + g3 + g4 + g5 + g6 + rest,
    );
    assert(si + (seg_t + seg_m + seg_v + seg_e + seg_p + seg_s + seg_f + g1 + g2 + g3 + g4 + g5 + g6
        + rest) =~= s);
    assert(spec_decode_ident(s) == Ok::<IdentificationView, ErrorView>(hv.ident));
    assert(s.subrange(16, 18) =~= seg_t);
    assert(s.subrange(18, 20) =~= seg_m);
    assert(s.subrange(20, 24) =~= seg_v);
    assert(s.subrange(24, 24 + w) =~= seg_e);
    assert(s.subrange(24 + w, 24 + 2 * w) =~= seg_p);
    assert(s.subrange(24 + 2 * w, 24 + 3 * w) =~= seg_s);
    assert(s.subrange(24 + 3 * w, 28 + 3 * w) =~= seg_f);
    assert(s.subrange(28 + 3 * w, 30 + 3 * w) =~= g1);
    assert(s.subrange(30 + 3 * w, 32 + 3 * w) =~= g2);
    assert(s.subrange(32 + 3 * w, 34 + 3 * w) =~= g3);
    assert(s.subrange(34 + 3 * w, 36 + 3 * w) =~= g4);
    assert(s.subrange(36 + 3 * w, 38 + 3 * w) =~= g5);
    assert(s.subrange(38 + 3 * w, 40 + 3 * w) =~= g6);
}

/// A stream whose bytes lay out a well-formed header decodes to it.
#[verifier::rlimit(100)]
#[verifier::spinoff_prover]
proof fn lemma_bytes_match_decode(hv: HeaderView, s: Seq<u8>)
    requires
        hv.wf(),
        spec_header_bytes_match(hv, s),
    ensures
        spec_decode_header(s) == Ok::<HeaderView, ErrorView>(hv),
{
    let order = hv.ident.data;
    let c = hv.ident.class;
    lemma_u16_round_trip(order, spec_type_code(hv.e_type));
    assert(spec_type_of(spec_type_code(hv.e_type)) == Some(hv.e_type));
    lemma_u16_round_trip(order, spec_machine_code(hv.machine));
    assert(spec_machine_of(spec_machine_code(hv.machine)) == Some(hv.machine));
    lemma_u32_round_trip(order, spec_version_code(hv.version));
    assert(spec_version_of(spec_version_code(hv.version)) == Some(Version::Current));
    lemma_addr_round_trip(c, order, hv.entry);
    lemma_addr_round_trip(c, order, hv.phoff);
    lemma_addr_round_trip(c, order, hv.shoff);
    lemma_u32_round_trip(order, hv.flags);
    lemma_u16_round_trip(order, hv.ehsize);
    lemma_u16_round_trip(order, hv.phentsize);
    lemma_u16_round_trip(order, hv.phnum);
    lemma_u16_round_trip(order, hv.shentsize);
    lemma_u16_round_trip(order, hv.shnum);
    lemma_u16_round_trip(order, hv.shstrndx);
    assert(spec_decode_header(s) == Ok::<HeaderView, ErrorView>(hv));
}

/// Decoding an encoded well-formed header, with anything appended, yields
/// the header back.
proof fn lemma_header_decode_of_encode_plus(hv: HeaderView, rest: Seq<u8>)
    requires
        hv.wf(),
    ensures
        spec_decode_header(spec_encode_header(hv) + rest) == Ok::<HeaderView, ErrorView>(hv),
{
    lemma_encode_header_layout(hv, rest);
    lemma_bytes_match_decode(hv, spec_encode_header(hv) + rest);
}

/// Decoding the exact encoding of a well-formed header yields it back: the
/// round-trip law for headers, for every address class and byte order.
pub proof fn lemma_header_round_trip(hv: HeaderView)
    requires
        hv.wf(),
    ensures
        spec_decode_header(spec_encode_header(hv)) == Ok::<HeaderView, ErrorView>(hv),
{
    lemma_header_decode_of_encode_plus(hv, Seq::<u8>::empty());
    assert(spec_encode_header(hv) + Seq::<u8>::empty() =~= spec_encode_header(hv));
}

/// A successfully decoded identification is well formed and encodes back to
/// exactly the sixteen bytes it was read from.
pub proof fn lemma_ident_decode_encode(s: Seq<u8>, iv: IdentificationView)
    requires
        spec_decode_ident(s) == Ok::<IdentificationView, ErrorView>(iv),
    ensures
        iv.wf(),
        s.len() >= 16,
        spec_encode_ident(iv) == s.subrange(0, 16),
{
    assert(s[4] == spec_class_code(iv.class));
    assert(s[5] == spec_order_code(iv.data));
    assert(spec_encode_ident(iv) =~= s.subrange(0, 16));
}

/// A stream whose bytes lay out a well-formed header opens with exactly that
/// header's encoding.
#[verifier::rlimit(100)]
#[verifier::spinoff_prover]
proof fn lemma_bytes_match_encode(hv: HeaderView, s: Seq<u8>)
    requires
        hv.wf(),
        spec_header_bytes_match(hv, s),
    ensures
        spec_encode_header(hv) == s.subrange(0, spec_header_len(hv.ident.class)),
{
    let w = spec_addr_width(hv.ident.class);
    lemma_encode_header_layout(hv, Seq::<u8>::empty());
    let t = spec_encode_header(hv) + Seq::<u8>::empty();
    assert(t =~= spec_encode_header(hv));
    lemma_ident_decode_encode(s, hv.ident);
    lemma_ident_decode_encode(t, hv.ident);
    assert(t.subrange(0, 16) == s.subrange(0, 16));
    assert(t =~= s.subrange(0, 40 + 3 * w)) by {
        assert forall|i: int| 0 <= i < 40 + 3 * w implies t[i] == s[i] by {
            if i < 16 {
                assert(t.subrange(0, 16)[i] == t[i]);
                assert(s.subrange(0, 16)[i] == s[i]);
            } else if i < 18 {
                assert(t.subrange(16, 18)[i - 16] == t[i]);
                assert(s.subrange(16, 18)[i - 16] == s[i]);
            } else if i < 20 {
                assert(t.subrange(18, 20)[i - 18] == t[i]);
                assert(s.subrange(18, 20)[i - 18] == s[i]);
            } else if i < 24 {
                assert(t.subrange(20, 24)[i - 20] == t[i]);
                assert(s.subrange(20, 24)[i - 20] == s[i]);
            } else if i < 24 + w {
                assert(t.subrange(24, 24 + w)[i - 24] == t[i]);
                assert(s.subrange(24, 24 + w)[i - 24] == s[i]);
            } else if i < 24 + 2 * w {
                assert(t.subrange(24 + w, 24 + 2 * w)[i - 24 - w] == t[i]);
                assert(s.subrange(24 + w, 24 + 2 * w)[i - 24 - w] == s[i]);
            } else if i < 24 + 3 * w {
                assert(t.subrange(24 + 2 * w, 24 + 3 * w)[i - 24 - 2 * w] == t[i]);
                assert(s.subrange(24 + 2 * w, 24 + 3 * w)[i - 24 - 2 * w] == s[i]);
            } else if i < 28 + 3 * w {
                assert(t.subrange(24 + 3 * w, 28 + 3 * w)[i - 24 - 3 * w] == t[i]);
                assert(s.subrange(24 + 3 * w, 28 + 3 * w)[i - 24 - 3 * w] == s[i]);
            } else if i < 30 + 3 * w {
                assert(t.subrange(28 + 3 * w, 30 + 3 * w)[i - 28 - 3 * w] == t[i]);
                assert(s.subrange(28 + 3 * w, 30 + 3 * w)[i - 28 - 3 * w] == s[i]);
            } else if i < 32 + 3 * w {
                assert(t.subrange(30 + 3 * w, 32 + 3 * w)[i - 30 - 3 * w] == t[i]);
                assert(s.subrange(30 + 3 * w, 32 + 3 * w)[i - 30 - 3 * w] == s[i]);
            } else if i < 34 + 3 * w {
                assert(t.subrange(32 + 3 * w, 34 + 3 * w)[i - 32 - 3 * w] == t[i]);
                assert(s.subrange(32 + 3 * w, 34 + 3 * w)[i - 32 - 3 * w] == s[i]);
            } else if i < 36 + 3 * w {
                assert(t.subrange(34 + 3 * w, 36 + 3 * w)[i - 34 - 3 * w] == t[i]);
                assert(s.subrange(34 + 3 * w, 36 + 3 * w)[i - 34 - 3 * w] == s[i]);
            } else if i < 38 + 3 * w {
                assert(t.subrange(36 + 3 * w, 38 + 3 * w)[i - 36 - 3 * w] == t[i]);
                assert(s.subrange(36 + 3 * w, 38 + 3 * w)[i - 36 - 3 * w] == s[i]);
            } else {
                assert(t.subrange(38 + 3 * w, 40 + 3 * w)[i - 38 - 3 * w] == t[i]);
                assert(s.subrange(38 + 3 * w, 40 + 3 * w)[i - 38 - 3 * w] == s[i]);
            }
        }
    }
}

/// A successfully decoded header is well formed and encodes back to exactly
/// the bytes it was read from: as many as its class says, byte for byte.
#[verifier::rlimit(100)]
#[verifier::spinoff_prover]
pub proof fn lemma_header_decode_encode(s: Seq<u8>, hv: HeaderView)
    requires
        spec_decode_header(s) == Ok::<HeaderView, ErrorView>(hv),
    ensures
        hv.wf(),
        spec_header_len(hv.ident.class) <= s.len(),
        spec_encode_header(hv) == s.subrange(0, spec_header_len(hv.ident.class)),
{
    let order = hv.ident.data;
    let c = hv.ident.class;
    let w = spec_addr_width(c);
    assert(spec_decode_ident(s) == Ok::<IdentificationView, ErrorView>(hv.ident));
    lemma_ident_decode_encode(s, hv.ident);
    let xt = spec_read_u16(order, s.subrange(16, 18));
    assert(spec_type_code(hv.e_type) == xt);
    lemma_u16_bytes_round_trip(order, s.subrange(16, 18));
    let xm = spec_read_u16(order, s.subrange(18, 20));
    assert(spec_machine_code(hv.machine) == xm);
    lemma_u16_bytes_round_trip(order, s.subrange(18, 20));
    let xv = spec_read_u32(order, s.subrange(20, 24));
    assert(hv.version == Version::Current && xv == 1);
    lemma_u32_bytes_round_trip(order, s.subrange(20, 24));
    lemma_addr_bytes_round_trip(c, order, s.subrange(24, 24 + w));
    lemma_addr_bytes_round_trip(c, order, s.subrange(24 + w, 24 + 2 * w));
    lemma_addr_bytes_round_trip(c, order, s.subrange(24 + 2 * w, 24 + 3 * w));
    lemma_u32_bytes_round_trip(order, s.subrange(24 + 3 * w, 28 + 3 * w));
    lemma_u16_bytes_round_trip(order, s.subrange(28 + 3 * w, 30 + 3 * w));
    lemma_u16_bytes_round_trip(order, s.subrange(30 + 3 * w, 32 + 3 * w));
    lemma_u16_bytes_round_trip(order, s.subrange(32 + 3 * w, 34 + 3 * w));
    lemma_u16_bytes_round_trip(order, s.subrange(34 + 3 * w, 36 + 3 * w));
    lemma_u16_bytes_round_trip(order, s.subrange(36 + 3 * w, 38 + 3 * w));
    lemma_u16_bytes_round_trip(order, s.subrange(38 + 3 * w, 40 + 3 * w));
    assert(hv.wf());
    assert(spec_header_bytes_match(hv, s));
    lemma_bytes_match_encode(hv, s);
}

/// A successfully decoded file encodes back to exactly the stream it was
/// read from: the same length, the same bytes, the tail verbatim.
pub proof fn lemma_file_decode_encode(s: Seq<u8>, fv: FileView)
    requires
        spec_decode_file(s) == Ok::<FileView, ErrorView>(fv),
    ensures
        fv.wf(),
        spec_encode_file(fv) == s,
        spec_encode_file(fv).len() == s.len(),
{
    assert(spec_decode_header(s) == Ok::<HeaderView, ErrorView>(fv.header));
    lemma_header_decode_encode(s, fv.header);
    let hlen = spec_header_len(fv.header.ident.class);
    assert(fv.remaining == s.subrange(hlen, s.len() as int));
    assert(spec_encode_file(fv) =~= s) by {
        assert(spec_encode_header(fv.header) == s.subrange(0, hlen));
        assert forall|i: int| 0 <= i < s.len() implies spec_encode_file(fv)[i] == s[i] by {
            if i < hlen {
                assert(s.subrange(0, hlen)[i] == s[i]);
            } else {
                assert(s.subrange(hlen, s.len() as int)[i - hlen] == s[i]);
            }
        }
    }
}

/// Decoding the exact encoding of a well-formed file yields it back, the
/// tail untouched.
pub proof fn lemma_file_round_trip(fv: FileView)
    requires
        fv.wf(),
    ensures
        spec_decode_file(spec_encode_file(fv)) == Ok::<FileView, ErrorView>(fv),
{
    lemma_header_decode_of_encode_plus(fv.header, fv.remaining);
    lemma_encode_header_len(fv.header);
    let s = spec_encode_file(fv);
    assert(s.subrange(spec_header_len(fv.header.ident.class), s.len() as int) =~= fv.remaining);
    assert(spec_decode_file(s) == Ok::<FileView, ErrorView>(fv));
}

/// An input whose first four bytes are not the ELF signature fails with the
/// invalid-magic parse error, at every level and whatever follows them.
pub proof fn lemma_invalid_magic(s: Seq<u8>)
    requires
        s.len() >= 4,
        s.subrange(0, 4) != spec_elf_magic(),
    ensures
        spec_decode_magic(s) == Err::<Seq<u8>, ErrorView>(ErrorView::Parse(msg_invalid_magic())),
        spec_decode_ident(s) == Err::<IdentificationView, ErrorView>(
            ErrorView::Parse(msg_invalid_magic()),
        ),
        spec_decode_header(s) == Err::<HeaderView, ErrorView>(
            ErrorView::Parse(msg_invalid_magic()),
        ),
        spec_decode_file(s) == Err::<FileView, ErrorView>(ErrorView::Parse(msg_invalid_magic())),
{
}

/// A class byte outside the closed set — the zero sentinel included — fails
/// with the unknown-address-class parse error, at every level.
pub proof fn lemma_unknown_class(s: Seq<u8>)
    requires
        s.len() >= 5,
        s.subrange(0, 4) == spec_elf_magic(),
        s[4] != 1,
        s[4] != 2,
    ensures
        spec_decode_ident(s) == Err::<IdentificationView, ErrorView>(
            ErrorView::Parse(msg_unknown_class()),
        ),
        spec_decode_header(s) == Err::<HeaderView, ErrorView>(
            ErrorView::Parse(msg_unknown_class()),
        ),
        spec_decode_file(s) == Err::<FileView, ErrorView>(ErrorView::Parse(msg_unknown_class())),
{
}

/// A byte-order byte outside the closed set — the zero sentinel included —
/// fails with the unknown-byte-order parse error, at every level.
pub proof fn lemma_unknown_order(s: Seq<u8>)
    requires
        s.len() >= 6,
        s.subrange(0, 4) == spec_elf_magic(),
        s[4] == 1 || s[4] == 2,
        s[5] != 1,
        s[5] != 2,
    ensures
        spec_decode_ident(s) == Err::<IdentificationView, ErrorView>(
            ErrorView::Parse(msg_unknown_order()),
        ),
        spec_decode_header(s) == Err::<HeaderView, ErrorView>(
            ErrorView::Parse(msg_unknown_order()),
        ),
        spec_decode_file(s) == Err::<FileView, ErrorView>(ErrorView::Parse(msg_unknown_order())),
{
}

/// An input shorter than the sixteen-byte identification block never
/// decodes: no partially filled value can come back.
pub proof fn lemma_short_input_fails(s: Seq<u8>)
    requires
        s.len() < 16,
    ensures
        spec_decode_ident(s) is Err,
        spec_decode_header(s) is Err,
        spec_decode_file(s) is Err,
{
}

/// An input shorter than the identification block whose bytes, as far as
/// they go, are unobjectionable fails with the end-of-stream I/O error. (An
/// invalid magic, class or order byte among them gives its parse error
/// instead.)
pub proof fn lemma_short_input_eof(s: Seq<u8>)
    requires
        s.len() < 16,
        s.len() >= 4 ==> s.subrange(0, 4) == spec_elf_magic(),
        s.len() >= 5 ==> s[4] == 1 || s[4] == 2,
        s.len() >= 6 ==> s[5] == 1 || s[5] == 2,
    ensures
        spec_decode_ident(s) == Err::<IdentificationView, ErrorView>(
            ErrorView::IO(msg_end_of_stream()),
        ),
        spec_decode_header(s) == Err::<HeaderView, ErrorView>(ErrorView::IO(msg_end_of_stream())),
        spec_decode_file(s) == Err::<FileView, ErrorView>(ErrorView::IO(msg_end_of_stream())),
{
}

} // verus!
