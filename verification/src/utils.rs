//! Byte-level decoding helpers, the UUID type, and file-type classification.
use vstd::prelude::*;

use crate::definitions::{
    ENOENT, S_IFBLK, S_IFCHR, S_IFDIR, S_IFIFO, S_IFLNK, S_IFMT, S_IFREG, S_IFSOCK,
};
use crate::dir3::{
    XFS_DIR3_FT_BLKDEV, XFS_DIR3_FT_CHRDEV, XFS_DIR3_FT_DIR, XFS_DIR3_FT_FIFO, XFS_DIR3_FT_REG_FILE,
    XFS_DIR3_FT_SOCK, XFS_DIR3_FT_SYMLINK,
};

verus! {

/// Big-endian value of the two bytes of `s` starting at `i`.
pub open spec fn be16(s: Seq<u8>, i: int) -> int {
    s[i] * 0x100 + s[i + 1]
}

/// Big-endian value of the four bytes of `s` starting at `i`.
pub open spec fn be32(s: Seq<u8>, i: int) -> int {
    s[i] * 0x100_0000 + s[i + 1] * 0x1_0000 + s[i + 2] * 0x100 + s[i + 3]
}

/// Big-endian value of the eight bytes of `s` starting at `i`.
pub open spec fn be64(s: Seq<u8>, i: int) -> int {
    be32(s, i) * 0x1_0000_0000 + be32(s, i + 4)
}

/// Big-endian value of the sixteen bytes of `s` starting at `i`.
pub open spec fn be128(s: Seq<u8>, i: int) -> int {
    be64(s, i) * 0x1_0000_0000_0000_0000 + be64(s, i + 8)
}

/// Little-endian value of the four bytes of `s` starting at `i`.
pub open spec fn le32(s: Seq<u8>, i: int) -> int {
    s[i + 3] * 0x100_0000 + s[i + 2] * 0x1_0000 + s[i + 1] * 0x100 + s[i]
}

/// Errors reported by the on-disk structure decoders.
#[derive(Debug, Clone, Copy, PartialEq, Eq, Structural)]
pub enum ParseError {
    /// The buffer ended before the structure did.
    UnexpectedEnd,
    /// A magic number did not match any of the expected values.
    BadMagic,
    /// A block's UUID differs from the file system's.
    UuidMismatch,
    /// A field holds a value that this implementation does not accept.
    InvalidValue,
}

#[verifier::external_type_specification]
#[verifier::external_body]
pub struct ExBincodeDecodeError(bincode::error::DecodeError);

/// `bincode::decode_from_slice::<u8, _>` with the standard configuration, big-endian and
/// fixed-width integers: it fails exactly when the slice is empty, and otherwise yields the first
/// byte and reports one byte read.
#[verifier::external_body]
fn bincode_u8(bytes: &[u8]) -> (r: Result<(u8, usize), bincode::error::DecodeError>)
    ensures
        r is Ok <==> bytes@.len() >= 1,
        r matches Ok((v, n)) ==> v == bytes@[0] && n == 1,
{
    bincode::decode_from_slice(
        bytes,
        bincode::config::standard().with_big_endian().with_fixed_int_encoding(),
    )
}

/// `bincode::decode_from_slice::<u16, _>` with the standard configuration, big-endian and
/// fixed-width integers: it fails exactly when fewer than 2 bytes are given, and otherwise yields
/// `u16::from_be_bytes` of the first 2 bytes and reports 2 bytes read.
#[verifier::external_body]
fn bincode_u16(bytes: &[u8]) -> (r: Result<(u16, usize), bincode::error::DecodeError>)
    ensures
        r is Ok <==> bytes@.len() >= 2,
        r matches Ok((v, n)) ==> v as int == be16(bytes@, 0) && n == 2,
{
    bincode::decode_from_slice(
        bytes,
        bincode::config::standard().with_big_endian().with_fixed_int_encoding(),
    )
}

/// `bincode::decode_from_slice::<u32, _>` with the standard configuration, big-endian and
/// fixed-width integers: it fails exactly when fewer than 4 bytes are given, and otherwise yields
/// `u32::from_be_bytes` of the first 4 bytes and reports 4 bytes read.
#[verifier::external_body]
fn bincode_u32(bytes: &[u8]) -> (r: Result<(u32, usize), bincode::error::DecodeError>)
    ensures
        r is Ok <==> bytes@.len() >= 4,
        r matches Ok((v, n)) ==> v as int == be32(bytes@, 0) && n == 4,
{
    bincode::decode_from_slice(
        bytes,
        bincode::config::standard().with_big_endian().with_fixed_int_encoding(),
    )
}

/// `bincode::decode_from_slice::<u64, _>` with the standard configuration, big-endian and
/// fixed-width integers: it fails exactly when fewer than 8 bytes are given, and otherwise yields
/// `u64::from_be_bytes` of the first 8 bytes and reports 8 bytes read.
#[verifier::external_body]
fn bincode_u64(bytes: &[u8]) -> (r: Result<(u64, usize), bincode::error::DecodeError>)
    ensures
        r is Ok <==> bytes@.len() >= 8,
        r matches Ok((v, n)) ==> v as int == be64(bytes@, 0) && n == 8,
{
    bincode::decode_from_slice(
        bytes,
        bincode::config::standard().with_big_endian().with_fixed_int_encoding(),
    )
}

/// `bincode::decode_from_slice::<u128, _>` with the standard configuration, big-endian and
/// fixed-width integers: it fails exactly when fewer than 16 bytes are given, and otherwise yields
/// `u128::from_be_bytes` of the first 16 bytes and reports 16 bytes read.
#[verifier::external_body]
fn bincode_u128(bytes: &[u8]) -> (r: Result<(u128, usize), bincode::error::DecodeError>)
    ensures
        r is Ok <==> bytes@.len() >= 16,
        r matches Ok((v, n)) ==> v as int == be128(bytes@, 0) && n == 16,
{
    bincode::decode_from_slice(
        bytes,
        bincode::config::standard().with_big_endian().with_fixed_int_encoding(),
    )
}

/// The bytes of `raw` from `ofs` to the end, or an error if `ofs` lies beyond the end.
fn tail(raw: &[u8], ofs: usize) -> (r: Result<&[u8], ParseError>)
    ensures
        r is Ok <==> ofs <= raw@.len(),
        r matches Ok(t) ==> t@ == raw@.subrange(ofs as int, raw@.len() as int),
        r matches Err(e) ==> e == ParseError::UnexpectedEnd,
{
    if ofs > raw.len() {
        Err(ParseError::UnexpectedEnd)
    } else {
        Ok(vstd::slice::slice_subrange(raw, ofs, raw.len()))
    }
}

/// Decode the byte at offset `ofs` of `raw`.
pub fn decode_u8(raw: &[u8], ofs: usize) -> (r: Result<u8, ParseError>)
    ensures
        r is Ok <==> ofs + 1 <= raw@.len(),
        r matches Ok(v) ==> v == raw@[ofs as int],
        r matches Err(e) ==> e == ParseError::UnexpectedEnd,
{
    let t = match tail(raw, ofs) {
        Ok(t) => t,
        Err(e) => {
            return Err(e);
        },
    };
    match bincode_u8(t) {
        Ok((v, _)) => Ok(v),
        Err(_) => Err(ParseError::UnexpectedEnd),
    }
}

/// Decode the big-endian `u16` at offset `ofs` of `raw`.
pub fn decode_u16(raw: &[u8], ofs: usize) -> (r: Result<u16, ParseError>)
    ensures
        r is Ok <==> ofs + 2 <= raw@.len(),
        r matches Ok(v) ==> v as int == be16(raw@, ofs as int),
        r matches Err(e) ==> e == ParseError::UnexpectedEnd,
{
    let t = match tail(raw, ofs) {
        Ok(t) => t,
        Err(e) => {
            return Err(e);
        },
    };
    match bincode_u16(t) {
        Ok((v, _)) => Ok(v),
        Err(_) => Err(ParseError::UnexpectedEnd),
    }
}

/// Decode the big-endian `u32` at offset `ofs` of `raw`.
pub fn decode_u32(raw: &[u8], ofs: usize) -> (r: Result<u32, ParseError>)
    ensures
        r is Ok <==> ofs + 4 <= raw@.len(),
        r matches Ok(v) ==> v as int == be32(raw@, ofs as int),
        r matches Err(e) ==> e == ParseError::UnexpectedEnd,
{
    let t = match tail(raw, ofs) {
        Ok(t) => t,
        Err(e) => {
            return Err(e);
        },
    };
    match bincode_u32(t) {
        Ok((v, _)) => Ok(v),
        Err(_) => Err(ParseError::UnexpectedEnd),
    }
}

/// Decode the big-endian `u64` at offset `ofs` of `raw`.
pub fn decode_u64(raw: &[u8], ofs: usize) -> (r: Result<u64, ParseError>)
    ensures
        r is Ok <==> ofs + 8 <= raw@.len(),
        r matches Ok(v) ==> v as int == be64(raw@, ofs as int),
        r matches Err(e) ==> e == ParseError::UnexpectedEnd,
{
    let t = match tail(raw, ofs) {
        Ok(t) => t,
        Err(e) => {
            return Err(e);
        },
    };
    match bincode_u64(t) {
        Ok((v, _)) => Ok(v),
        Err(_) => Err(ParseError::UnexpectedEnd),
    }
}

/// Decode the big-endian `u128` at offset `ofs` of `raw`.
pub fn decode_u128(raw: &[u8], ofs: usize) -> (r: Result<u128, ParseError>)
    ensures
        r is Ok <==> ofs + 16 <= raw@.len(),
        r matches Ok(v) ==> v as int == be128(raw@, ofs as int),
        r matches Err(e) ==> e == ParseError::UnexpectedEnd,
{
    let t = match tail(raw, ofs) {
        Ok(t) => t,
        Err(e) => {
            return Err(e);
        },
    };
    match bincode_u128(t) {
        Ok((v, _)) => Ok(v),
        Err(_) => Err(ParseError::UnexpectedEnd),
    }
}

/// Copy the `n` bytes at offset `ofs` of `raw`.
pub fn decode_bytes(raw: &[u8], ofs: usize, n: usize) -> (r: Result<Vec<u8>, ParseError>)
    ensures
        r is Ok <==> ofs + n <= raw@.len(),
        r matches Ok(v) ==> v@ == raw@.subrange(ofs as int, ofs + n),
        r matches Err(e) ==> e == ParseError::UnexpectedEnd,
{
    if ofs > raw.len() || raw.len() - ofs < n {
        return Err(ParseError::UnexpectedEnd);
    }
    Ok(vstd::slice::slice_to_vec(vstd::slice::slice_subrange(raw, ofs, ofs + n)))
}

#[verifier::external_type_specification]
#[verifier::external_body]
pub struct ExUuidError(uuid::Error);

/// The 128-bit value of the UUID that `uuid::Uuid::parse_str` reads from a string, if the
/// string is in one of the forms it accepts (simple, hyphenated, braced or URN).
pub uninterp spec fn spec_uuid_parse(s: Seq<char>) -> Option<u128>;

/// `uuid::Uuid::parse_str`, giving the parsed UUID's 128-bit big-endian value (`as_u128`).
/// What it accepts is left to the name `spec_uuid_parse`: it depends on the string alone.
#[verifier::external_body]
fn uuid_parse_str(input: &str) -> (r: Result<u128, uuid::Error>)
    ensures
        r is Ok <==> spec_uuid_parse(input@) is Some,
        r matches Ok(v) ==> spec_uuid_parse(input@) == Some(v),
{
    match uuid::Uuid::parse_str(input) {
        Ok(u) => Ok(u.as_u128()),
        Err(e) => Err(e),
    }
}

/// A file system UUID, held as its big-endian 128-bit value.
#[derive(Clone, Copy, Debug, Default, PartialEq, Eq, Structural, Hash, PartialOrd, Ord)]
pub struct Uuid(pub u128);

impl Uuid {
    pub fn from_u128(x: u128) -> (r: Self)
        ensures
            r.0 == x,
    {
        Uuid(x)
    }

    pub fn nil() -> (r: Self)
        ensures
            r.0 == 0,
    {
        Uuid(0)
    }

    /// Parse a UUID from its text form; a string that is not a UUID is InvalidValue.
    pub fn parse_str(input: &str) -> (r: Result<Uuid, ParseError>)
        ensures
            r is Ok <==> spec_uuid_parse(input@) is Some,
            r matches Ok(u) ==> spec_uuid_parse(input@) == Some(u.0),
            r is Err ==> r == Err::<Uuid, ParseError>(ParseError::InvalidValue),
    {
        match uuid_parse_str(input) {
            Ok(v) => Ok(Uuid(v)),
            Err(_) => Err(ParseError::InvalidValue),
        }
    }

    /// Decode a UUID stored as 16 bytes at offset `ofs` of `raw`.
    pub fn decode(raw: &[u8], ofs: usize) -> (r: Result<Uuid, ParseError>)
        ensures
            r is Ok <==> ofs + 16 <= raw@.len(),
            r matches Ok(u) ==> u.0 as int == be128(raw@, ofs as int),
    {
        match decode_u128(raw, ofs) {
            Ok(v) => Ok(Uuid(v)),
            Err(e) => Err(e),
        }
    }
}

/// How a file's type is recorded: a directory entry's file type byte, or an inode's mode.
pub enum FileKind {
    Type(u8),
    Mode(u16),
}

/// The kinds of files.
#[derive(Debug, Clone, Copy, PartialEq, Eq, Structural)]
pub enum FileType {
    RegularFile,
    Directory,
    Symlink,
    BlockDevice,
    CharDevice,
    NamedPipe,
    Socket,
}

/// The file type denoted by `kind`, if it is a known one.
pub open spec fn spec_file_type(kind: FileKind) -> Option<FileType> {
    match kind {
        FileKind::Type(t) => if t == XFS_DIR3_FT_REG_FILE {
            Some(FileType::RegularFile)
        } else if t == XFS_DIR3_FT_DIR {
            Some(FileType::Directory)
        } else if t == XFS_DIR3_FT_SYMLINK {
            Some(FileType::Symlink)
        } else if t == XFS_DIR3_FT_BLKDEV {
            Some(FileType::BlockDevice)
        } else if t == XFS_DIR3_FT_CHRDEV {
            Some(FileType::CharDevice)
        } else if t == XFS_DIR3_FT_FIFO {
            Some(FileType::NamedPipe)
        } else if t == XFS_DIR3_FT_SOCK {
            Some(FileType::Socket)
        } else {
            None
        },
        FileKind::Mode(m) => {
            let fmt = m & S_IFMT;
            if fmt == S_IFREG {
                Some(FileType::RegularFile)
            } else if fmt == S_IFDIR {
                Some(FileType::Directory)
            } else if fmt == S_IFLNK {
                Some(FileType::Symlink)
            } else if fmt == S_IFBLK {
                Some(FileType::BlockDevice)
            } else if fmt == S_IFCHR {
                Some(FileType::CharDevice)
            } else if fmt == S_IFIFO {
                Some(FileType::NamedPipe)
            } else if fmt == S_IFSOCK {
                Some(FileType::Socket)
            } else {
                None
            }
        },
    }
}

/// Classify a file: a regular file, directory, symlink, device, FIFO or socket; any other
/// type is reported as ENOENT.
pub fn get_file_type(kind: FileKind) -> (r: Result<FileType, i32>)
    ensures
        spec_file_type(kind) matches Some(t) ==> r == Ok::<FileType, i32>(t),
        spec_file_type(kind) is None ==> r == Err::<FileType, i32>(ENOENT),
{
    match kind {
        FileKind::Type(file_type) => {
            if file_type == XFS_DIR3_FT_REG_FILE {
                Ok(FileType::RegularFile)
            } else if file_type == XFS_DIR3_FT_DIR {
                Ok(FileType::Directory)
            } else if file_type == XFS_DIR3_FT_SYMLINK {
                Ok(FileType::Symlink)
            } else if file_type == XFS_DIR3_FT_BLKDEV {
                Ok(FileType::BlockDevice)
            } else if file_type == XFS_DIR3_FT_CHRDEV {
                Ok(FileType::CharDevice)
            } else if file_type == XFS_DIR3_FT_FIFO {
                Ok(FileType::NamedPipe)
            } else if file_type == XFS_DIR3_FT_SOCK {
                Ok(FileType::Socket)
            } else {
                Err(ENOENT)
            }
        },
        FileKind::Mode(file_mode) => {
            let fmt: u16 = file_mode & S_IFMT;
            if fmt == S_IFREG {
                Ok(FileType::RegularFile)
            } else if fmt == S_IFDIR {
                Ok(FileType::Directory)
            } else if fmt == S_IFLNK {
                Ok(FileType::Symlink)
            } else if fmt == S_IFBLK {
                Ok(FileType::BlockDevice)
            } else if fmt == S_IFCHR {
                Ok(FileType::CharDevice)
            } else if fmt == S_IFIFO {
                Ok(FileType::NamedPipe)
            } else if fmt == S_IFSOCK {
                Ok(FileType::Socket)
            } else {
                Err(ENOENT)
            }
        },
    }
}

/// A directory entry's file type byte and an inode's mode name the same kinds of file: type 1
/// is what mode format 0o100000 is (a regular file), 2 is 0o040000 (a directory), 3 is 0o020000
/// (a character device), 4 is 0o060000 (a block device), 5 is 0o010000 (a FIFO), 6 is 0o140000
/// (a socket) and 7 is 0o120000 (a symbolic link).  Each mode format names its own kind: a
/// symbolic link is exactly a mode of format 0o120000, and so on; no two type bytes and no two
/// mode formats name the same kind; and other type bytes and formats name none.
pub proof fn lemma_file_type_kinds(t: u8, t2: u8, m: u16, m2: u16)
    ensures
        ({
            let fmt = m & 0o170000u16;
            &&& fmt == 0o100000 ==> spec_file_type(FileKind::Mode(m)) == spec_file_type(FileKind::Type(1))
            &&& fmt == 0o040000 ==> spec_file_type(FileKind::Mode(m)) == spec_file_type(FileKind::Type(2))
            &&& fmt == 0o020000 ==> spec_file_type(FileKind::Mode(m)) == spec_file_type(FileKind::Type(3))
            &&& fmt == 0o060000 ==> spec_file_type(FileKind::Mode(m)) == spec_file_type(FileKind::Type(4))
            &&& fmt == 0o010000 ==> spec_file_type(FileKind::Mode(m)) == spec_file_type(FileKind::Type(5))
            &&& fmt == 0o140000 ==> spec_file_type(FileKind::Mode(m)) == spec_file_type(FileKind::Type(6))
            &&& fmt == 0o120000 ==> spec_file_type(FileKind::Mode(m)) == spec_file_type(FileKind::Type(7))
            &&& spec_file_type(FileKind::Mode(m)) == Some(FileType::RegularFile) <==> fmt == 0o100000
            &&& spec_file_type(FileKind::Mode(m)) == Some(FileType::Directory) <==> fmt == 0o040000
            &&& spec_file_type(FileKind::Mode(m)) == Some(FileType::CharDevice) <==> fmt == 0o020000
            &&& spec_file_type(FileKind::Mode(m)) == Some(FileType::BlockDevice) <==> fmt == 0o060000
            &&& spec_file_type(FileKind::Mode(m)) == Some(FileType::NamedPipe) <==> fmt == 0o010000
            &&& spec_file_type(FileKind::Mode(m)) == Some(FileType::Socket) <==> fmt == 0o140000
            &&& spec_file_type(FileKind::Mode(m)) == Some(FileType::Symlink) <==> fmt == 0o120000
            &&& spec_file_type(FileKind::Type(t)) is Some <==> 1 <= t <= 7
            &&& spec_file_type(FileKind::Type(t)) is Some && spec_file_type(FileKind::Type(t))
                == spec_file_type(FileKind::Type(t2)) ==> t == t2
            &&& spec_file_type(FileKind::Mode(m)) is Some && spec_file_type(FileKind::Mode(m))
                == spec_file_type(FileKind::Mode(m2)) ==> fmt == m2 & 0o170000u16
        }),
{
}

} // verus!
