//! The Aetheris Engine Binary (`.aeb`) asset container: a 16-byte header
//! (magic `AEB\x01`, version `u32` little-endian, uncompressed size `u64`
//! little-endian) followed by a Zstandard frame holding the MessagePack mesh.
//! Decoding the mesh itself (floating-point vertices) is left to the caller.

use vstd::prelude::*;

verus! {

/// Length of the container header.
pub const AEB_HEADER_LEN: usize = 16;

/// The built-in meshes.
#[derive(Clone, Copy, Debug, PartialEq, Eq, Hash, Structural)]
pub enum AssetHandle {
    Interceptor,
    Dreadnought,
    Asteroid,
    Projectile,
}

impl AssetHandle {
    /// The handle's number as scripts pass it (1 to 4).
    pub fn code(&self) -> (c: u32)
        ensures
            c == match *self {
                AssetHandle::Interceptor => 1u32,
                AssetHandle::Dreadnought => 2u32,
                AssetHandle::Asteroid => 3u32,
                AssetHandle::Projectile => 4u32,
            },
    {
        match self {
            AssetHandle::Interceptor => 1,
            AssetHandle::Dreadnought => 2,
            AssetHandle::Asteroid => 3,
            AssetHandle::Projectile => 4,
        }
    }

    /// The handle with this number, if any.
    pub fn from_code(c: u32) -> (h: Option<AssetHandle>)
        ensures
            match h {
                Some(x) => 1 <= c <= 4 && x.code_spec() == c,
                None => c < 1 || c > 4,
            },
    {
        match c {
            1 => Some(AssetHandle::Interceptor),
            2 => Some(AssetHandle::Dreadnought),
            3 => Some(AssetHandle::Asteroid),
            4 => Some(AssetHandle::Projectile),
            _ => None,
        }
    }

    /// The handle's number.
    pub open spec fn code_spec(&self) -> u32 {
        match *self {
            AssetHandle::Interceptor => 1u32,
            AssetHandle::Dreadnought => 2u32,
            AssetHandle::Asteroid => 3u32,
            AssetHandle::Projectile => 4u32,
        }
    }
}

/// Why an asset could not be read.
#[derive(Clone, Copy, Debug, PartialEq, Eq, Structural)]
pub enum AebError {
    /// Fewer than 16 bytes.
    TooSmall,
    /// The first four bytes are not `AEB\x01`.
    InvalidMagic,
    /// The header names a version other than 0.
    UnsupportedVersion(u32),
    /// The payload does not start with a valid Zstandard frame header.
    DecoderInit,
    /// The Zstandard frame is corrupt.
    Decompression,
}

impl AebError {
    /// A short description of the error.
    pub fn message(&self) -> (m: &'static str)
        ensures
            m@ == match *self {
                AebError::TooSmall => "Asset file too small"@,
                AebError::InvalidMagic => "Invalid AEB magic number"@,
                AebError::UnsupportedVersion(_) => "Unsupported AEB version"@,
                AebError::DecoderInit => "Failed to create decoder"@,
                AebError::Decompression => "Decompression failed"@,
            },
    {
        let m = match self {
            AebError::TooSmall => "Asset file too small",
            AebError::InvalidMagic => "Invalid AEB magic number",
            AebError::UnsupportedVersion(_) => "Unsupported AEB version",
            AebError::DecoderInit => "Failed to create decoder",
            AebError::Decompression => "Decompression failed",
        };
        m
    }
}

/// The decoded header fields.
#[derive(Clone, Copy, Debug, PartialEq, Eq, Structural)]
pub struct AebHeader {
    pub version: u32,
    pub uncompressed_size: u64,
}

/// The little-endian number in `b[at..at + n]`.
pub open spec fn le_value(b: Seq<u8>, at: int, n: nat) -> int
    decreases n,
{
    if n == 0 {
        0
    } else {
        b[at] + 256 * le_value(b, at + 1, (n - 1) as nat)
    }
}

/// The header of a container, or why it is not one.
pub open spec fn aeb_header_of(b: Seq<u8>) -> Result<AebHeader, AebError> {
    if b.len() < 16 {
        Err(AebError::TooSmall)
    } else if !(b[0] == 0x41 && b[1] == 0x45 && b[2] == 0x42 && b[3] == 0x01) {
        Err(AebError::InvalidMagic)
    } else if le_value(b, 4, 4) != 0 {
        Err(AebError::UnsupportedVersion(le_value(b, 4, 4) as u32))
    } else {
        Ok(AebHeader { version: 0, uncompressed_size: le_value(b, 8, 8) as u64 })
    }
}

/// The outcome of Zstandard-decoding a frame: its content, or which stage failed.
pub uninterp spec fn zstd_frame_content(frame: Seq<u8>) -> Result<Seq<u8>, AebError>;

/// A decoded byte buffer, by its contents.
pub open spec fn bytes_result(r: Result<Vec<u8>, AebError>) -> Result<Seq<u8>, AebError> {
    match r {
        Ok(v) => Ok(v@),
        Err(e) => Err(e),
    }
}

/// Calls `ruzstd::decoding::StreamingDecoder::new` on the frame and reads the
/// decoder to its end with `std::io::Read::read_to_end`. Its content depends on
/// the frame alone; it is named, not stated. A failure to read the frame header
/// is `DecoderInit`, a failure while decoding blocks `Decompression`.
#[verifier::external_body]
fn zstd_decompress(frame: &[u8]) -> (r: Result<Vec<u8>, AebError>)
    ensures
        bytes_result(r) == zstd_frame_content(frame@),
        r matches Err(e) ==> e == AebError::DecoderInit || e == AebError::Decompression,
{
    let mut decoder = match ruzstd::decoding::StreamingDecoder::new(frame) {
        Ok(d) => d,
        Err(_) => return Err(AebError::DecoderInit),
    };
    let mut out = Vec::new();
    match std::io::Read::read_to_end(&mut decoder, &mut out) {
        Ok(_) => Ok(out),
        Err(_) => Err(AebError::Decompression),
    }
}

/// The decompressed content of a container.
#[derive(Debug)]
pub struct AebPayload {
    /// The uncompressed size the header declares.
    pub uncompressed_size: u64,
    /// The decompressed bytes (the MessagePack-encoded mesh).
    pub data: Vec<u8>,
    /// A non-zero declared size differs from the actual one (a warning only).
    pub size_mismatch: bool,
}

/// Reads the 16-byte header: at least 16 bytes, the magic `AEB\x01`, version 0.
pub fn parse_aeb_header(bytes: &[u8]) -> (r: Result<AebHeader, AebError>)
    ensures
        r == aeb_header_of(bytes@),
{
    if bytes.len() < 16 {
        return Err(AebError::TooSmall);
    }
    if !(bytes[0] == 0x41 && bytes[1] == 0x45 && bytes[2] == 0x42 && bytes[3] == 0x01) {
        return Err(AebError::InvalidMagic);
    }
    let mut version: u32 = 0;
    let mut i: usize = 8;
    while i > 4
        invariant
            4 <= i <= 8,
            bytes@.len() >= 16,
            version == le_value(bytes@, i as int, (8 - i) as nat),
            version < pow256((8 - i) as nat),
        decreases i,
    {
        i = i - 1;
        proof {
            lemma_pow256_step((8 - i - 1) as nat);
        }
        version = version * 256 + bytes[i] as u32;
        assert(le_value(bytes@, i as int, (8 - i) as nat) == bytes@[i as int] + 256 * le_value(
            bytes@,
            i + 1,
            (8 - i - 1) as nat,
        ));
    }
    if version != 0 {
        return Err(AebError::UnsupportedVersion(version));
    }
    let mut size: u64 = 0;
    let mut j: usize = 16;
    while j > 8
        invariant
            8 <= j <= 16,
            bytes@.len() >= 16,
            size == le_value(bytes@, j as int, (16 - j) as nat),
            size < pow256((16 - j) as nat),
        decreases j,
    {
        j = j - 1;
        proof {
            lemma_pow256_step((16 - j - 1) as nat);
        }
        size = size * 256 + bytes[j] as u64;
        assert(le_value(bytes@, j as int, (16 - j) as nat) == bytes@[j as int] + 256 * le_value(
            bytes@,
            j + 1,
            (16 - j - 1) as nat,
        ));
    }
    Ok(AebHeader { version: 0, uncompressed_size: size })
}

/// `256^n`.
pub open spec fn pow256(n: nat) -> int
    decreases n,
{
    if n == 0 {
        1
    } else {
        256 * pow256((n - 1) as nat)
    }
}

/// Bounds on `256^n` used for the header fields.
proof fn lemma_pow256_step(n: nat)
    requires
        n < 8,
    ensures
        pow256(n + 1) == 256 * pow256(n),
        n < 4 ==> pow256(n + 1) <= 0x1_0000_0000,
        pow256(n + 1) <= 0x1_0000_0000_0000_0000,
{
    reveal_with_fuel(pow256, 9);
}

/// What follows decompression: a failure is passed on; otherwise the payload
/// is the decompressed bytes, flagged when a non-zero declared size differs
/// from their number.
pub fn aeb_payload(header: AebHeader, decoded: Result<Vec<u8>, AebError>) -> (r: Result<
    AebPayload,
    AebError,
>)
    ensures
        match decoded {
            Err(e) => r == Err::<AebPayload, AebError>(e),
            Ok(v) => r matches Ok(p) && p.data@ == v@ && p.uncompressed_size
                == header.uncompressed_size && p.size_mismatch == (header.uncompressed_size != 0
                && v@.len() != header.uncompressed_size),
        },
{
    match decoded {
        Err(e) => Err(e),
        Ok(data) => {
            let size_mismatch = header.uncompressed_size != 0 && data.len() as u64
                != header.uncompressed_size;
            Ok(AebPayload { uncompressed_size: header.uncompressed_size, data, size_mismatch })
        },
    }
}

/// Reads a container: the header is checked, then the rest is decompressed.
pub fn parse_asset(bytes: &[u8]) -> (r: Result<AebPayload, AebError>)
    ensures
        match aeb_header_of(bytes@) {
            Err(e) => r == Err::<AebPayload, AebError>(e),
            Ok(h) => match zstd_frame_content(bytes@.skip(16)) {
                Err(e) => r == Err::<AebPayload, AebError>(e),
                Ok(content) => r matches Ok(p) && p.data@ == content && p.uncompressed_size
                    == h.uncompressed_size && p.size_mismatch == (h.uncompressed_size != 0
                    && content.len() != h.uncompressed_size),
            },
        },
{
    let header = match parse_aeb_header(bytes) {
        Ok(h) => h,
        Err(e) => return Err(e),
    };
    let payload = slice_from(bytes, 16);
    let decoded = zstd_decompress(payload);
    aeb_payload(header, decoded)
}

/// The bytes from position `start` on.
fn slice_from(bytes: &[u8], start: usize) -> (s: &[u8])
    requires
        start <= bytes@.len(),
    ensures
        s@ == bytes@.skip(start as int),
{
    vstd::slice::slice_subrange(bytes, start, bytes.len())
}

} // verus!
