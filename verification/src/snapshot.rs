//! The formatting engine's startup snapshot: a compressed block prefixed
//! with its decompressed size as four little-endian bytes.

use vstd::prelude::*;
use vstd::string::StringExecFns;

verus! {

/// The value of four little-endian bytes.
pub open spec fn le32_of(b0: u8, b1: u8, b2: u8, b3: u8) -> nat {
    (b0 as nat) + 256 * (b1 as nat) + 65536 * (b2 as nat) + 16777216 * (b3 as nat)
}

/// The decompressed size a snapshot's header announces.
pub open spec fn announced_size(data: Seq<u8>) -> nat
    recommends
        data.len() >= 4,
{
    le32_of(data[0], data[1], data[2], data[3])
}

/// Reads four little-endian bytes.
pub fn read_le32(b0: u8, b1: u8, b2: u8, b3: u8) -> (value: u32)
    ensures
        value == le32_of(b0, b1, b2, b3),
{
    (b0 as u32) + 256 * (b1 as u32) + 65536 * (b2 as u32) + 16777216 * (b3 as u32)
}

/// What a compressed block decompresses to, when it is a valid block: a
/// function of its bytes alone.
pub uninterp spec fn zstd_inflate(input: Seq<u8>) -> Option<Seq<u8>>;

/// Decompresses one block into at most `capacity` bytes.
///
/// Relies on zstd::bulk::decompress: what a block decompresses to depends
/// on its bytes alone, and a successful call returns at most `capacity`
/// bytes.
#[verifier::external_body]
fn zstd_decompress(data: &Vec<u8>, capacity: usize) -> (decompressed: Option<Vec<u8>>)
    ensures
        decompressed matches Some(v) ==> zstd_inflate(data@) == Some(v@) && v@.len() <= capacity,
{
    zstd::bulk::decompress(data.as_slice(), capacity).ok()
}

/// The error reported for a snapshot that does not decompress.
pub open spec fn snapshot_error_message() -> Seq<char> {
    "could not decompress the startup snapshot"@
}

/// Unpacks a serialized snapshot: the first four bytes announce the
/// decompressed size, the rest is the compressed block.
pub fn deserialize_snapshot(data: &Vec<u8>) -> (snapshot: Result<Vec<u8>, String>)
    requires
        data@.len() >= 4,
    ensures
        match snapshot {
            Ok(v) => zstd_inflate(data@.skip(4)) == Some(v@) && v@.len() <= announced_size(data@),
            Err(m) => m@ == snapshot_error_message(),
        },
{
    let size = read_le32(data[0], data[1], data[2], data[3]);
    let mut block: Vec<u8> = Vec::new();
    let mut i: usize = 4;
    while i < data.len()
        invariant
            4 <= i <= data@.len(),
            block@ =~= data@.subrange(4, i as int),
        decreases data@.len() - i,
    {
        block.push(data[i]);
        i = i + 1;
    }
    proof {
        assert(block@ =~= data@.skip(4));
    }
    let decompressed = zstd_decompress(&block, size as usize);
    match decompressed {
        Some(v) => Ok(v),
        None => Err(String::from_str("could not decompress the startup snapshot")),
    }
}

/// Unpacks the engine's startup snapshot from its serialized form.
pub fn get_startup_snapshot(compressed: &Vec<u8>) -> (snapshot: Result<Vec<u8>, String>)
    requires
        compressed@.len() >= 4,
    ensures
        match snapshot {
            Ok(v) => zstd_inflate(compressed@.skip(4)) == Some(v@) && v@.len() <= announced_size(
                compressed@,
            ),
            Err(m) => m@ == snapshot_error_message(),
        },
{
    deserialize_snapshot(compressed)
}

} // verus!
