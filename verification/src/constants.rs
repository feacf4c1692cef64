use vstd::prelude::*;

verus! {

/// First two bytes of every ZIP archive ("PK").
pub const ZIP_MAGIC_0: u8 = 0x50;
pub const ZIP_MAGIC_1: u8 = 0x4B;

/// ZIP record signatures, read as little-endian 32-bit words.
pub const LOCAL_FILE_HEADER_SIGNATURE: u32 = 0x04034b50;
pub const CENTRAL_DIR_HEADER_SIGNATURE: u32 = 0x02014b50;
pub const EOCD_SIGNATURE: u32 = 0x06054b50;
pub const ZIP64_EOCD_SIGNATURE: u32 = 0x06064b50;
pub const ZIP64_EOCD_LOCATOR_SIGNATURE: u32 = 0x07064b50;

/// The payload magic "CrAU", read as a big-endian 32-bit word.
pub const PAYLOAD_MAGIC: u32 = 0x43724155;

/// The only payload format version this dumper understands.
pub const SUPPORTED_PAYLOAD_VERSION: u64 = 2;

/// Block size assumed when the manifest does not give one.
pub const DEFAULT_BLOCK_SIZE: u32 = 4096;

} // verus!
