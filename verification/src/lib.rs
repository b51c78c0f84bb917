//! Reading and writing of MDF, the compressed wrapper around E-mote PSB data.
//!
//! An MDF file is the signature `mdf\0`, the original length as a little-endian
//! `u32`, and a zlib payload.  Some game archives XOR-obfuscate that payload with
//! a key stream from an MT19937 generator seeded by `MD5(key + file name)`; the
//! reader in [`mdf`] recognises both layouts.

pub mod mdf;

use vstd::prelude::*;

verus! {

/// PSB file signature (`"PSB"` as a little-endian `u32`).
pub const PSB_SIGNATURE: u32 = 0x425350;

/// MDF (compressed PSB) file signature (`"mdf"` as a little-endian `u32`).
pub const PSB_MDF_SIGNATURE: u32 = 0x66646D;

} // verus!
