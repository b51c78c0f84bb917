//! Error types for MDF reading and writing.

use vstd::prelude::*;

verus! {

/// Error returned when opening (reading) an MDF file fails.
#[derive(Debug)]
pub enum MdfOpenError {
    /// The data does not begin with the expected MDF signature bytes.
    InvalidSignature,
    /// MT19937 MDF handling was requested with a key length of zero.
    InvalidKeyLength(usize),
    /// A key was given without the original file name it is combined with.
    MissingMt19937Key,
    /// The MDF payload could not be inflated.
    Decompress(std::io::Error),
    /// The MDF payload could not be decrypted with the supplied seed or key.
    Decrypt,
    /// The data ended before the MDF header was complete.
    Io(std::io::Error),
}

/// Error returned when creating (writing) an MDF file fails.
#[derive(Debug)]
pub enum MdfCreateError {
    /// An I/O error occurred while writing the MDF header.
    Header(std::io::Error),
}

} // verus!
