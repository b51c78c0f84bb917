//! MDF (compressed PSB) reading and writing support.
//!
//! Two MDF layouts are in use around E-mote/M2 PSB files:
//!
//! - plain MDF: `mdf\0` + original size + zlib payload;
//! - MT19937 MDF: the same wrapper, but the zlib payload is XOR-obfuscated
//!   with a key stream derived from `MD5(key + original_file_name)`.
//!
//! [`MdfReader::open`] reads plain MDF; [`MdfReader::open_with_seed`] and
//! [`MdfReader::open_with_key`] also read the MT19937 shell.

pub mod codec;
pub mod error;
pub mod keystream;
pub mod laws;
pub mod md5;
pub mod mt19937;

use crate::mdf::codec::{
    deflate_zlib, inflate_zlib_payload, le_u32, read_u32_le, u32_le_bytes, write_u32_le,
    zlib_compress, zlib_inflate,
};
use crate::mdf::error::MdfOpenError;
use crate::mdf::keystream::{decrypt_and_inflate_mt19937_payload, first_decryption};
use crate::PSB_MDF_SIGNATURE;
use vstd::prelude::*;
use vstd::slice::slice_subrange;
use vstd::utf8::encode_utf8;

verus! {

/// The key length that MT19937 MDF files commonly use.
pub const DEFAULT_MT19937_KEY_LEN: usize = 0x83;

/// MDF shell detected or used by the reader.
#[derive(Clone, Copy, Debug, PartialEq, Eq, Structural)]
pub enum MdfShell {
    /// Plain zlib-compressed MDF.
    Plain,
    /// MDF whose zlib payload was XOR-obfuscated by an MT19937-derived key stream.
    Mt19937,
}

/// Options used when opening an MDF stream.
#[derive(Clone, Debug)]
pub struct MdfReadOptions {
    /// Complete MT19937 seed.  In FreeMote terms this is usually `key + file_name`.
    pub seed: Option<Vec<u8>>,
    /// Game key.  This is combined with [`file_name`](Self::file_name).
    pub key: Option<String>,
    /// Original file name used by the game.  Required when `key` is used.
    pub file_name: Option<String>,
    /// Length of the repeated MT19937 XOR key.  FreeMote commonly uses `0x83`.
    pub key_len: Option<usize>,
    /// Whether to try plain MDF before MT19937 when a key/seed is supplied.
    pub try_plain_first: bool,
}

/// The abstract value of [`MdfReadOptions`]: strings by their characters,
/// byte vectors by their bytes.
pub struct ReadOptionsView {
    pub seed: Option<Seq<u8>>,
    pub key: Option<Seq<char>>,
    pub file_name: Option<Seq<char>>,
    pub key_len: Option<usize>,
    pub try_plain_first: bool,
}

impl View for MdfReadOptions {
    type V = ReadOptionsView;

    open spec fn view(&self) -> ReadOptionsView {
        ReadOptionsView {
            seed: match self.seed {
                Some(s) => Some(s@),
                None => None,
            },
            key: match self.key {
                Some(k) => Some(k@),
                None => None,
            },
            file_name: match self.file_name {
                Some(f) => Some(f@),
                None => None,
            },
            key_len: self.key_len,
            try_plain_first: self.try_plain_first,
        }
    }
}

impl ReadOptionsView {
    /// A key was given, but neither a complete seed nor the file name.
    pub open spec fn key_without_file_name(self) -> bool {
        self.seed is None && self.key is Some && self.file_name is None
    }

    /// The MT19937 seed the options resolve to: the complete seed if given,
    /// else the UTF-8 bytes of the key followed by those of the file name.
    pub open spec fn seed_bytes(self) -> Option<Seq<u8>> {
        match self.seed {
            Some(s) => Some(s),
            None => match (self.key, self.file_name) {
                (Some(k), Some(f)) => Some(encode_utf8(k) + encode_utf8(f)),
                _ => None,
            },
        }
    }

    /// The repeated-key length the options resolve to.
    pub open spec fn resolved_key_len(self) -> nat {
        match self.key_len {
            Some(n) => n as nat,
            None => DEFAULT_MT19937_KEY_LEN as nat,
        }
    }
}

/// Options for a plain MDF.
pub open spec fn plain_options() -> ReadOptionsView {
    ReadOptionsView { seed: None, key: None, file_name: None, key_len: None, try_plain_first: true }
}

/// Options for a complete seed and a key length.
pub open spec fn seed_options(seed: Seq<u8>, key_len: usize) -> ReadOptionsView {
    ReadOptionsView {
        seed: Some(seed),
        key: None,
        file_name: None,
        key_len: Some(key_len),
        try_plain_first: true,
    }
}

/// Options for a game key, a file name and a key length.
pub open spec fn key_options(key: Seq<char>, file_name: Seq<char>, key_len: usize) -> ReadOptionsView {
    ReadOptionsView {
        seed: None,
        key: Some(key),
        file_name: Some(file_name),
        key_len: Some(key_len),
        try_plain_first: true,
    }
}

fn copy_bytes(s: &[u8]) -> (v: Vec<u8>)
    ensures
        v@ == s@,
{
    let mut v: Vec<u8> = Vec::new();
    let mut i: usize = 0;
    while i < s.len()
        invariant
            i <= s@.len(),
            v@ == s@.subrange(0, i as int),
        decreases s@.len() - i,
    {
        v.push(s[i]);
        i += 1;
    }
    assert(v@ =~= s@);
    v
}

fn append_bytes(v: &mut Vec<u8>, s: &[u8])
    ensures
        final(v)@ == old(v)@ + s@,
{
    let mut i: usize = 0;
    while i < s.len()
        invariant
            i <= s@.len(),
            v@ == old(v)@ + s@.subrange(0, i as int),
        decreases s@.len() - i,
    {
        v.push(s[i]);
        i += 1;
        assert(v@ =~= old(v)@ + s@.subrange(0, i as int));
    }
    assert(s@.subrange(0, s@.len() as int) =~= s@);
}

impl Default for MdfReadOptions {
    fn default() -> (r: Self)
        ensures
            r@ == (ReadOptionsView {
                seed: None,
                key: None,
                file_name: None,
                key_len: None,
                try_plain_first: false,
            }),
    {
        MdfReadOptions { seed: None, key: None, file_name: None, key_len: None, try_plain_first: false }
    }
}

impl MdfReadOptions {
    /// Create empty options for a plain MDF.
    pub fn plain() -> (r: Self)
        ensures
            r@ == plain_options(),
    {
        MdfReadOptions { seed: None, key: None, file_name: None, key_len: None, try_plain_first: true }
    }

    /// Create options from a complete MT19937 seed.
    pub fn with_seed(seed: &[u8]) -> (r: Self)
        ensures
            r@ == seed_options(seed@, DEFAULT_MT19937_KEY_LEN),
    {
        MdfReadOptions {
            seed: Some(copy_bytes(seed)),
            key: None,
            file_name: None,
            key_len: Some(DEFAULT_MT19937_KEY_LEN),
            try_plain_first: true,
        }
    }

    /// Create options from a game key and the original file name.
    pub fn with_key(key: String, file_name: String) -> (r: Self)
        ensures
            r@ == key_options(key@, file_name@, DEFAULT_MT19937_KEY_LEN),
    {
        MdfReadOptions {
            seed: None,
            key: Some(key),
            file_name: Some(file_name),
            key_len: Some(DEFAULT_MT19937_KEY_LEN),
            try_plain_first: true,
        }
    }

    /// Create options from a game key and a path whose final file-name
    /// component is the original file name; a path without one is rejected.
    pub fn with_key_path(key: String, path: &str) -> (r: Result<Self, MdfOpenError>)
        ensures
            path_without_file_name(path@) ==> r matches Err(MdfOpenError::MissingMt19937Key),
            portable_file_name_path(path@) ==> (r matches Ok(o) && o@ == key_options(
                key@,
                last_slash_segment(path@),
                DEFAULT_MT19937_KEY_LEN,
            )),
            r matches Err(e) ==> e is MissingMt19937Key,
            r matches Ok(o) ==> exists|name: Seq<char>|
                file_name_in_path(path@, name) && o@ == key_options(
                    key@,
                    name,
                    DEFAULT_MT19937_KEY_LEN,
                ),
    {
        match path_file_name(path) {
            None => Err(MdfOpenError::MissingMt19937Key),
            Some(file_name) => {
                let ghost name = file_name@;
                let o = Self::with_key(key, file_name);
                assert(file_name_in_path(path@, name));
                Ok(o)
            },
        }
    }

    /// Override the MT19937 key length.
    pub fn key_len(self, key_len: usize) -> (r: Self)
        ensures
            r@ == (ReadOptionsView { key_len: Some(key_len), ..self@ }),
    {
        let mut s = self;
        s.key_len = Some(key_len);
        s
    }

    /// The MT19937 seed the options resolve to: the complete seed if given,
    /// else the key's bytes followed by the file name's.
    pub fn resolved_seed(&self) -> (r: Result<Option<Vec<u8>>, MdfOpenError>)
        ensures
            self@.key_without_file_name() ==> r matches Err(MdfOpenError::MissingMt19937Key),
            !self@.key_without_file_name() ==> (r matches Ok(o) && match o {
                Some(v) => self@.seed_bytes() == Some(v@),
                None => self@.seed_bytes() is None,
            }),
    {
        if let Some(seed) = &self.seed {
            return Ok(Some(copy_bytes(seed.as_slice())));
        }
        match (&self.key, &self.file_name) {
            (Some(key), Some(file_name)) => {
                let mut seed: Vec<u8> = Vec::new();
                append_bytes(&mut seed, key.as_str().as_bytes());
                append_bytes(&mut seed, file_name.as_str().as_bytes());
                Ok(Some(seed))
            },
            (Some(_), None) => Err(MdfOpenError::MissingMt19937Key),
            _ => Ok(None),
        }
    }

    /// The repeated-key length the options resolve to; zero is rejected.
    pub fn resolved_key_len(&self) -> (r: Result<usize, MdfOpenError>)
        ensures
            self@.resolved_key_len() == 0 ==> r matches Err(MdfOpenError::InvalidKeyLength(0)),
            self@.resolved_key_len() != 0 ==> r == Ok::<usize, MdfOpenError>(
                self@.resolved_key_len() as usize,
            ),
    {
        let key_len = match self.key_len {
            Some(n) => n,
            None => DEFAULT_MT19937_KEY_LEN,
        };
        if key_len == 0 {
            Err(MdfOpenError::InvalidKeyLength(key_len))
        } else {
            Ok(key_len)
        }
    }
}

/// Why opening an MDF file fails, without the underlying I/O error values.
pub enum OpenFailure {
    InvalidSignature,
    InvalidKeyLength(usize),
    MissingMt19937Key,
    Decompress,
    Decrypt,
    Io,
}

/// The failure that an open error stands for.
pub open spec fn failure_of(e: MdfOpenError) -> OpenFailure {
    match e {
        MdfOpenError::InvalidSignature => OpenFailure::InvalidSignature,
        MdfOpenError::InvalidKeyLength(n) => OpenFailure::InvalidKeyLength(n),
        MdfOpenError::MissingMt19937Key => OpenFailure::MissingMt19937Key,
        MdfOpenError::Decompress(_) => OpenFailure::Decompress,
        MdfOpenError::Decrypt => OpenFailure::Decrypt,
        MdfOpenError::Io(_) => OpenFailure::Io,
    }
}

/// What opening yields: the decoded bytes and the shell they came out of, or
/// a failure.
pub enum OpenOutcome {
    Decoded { decoded: Seq<u8>, shell: MdfShell },
    Failed(OpenFailure),
}

/// The outcome of decoding an MDF payload (everything after the header).
pub open spec fn payload_outcome(payload: Seq<u8>, o: ReadOptionsView) -> OpenOutcome {
    if o.key_without_file_name() {
        OpenOutcome::Failed(OpenFailure::MissingMt19937Key)
    } else if o.resolved_key_len() == 0 {
        OpenOutcome::Failed(OpenFailure::InvalidKeyLength(0))
    } else if o.try_plain_first && zlib_inflate(payload) is Some {
        OpenOutcome::Decoded { decoded: zlib_inflate(payload)->0, shell: MdfShell::Plain }
    } else if o.seed_bytes() is Some {
        match first_decryption(payload, o.seed_bytes()->0, o.resolved_key_len(), 0) {
            Some(d) => OpenOutcome::Decoded { decoded: d, shell: MdfShell::Mt19937 },
            None => OpenOutcome::Failed(OpenFailure::Decrypt),
        }
    } else {
        match zlib_inflate(payload) {
            Some(d) => OpenOutcome::Decoded { decoded: d, shell: MdfShell::Plain },
            None => OpenOutcome::Failed(OpenFailure::Decompress),
        }
    }
}

/// The outcome of opening the MDF file `data`.
pub open spec fn open_outcome(data: Seq<u8>, o: ReadOptionsView) -> OpenOutcome {
    if data.len() < 4 {
        OpenOutcome::Failed(OpenFailure::Io)
    } else if le_u32(data) != PSB_MDF_SIGNATURE {
        OpenOutcome::Failed(OpenFailure::InvalidSignature)
    } else if data.len() < 8 {
        OpenOutcome::Failed(OpenFailure::Io)
    } else {
        payload_outcome(data.subrange(8, data.len() as int), o)
    }
}

/// The size field of an MDF header: the second little-endian word.
pub open spec fn header_size(data: Seq<u8>) -> u32 {
    le_u32(data.subrange(4, 8))
}

/// `r` is what opening `data` with options `o` should give.
pub open spec fn open_result_matches(
    r: Result<MdfReader, MdfOpenError>,
    data: Seq<u8>,
    o: ReadOptionsView,
) -> bool {
    match open_outcome(data, o) {
        OpenOutcome::Decoded { decoded, shell } => r matches Ok(rd) && rd@ == (MdfReaderView {
            decoded,
            pos: 0,
            size: header_size(data),
            shell,
        }),
        OpenOutcome::Failed(f) => r matches Err(e) && failure_of(e) == f,
    }
}

/// A reader for MDF (zlib-compressed PSB) data.
///
/// The payload is inflated while opening; the reader then hands out the
/// decoded bytes in order.
pub struct MdfReader {
    decoded: Vec<u8>,
    pos: usize,
    size: u32,
    shell: MdfShell,
}

/// The abstract value of an [`MdfReader`].
pub struct MdfReaderView {
    /// All decoded bytes.
    pub decoded: Seq<u8>,
    /// How many of them have been read.
    pub pos: nat,
    /// The raw size value of the MDF header.
    pub size: u32,
    /// The shell the payload came out of.
    pub shell: MdfShell,
}

impl View for MdfReader {
    type V = MdfReaderView;

    closed spec fn view(&self) -> MdfReaderView {
        MdfReaderView { decoded: self.decoded@, pos: self.pos as nat, size: self.size, shell: self.shell }
    }
}

/// One read of up to `max` bytes: the reader after it and the bytes it yields,
/// the next unread decoded bytes.
pub open spec fn read_step(v: MdfReaderView, max: nat) -> (MdfReaderView, Seq<u8>) {
    let n = if max < v.decoded.len() - v.pos { max as int } else { v.decoded.len() - v.pos };
    (MdfReaderView { pos: (v.pos + n) as nat, ..v }, v.decoded.subrange(v.pos as int, v.pos + n))
}

/// `name` can be the final file-name component of `path` on any platform: a
/// non-empty run of the path's characters, without `/`, other than `.` and `..`.
pub open spec fn file_name_in_path(path: Seq<char>, name: Seq<char>) -> bool {
    &&& name.len() > 0
    &&& name != seq!['.']
    &&& name != seq!['.', '.']
    &&& forall|k: int| 0 <= k < name.len() ==> name[k] != '/'
    &&& exists|i: int|
        0 <= i && i + name.len() <= path.len() && #[trigger] path.subrange(i, i + name.len()) == name
}

/// The characters after the last `/` of `path` (all of it if it has none).
pub open spec fn last_slash_segment(path: Seq<char>) -> Seq<char>
    decreases path.len(),
{
    if path.len() == 0 {
        Seq::empty()
    } else if path.last() == '/' {
        Seq::empty()
    } else {
        last_slash_segment(path.drop_last()).push(path.last())
    }
}

/// `path` has the same final file-name component on every platform: `/` is
/// its only separator (no `\` or `:`), it does not start with `//`, and the
/// part after its last `/` is neither empty nor `.` or `..`.  That part is
/// then its final component.
pub open spec fn portable_file_name_path(path: Seq<char>) -> bool {
    let n = last_slash_segment(path);
    &&& forall|k: int| 0 <= k < path.len() ==> path[k] != '\\' && path[k] != ':'
    &&& !(path.len() >= 2 && path[0] == '/' && path[1] == '/')
    &&& n.len() > 0
    &&& n != seq!['.']
    &&& n != seq!['.', '.']
}

/// `path` has no file name on any platform: it is empty or only `/`.
pub open spec fn path_without_file_name(path: Seq<char>) -> bool {
    forall|k: int| 0 <= k < path.len() ==> path[k] == '/'
}

/// `std::path::Path::file_name` of `path`, where it is valid UTF-8.
/// Trusted: `file_name` returns the final component of the path.  A name it
/// returns is a component (a non-empty stretch of the path without `/`, never
/// `.` or `..`); an empty path or one of only `/` has none; and where `/` is
/// the only separator and the part after the last `/` is a normal name, that
/// part is the name.  Which component it is for other paths is not stated: it
/// follows the platform's path syntax.
#[verifier::external_body]
fn path_file_name(path: &str) -> (r: Option<String>)
    ensures
        r matches Some(n) ==> file_name_in_path(path@, n@),
        path_without_file_name(path@) ==> r is None,
        portable_file_name_path(path@) ==> r is Some,
        r matches Some(n) ==> (portable_file_name_path(path@) ==> n@ == last_slash_segment(path@)),
{
    match std::path::Path::new(path).file_name() {
        Some(name) => match name.to_str() {
            Some(s) => Some(s.to_string()),
            None => None,
        },
        None => None,
    }
}

impl MdfReader {
    #[verifier::type_invariant]
    spec fn wf(self) -> bool {
        self.pos <= self.decoded@.len()
    }

    fn decoded_reader(decoded: Vec<u8>, size: u32, shell: MdfShell) -> (r: Self)
        ensures
            r@ == (MdfReaderView { decoded: decoded@, pos: 0, size, shell }),
    {
        MdfReader { decoded, pos: 0, size, shell }
    }

    /// Open plain MDF data.
    pub fn open(data: &[u8]) -> (r: Result<Self, MdfOpenError>)
        ensures
            open_result_matches(r, data@, plain_options()),
    {
        Self::open_with_options(data, MdfReadOptions::plain())
    }

    /// Open MT19937 MDF data with a complete seed (usually
    /// `game_key + original_file_name`).
    pub fn open_with_seed(data: &[u8], seed: &[u8], key_len: usize) -> (r: Result<
        Self,
        MdfOpenError,
    >)
        ensures
            open_result_matches(r, data@, seed_options(seed@, key_len)),
    {
        Self::open_with_options(data, MdfReadOptions::with_seed(seed).key_len(key_len))
    }

    /// Open MT19937 MDF data with a game key and the original file name.
    pub fn open_with_key(data: &[u8], key: String, file_name: String, key_len: usize) -> (r:
        Result<Self, MdfOpenError>)
        ensures
            open_result_matches(r, data@, key_options(key@, file_name@, key_len)),
    {
        Self::open_with_options(data, MdfReadOptions::with_key(key, file_name).key_len(key_len))
    }

    /// Open MT19937 MDF data with a game key and a path; only the final file
    /// name component of the path is used for the seed.
    pub fn open_with_key_path(data: &[u8], key: String, path: &str, key_len: usize) -> (r: Result<
        Self,
        MdfOpenError,
    >)
        ensures
            path_without_file_name(path@) ==> r matches Err(MdfOpenError::MissingMt19937Key),
            portable_file_name_path(path@) ==> open_result_matches(
                r,
                data@,
                key_options(key@, last_slash_segment(path@), key_len),
            ),
            (r matches Err(MdfOpenError::MissingMt19937Key)) || exists|name: Seq<char>|
                file_name_in_path(path@, name) && open_result_matches(
                    r,
                    data@,
                    key_options(key@, name, key_len),
                ),
    {
        let options = match MdfReadOptions::with_key_path(key, path) {
            Ok(o) => o,
            Err(e) => return Err(e),
        };
        Self::open_with_options(data, options.key_len(key_len))
    }

    /// Open MDF data with explicit read options.
    pub fn open_with_options(data: &[u8], options: MdfReadOptions) -> (r: Result<Self, MdfOpenError>)
        ensures
            open_result_matches(r, data@, options@),
    {
        let signature = match read_u32_le(data) {
            Ok(v) => v,
            Err(e) => return Err(MdfOpenError::Io(e)),
        };
        if signature != PSB_MDF_SIGNATURE {
            return Err(MdfOpenError::InvalidSignature);
        }
        // In FreeMote-compatible MDF this is the original uncompressed length;
        // older writers stored the compressed length.  The raw value is kept.
        let rest = slice_subrange(data, 4, data.len());
        let size = match read_u32_le(rest) {
            Ok(v) => v,
            Err(e) => return Err(MdfOpenError::Io(e)),
        };
        proof {
            assert(rest@.len() >= 4);
            assert(rest@[0] == data@[4] && rest@[1] == data@[5] && rest@[2] == data@[6] && rest@[3]
                == data@[7]);
            let h = data@.subrange(4, 8);
            assert(h[0] == data@[4] && h[1] == data@[5] && h[2] == data@[6] && h[3] == data@[7]);
            assert(size == header_size(data@));
        }
        let payload = slice_subrange(data, 8, data.len());
        let seed = match options.resolved_seed() {
            Ok(s) => s,
            Err(e) => return Err(e),
        };
        let key_len = match options.resolved_key_len() {
            Ok(n) => n,
            Err(e) => return Err(e),
        };
        if options.try_plain_first {
            if let Ok(decoded) = inflate_zlib_payload(payload) {
                return Ok(Self::decoded_reader(decoded, size, MdfShell::Plain));
            }
        }
        if let Some(seed) = seed {
            let decoded = match decrypt_and_inflate_mt19937_payload(payload, seed.as_slice(), key_len) {
                Ok(d) => d,
                Err(e) => return Err(e),
            };
            return Ok(Self::decoded_reader(decoded, size, MdfShell::Mt19937));
        }
        // Report the real inflate error rather than a missing-key error.
        match inflate_zlib_payload(payload) {
            Ok(decoded) => Ok(Self::decoded_reader(decoded, size, MdfShell::Plain)),
            Err(e) => Err(MdfOpenError::Decompress(e)),
        }
    }

    /// Returns the raw size value stored in the MDF header.  For
    /// FreeMote-compatible MDF this is the original uncompressed size; older
    /// writers stored the compressed payload size there.
    pub fn size(&self) -> (r: u32)
        ensures
            r == self@.size,
    {
        self.size
    }

    /// Returns the detected MDF shell.
    pub fn shell(&self) -> (r: MdfShell)
        ensures
            r == self@.shell,
    {
        self.shell
    }

    /// Returns the decoded payload length.
    pub fn decoded_len(&self) -> (r: usize)
        ensures
            r == self@.decoded.len(),
    {
        self.decoded.len()
    }

    /// Reads up to `max` of the decoded bytes that have not been read yet.
    pub fn read(&mut self, max: usize) -> (r: Vec<u8>)
        ensures
            (final(self)@, r@) == read_step(old(self)@, max as nat),
    {
        proof {
            use_type_invariant(&*self);
        }
        let remaining = self.decoded.len() - self.pos;
        let n = if max < remaining { max } else { remaining };
        let mut out: Vec<u8> = Vec::new();
        let mut i: usize = 0;
        while i < n
            invariant
                i <= n,
                self.pos + n <= self.decoded.len(),
                out@ == self.decoded@.subrange(self.pos as int, self.pos + i),
            decreases n - i,
        {
            out.push(self.decoded[self.pos + i]);
            i += 1;
            assert(out@ =~= self.decoded@.subrange(self.pos as int, self.pos + i));
        }
        self.pos = self.pos + n;
        out
    }
}

/// The bytes of an MDF file: the signature, the size field, then the payload.
pub open spec fn mdf_file(size: u32, payload: Seq<u8>) -> Seq<u8> {
    u32_le_bytes(PSB_MDF_SIGNATURE) + u32_le_bytes(size) + payload
}

/// A writer for plain MDF (zlib-compressed PSB) data.
///
/// It collects the written bytes; [`finish`](Self::finish) lays out the
/// FreeMote-compatible file: `mdf\0`, the original length, then a complete zlib
/// stream (which carries its own Adler-32 trailer).
pub struct MdfWriter {
    level: u8,
    buffer: Vec<u8>,
}

/// The abstract value of an [`MdfWriter`].
pub struct MdfWriterView {
    /// The zlib compression level.
    pub level: u8,
    /// Everything written so far.
    pub buffer: Seq<u8>,
}

impl View for MdfWriter {
    type V = MdfWriterView;

    closed spec fn view(&self) -> MdfWriterView {
        MdfWriterView { level: self.level, buffer: self.buffer@ }
    }
}

impl MdfWriter {
    /// Creates a new writer with zlib compression level `level` (0 = no
    /// compression, 9 = maximum).
    pub fn new(level: u8) -> (r: Self)
        ensures
            r@ == (MdfWriterView { level, buffer: Seq::empty() }),
    {
        MdfWriter { level, buffer: Vec::new() }
    }

    /// The zlib compression level.
    pub fn level(&self) -> (r: u8)
        ensures
            r == self@.level,
    {
        self.level
    }

    /// The MDF header for a given size field: signature, then the size.
    pub fn header(original_len: u32) -> (r: Vec<u8>)
        ensures
            r@ == mdf_file(original_len, Seq::empty()),
    {
        let mut out = write_u32_le(PSB_MDF_SIGNATURE);
        let len_bytes = write_u32_le(original_len);
        append_bytes(&mut out, len_bytes.as_slice());
        assert(out@ =~= mdf_file(original_len, Seq::empty()));
        out
    }

    /// Appends `buf` to the data to be compressed; all of it is accepted.
    pub fn write(&mut self, buf: &[u8]) -> (n: usize)
        ensures
            final(self)@ == (MdfWriterView { level: old(self)@.level, buffer: old(self)@.buffer + buf@ }),
            n == buf@.len(),
    {
        append_bytes(&mut self.buffer, buf);
        buf.len()
    }

    /// Compresses the collected data and returns the complete MDF file, whose
    /// size field is the collected length (modulo 2^32).  Compression does
    /// not fail, so neither does this.
    pub fn finish(self) -> (r: Result<Vec<u8>, std::io::Error>)
        requires
            self@.level <= 10,
        ensures
            zlib_compress(self@.buffer, self@.level) is Some,
            r matches Ok(out) && out@ == mdf_file(
                self@.buffer.len() as u32,
                zlib_compress(self@.buffer, self@.level)->0,
            ) && zlib_inflate(zlib_compress(self@.buffer, self@.level)->0) == Some(self@.buffer),
    {
        let original_len = self.buffer.len() as u32;
        let compressed = match deflate_zlib(self.buffer.as_slice(), self.level) {
            Ok(c) => c,
            Err(e) => return Err(e),
        };
        let mut out = Self::header(original_len);
        append_bytes(&mut out, compressed.as_slice());
        Ok(out)
    }
}

} // verus!
