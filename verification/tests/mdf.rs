use emote_psb::mdf::error::MdfOpenError;
use emote_psb::mdf::md5::md5;
use emote_psb::mdf::mt19937::Mt19937;
use emote_psb::mdf::keystream::{
    looks_like_zlib, mt19937_xor, xor_with_cyclic_key, xor_with_stream, MtKeyVariant, MtSeedVariant,
};
use emote_psb::mdf::{MdfReadOptions, MdfReader, MdfShell, MdfWriter, DEFAULT_MT19937_KEY_LEN};
use emote_psb::{PSB_MDF_SIGNATURE, PSB_SIGNATURE};

fn sample_data() -> Vec<u8> {
    let mut data = Vec::new();
    for i in 0..5000u32 {
        data.push((i * 7 % 251) as u8);
    }
    data
}

fn write_mdf(data: &[u8], level: u8) -> Vec<u8> {
    let mut writer = MdfWriter::new(level);
    let (first, second) = data.split_at(data.len() / 2);
    assert_eq!(writer.write(first), first.len());
    assert_eq!(writer.write(second), second.len());
    writer.finish().unwrap()
}

fn read_all(reader: &mut MdfReader) -> Vec<u8> {
    let mut out = Vec::new();
    loop {
        let chunk = reader.read(1000);
        if chunk.is_empty() {
            break;
        }
        out.extend_from_slice(&chunk);
    }
    out
}

fn obfuscate(data: &[u8], seed: &[u8], sv: MtSeedVariant, kv: MtKeyVariant) -> Vec<u8> {
    let file = write_mdf(data, 6);
    let stream = &file[8..];
    let enc = mt19937_xor(stream, seed, DEFAULT_MT19937_KEY_LEN, sv, kv);
    let mut out = MdfWriter::header(data.len() as u32);
    out.extend_from_slice(&enc);
    out
}

#[test]
fn signatures_spell_psb_and_mdf() {
    assert_eq!(PSB_SIGNATURE.to_le_bytes(), *b"PSB\0");
    assert_eq!(PSB_MDF_SIGNATURE.to_le_bytes(), *b"mdf\0");
}

#[test]
fn header_is_signature_then_length() {
    assert_eq!(MdfWriter::header(0x0102_0304), vec![b'm', b'd', b'f', 0, 4, 3, 2, 1]);
    assert_eq!(MdfWriter::header(0), vec![b'm', b'd', b'f', 0, 0, 0, 0, 0]);
}

#[test]
fn written_file_reads_back() {
    let data = sample_data();
    for level in [0u8, 1, 6, 9, 10] {
        let file = write_mdf(&data, level);
        assert_eq!(&file[0..4], b"mdf\0");
        assert_eq!(&file[4..8], &(data.len() as u32).to_le_bytes());
        let mut reader = MdfReader::open(&file).unwrap();
        assert_eq!(reader.shell(), MdfShell::Plain);
        assert_eq!(reader.size(), data.len() as u32);
        assert_eq!(reader.decoded_len(), data.len());
        assert_eq!(read_all(&mut reader), data);
    }
}

#[test]
fn empty_written_file_reads_back() {
    let file = write_mdf(&[], 9);
    let mut reader = MdfReader::open(&file).unwrap();
    assert_eq!(reader.size(), 0);
    assert_eq!(reader.decoded_len(), 0);
    assert!(reader.read(10).is_empty());
}

#[test]
fn compressed_payload_looks_like_zlib() {
    let data = sample_data();
    for level in [0u8, 1, 3, 6, 9] {
        let file = write_mdf(&data, level);
        assert!(looks_like_zlib(&file[8..]));
    }
}

#[test]
fn looks_like_zlib_checks_header_fields() {
    assert!(looks_like_zlib(&[0x78, 0x9c]));
    assert!(looks_like_zlib(&[0x78, 0xda, 0x00]));
    assert!(looks_like_zlib(&[0x78, 0x01]));
    assert!(looks_like_zlib(&[0x78, 0x5e]));
    assert!(!looks_like_zlib(&[0x78]));
    assert!(!looks_like_zlib(&[]));
    // wrong method
    assert!(!looks_like_zlib(&[0x79, 0x9c]));
    // window too large
    assert!(!looks_like_zlib(&[0x88, 0x9c]));
    // header check fails
    assert!(!looks_like_zlib(&[0x78, 0x9d]));
    // valid check value but not a standard level byte
    assert!(!looks_like_zlib(&[0x78, 0x3c]));
}

#[test]
fn reads_return_consecutive_bytes() {
    let data = sample_data();
    let file = write_mdf(&data, 6);
    let mut reader = MdfReader::open(&file).unwrap();
    let a = reader.read(3);
    let b = reader.read(4000);
    let c = reader.read(4000);
    let d = reader.read(4000);
    assert_eq!(a, data[0..3].to_vec());
    assert_eq!(b, data[3..4003].to_vec());
    assert_eq!(c, data[4003..].to_vec());
    assert!(d.is_empty());
}

#[test]
fn size_is_the_raw_header_value() {
    let data = sample_data();
    let mut file = write_mdf(&data, 6);
    file[4..8].copy_from_slice(&999u32.to_le_bytes());
    let mut reader = MdfReader::open(&file).unwrap();
    assert_eq!(reader.size(), 999);
    assert_eq!(read_all(&mut reader), data);
}

#[test]
fn open_short_data_is_io_error() {
    assert!(matches!(MdfReader::open(&[]), Err(MdfOpenError::Io(_))));
    assert!(matches!(MdfReader::open(b"md"), Err(MdfOpenError::Io(_))));
    assert!(matches!(MdfReader::open(b"mdf\0\x01\x02"), Err(MdfOpenError::Io(_))));
}

#[test]
fn open_wrong_signature() {
    assert!(matches!(MdfReader::open(b"PSB\0\0\0\0\0"), Err(MdfOpenError::InvalidSignature)));
    assert!(matches!(MdfReader::open(b"mdf!\x01\x02"), Err(MdfOpenError::InvalidSignature)));
}

#[test]
fn open_bad_payload_is_decompress_error() {
    let file = b"mdf\0\x05\0\0\0not a zlib stream";
    assert!(matches!(MdfReader::open(file), Err(MdfOpenError::Decompress(_))));
}

#[test]
fn open_bad_payload_with_seed_is_decrypt_error() {
    let file = b"mdf\0\x05\0\0\0not a zlib stream";
    assert!(matches!(
        MdfReader::open_with_seed(file, b"seed", DEFAULT_MT19937_KEY_LEN),
        Err(MdfOpenError::Decrypt)
    ));
}

#[test]
fn key_without_file_name_is_missing_key() {
    let data = sample_data();
    let file = write_mdf(&data, 6);
    let options = MdfReadOptions {
        seed: None,
        key: Some("game".to_string()),
        file_name: None,
        key_len: None,
        try_plain_first: true,
    };
    assert!(matches!(
        MdfReader::open_with_options(&file, options),
        Err(MdfOpenError::MissingMt19937Key)
    ));
}

#[test]
fn zero_key_length_is_invalid() {
    let data = sample_data();
    let file = write_mdf(&data, 6);
    assert!(matches!(
        MdfReader::open_with_seed(&file, b"seed", 0),
        Err(MdfOpenError::InvalidKeyLength(0))
    ));
    let options = MdfReadOptions::plain().key_len(0);
    assert!(matches!(
        MdfReader::open_with_options(&file, options),
        Err(MdfOpenError::InvalidKeyLength(0))
    ));
}

#[test]
fn plain_file_opens_plain_even_with_a_seed() {
    let data = sample_data();
    let file = write_mdf(&data, 6);
    let mut reader = MdfReader::open_with_seed(&file, b"seed", DEFAULT_MT19937_KEY_LEN).unwrap();
    assert_eq!(reader.shell(), MdfShell::Plain);
    assert_eq!(read_all(&mut reader), data);
}

#[test]
fn obfuscated_file_opens_with_seed() {
    let data = sample_data();
    let seed = b"game-keyscenario_info.psb.m";
    let file = obfuscate(&data, seed, MtSeedVariant::Md5ArrayLe, MtKeyVariant::CyclicLeWords);
    assert!(matches!(MdfReader::open(&file), Err(MdfOpenError::Decompress(_))));
    let mut reader = MdfReader::open_with_seed(&file, seed, DEFAULT_MT19937_KEY_LEN).unwrap();
    assert_eq!(reader.shell(), MdfShell::Mt19937);
    assert_eq!(reader.size(), data.len() as u32);
    assert_eq!(read_all(&mut reader), data);
}

#[test]
fn obfuscated_file_opens_with_key_and_file_name() {
    let data = sample_data();
    let file = obfuscate(
        &data,
        b"game-keyscenario_info.psb.m",
        MtSeedVariant::Md5ArrayLe,
        MtKeyVariant::CyclicLeWords,
    );
    let mut reader = MdfReader::open_with_key(
        &file,
        "game-key".to_string(),
        "scenario_info.psb.m".to_string(),
        DEFAULT_MT19937_KEY_LEN,
    )
    .unwrap();
    assert_eq!(reader.shell(), MdfShell::Mt19937);
    assert_eq!(read_all(&mut reader), data);
}

#[test]
fn obfuscated_file_opens_with_key_and_path() {
    let data = sample_data();
    let file = obfuscate(
        &data,
        b"game-keyscenario_info.psb.m",
        MtSeedVariant::Md5ArrayLe,
        MtKeyVariant::CyclicLeWords,
    );
    let mut reader = MdfReader::open_with_key_path(
        &file,
        "game-key".to_string(),
        "archive/script/scenario_info.psb.m",
        DEFAULT_MT19937_KEY_LEN,
    )
    .unwrap();
    assert_eq!(reader.shell(), MdfShell::Mt19937);
    assert_eq!(read_all(&mut reader), data);
}

#[test]
fn key_path_without_file_name_is_missing_key() {
    let data = sample_data();
    let file = write_mdf(&data, 6);
    assert!(matches!(
        MdfReader::open_with_key_path(&file, "game-key".to_string(), "/", DEFAULT_MT19937_KEY_LEN),
        Err(MdfOpenError::MissingMt19937Key)
    ));
}

#[test]
fn key_path_of_only_slashes_is_missing_key_before_reading() {
    assert!(matches!(
        MdfReader::open_with_key_path(&b""[..], "k".to_string(), "/", 0x83),
        Err(MdfOpenError::MissingMt19937Key)
    ));
    assert!(matches!(
        MdfReadOptions::with_key_path("k".to_string(), ""),
        Err(MdfOpenError::MissingMt19937Key)
    ));
    assert!(matches!(
        MdfReadOptions::with_key_path("k".to_string(), "dir/.."),
        Err(MdfOpenError::MissingMt19937Key)
    ));
}

#[test]
fn key_path_directories_do_not_affect_the_seed() {
    let data = sample_data();
    let file = obfuscate(
        &data,
        b"game-keyscenario_info.psb.m",
        MtSeedVariant::Md5ArrayLe,
        MtKeyVariant::CyclicLeWords,
    );
    let a = MdfReader::open_with_key_path(&file, "game-key".to_string(), "data/x/scenario_info.psb.m", 0x83)
        .unwrap();
    let b = MdfReader::open_with_key_path(&file, "game-key".to_string(), "scenario_info.psb.m", 0x83)
        .unwrap();
    assert_eq!(a.shell(), MdfShell::Mt19937);
    assert_eq!(b.shell(), MdfShell::Mt19937);
    assert_eq!(a.decoded_len(), b.decoded_len());
    let wrong = MdfReader::open_with_key_path(&file, "game-key".to_string(), "scenario_info.psb.m/x", 0x83);
    assert!(matches!(wrong, Err(MdfOpenError::Decrypt)));
}

#[test]
fn key_path_options_use_the_file_name() {
    let options = MdfReadOptions::with_key_path("key".to_string(), "a/b/file.psb.m").unwrap();
    assert_eq!(options.key.as_deref(), Some("key"));
    assert_eq!(options.file_name.as_deref(), Some("file.psb.m"));
    assert_eq!(options.key_len, Some(0x83));
    assert!(options.try_plain_first);
}

#[test]
fn resolved_options() {
    let seeded = MdfReadOptions {
        seed: Some(b"s".to_vec()),
        key: Some("k".to_string()),
        file_name: None,
        key_len: Some(0),
        try_plain_first: true,
    };
    assert!(matches!(seeded.resolved_seed(), Ok(Some(v)) if v == b"s".to_vec()));
    assert!(matches!(seeded.resolved_key_len(), Err(MdfOpenError::InvalidKeyLength(0))));
    let keyed = MdfReadOptions::with_key("ab".to_string(), "cd".to_string());
    assert!(matches!(keyed.resolved_seed(), Ok(Some(v)) if v == b"abcd".to_vec()));
    assert!(matches!(MdfReadOptions::plain().resolved_seed(), Ok(None)));
    assert!(matches!(MdfReadOptions::plain().resolved_key_len(), Ok(0x83)));
}

#[test]
fn cyclic_and_stream_agree_within_the_key() {
    let zeros = vec![0u8; 12];
    let mut m1 = Mt19937::new(7);
    let mut m2 = Mt19937::new(7);
    let stream = xor_with_stream(&zeros, &mut m1, false);
    let cyclic = xor_with_cyclic_key(&zeros, 13, &mut m2, false);
    assert_eq!(stream, cyclic);
}

#[test]
fn every_variant_pair_is_found() {
    let data = sample_data();
    let seed = b"another-seed";
    let seed_variants = [
        MtSeedVariant::Md5ArrayLe,
        MtSeedVariant::Md5ArrayBe,
        MtSeedVariant::Md5FirstLe,
        MtSeedVariant::Md5FirstBe,
    ];
    let key_variants = [
        MtKeyVariant::CyclicLeWords,
        MtKeyVariant::CyclicBeWords,
        MtKeyVariant::StreamLeWords,
        MtKeyVariant::StreamBeWords,
    ];
    for sv in seed_variants {
        for kv in key_variants {
            let file = obfuscate(&data, seed, sv, kv);
            let mut reader = MdfReader::open_with_seed(&file, seed, DEFAULT_MT19937_KEY_LEN).unwrap();
            assert_eq!(reader.shell(), MdfShell::Mt19937);
            assert_eq!(read_all(&mut reader), data);
        }
    }
}

#[test]
fn mt19937_xor_twice_is_identity() {
    let payload = sample_data();
    let enc = mt19937_xor(&payload, b"k", 5, MtSeedVariant::Md5FirstLe, MtKeyVariant::CyclicBeWords);
    assert_ne!(enc, payload);
    let dec = mt19937_xor(&enc, b"k", 5, MtSeedVariant::Md5FirstLe, MtKeyVariant::CyclicBeWords);
    assert_eq!(dec, payload);
    let enc = mt19937_xor(&payload, b"k", 5, MtSeedVariant::Md5ArrayBe, MtKeyVariant::StreamLeWords);
    let dec = mt19937_xor(&enc, b"k", 5, MtSeedVariant::Md5ArrayBe, MtKeyVariant::StreamLeWords);
    assert_eq!(dec, payload);
}

#[test]
fn cyclic_key_repeats_with_key_length() {
    let zeros = vec![0u8; 20];
    let ks = mt19937_xor(&zeros, b"k", 6, MtSeedVariant::Md5FirstLe, MtKeyVariant::CyclicLeWords);
    for i in 0..14 {
        assert_eq!(ks[i], ks[i + 6]);
    }
    let stream = mt19937_xor(&zeros, b"k", 6, MtSeedVariant::Md5FirstLe, MtKeyVariant::StreamLeWords);
    assert_eq!(&stream[0..6], &ks[0..6]);
}

#[test]
fn keystream_from_seeded_generator() {
    // Stream key bytes are the little-endian bytes of successive outputs of
    // the generator seeded with the first little-endian digest word.
    let digest = md5(b"k");
    let seed = u32::from_le_bytes([digest[0], digest[1], digest[2], digest[3]]);
    let mut mt = Mt19937::new(seed);
    let w0 = mt.next_u32().to_le_bytes();
    let w1 = mt.next_u32().to_le_bytes();
    let zeros = vec![0u8; 8];
    let ks = mt19937_xor(&zeros, b"k", 1, MtSeedVariant::Md5FirstLe, MtKeyVariant::StreamLeWords);
    assert_eq!(&ks[0..4], &w0);
    assert_eq!(&ks[4..8], &w1);
}

#[test]
fn options_constructors() {
    let plain = MdfReadOptions::plain();
    assert!(plain.seed.is_none() && plain.key.is_none() && plain.file_name.is_none());
    assert_eq!(plain.key_len, None);
    assert!(plain.try_plain_first);

    let seeded = MdfReadOptions::with_seed(b"abc").key_len(7);
    assert_eq!(seeded.seed, Some(b"abc".to_vec()));
    assert_eq!(seeded.key_len, Some(7));
    assert!(seeded.try_plain_first);

    let keyed = MdfReadOptions::with_key("key".to_string(), "file".to_string());
    assert_eq!(keyed.key.as_deref(), Some("key"));
    assert_eq!(keyed.file_name.as_deref(), Some("file"));
    assert_eq!(keyed.key_len, Some(0x83));

    let default = MdfReadOptions::default();
    assert!(!default.try_plain_first);
    assert_eq!(default.key_len, None);
}

#[test]
fn default_options_skip_plain_first_but_fall_back() {
    let data = sample_data();
    let file = write_mdf(&data, 6);
    let mut reader = MdfReader::open_with_options(&file, MdfReadOptions::default()).unwrap();
    assert_eq!(reader.shell(), MdfShell::Plain);
    assert_eq!(read_all(&mut reader), data);
}
