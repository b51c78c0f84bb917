use emote_psb::mdf::md5::md5;
use emote_psb::mdf::mt19937::Mt19937;

#[test]
fn md5_empty() {
    assert_eq!(md5(b""), [
        0xd4, 0x1d, 0x8c, 0xd9, 0x8f, 0x00, 0xb2, 0x04,
        0xe9, 0x80, 0x09, 0x98, 0xec, 0xf8, 0x42, 0x7e,
    ]);
}

#[test]
fn mt19937_reference_seed_5489() {
    let mut mt = Mt19937::new(5489);
    assert_eq!(mt.next_u32(), 3_499_211_612);
    assert_eq!(mt.next_u32(), 581_869_302);
}

#[test]
fn md5_abc() {
    assert_eq!(md5(b"abc"), [
        0x90, 0x01, 0x50, 0x98, 0x3c, 0xd2, 0x4f, 0xb0,
        0xd6, 0x96, 0x3f, 0x7d, 0x28, 0xe1, 0x7f, 0x72,
    ]);
}

#[test]
fn md5_quick_brown_fox() {
    assert_eq!(md5(b"The quick brown fox jumps over the lazy dog"), [
        0x9e, 0x10, 0x7d, 0x9d, 0x37, 0x2b, 0xb6, 0x82,
        0x6b, 0xd8, 0x1d, 0x35, 0x42, 0xa4, 0x19, 0xd6,
    ]);
}

#[test]
fn md5_two_block_message() {
    // 56 bytes of input force the padding into a second block.
    let input = [b'a'; 56];
    assert_eq!(md5(&input), [
        0x3b, 0x0c, 0x8a, 0xc7, 0x03, 0xf8, 0x28, 0xb0,
        0x4c, 0x6c, 0x19, 0x70, 0x06, 0xd1, 0x72, 0x18,
    ]);
}

#[test]
fn mt19937_seed_5489_second_twist() {
    let mut mt = Mt19937::new(5489);
    let mut outputs = Vec::new();
    for _ in 0..625 {
        outputs.push(mt.next_u32());
    }
    assert_eq!(outputs[2], 3_890_346_734);
    assert_eq!(outputs[623], 4_020_325_887);
    assert_eq!(outputs[624], 4_178_893_912);
}

#[test]
fn mt19937_reference_key_array() {
    // The reference outputs of init_by_array({0x123, 0x234, 0x345, 0x456}).
    let mut mt = Mt19937::from_key_array(&[0x123, 0x234, 0x345, 0x456]);
    assert_eq!(mt.next_u32(), 1_067_595_299);
    assert_eq!(mt.next_u32(), 955_945_823);
    assert_eq!(mt.next_u32(), 477_289_528);
    assert_eq!(mt.next_u32(), 4_107_218_783);
    assert_eq!(mt.next_u32(), 4_228_976_476);
}

#[test]
fn mt19937_seed_one_third_output() {
    // init_genrand(1): first outputs 1791095845, 4282876139, 3093770124.
    let mut mt = Mt19937::new(1);
    assert_eq!(mt.next_u32(), 1_791_095_845);
    assert_eq!(mt.next_u32(), 4_282_876_139);
    assert_eq!(mt.next_u32(), 3_093_770_124);
}
