//! The injected filters and the digest.

use stereocord::md5;
use stereocord::shellcode::{
    dc_reject, dc_reject_marker, describe, hp_cutoff, hp_cutoff_marker, OFF_MODE, OFF_PREV_CHANNELS,
    OFF_PREV_FRAMESIZE, OFF_PREV_MODE,
};

#[test]
fn field_offsets_match_the_upstream_expression() {
    assert_eq!(OFF_MODE, 16);
    assert_eq!(OFF_PREV_MODE, -14052);
    assert_eq!(OFF_PREV_CHANNELS, -14048);
    assert_eq!(OFF_PREV_FRAMESIZE, -14028);
}

#[test]
fn emitted_code_is_deterministic() {
    assert_eq!(hp_cutoff(1.0f32.to_bits()), hp_cutoff(1.0f32.to_bits()));
    assert_eq!(dc_reject(2.5f32.to_bits()), dc_reject(2.5f32.to_bits()));
    assert_ne!(hp_cutoff(1.0f32.to_bits()), hp_cutoff(2.0f32.to_bits()));
}

#[test]
fn both_filters_fit_the_functions_they_replace() {
    // The two target functions sit 0x1B0 apart in every build seen so far.
    assert!(hp_cutoff(1.0f32.to_bits()).len() <= 0x180);
    assert!(dc_reject(1.0f32.to_bits()).len() <= 0x180);
}

#[test]
fn code_ends_in_ret_before_the_gain_constant() {
    let code = hp_cutoff(1.0f32.to_bits());
    let gain = &code[code.len() - 4..];
    assert_eq!(f32::from_le_bytes(gain.try_into().unwrap()), 1.0);
    // ret, then nop padding up to the 4-byte aligned constant.
    let tail = &code[..code.len() - 4];
    let ret = tail.iter().rposition(|&b| b == 0xC3).unwrap();
    assert!(tail[ret + 1..].iter().all(|&b| b == 0x90));
}

#[test]
fn markers_are_a_prefix_of_the_code_they_identify() {
    let hp = hp_cutoff(1.0f32.to_bits());
    let m = hp_cutoff_marker();
    assert_eq!(&hp[..m.len()], &m[..]);
    let dc = dc_reject(1.0f32.to_bits());
    let m = dc_reject_marker();
    assert_eq!(&dc[..m.len()], &m[..]);
}

#[test]
fn the_two_filters_are_told_apart_by_their_markers() {
    assert_ne!(hp_cutoff_marker(), dc_reject_marker());
}

#[test]
fn the_gain_is_the_last_four_bytes() {
    let code = dc_reject(0x4020_0000);
    assert_eq!(&code[code.len() - 4..], &[0x00, 0x00, 0x20, 0x40]);
    assert_eq!(code.len() % 4, 0);
}

#[test]
fn the_description_shows_both_filters_as_bytes() {
    let text = describe(1.0f32.to_bits());
    let hp = hp_cutoff(1.0f32.to_bits());
    let first = format!("{:02X} {:02X} {:02X}", hp[0], hp[1], hp[2]);
    assert!(text.contains(&first), "{text}");
    assert!(text.contains("00 00 80 3F"), "{text}");
}

#[test]
fn known_vectors() {
    assert_eq!(md5::hex(b""), "d41d8cd98f00b204e9800998ecf8427e");
    assert_eq!(md5::hex(b"abc"), "900150983cd24fb0d6963f7d28e17f72");
    assert_eq!(
        md5::hex(b"The quick brown fox jumps over the lazy dog"),
        "9e107d9d372bb6826bd81d3542a419d6"
    );
    // Exactly one block, and one block plus the length-only tail: the two
    // padding edge cases.
    assert_eq!(md5::hex(&[b'a'; 64]), "014842d480b571495a4a0363793f7367");
    assert_eq!(md5::hex(&[b'a'; 56]), "3b0c8ac703f828b04c6c197006d17218");
}

#[test]
fn digests_are_32_lower_case_digits() {
    for n in [0usize, 1, 55, 63, 65, 119, 200] {
        let digest = md5::hex(&vec![0x5Au8; n]);
        assert_eq!(digest.len(), 32);
        assert!(digest.chars().all(|c| c.is_ascii_digit() || ('a'..='f').contains(&c)));
    }
}
