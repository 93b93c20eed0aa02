//! Reading the symbol table of a module.

use stereocord::apply::{backed_up, patched, plan, prepare, verified};
use stereocord::bytes::{to_le32, to_signed, to_unsigned, u16le, u32le, u64le, u8_at};
use stereocord::elf::symbols;
use stereocord::patch::{Config, State};
use stereocord::resolve::resolve_all;
use stereocord::status::{inspect, SiteState};

fn put(d: &mut Vec<u8>, at: usize, b: &[u8]) {
    if d.len() < at + b.len() {
        d.resize(at + b.len(), 0);
    }
    d[at..at + b.len()].copy_from_slice(b);
}

fn section(d: &mut Vec<u8>, at: usize, kind: u32, offset: u64, size: u64, link: u32) {
    put(d, at + 4, &kind.to_le_bytes());
    put(d, at + 0x18, &offset.to_le_bytes());
    put(d, at + 0x20, &size.to_le_bytes());
    put(d, at + 0x28, &link.to_le_bytes());
    put(d, at + 0x38, &24u64.to_le_bytes());
}

fn symbol(d: &mut Vec<u8>, at: usize, name: u32, info: u8, shndx: u16, value: u64, size: u64) {
    put(d, at, &name.to_le_bytes());
    put(d, at + 4, &[info]);
    put(d, at + 6, &shndx.to_le_bytes());
    put(d, at + 8, &value.to_le_bytes());
    put(d, at + 16, &size.to_le_bytes());
}

/// A 64-bit little-endian file with a loaded segment, a string table and three
/// symbols, the last two of one name.
fn sample() -> Vec<u8> {
    let mut d = vec![0u8; 0x1000];
    put(&mut d, 0, &[0x7F, b'E', b'L', b'F', 2, 1, 1]);
    put(&mut d, 0x20, &0x100u64.to_le_bytes());
    put(&mut d, 0x28, &0x200u64.to_le_bytes());
    put(&mut d, 0x36, &56u16.to_le_bytes());
    put(&mut d, 0x38, &1u16.to_le_bytes());
    put(&mut d, 0x3A, &64u16.to_le_bytes());
    put(&mut d, 0x3C, &3u16.to_le_bytes());
    put(&mut d, 0x100, &1u32.to_le_bytes());
    put(&mut d, 0x108, &0x800u64.to_le_bytes());
    put(&mut d, 0x110, &0x1000u64.to_le_bytes());
    put(&mut d, 0x120, &0x800u64.to_le_bytes());
    put(&mut d, 0x400, b"\0alpha\0beta\0");
    symbol(&mut d, 0x518, 1, 0x02, 1, 0x1100, 0x20);
    symbol(&mut d, 0x530, 7, 0x02, 1, 0x1200, 0x10);
    symbol(&mut d, 0x548, 7, 0x02, 1, 0x1300, 0x30);
    section(&mut d, 0x200, 0, 0, 0, 0);
    section(&mut d, 0x240, 2, 0x500, 0x60, 2);
    section(&mut d, 0x280, 3, 0x400, 0x0C, 0);
    d
}

#[test]
fn functions_are_found_by_name() {
    let syms = symbols(&sample()).unwrap();
    assert_eq!(syms.len(), 2);
    let alpha = syms.get("alpha").unwrap();
    assert_eq!((alpha.offset, alpha.size), (0x900, 0x20));
    assert!(syms.get("gamma").is_none());
}

#[test]
fn the_first_definition_of_a_name_is_kept() {
    let syms = symbols(&sample()).unwrap();
    let beta = syms.get("beta").unwrap();
    assert_eq!((beta.offset, beta.size), (0xA00, 0x10));
}

#[test]
fn what_is_not_a_module_has_no_symbols() {
    assert!(symbols(&[]).is_none());
    assert!(symbols(b"\x7FELF").is_none());
    let mut d = sample();
    d[4] = 1;
    assert!(symbols(&d).is_none());
}

#[test]
fn a_symbol_outside_every_segment_is_left_out() {
    let mut d = sample();
    put(&mut d, 0x518 + 8, &0x9000u64.to_le_bytes());
    let syms = symbols(&d).unwrap();
    assert!(syms.get("alpha").is_none());
    assert_eq!(syms.len(), 1);
}

#[test]
fn names_that_are_not_text_are_left_out() {
    let mut d = sample();
    d[0x401] = 0xFF;
    let syms = symbols(&d).unwrap();
    assert_eq!(syms.len(), 1);
    assert!(syms.get("beta").is_some());
}

#[test]
fn words_are_little_endian_and_never_read_past_the_end() {
    let d = [0x78, 0x56, 0x34, 0x12, 0x01, 0x00, 0x00, 0x80];
    assert_eq!(u16le(&d, 0), Some(0x5678));
    assert_eq!(u32le(&d, 0), Some(0x1234_5678));
    assert_eq!(u64le(&d, 0), Some(0x8000_0001_1234_5678));
    assert_eq!(u8_at(&d, 7), Some(0x80));
    assert_eq!(u32le(&d, 5), None);
    assert_eq!(u8_at(&d, 8), None);
    assert_eq!(to_le32(0x1234_5678), vec![0x78, 0x56, 0x34, 0x12]);
    assert_eq!(to_unsigned(-2), 0xFFFF_FFFE);
    assert_eq!(to_signed(0xFFFF_FFFE), -2);
}

/// A module with two named functions: one of the filters, and the wrapper that
/// every bitrate goes through. A copy of the wrapper's code stands outside it.
fn module() -> Vec<u8> {
    let mut d = sample();
    put(&mut d, 0x400, b"\0hp_cutoff\0WebRtcOpus_SetBitRate\0");
    symbol(&mut d, 0x518, 1, 0x02, 1, 0x1100, 0x100);
    symbol(&mut d, 0x530, 11, 0x12, 1, 0x1200, 0x40);
    symbol(&mut d, 0x548, 0, 0, 0, 0, 0);
    section(&mut d, 0x280, 3, 0x400, 0x21, 0);
    put(&mut d, 0x900, &[0x55, 0x48, 0x89, 0xE5]);
    let wrapper = [
        0x55, 0x48, 0x89, 0xE5, 0x89, 0xF2, 0x48, 0x8B, 0x07, 0x48, 0x85, 0xC0, 0x74, 0x10, 0x48,
        0x89, 0xC7, 0xBE, 0xA2, 0x0F, 0x00, 0x00, 0x31, 0xC0, 0xE8,
    ];
    put(&mut d, 0xA00, &wrapper);
    put(&mut d, 0xB00, &wrapper);
    d
}

#[test]
fn symbols_come_first_and_signatures_stay_in_their_function() {
    let d = module();
    let syms = symbols(&d).unwrap();
    let report = resolve_all(&d, Some(&syms));
    let hp = report.resolved("HpCutoff_Inject").unwrap();
    assert_eq!(hp.offsets, vec![0x900]);
    assert_eq!(hp.via.to_text(), "symbol hp_cutoff");
    let rate = report.resolved("WebRtcOpus_SetBitRate").unwrap();
    assert_eq!(rate.offsets, vec![0xA00]);
    assert_eq!(rate.via.to_text(), "sig in WebRtcOpus_SetBitRate");
    // Without symbols the signature matches twice, which is once too often.
    let scanned = resolve_all(&d, None);
    assert!(scanned.resolved("WebRtcOpus_SetBitRate").is_none());
    assert!(scanned.resolved("HpCutoff_Inject").is_none());
}

#[test]
fn a_locked_bitrate_and_a_filter_read_back() {
    let before = module();
    let prepared = prepare(before.clone());
    let cfg = Config {
        bitrate_kbps: 320,
        gain: 2.0f32.to_bits(),
        groups: vec!["bitrate".to_string(), "filter".to_string()],
    };
    let plan = plan(&prepared, &cfg).unwrap();
    let after = patched(&backed_up(true, "/b"), prepared, &plan);
    assert_eq!(&after[0xA00..0xA06], &[0x55, 0xBA, 0x00, 0xE2, 0x04, 0x00]);
    let code = stereocord::shellcode::hp_cutoff(2.0f32.to_bits());
    assert_eq!(&after[0x900..0x900 + code.len()], &code[..]);
    assert!(verified(&plan, &after).is_ok());
    for facts in [inspect(&after, Some(&before)), inspect(&after, None)] {
        assert_eq!(facts.site("WebRtcOpus_SetBitRate"), SiteState::Applied);
        assert_eq!(facts.bitrate_bps, Some(320_000));
        assert!(facts.bitrate_locked);
        assert_eq!(facts.site("HpCutoff_Inject"), SiteState::Applied);
        assert!(facts.state == State::Stereocord);
    }
    let stock = inspect(&before, None);
    assert_eq!(stock.site("WebRtcOpus_SetBitRate"), SiteState::Stock);
    assert_eq!(stock.bitrate_bps, None);
    assert_eq!(stock.symbols, Some(2));
}
