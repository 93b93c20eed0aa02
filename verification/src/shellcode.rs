//! The two filter replacements, as machine code.
//!
//! Each is a position-independent function body that copies its input to its
//! output, scaled by a gain constant that lives right behind the code, and pins
//! the encoder's mode fields on the way. `hp_mem` sits at a fixed offset inside
//! `OpusEncoder`, so the encoder base is reachable by a constant displacement from
//! the pointer the caller already passes in. The code is emitted byte by byte, so
//! the same input always produces the same patch and no compiler is required.

pub mod machine;

use crate::bytes;
use crate::bytes::{push_le32, to_unsigned};
use crate::sig;
use crate::sig::hex;
use crate::text;
use crate::text::push_decimal;
use vstd::prelude::*;

verus! {

/// Where `hp_mem` lies in the encoder state.
pub const HP_MEM_FROM_ENCODER: i32 = 3553 * 4;

/// `st->mode`, set to [`MODE_CELT_ONLY`].
pub const OFF_MODE: i32 = 3557 * 4 - HP_MEM_FROM_ENCODER;

/// `st->prev_mode`, set to -1.
pub const OFF_PREV_MODE: i32 = 160 - HP_MEM_FROM_ENCODER;

/// `st->prev_channels`, set to -1.
pub const OFF_PREV_CHANNELS: i32 = 164 - HP_MEM_FROM_ENCODER;

/// `st->prev_framesize`, set to 0.
pub const OFF_PREV_FRAMESIZE: i32 = 184 - HP_MEM_FROM_ENCODER;

pub const MODE_CELT_ONLY: i32 = 1002;

pub const RCX: u8 = 1;

pub const RDX: u8 = 2;

pub const RSI: u8 = 6;

pub const RDI: u8 = 7;

/// Where the loop starts, from the start of the code.
pub const LOOP_TOP: usize = 62;

/// Where the `ret` stands.
pub const RET_AT: usize = 84;

/// Where the gain constant stands.
pub const GAIN_AT: usize = 88;

/// How long a filter replacement is, constant included.
pub const CODE_LEN: usize = 92;

/// A register that holds a factor of the sample count.
#[derive(Clone, Copy)]
pub enum CountReg {
    /// One of the legacy registers (eax..edi).
    Low(u8),
    /// One of r8d..r15d.
    High(u8),
}

// ---------------------------------------------------------------------------
// The code
// ---------------------------------------------------------------------------

/// `mov dword ptr [base + disp32], imm32`
pub open spec fn mov_mem_imm32(base: u8, disp: int, imm: int) -> Seq<u8> {
    seq![0xC7u8, 0x80u8 | base] + bytes::le32(bytes::unsigned(disp)) + bytes::le32(
        bytes::unsigned(imm),
    )
}

/// `mov r11d, <reg>`
pub open spec fn mov_to_r11d(reg: CountReg) -> Seq<u8> {
    match reg {
        CountReg::Low(r) => seq![0x41u8, 0x89u8, 0xC3u8 | (r << 3u8)],
        CountReg::High(r) => seq![0x45u8, 0x89u8, 0xC3u8 | (r << 3u8)],
    }
}

/// `imul r11d, <reg>`
pub open spec fn imul_into_r11d(reg: CountReg) -> Seq<u8> {
    match reg {
        CountReg::Low(r) => seq![0x44u8, 0x0Fu8, 0xAFu8, 0xD8u8 | r],
        CountReg::High(r) => seq![0x45u8, 0x0Fu8, 0xAFu8, 0xD8u8 | r],
    }
}

/// What identifies a filter replacement: its first two stores.
pub open spec fn marker_code(enc: u8) -> Seq<u8> {
    mov_mem_imm32(enc, OFF_MODE as int, MODE_CELT_ONLY as int) + mov_mem_imm32(
        enc,
        OFF_PREV_MODE as int,
        -1,
    )
}

/// Pins the encoder into CELT mode and clears the carried-over prediction
/// state, every call, so nothing downstream can walk it back.
pub open spec fn pin_code(enc: u8) -> Seq<u8> {
    marker_code(enc) + mov_mem_imm32(enc, OFF_PREV_CHANNELS as int, -1) + mov_mem_imm32(
        enc,
        OFF_PREV_FRAMESIZE as int,
        0,
    )
}

/// r11d = count_a * count_b; nothing to do unless it is positive; xmm1 = gain;
/// eax = 0.
pub open spec fn setup_code(count_a: CountReg, count_b: CountReg) -> Seq<u8> {
    mov_to_r11d(count_a) + imul_into_r11d(count_b) + seq![
        // test r11d, r11d
        0x45u8,
        0x85u8,
        0xDBu8,
        // jle done
        0x7Eu8,
        0x20u8,
        // movss xmm1, [rip + gain]
        0xF3u8,
        0x0Fu8,
        0x10u8,
        0x0Du8,
        0x1Cu8,
        0x00u8,
        0x00u8,
        0x00u8,
        // xor eax, eax
        0x31u8,
        0xC0u8,
    ]
}

/// The copy loop, the return, and the padding up to the constant.
pub open spec fn loop_code(src: u8, dst: u8) -> Seq<u8> {
    seq![
        // movss xmm0, [src + rax*4]
        0xF3u8,
        0x0Fu8,
        0x10u8,
        0x04u8,
        0x80u8 | src,
        // mulss xmm0, xmm1
        0xF3u8,
        0x0Fu8,
        0x59u8,
        0xC1u8,
        // movss [dst + rax*4], xmm0
        0xF3u8,
        0x0Fu8,
        0x11u8,
        0x04u8,
        0x80u8 | dst,
        // add eax, 1
        0x83u8,
        0xC0u8,
        0x01u8,
        // cmp eax, r11d
        0x44u8,
        0x39u8,
        0xD8u8,
        // jl loop
        0x7Cu8,
        0xEAu8,
        // ret
        0xC3u8,
        // nop
        0x90u8,
        0x90u8,
        0x90u8,
    ]
}

/// A whole filter replacement. `gain` is the bits of the constant.
pub open spec fn filter_code(
    src: u8,
    dst: u8,
    enc: u8,
    count_a: CountReg,
    count_b: CountReg,
    gain: int,
) -> Seq<u8> {
    pin_code(enc) + setup_code(count_a, count_b) + loop_code(src, dst) + bytes::le32(gain)
}

/// `void hp_cutoff(const float *in, int cutoff_Hz, float *out, int *hp_mem,
///                 int len, int channels, int Fs, int arch)`
///
/// SysV: rdi=in, esi=cutoff_Hz, rdx=out, rcx=hp_mem, r8d=len, r9d=channels.
pub open spec fn hp_cutoff_code(gain: int) -> Seq<u8> {
    filter_code(RDI, RDX, RCX, CountReg::High(1), CountReg::High(0), gain)
}

/// `void dc_reject(const float *in, float *out, int *hp_mem,
///                 int len, int channels, int Fs)`
///
/// SysV: rdi=in, rsi=out, rdx=hp_mem, ecx=len, r8d=channels.
pub open spec fn dc_reject_code(gain: int) -> Seq<u8> {
    filter_code(RDI, RSI, RDX, CountReg::High(0), CountReg::Low(RCX), gain)
}

// ---------------------------------------------------------------------------
// Emitting it
// ---------------------------------------------------------------------------

struct Emit {
    code: Vec<u8>,
}

impl Emit {
    fn new() -> (res: Emit)
        ensures
            res.code@ == Seq::<u8>::empty(),
    {
        Emit { code: Vec::new() }
    }

    fn raw(&mut self, bytes: &[u8])
        ensures
            final(self).code@ == old(self).code@ + bytes@,
    {
        let ghost before = self.code@;
        let mut i: usize = 0;
        while i < bytes.len()
            invariant
                i <= bytes@.len(),
                self.code@ == before + bytes@.take(i as int),
            decreases bytes@.len() - i,
        {
            self.code.push(bytes[i]);
            i = i + 1;
            assert(self.code@ =~= before + bytes@.take(i as int));
        }
        assert(bytes@.take(i as int) =~= bytes@);
    }

    /// `mov dword ptr [base + disp32], imm32`
    fn mov_mem_imm32(&mut self, base: u8, disp: i32, imm: i32)
        ensures
            final(self).code@ == old(self).code@ + mov_mem_imm32(base, disp as int, imm as int),
    {
        let ghost before = self.code@;
        self.raw(&[0xC7, 0x80 | base]);
        push_le32(&mut self.code, to_unsigned(disp));
        push_le32(&mut self.code, to_unsigned(imm));
        assert(self.code@ =~= before + mov_mem_imm32(base, disp as int, imm as int));
    }

    /// The stores that identify a filter replacement.
    fn marker(&mut self, enc: u8)
        ensures
            final(self).code@ == old(self).code@ + marker_code(enc),
    {
        let ghost before = self.code@;
        self.mov_mem_imm32(enc, OFF_MODE, MODE_CELT_ONLY);
        self.mov_mem_imm32(enc, OFF_PREV_MODE, -1);
        assert(self.code@ =~= before + marker_code(enc));
    }
}

impl CountReg {
    /// `mov r11d, <self>`
    fn mov_to_r11d(self) -> (res: Vec<u8>)
        ensures
            res@ == mov_to_r11d(self),
    {
        match self {
            CountReg::Low(r) => vec![0x41, 0x89, 0xC3 | (r << 3u8)],
            CountReg::High(r) => vec![0x45, 0x89, 0xC3 | (r << 3u8)],
        }
    }

    /// `imul r11d, <self>`
    fn imul_into_r11d(self) -> (res: Vec<u8>)
        ensures
            res@ == imul_into_r11d(self),
    {
        match self {
            CountReg::Low(r) => vec![0x44, 0x0F, 0xAF, 0xD8 | r],
            CountReg::High(r) => vec![0x45, 0x0F, 0xAF, 0xD8 | r],
        }
    }
}

fn build(src: u8, dst: u8, enc: u8, count_a: CountReg, count_b: CountReg, gain: u32) -> (res: Vec<
    u8,
>)
    ensures
        res@ == filter_code(src, dst, enc, count_a, count_b, gain as int),
{
    let mut e = Emit::new();
    e.marker(enc);
    e.mov_mem_imm32(enc, OFF_PREV_CHANNELS, -1);
    e.mov_mem_imm32(enc, OFF_PREV_FRAMESIZE, 0);
    assert(e.code@ =~= pin_code(enc));
    e.raw(count_a.mov_to_r11d().as_slice());
    e.raw(count_b.imul_into_r11d().as_slice());
    e.raw(
        &[
            0x45,
            0x85,
            0xDB,
            0x7E,
            0x20,
            0xF3,
            0x0F,
            0x10,
            0x0D,
            0x1C,
            0x00,
            0x00,
            0x00,
            0x31,
            0xC0,
        ],
    );
    assert(e.code@ =~= pin_code(enc) + setup_code(count_a, count_b));
    e.raw(
        &[
            0xF3,
            0x0F,
            0x10,
            0x04,
            0x80 | src,
            0xF3,
            0x0F,
            0x59,
            0xC1,
            0xF3,
            0x0F,
            0x11,
            0x04,
            0x80 | dst,
            0x83,
            0xC0,
            0x01,
            0x44,
            0x39,
            0xD8,
            0x7C,
            0xEA,
            0xC3,
            0x90,
            0x90,
            0x90,
        ],
    );
    assert(e.code@ =~= pin_code(enc) + setup_code(count_a, count_b) + loop_code(src, dst));
    push_le32(&mut e.code, gain);
    e.code
}

/// The replacement for `hp_cutoff`, with the gain constant of those bits.
pub fn hp_cutoff(gain: u32) -> (res: Vec<u8>)
    ensures
        res@ == hp_cutoff_code(gain as int),
{
    build(RDI, RDX, RCX, CountReg::High(1), CountReg::High(0), gain)
}

/// The replacement for `dc_reject`, with the gain constant of those bits.
pub fn dc_reject(gain: u32) -> (res: Vec<u8>)
    ensures
        res@ == dc_reject_code(gain as int),
{
    build(RDI, RSI, RDX, CountReg::High(0), CountReg::Low(RCX), gain)
}

fn marker(enc: u8) -> (res: Vec<u8>)
    ensures
        res@ == marker_code(enc),
{
    let mut e = Emit::new();
    e.marker(enc);
    assert(e.code@ =~= marker_code(enc));
    e.code
}

/// What the `hp_cutoff` replacement starts with, whatever the gain.
pub fn hp_cutoff_marker() -> (res: Vec<u8>)
    ensures
        res@ == marker_code(RCX),
{
    marker(RCX)
}

/// What the `dc_reject` replacement starts with, whatever the gain.
pub fn dc_reject_marker() -> (res: Vec<u8>)
    ensures
        res@ == marker_code(RDX),
{
    marker(RDX)
}

/// Both replacements with their sizes, for a person to read.
pub open spec fn description(gain: int) -> Seq<char> {
    "hp_cutoff  ("@ + text::decimal(hp_cutoff_code(gain).len()) + " bytes)\n  "@ + sig::hex_text(
        hp_cutoff_code(gain),
    ) + "\n\ndc_reject  ("@ + text::decimal(dc_reject_code(gain).len()) + " bytes)\n  "@
        + sig::hex_text(dc_reject_code(gain)) + "\n"@
}

pub fn describe(gain: u32) -> (res: String)
    ensures
        res@ == description(gain as int),
{
    let hp = hp_cutoff(gain);
    let dc = dc_reject(gain);
    let mut out = "hp_cutoff  (".to_owned();
    push_decimal(&mut out, hp.len() as u64);
    out.append(" bytes)\n  ");
    out.append(hex(hp.as_slice()).as_str());
    out.append("\n\ndc_reject  (");
    push_decimal(&mut out, dc.len() as u64);
    out.append(" bytes)\n  ");
    out.append(hex(dc.as_slice()).as_str());
    out.append("\n");
    out
}

// ---------------------------------------------------------------------------
// Laws
// ---------------------------------------------------------------------------

/// Whatever registers are used, a filter replacement is 92 bytes: the code, and
/// the four-byte aligned gain constant behind it. That fits the functions it
/// replaces.
pub proof fn law_filters_fit_the_functions_they_replace(
    src: u8,
    dst: u8,
    enc: u8,
    count_a: CountReg,
    count_b: CountReg,
    gain: int,
)
    ensures
        filter_code(src, dst, enc, count_a, count_b, gain).len() == CODE_LEN,
        CODE_LEN <= 0x180,
        GAIN_AT % 4 == 0,
{
}

/// The code ends in `ret`, then `nop` padding up to the gain constant, which
/// reads back as the gain that was asked for.
pub proof fn law_code_ends_in_ret_before_the_gain_constant(
    src: u8,
    dst: u8,
    enc: u8,
    count_a: CountReg,
    count_b: CountReg,
    gain: int,
)
    requires
        0 <= gain < 0x1_0000_0000,
    ensures
        ({
            let code = filter_code(src, dst, enc, count_a, count_b, gain);
            &&& code[RET_AT as int] == 0xC3
            &&& forall|i: int| RET_AT < i < GAIN_AT ==> #[trigger] code[i] == 0x90
            &&& bytes::u32_at(code, GAIN_AT as int) == Some(gain)
        }),
{
    let code = filter_code(src, dst, enc, count_a, count_b, gain);
    let front = pin_code(enc) + setup_code(count_a, count_b) + loop_code(src, dst);
    assert(front.len() == GAIN_AT);
    assert(code[84] == loop_code(src, dst)[22]);
    assert(code[85] == loop_code(src, dst)[23]);
    assert(code[86] == loop_code(src, dst)[24]);
    assert(code[87] == loop_code(src, dst)[25]);
    assert(code[88] == bytes::le32(gain)[0]);
    assert(code[89] == bytes::le32(gain)[1]);
    assert(code[90] == bytes::le32(gain)[2]);
    assert(code[91] == bytes::le32(gain)[3]);
    bytes::law_le32_reads_back(gain);
}

/// A one-byte displacement as the signed number that a short jump adds.
pub open spec fn short_jump(b: u8) -> int {
    if b < 0x80 {
        b as int
    } else {
        b - 0x100
    }
}

/// Every relative operand lands where it should: the early exit on the `ret`, the
/// back edge on the start of the loop, and the gain load on the constant.
pub proof fn law_displacements_land(
    src: u8,
    dst: u8,
    enc: u8,
    count_a: CountReg,
    count_b: CountReg,
    gain: int,
)
    ensures
        ({
            let code = filter_code(src, dst, enc, count_a, count_b, gain);
            &&& code[50] == 0x7E
            &&& 52 + short_jump(code[51]) == RET_AT
            &&& code[82] == 0x7C
            &&& 84 + short_jump(code[83]) == LOOP_TOP
            &&& bytes::u32_at(code, 56) matches Some(disp) && 60 + bytes::signed(disp) == GAIN_AT
        }),
{
    let code = filter_code(src, dst, enc, count_a, count_b, gain);
    let setup = setup_code(count_a, count_b);
    let rest = loop_code(src, dst);
    assert(code[50] == setup[10]);
    assert(code[51] == setup[11]);
    assert(code[56] == setup[16]);
    assert(code[57] == setup[17]);
    assert(code[58] == setup[18]);
    assert(code[59] == setup[19]);
    assert(code[82] == rest[20]);
    assert(code[83] == rest[21]);
}

/// Each marker is a prefix of the code it identifies, whatever the gain.
pub proof fn law_markers_are_a_prefix_of_the_code_they_identify(gain: int)
    ensures
        hp_cutoff_code(gain).take(marker_code(RCX).len() as int) == marker_code(RCX),
        dc_reject_code(gain).take(marker_code(RDX).len() as int) == marker_code(RDX),
{
    assert(hp_cutoff_code(gain).take(marker_code(RCX).len() as int) =~= marker_code(RCX));
    assert(dc_reject_code(gain).take(marker_code(RDX).len() as int) =~= marker_code(RDX));
}

/// The two filters are told apart by their markers.
pub proof fn law_the_two_filters_are_told_apart_by_their_markers()
    ensures
        marker_code(RCX) != marker_code(RDX),
{
    assert(0x80u8 | 1u8 != 0x80u8 | 2u8) by (bit_vector);
    assert(marker_code(RCX)[1] == 0x80u8 | RCX);
    assert(marker_code(RDX)[1] == 0x80u8 | RDX);
}

/// Different gains give different code.
pub proof fn law_gain_shows_in_the_code(a: int, b: int)
    requires
        0 <= a < 0x1_0000_0000,
        0 <= b < 0x1_0000_0000,
        hp_cutoff_code(a) == hp_cutoff_code(b) || dc_reject_code(a) == dc_reject_code(b),
    ensures
        a == b,
{
    law_code_ends_in_ret_before_the_gain_constant(
        RDI,
        RDX,
        RCX,
        CountReg::High(1),
        CountReg::High(0),
        a,
    );
    law_code_ends_in_ret_before_the_gain_constant(
        RDI,
        RDX,
        RCX,
        CountReg::High(1),
        CountReg::High(0),
        b,
    );
    law_code_ends_in_ret_before_the_gain_constant(
        RDI,
        RSI,
        RDX,
        CountReg::High(0),
        CountReg::Low(RCX),
        a,
    );
    law_code_ends_in_ret_before_the_gain_constant(
        RDI,
        RSI,
        RDX,
        CountReg::High(0),
        CountReg::Low(RCX),
        b,
    );
}

} // verus!
