//! What the filter replacements do when they run.
//!
//! Just enough of the processor to execute them: the instructions that they are made
//! of, decoded from their bytes, over general registers, two vector registers, and a
//! memory of dwords.

use crate::bytes;
use crate::shellcode;
use crate::shellcode::CountReg;
use vstd::prelude::*;

verus! {

// ---------------------------------------------------------------------------
// The processor
// ---------------------------------------------------------------------------

pub enum Instr {
    /// `mov dword [base + disp], imm`
    StoreImm { base: int, disp: int, imm: int },
    /// `mov to, from`
    Mov { to: int, from: int },
    /// `imul to, from`
    Imul { to: int, from: int },
    /// `xor to, from`
    Xor { to: int, from: int },
    /// `add to, imm`
    AddImm { to: int, imm: int },
    /// `test a, b`
    Test { a: int, b: int },
    /// `cmp a, b`
    Compare { a: int, b: int },
    /// `jle rel`
    JumpIfNotAbove(int),
    /// `jl rel`
    JumpIfBelow(int),
    /// `movss xmm, [rip + disp]`
    LoadRip { xmm: int, disp: int },
    /// `movss xmm, [base + index*scale]`
    LoadIndexed { xmm: int, base: int, index: int, scale: int },
    /// `movss [base + index*scale], xmm`
    StoreIndexed { xmm: int, base: int, index: int, scale: int },
    /// `mulss to, from`
    Multiply { to: int, from: int },
    /// `ret`
    Return,
    /// Anything else.
    Other,
}

/// A byte as the signed number it is as a displacement or an immediate.
pub open spec fn signed_byte(b: u8) -> int {
    if b < 0x80 {
        b as int
    } else {
        b - 0x100
    }
}

/// The four bytes at `at` as a number, the lowest first.
pub open spec fn dword(code: Seq<u8>, at: int) -> int {
    code[at] + 0x100 * code[at + 1] + 0x1_0000 * code[at + 2] + 0x100_0000 * code[at + 3]
}

pub open spec fn signed_dword(code: Seq<u8>, at: int) -> int {
    let v = dword(code, at);
    if v < 0x8000_0000 {
        v
    } else {
        v - 0x1_0000_0000
    }
}

/// How far an index is moved on in memory.
pub open spec fn scale_of(sib: u8) -> int {
    if sib / 64 == 0 {
        1
    } else if sib / 64 == 1 {
        2
    } else if sib / 64 == 2 {
        4
    } else {
        8
    }
}

/// An index moved on by `scale`.
pub open spec fn scaled(index: int, scale: int) -> int {
    if scale == 1 {
        index
    } else if scale == 2 {
        2 * index
    } else if scale == 4 {
        4 * index
    } else {
        8 * index
    }
}

/// The scalar-float instruction at `pc`, behind its prefix, and its length.
pub open spec fn decode_float(code: Seq<u8>, pc: int) -> (Instr, int) {
    let op = code[pc + 2];
    let modrm = code[pc + 3];
    let mode = modrm / 64;
    let reg = (modrm / 8 % 8) as int;
    let rm = modrm % 8;
    if code[pc + 1] != 0x0F {
        (Instr::Other, 1)
    } else if op == 0x59 && mode == 3 {
        (Instr::Multiply { to: reg, from: rm as int }, 4)
    } else if op == 0x10 && mode == 0 && rm == 5 {
        (Instr::LoadRip { xmm: reg, disp: signed_dword(code, pc + 4) }, 8)
    } else if (op == 0x10 || op == 0x11) && mode == 0 && rm == 4 {
        let sib = code[pc + 4];
        let base = (sib % 8) as int;
        let index = (sib / 8 % 8) as int;
        if base == 5 || index == 4 {
            (Instr::Other, 1)
        } else if op == 0x10 {
            (Instr::LoadIndexed { xmm: reg, base, index, scale: scale_of(sib) }, 5)
        } else {
            (Instr::StoreIndexed { xmm: reg, base, index, scale: scale_of(sib) }, 5)
        }
    } else {
        (Instr::Other, 1)
    }
}

/// The instruction whose opcode is at `p`, with the register extensions `r` and `b`,
/// and its length from there.
pub open spec fn decode_plain(code: Seq<u8>, p: int, r: int, b: int) -> (Instr, int) {
    let op = code[p];
    let modrm = code[p + 1];
    let mode = modrm / 64;
    let field = modrm / 8 % 8;
    let reg = field + 8 * r;
    let rm = modrm % 8 + 8 * b;
    if op == 0xC3 {
        (Instr::Return, 1)
    } else if op == 0x7E {
        (Instr::JumpIfNotAbove(signed_byte(code[p + 1])), 2)
    } else if op == 0x7C {
        (Instr::JumpIfBelow(signed_byte(code[p + 1])), 2)
    } else if op == 0xC7 && mode == 2 && field == 0 && modrm % 8 != 4 {
        (
            Instr::StoreImm { base: rm, disp: signed_dword(code, p + 2), imm: dword(code, p + 6) },
            10,
        )
    } else if op == 0x89 && mode == 3 {
        (Instr::Mov { to: rm, from: reg }, 2)
    } else if op == 0x31 && mode == 3 {
        (Instr::Xor { to: rm, from: reg }, 2)
    } else if op == 0x85 && mode == 3 {
        (Instr::Test { a: rm, b: reg }, 2)
    } else if op == 0x39 && mode == 3 {
        (Instr::Compare { a: rm, b: reg }, 2)
    } else if op == 0x83 && mode == 3 && field == 0 {
        (Instr::AddImm { to: rm, imm: signed_byte(code[p + 2]) }, 3)
    } else if op == 0x0F && code[p + 1] == 0xAF && code[p + 2] / 64 == 3 {
        (
            Instr::Imul {
                to: code[p + 2] / 8 % 8 + 8 * r,
                from: code[p + 2] % 8 + 8 * b,
            },
            3,
        )
    } else {
        (Instr::Other, 1)
    }
}

/// The instruction at `pc`, and its length.
#[verifier::opaque]
pub open spec fn decode(code: Seq<u8>, pc: int) -> (Instr, int) {
    let first = code[pc];
    if first == 0xF3 {
        decode_float(code, pc)
    } else if 0x40 <= first < 0x48 {
        let (instr, len) = decode_plain(
            code,
            pc + 1,
            (first / 4 % 2) as int,
            (first % 2) as int,
        );
        (instr, len + 1)
    } else {
        decode_plain(code, pc, 0, 0)
    }
}

/// A processor on its way through a piece of code. Registers are known by their
/// numbers: rax 0, rcx 1, rdx 2, rsi 6, rdi 7, r8 to r15 8 to 15. Memory is a dword
/// at each address that is a multiple of four.
pub struct Cpu {
    pub pc: int,
    pub regs: Map<int, int>,
    pub xmm: Map<int, int>,
    pub mem: Map<int, int>,
    /// What was compared last.
    pub left: int,
    pub right: int,
    /// It has returned.
    pub done: bool,
}

/// The low half of a register.
pub open spec fn low(c: Cpu, r: int) -> int {
    c.regs[r] % 0x1_0000_0000
}

/// The low half of a register as a signed number.
pub open spec fn signed_low(c: Cpu, r: int) -> int {
    if low(c, r) < 0x8000_0000 {
        low(c, r)
    } else {
        low(c, r) - 0x1_0000_0000
    }
}

/// One instruction. `product` is what the processor's multiplication of two floats gives,
/// as bits.
pub open spec fn step(code: Seq<u8>, c: Cpu, product: spec_fn(int, int) -> int) -> Cpu {
    let (instr, len) = decode(code, c.pc);
    let next = Cpu { pc: c.pc + len, ..c };
    match instr {
        Instr::StoreImm { base, disp, imm } => Cpu {
            mem: c.mem.insert(c.regs[base] + disp, imm),
            ..next
        },
        Instr::Mov { to, from } => Cpu { regs: c.regs.insert(to, low(c, from)), ..next },
        Instr::Imul { to, from } => Cpu {
            regs: c.regs.insert(to, (signed_low(c, to) * signed_low(c, from)) % 0x1_0000_0000),
            ..next
        },
        Instr::Xor { to, from } => if to == from {
            Cpu { regs: c.regs.insert(to, 0), ..next }
        } else {
            Cpu { done: true, pc: -1, ..c }
        },
        Instr::AddImm { to, imm } => Cpu {
            regs: c.regs.insert(to, (low(c, to) + imm) % 0x1_0000_0000),
            ..next
        },
        Instr::Test { a, b } => if a == b {
            Cpu { left: signed_low(c, a), right: 0, ..next }
        } else {
            Cpu { done: true, pc: -1, ..c }
        },
        Instr::Compare { a, b } => Cpu { left: signed_low(c, a), right: signed_low(c, b), ..next },
        Instr::JumpIfNotAbove(rel) => if c.left <= c.right {
            Cpu { pc: c.pc + len + rel, ..c }
        } else {
            next
        },
        Instr::JumpIfBelow(rel) => if c.left < c.right {
            Cpu { pc: c.pc + len + rel, ..c }
        } else {
            next
        },
        Instr::LoadRip { xmm, disp } => Cpu {
            xmm: c.xmm.insert(xmm, dword(code, c.pc + len + disp)),
            ..next
        },
        Instr::LoadIndexed { xmm, base, index, scale } => Cpu {
            xmm: c.xmm.insert(xmm, c.mem[c.regs[base] + scaled(c.regs[index], scale)]),
            ..next
        },
        Instr::StoreIndexed { xmm, base, index, scale } => Cpu {
            mem: c.mem.insert(c.regs[base] + scaled(c.regs[index], scale), c.xmm[xmm]),
            ..next
        },
        Instr::Multiply { to, from } => Cpu {
            xmm: c.xmm.insert(to, product(c.xmm[to], c.xmm[from])),
            ..next
        },
        Instr::Return => Cpu { done: true, ..c },
        Instr::Other => Cpu { done: true, pc: -1, ..c },
    }
}

/// `k` instructions.
pub open spec fn run(code: Seq<u8>, c: Cpu, product: spec_fn(int, int) -> int, k: nat) -> Cpu
    decreases k,
{
    if k == 0 {
        c
    } else {
        let before = run(code, c, product, (k - 1) as nat);
        if before.done {
            before
        } else {
            step(code, before, product)
        }
    }
}

// ---------------------------------------------------------------------------
// A filter replacement, instruction by instruction
// ---------------------------------------------------------------------------

pub open spec fn number_of(reg: CountReg) -> int {
    match reg {
        CountReg::Low(r) => r as int,
        CountReg::High(r) => r + 8,
    }
}

/// The code is that of a filter which reads at `src`, writes at `dst`, finds the
/// encoder through `enc`, and gets its counts in `a` and `b`.
spec fn is_filter(code: Seq<u8>, src: int, dst: int, enc: int, a: int, b: int, gain: int) -> bool {
    &&& decode(code, 0) == (Instr::StoreImm { base: enc, disp: 16, imm: 1002 }, 10int)
    &&& decode(code, 10) == (
        Instr::StoreImm { base: enc, disp: 160 - 14212, imm: 0xFFFF_FFFF },
        10int,
    )
    &&& decode(code, 20) == (
        Instr::StoreImm { base: enc, disp: 164 - 14212, imm: 0xFFFF_FFFF },
        10int,
    )
    &&& decode(code, 30) == (Instr::StoreImm { base: enc, disp: 184 - 14212, imm: 0 }, 10int)
    &&& decode(code, 40) == (Instr::Mov { to: 11, from: a }, 3int)
    &&& decode(code, 43) == (Instr::Imul { to: 11, from: b }, 4int)
    &&& decode(code, 47) == (Instr::Test { a: 11, b: 11 }, 3int)
    &&& decode(code, 50) == (Instr::JumpIfNotAbove(32), 2int)
    &&& decode(code, 52) == (Instr::LoadRip { xmm: 1, disp: 28 }, 8int)
    &&& decode(code, 60) == (Instr::Xor { to: 0, from: 0 }, 2int)
    &&& decode(code, 62) == (
        Instr::LoadIndexed { xmm: 0, base: src, index: 0, scale: 4 },
        5int,
    )
    &&& decode(code, 67) == (Instr::Multiply { to: 0, from: 1 }, 4int)
    &&& decode(code, 71) == (
        Instr::StoreIndexed { xmm: 0, base: dst, index: 0, scale: 4 },
        5int,
    )
    &&& decode(code, 76) == (Instr::AddImm { to: 0, imm: 1 }, 3int)
    &&& decode(code, 79) == (Instr::Compare { a: 0, b: 11 }, 3int)
    &&& decode(code, 82) == (Instr::JumpIfBelow(-22), 2int)
    &&& decode(code, 84) == (Instr::Return, 1int)
    &&& dword(code, 88) == gain
}

proof fn lemma_bits(r: u8)
    requires
        r < 8,
    ensures
        0x80u8 | r == 0x80 + r,
        0xC3u8 | (r << 3u8) == 0xC3 + 8 * (r % 8),
        0xD8u8 | r == 0xD8 + r,
{
    assert(0x80u8 | r == 0x80 + r) by (bit_vector)
        requires
            r < 8,
    ;
    assert(0xC3u8 | (r << 3u8) == 0xC3 + 8 * (r % 8)) by (bit_vector)
        requires
            r < 8,
    ;
    assert(0xD8u8 | r == 0xD8 + r) by (bit_vector)
        requires
            r < 8,
    ;
}

/// What `le32` writes reads back as the dword that it was.
proof fn lemma_dword(front: Seq<u8>, v: int, back: Seq<u8>)
    requires
        0 <= v < 0x1_0000_0000,
    ensures
        dword(front + bytes::le32(v) + back, front.len() as int) == v,
{
    let all = front + bytes::le32(v) + back;
    let n = front.len() as int;
    let le = bytes::le32(v);
    assert(all[n] == le[0]);
    assert(all[n + 1] == le[1]);
    assert(all[n + 2] == le[2]);
    assert(all[n + 3] == le[3]);
}

proof fn lemma_store(front: Seq<u8>, base: u8, disp: int, imm: int, back: Seq<u8>)
    requires
        base < 8,
        base != 4,
        -0x8000_0000 <= disp < 0x8000_0000,
        -0x8000_0000 <= imm < 0x8000_0000,
    ensures
        decode(
            front + shellcode::mov_mem_imm32(base, disp, imm) + back,
            front.len() as int,
        ) == (
            Instr::StoreImm {
                base: base as int,
                disp,
                imm: if imm < 0 {
                    imm + 0x1_0000_0000
                } else {
                    imm
                },
            },
            10int,
        ),
{
    reveal(decode);
    let store = shellcode::mov_mem_imm32(base, disp, imm);
    let all = front + store + back;
    let n = front.len() as int;
    let d = bytes::le32(bytes::unsigned(disp));
    let i = bytes::le32(bytes::unsigned(imm));
    lemma_bits(base);
    assert(all[n] == store[0] && all[n + 1] == store[1]);
    assert(all =~= (front + seq![0xC7u8, 0x80u8 | base]) + d + (i + back));
    lemma_dword(front + seq![0xC7u8, 0x80u8 | base], bytes::unsigned(disp), i + back);
    assert(all =~= (front + seq![0xC7u8, 0x80u8 | base] + d) + i + back);
    lemma_dword(front + seq![0xC7u8, 0x80u8 | base] + d, bytes::unsigned(imm), back);
}

/// A register that can be the base of an indexed operand.
pub open spec fn is_base(r: u8) -> bool {
    r < 8 && r != 5
}

pub open spec fn count_is_named(reg: CountReg) -> bool {
    match reg {
        CountReg::Low(r) => r < 8,
        CountReg::High(r) => r < 8,
    }
}

proof fn lemma_pins_decode(enc: u8, back: Seq<u8>)
    requires
        enc < 8,
        enc != 4,
    ensures
        ({
            let code = shellcode::pin_code(enc) + back;
            &&& decode(code, 0) == (
                Instr::StoreImm { base: enc as int, disp: 16, imm: 1002 },
                10int,
            )
            &&& decode(code, 10) == (
                Instr::StoreImm { base: enc as int, disp: 160 - 14212, imm: 0xFFFF_FFFF },
                10int,
            )
            &&& decode(code, 20) == (
                Instr::StoreImm { base: enc as int, disp: 164 - 14212, imm: 0xFFFF_FFFF },
                10int,
            )
            &&& decode(code, 30) == (
                Instr::StoreImm { base: enc as int, disp: 184 - 14212, imm: 0 },
                10int,
            )
        }),
{
    let code = shellcode::pin_code(enc) + back;
    let none = Seq::<u8>::empty();
    let s0 = shellcode::mov_mem_imm32(enc, 16, 1002);
    let s1 = shellcode::mov_mem_imm32(enc, 160 - 14212, -1);
    let s2 = shellcode::mov_mem_imm32(enc, 164 - 14212, -1);
    let s3 = shellcode::mov_mem_imm32(enc, 184 - 14212, 0);
    assert(s0.len() == 10 && s1.len() == 10 && s2.len() == 10 && s3.len() == 10);
    assert(code =~= none + s0 + (s1 + s2 + s3 + back));
    lemma_store(none, enc, 16, 1002, s1 + s2 + s3 + back);
    assert(code =~= s0 + s1 + (s2 + s3 + back));
    lemma_store(s0, enc, 160 - 14212, -1, s2 + s3 + back);
    assert(code =~= (s0 + s1) + s2 + (s3 + back));
    lemma_store(s0 + s1, enc, 164 - 14212, -1, s3 + back);
    assert(code =~= (s0 + s1 + s2) + s3 + back);
    lemma_store(s0 + s1 + s2, enc, 184 - 14212, 0, back);
}

proof fn lemma_setup_decodes(front: Seq<u8>, a: CountReg, b: CountReg, back: Seq<u8>)
    requires
        front.len() == 40,
        count_is_named(a),
        count_is_named(b),
    ensures
        ({
            let code = front + shellcode::setup_code(a, b) + back;
            &&& decode(code, 40) == (Instr::Mov { to: 11, from: number_of(a) }, 3int)
            &&& decode(code, 43) == (Instr::Imul { to: 11, from: number_of(b) }, 4int)
            &&& decode(code, 47) == (Instr::Test { a: 11, b: 11 }, 3int)
            &&& decode(code, 50) == (Instr::JumpIfNotAbove(32), 2int)
            &&& decode(code, 52) == (Instr::LoadRip { xmm: 1, disp: 28 }, 8int)
            &&& decode(code, 60) == (Instr::Xor { to: 0, from: 0 }, 2int)
        }),
{
    reveal(decode);
    let s = shellcode::setup_code(a, b);
    let code = front + s + back;
    let ma = shellcode::mov_to_r11d(a);
    let mb = shellcode::imul_into_r11d(b);
    let ra = match a {
        CountReg::Low(r) => r,
        CountReg::High(r) => r,
    };
    let rb = match b {
        CountReg::Low(r) => r,
        CountReg::High(r) => r,
    };
    lemma_bits(ra);
    lemma_bits(rb);
    assert(s.len() == 22);
    assert(code[40] == ma[0] && code[41] == ma[1] && code[42] == ma[2]);
    assert(code[43] == mb[0] && code[44] == mb[1] && code[45] == mb[2] && code[46]
        == mb[3]);
    assert(code[47] == 0x45 && code[48] == 0x85 && code[49] == 0xDB);
    assert(code[50] == 0x7E && code[51] == 0x20);
    assert(code[52] == 0xF3 && code[53] == 0x0F && code[54] == 0x10 && code[55]
        == 0x0D);
    assert(code[56] == 0x1C && code[57] == 0 && code[58] == 0 && code[59] == 0);
    assert(code[60] == 0x31 && code[61] == 0xC0);
}

proof fn lemma_loop_decodes(front: Seq<u8>, src: u8, dst: u8, gain: int)
    requires
        front.len() == 62,
        is_base(src),
        is_base(dst),
        0 <= gain < 0x1_0000_0000,
    ensures
        ({
            let code = front + shellcode::loop_code(src, dst) + bytes::le32(gain);
            &&& decode(code, 62) == (
                Instr::LoadIndexed { xmm: 0, base: src as int, index: 0, scale: 4 },
                5int,
            )
            &&& decode(code, 67) == (Instr::Multiply { to: 0, from: 1 }, 4int)
            &&& decode(code, 71) == (
                Instr::StoreIndexed { xmm: 0, base: dst as int, index: 0, scale: 4 },
                5int,
            )
            &&& decode(code, 76) == (Instr::AddImm { to: 0, imm: 1 }, 3int)
            &&& decode(code, 79) == (Instr::Compare { a: 0, b: 11 }, 3int)
            &&& decode(code, 82) == (Instr::JumpIfBelow(-22), 2int)
            &&& decode(code, 84) == (Instr::Return, 1int)
            &&& dword(code, 88) == gain
        }),
{
    reveal(decode);
    let l = shellcode::loop_code(src, dst);
    let code = front + l + bytes::le32(gain);
    lemma_bits(src);
    lemma_bits(dst);
    assert(l.len() == 26);
    assert(code[62] == 0xF3 && code[63] == 0x0F && code[64] == 0x10 && code[65]
        == 0x04 && code[66] == 0x80 + src);
    assert(code[67] == 0xF3 && code[68] == 0x0F && code[69] == 0x59 && code[70]
        == 0xC1);
    assert(code[71] == 0xF3 && code[72] == 0x0F && code[73] == 0x11 && code[74]
        == 0x04 && code[75] == 0x80 + dst);
    assert(code[76] == 0x83 && code[77] == 0xC0 && code[78] == 0x01);
    assert(code[79] == 0x44 && code[80] == 0x39 && code[81] == 0xD8);
    assert(code[82] == 0x7C && code[83] == 0xEA && code[84] == 0xC3);
    assert(code =~= (front + l) + bytes::le32(gain) + Seq::<u8>::empty());
    lemma_dword(front + l, gain, Seq::<u8>::empty());
}

proof fn lemma_is_filter(src: u8, dst: u8, enc: u8, a: CountReg, b: CountReg, gain: int)
    requires
        is_base(src),
        is_base(dst),
        enc < 8,
        enc != 4,
        count_is_named(a),
        count_is_named(b),
        0 <= gain < 0x1_0000_0000,
    ensures
        is_filter(
            shellcode::filter_code(src, dst, enc, a, b, gain),
            src as int,
            dst as int,
            enc as int,
            number_of(a),
            number_of(b),
            gain,
        ),
{
    let code = shellcode::filter_code(src, dst, enc, a, b, gain);
    let p = shellcode::pin_code(enc);
    let s = shellcode::setup_code(a, b);
    let l = shellcode::loop_code(src, dst);
    let g = bytes::le32(gain);
    assert(p.len() == 40 && s.len() == 22);
    assert(code =~= p + (s + l + g));
    lemma_pins_decode(enc, s + l + g);
    assert(code =~= p + s + (l + g));
    lemma_setup_decodes(p, a, b, l + g);
    assert(code =~= (p + s) + l + g);
    lemma_loop_decodes(p + s, src, dst, gain);
}

// ---------------------------------------------------------------------------
// Running it
// ---------------------------------------------------------------------------

/// The encoder's fields as a filter leaves them, when `hp` is what its caller passes
/// for `hp_mem`, which lies 3553 dwords into the encoder.
pub open spec fn pinned(mem: Map<int, int>, hp: int) -> Map<int, int> {
    let encoder = hp - 3553 * 4;
    mem.insert(encoder + 3557 * 4, 1002).insert(encoder + 160, 0xFFFF_FFFF).insert(
        encoder + 164,
        0xFFFF_FFFF,
    ).insert(encoder + 184, 0)
}

/// `at` is the address of one of those fields.
pub open spec fn is_field(hp: int, at: int) -> bool {
    let encoder = hp - 3553 * 4;
    at == encoder + 3557 * 4 || at == encoder + 160 || at == encoder + 164 || at == encoder + 184
}

/// `at` lies in a buffer of `n` samples.
pub open spec fn in_buffer(buffer: int, n: int, at: int) -> bool {
    buffer <= at < buffer + 4 * n
}

proof fn lemma_one_more(code: Seq<u8>, c: Cpu, product: spec_fn(int, int) -> int, k: nat)
    requires
        !run(code, c, product, k).done,
    ensures
        run(code, c, product, k + 1) == step(code, run(code, c, product, k), product),
{
}

/// How many samples there are, or how many too few.
pub open spec fn samples(c: Cpu, a: CountReg, b: CountReg) -> int {
    signed_low(c, number_of(a)) * signed_low(c, number_of(b))
}

proof fn lemma_wraps(n: int)
    requires
        -0x8000_0000 <= n < 0x8000_0000,
    ensures
        n % 0x1_0000_0000 == if n < 0 {
            n + 0x1_0000_0000
        } else {
            n
        },
{
}

/// The stores, the count and the test.
proof fn lemma_counts(
    code: Seq<u8>,
    src: int,
    dst: int,
    enc: int,
    a: int,
    b: int,
    gain: int,
    c: Cpu,
    product: spec_fn(int, int) -> int,
)
    requires
        is_filter(code, src, dst, enc, a, b, gain),
        b != 11,
        c.pc == 0,
        !c.done,
        -0x8000_0000 <= signed_low(c, a) * signed_low(c, b) < 0x8000_0000,
    ensures
        ({
            let n = signed_low(c, a) * signed_low(c, b);
            let e = run(code, c, product, 7);
            &&& e.pc == 50
            &&& !e.done
            &&& e.left == n
            &&& e.right == 0
            &&& e.regs == c.regs.insert(11, low(c, a)).insert(11, n % 0x1_0000_0000)
            &&& e.xmm == c.xmm
            &&& e.mem == pinned(c.mem, c.regs[enc])
        }),
{
    let n = signed_low(c, a) * signed_low(c, b);
    lemma_one_more(code, c, product, 0);
    let c1 = run(code, c, product, 1);
    assert(c1 == (Cpu { pc: 10, mem: c.mem.insert(c.regs[enc] + 16, 1002), ..c }));
    lemma_one_more(code, c, product, 1);
    let c2 = run(code, c, product, 2);
    assert(c2.pc == 20 && c2.regs == c.regs && !c2.done);
    lemma_one_more(code, c, product, 2);
    let c3 = run(code, c, product, 3);
    assert(c3.pc == 30 && c3.regs == c.regs && !c3.done);
    lemma_one_more(code, c, product, 3);
    let c4 = run(code, c, product, 4);
    assert(c4.pc == 40 && c4.regs == c.regs && !c4.done);
    assert(c4.mem == pinned(c.mem, c.regs[enc]));
    lemma_one_more(code, c, product, 4);
    let c5 = run(code, c, product, 5);
    assert(c5.pc == 43 && c5.regs == c.regs.insert(11, low(c, a)) && !c5.done);
    assert(low(c5, 11) == low(c, a));
    assert(signed_low(c5, 11) == signed_low(c, a));
    assert(signed_low(c5, b) == signed_low(c, b));
    lemma_one_more(code, c, product, 5);
    let c6 = run(code, c, product, 6);
    assert(c6.pc == 47 && c6.regs == c5.regs.insert(11, n % 0x1_0000_0000) && !c6.done);
    lemma_wraps(n);
    assert(low(c6, 11) == n % 0x1_0000_0000);
    assert(signed_low(c6, 11) == n);
    lemma_one_more(code, c, product, 6);
}

/// One round of the loop.
proof fn lemma_round(
    code: Seq<u8>,
    src: int,
    dst: int,
    enc: int,
    a: int,
    b: int,
    gain: int,
    c: Cpu,
    product: spec_fn(int, int) -> int,
    k: nat,
    i: int,
    n: int,
)
    requires
        is_filter(code, src, dst, enc, a, b, gain),
        src != 0,
        dst != 0,
        0 <= i < n < 0x8000_0000,
        run(code, c, product, k).pc == 62,
        !run(code, c, product, k).done,
        run(code, c, product, k).regs[0] == i,
        run(code, c, product, k).regs[11] == n,
        run(code, c, product, k).xmm[1] == gain,
    ensures
        ({
            let q = run(code, c, product, k);
            let e = run(code, c, product, k + 6);
            &&& e.pc == if i + 1 < n {
                62int
            } else {
                84
            }
            &&& !e.done
            &&& e.regs == q.regs.insert(0, i + 1)
            &&& e.xmm[1] == gain
            &&& e.mem == q.mem.insert(
                q.regs[dst] + 4 * i,
                product(q.mem[q.regs[src] + 4 * i], gain),
            )
        }),
{
    let q = run(code, c, product, k);
    lemma_one_more(code, c, product, k);
    let q1 = run(code, c, product, k + 1);
    assert(q1.pc == 67 && !q1.done && q1.regs == q.regs && q1.mem == q.mem);
    lemma_one_more(code, c, product, k + 1);
    let q2 = run(code, c, product, k + 2);
    assert(q2.pc == 71 && !q2.done && q2.regs == q.regs && q2.mem == q.mem);
    assert(q2.xmm[0] == product(q.mem[q.regs[src] + 4 * i], gain));
    lemma_one_more(code, c, product, k + 2);
    let q3 = run(code, c, product, k + 3);
    assert(q3.pc == 76 && !q3.done && q3.regs == q.regs);
    lemma_one_more(code, c, product, k + 3);
    let q4 = run(code, c, product, k + 4);
    assert(low(q3, 0) == i);
    assert(q4.pc == 79 && !q4.done && q4.regs == q.regs.insert(0, i + 1));
    lemma_one_more(code, c, product, k + 4);
    let q5 = run(code, c, product, k + 5);
    assert(q5.pc == 82 && !q5.done && q5.left == i + 1 && q5.right == n);
    lemma_one_more(code, c, product, k + 5);
}

/// `m` rounds of the loop.
proof fn lemma_rounds(
    code: Seq<u8>,
    src: int,
    dst: int,
    enc: int,
    a: int,
    b: int,
    gain: int,
    c: Cpu,
    product: spec_fn(int, int) -> int,
    n: int,
    m: nat,
)
    requires
        is_filter(code, src, dst, enc, a, b, gain),
        src != 0,
        dst != 0,
        src != 11,
        dst != 11,
        b != 11,
        c.pc == 0,
        !c.done,
        n == signed_low(c, a) * signed_low(c, b),
        0 < n < 0x8000_0000,
        m <= n,
        c.regs[dst] == c.regs[src] || c.regs[dst] + 4 * n <= c.regs[src] || c.regs[src] + 4 * n
            <= c.regs[dst],
        forall|at: int| #[trigger]
            is_field(c.regs[enc], at) ==> !in_buffer(c.regs[src], n, at),
    ensures
        ({
            let e = run(code, c, product, 10 + 6 * m);
            &&& e.pc == if m < n {
                62int
            } else {
                84
            }
            &&& !e.done
            &&& e.regs[0] == m
            &&& e.regs[11] == n
            &&& e.regs[src] == c.regs[src]
            &&& e.regs[dst] == c.regs[dst]
            &&& e.xmm[1] == gain
            &&& forall|j: int|
                0 <= j < m ==> #[trigger] e.mem[c.regs[dst] + 4 * j] == product(
                    c.mem[c.regs[src] + 4 * j],
                    gain,
                )
            &&& forall|at: int|
                !in_buffer(c.regs[dst], m as int, at) ==> #[trigger] e.mem[at] == pinned(
                    c.mem,
                    c.regs[enc],
                )[at]
        }),
    decreases m,
{
    if m == 0 {
        lemma_counts(code, src, dst, enc, a, b, gain, c, product);
        lemma_wraps(n);
        lemma_one_more(code, c, product, 7);
        let c8 = run(code, c, product, 8);
        assert(c8.pc == 52 && !c8.done);
        lemma_one_more(code, c, product, 8);
        let c9 = run(code, c, product, 9);
        assert(c9.pc == 60 && !c9.done && c9.xmm[1] == gain);
        lemma_one_more(code, c, product, 9);
    } else {
        let i = m - 1;
        let k = (10 + 6 * (m - 1)) as nat;
        lemma_rounds(code, src, dst, enc, a, b, gain, c, product, n, (m - 1) as nat);
        lemma_round(code, src, dst, enc, a, b, gain, c, product, k, i, n);
        let q = run(code, c, product, k);
        let e = run(code, c, product, k + 6);
        let from = c.regs[src] + 4 * i;
        assert(k + 6 == 10 + 6 * m);
        assert(in_buffer(c.regs[src], n, from));
        assert(!is_field(c.regs[enc], from));
        assert(!in_buffer(c.regs[dst], i, from));
        assert(q.mem[from] == c.mem[from]);
        assert(e.mem[c.regs[dst] + 4 * i] == product(c.mem[from], gain));
    }
}

/// Every sample comes out multiplied by the gain: a filter that is called with a
/// positive number of samples (counted by the product of two registers) returns with
/// `dst[i]` equal to `src[i]` times the gain for each of them, with the encoder's mode
/// set to CELT-only and what it carried over cleared, and with nothing else in memory
/// changed. Source and destination may be the same buffer; else they do not overlap.
pub proof fn law_a_filter_scales_every_sample(
    src: u8,
    dst: u8,
    enc: u8,
    a: CountReg,
    b: CountReg,
    gain: int,
    c: Cpu,
    product: spec_fn(int, int) -> int,
)
    requires
        is_base(src),
        is_base(dst),
        src != 0,
        dst != 0,
        enc < 8,
        enc != 4,
        count_is_named(a),
        count_is_named(b),
        number_of(b) != 11,
        0 <= gain < 0x1_0000_0000,
        c.pc == 0,
        !c.done,
        0 < samples(c, a, b) < 0x8000_0000,
        c.regs[src as int] % 4 == 0,
        c.regs[dst as int] % 4 == 0,
        c.regs[enc as int] % 4 == 0,
        ({
            let n = samples(c, a, b);
            let input = c.regs[src as int];
            let output = c.regs[dst as int];
            &&& output == input || output + 4 * n <= input || input + 4 * n <= output
            &&& forall|at: int| #[trigger]
                is_field(c.regs[enc as int], at) ==> !in_buffer(input, n, at) && !in_buffer(
                    output,
                    n,
                    at,
                )
        }),
    ensures
        ({
            let n = samples(c, a, b);
            let input = c.regs[src as int];
            let output = c.regs[dst as int];
            let encoder = c.regs[enc as int] - 3553 * 4;
            let code = shellcode::filter_code(src, dst, enc, a, b, gain);
            let e = run(code, c, product, (11 + 6 * n) as nat);
            &&& e.done
            &&& e.pc == 84
            &&& forall|i: int|
                0 <= i < n ==> #[trigger] e.mem[output + 4 * i] == product(
                    c.mem[input + 4 * i],
                    gain,
                )
            &&& e.mem[encoder + 3557 * 4] == 1002
            &&& e.mem[encoder + 160] == 0xFFFF_FFFF
            &&& e.mem[encoder + 164] == 0xFFFF_FFFF
            &&& e.mem[encoder + 184] == 0
            &&& forall|at: int|
                !in_buffer(output, n, at) && !is_field(c.regs[enc as int], at) ==> #[trigger]
                e.mem[at] == c.mem[at]
        }),
{
    let n = samples(c, a, b);
    let hp = c.regs[enc as int];
    let encoder = hp - 3553 * 4;
    let code = shellcode::filter_code(src, dst, enc, a, b, gain);
    lemma_is_filter(src, dst, enc, a, b, gain);
    lemma_rounds(
        code,
        src as int,
        dst as int,
        enc as int,
        number_of(a),
        number_of(b),
        gain,
        c,
        product,
        n,
        n as nat,
    );
    lemma_one_more(code, c, product, (10 + 6 * n) as nat);
    assert(is_field(hp, encoder + 3557 * 4));
    assert(is_field(hp, encoder + 160));
    assert(is_field(hp, encoder + 164));
    assert(is_field(hp, encoder + 184));
}

/// With no samples a filter only sets the encoder's fields.
pub proof fn law_a_filter_without_samples_leaves_the_buffers(
    src: u8,
    dst: u8,
    enc: u8,
    a: CountReg,
    b: CountReg,
    gain: int,
    c: Cpu,
    product: spec_fn(int, int) -> int,
)
    requires
        is_base(src),
        is_base(dst),
        enc < 8,
        enc != 4,
        count_is_named(a),
        count_is_named(b),
        number_of(b) != 11,
        0 <= gain < 0x1_0000_0000,
        c.pc == 0,
        !c.done,
        -0x8000_0000 <= samples(c, a, b) <= 0,
    ensures
        ({
            let encoder = c.regs[enc as int] - 3553 * 4;
            let code = shellcode::filter_code(src, dst, enc, a, b, gain);
            let e = run(code, c, product, 9);
            &&& e.done
            &&& e.pc == 84
            &&& e.mem[encoder + 3557 * 4] == 1002
            &&& e.mem[encoder + 160] == 0xFFFF_FFFF
            &&& e.mem[encoder + 164] == 0xFFFF_FFFF
            &&& e.mem[encoder + 184] == 0
            &&& forall|at: int|
                !is_field(c.regs[enc as int], at) ==> #[trigger] e.mem[at] == c.mem[at]
        }),
{
    let code = shellcode::filter_code(src, dst, enc, a, b, gain);
    lemma_is_filter(src, dst, enc, a, b, gain);
    lemma_counts(
        code,
        src as int,
        dst as int,
        enc as int,
        number_of(a),
        number_of(b),
        gain,
        c,
        product,
    );
    lemma_one_more(code, c, product, 7);
    lemma_one_more(code, c, product, 8);
}

/// `hp_cutoff(in, cutoff, out, hp_mem, len, channels, ..)`: the caller passes `in` in
/// rdi, `out` in rdx, `hp_mem` in rcx, `len` in r8d and `channels` in r9d, and each of
/// the `len * channels` samples comes out times the gain.
pub proof fn law_hp_cutoff_scales_its_input(
    gain: int,
    c: Cpu,
    product: spec_fn(int, int) -> int,
)
    requires
        0 <= gain < 0x1_0000_0000,
        c.pc == 0,
        !c.done,
        0 < signed_low(c, 8) * signed_low(c, 9) < 0x8000_0000,
        c.regs[7] % 4 == 0,
        c.regs[2] % 4 == 0,
        c.regs[1] % 4 == 0,
        ({
            let n = signed_low(c, 8) * signed_low(c, 9);
            &&& c.regs[2] == c.regs[7] || c.regs[2] + 4 * n <= c.regs[7] || c.regs[7] + 4 * n
                <= c.regs[2]
            &&& forall|at: int| #[trigger]
                is_field(c.regs[1], at) ==> !in_buffer(c.regs[7], n, at) && !in_buffer(
                    c.regs[2],
                    n,
                    at,
                )
        }),
    ensures
        ({
            let n = signed_low(c, 8) * signed_low(c, 9);
            let e = run(shellcode::hp_cutoff_code(gain), c, product, (11 + 6 * n) as nat);
            &&& e.done
            &&& forall|i: int|
                0 <= i < n ==> #[trigger] e.mem[c.regs[2] + 4 * i] == product(
                    c.mem[c.regs[7] + 4 * i],
                    gain,
                )
            &&& e.mem[c.regs[1] + 16] == 1002
            &&& forall|at: int|
                !in_buffer(c.regs[2], n, at) && !is_field(c.regs[1], at) ==> #[trigger] e.mem[at]
                    == c.mem[at]
        }),
{
    vstd::arithmetic::mul::lemma_mul_is_commutative(signed_low(c, 8), signed_low(c, 9));
    law_a_filter_scales_every_sample(
        7,
        2,
        1,
        CountReg::High(1),
        CountReg::High(0),
        gain,
        c,
        product,
    );
}

/// `dc_reject(in, out, hp_mem, len, channels, ..)`: the caller passes `in` in rdi,
/// `out` in rsi, `hp_mem` in rdx, `len` in ecx and `channels` in r8d, and each of the
/// `len * channels` samples comes out times the gain.
pub proof fn law_dc_reject_scales_its_input(
    gain: int,
    c: Cpu,
    product: spec_fn(int, int) -> int,
)
    requires
        0 <= gain < 0x1_0000_0000,
        c.pc == 0,
        !c.done,
        0 < signed_low(c, 1) * signed_low(c, 8) < 0x8000_0000,
        c.regs[7] % 4 == 0,
        c.regs[6] % 4 == 0,
        c.regs[2] % 4 == 0,
        ({
            let n = signed_low(c, 1) * signed_low(c, 8);
            &&& c.regs[6] == c.regs[7] || c.regs[6] + 4 * n <= c.regs[7] || c.regs[7] + 4 * n
                <= c.regs[6]
            &&& forall|at: int| #[trigger]
                is_field(c.regs[2], at) ==> !in_buffer(c.regs[7], n, at) && !in_buffer(
                    c.regs[6],
                    n,
                    at,
                )
        }),
    ensures
        ({
            let n = signed_low(c, 1) * signed_low(c, 8);
            let e = run(shellcode::dc_reject_code(gain), c, product, (11 + 6 * n) as nat);
            &&& e.done
            &&& forall|i: int|
                0 <= i < n ==> #[trigger] e.mem[c.regs[6] + 4 * i] == product(
                    c.mem[c.regs[7] + 4 * i],
                    gain,
                )
            &&& e.mem[c.regs[2] + 16] == 1002
            &&& forall|at: int|
                !in_buffer(c.regs[6], n, at) && !is_field(c.regs[2], at) ==> #[trigger] e.mem[at]
                    == c.mem[at]
        }),
{
    vstd::arithmetic::mul::lemma_mul_is_commutative(signed_low(c, 1), signed_low(c, 8));
    law_a_filter_scales_every_sample(
        7,
        6,
        2,
        CountReg::High(0),
        CountReg::Low(1),
        gain,
        c,
        product,
    );
}

} // verus!
