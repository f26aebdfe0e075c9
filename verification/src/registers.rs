//! The registers that an `asm fn` may name.
use vstd::prelude::*;

use crate::text::same;

verus! {

/// A physical register, whatever width it is spelled at.
#[derive(Debug, Clone, Copy, PartialEq, Eq, Structural)]
pub enum RegFamily {
    A,
    B,
    C,
    D,
    Si,
    Di,
    Bp,
    Sp,
    R(u8),
    Xmm(u8),
}

impl DeepView for RegFamily {
    type V = RegFamily;

    open spec fn deep_view(&self) -> RegFamily {
        *self
    }
}

/// A bank of registers.
#[derive(Debug, Clone, Copy, PartialEq, Eq, Structural)]
pub enum RegClass {
    Gpr,
    Sse,
}

/// What a spelling names.
#[derive(Debug, Clone, Copy, PartialEq, Eq, Structural)]
pub struct RegInfo {
    pub family: RegFamily,
    pub width_bits: u32,
    pub class: RegClass,
}

/// How a bank is called in diagnostics.
pub open spec fn class_text(class: RegClass) -> Seq<char> {
    match class {
        RegClass::Gpr => "a general-purpose register"@,
        RegClass::Sse => "an SSE register"@,
    }
}

impl RegClass {
    /// How the bank is called in diagnostics.
    pub fn describe(&self) -> (r: &'static str)
        ensures
            r@ == class_text(*self),
    {
        match self {
            RegClass::Gpr => "a general-purpose register",
            RegClass::Sse => "an SSE register",
        }
    }
}

/// The registers of x86-64.
pub open spec fn register_64(name: Seq<char>) -> Option<RegInfo> {
    if name == "rax"@ {
        Some(RegInfo { family: RegFamily::A, width_bits: 64, class: RegClass::Gpr })
    } else if name == "eax"@ {
        Some(RegInfo { family: RegFamily::A, width_bits: 32, class: RegClass::Gpr })
    } else if name == "ax"@ {
        Some(RegInfo { family: RegFamily::A, width_bits: 16, class: RegClass::Gpr })
    } else if name == "al"@ {
        Some(RegInfo { family: RegFamily::A, width_bits: 8, class: RegClass::Gpr })
    } else if name == "rbx"@ {
        Some(RegInfo { family: RegFamily::B, width_bits: 64, class: RegClass::Gpr })
    } else if name == "ebx"@ {
        Some(RegInfo { family: RegFamily::B, width_bits: 32, class: RegClass::Gpr })
    } else if name == "bx"@ {
        Some(RegInfo { family: RegFamily::B, width_bits: 16, class: RegClass::Gpr })
    } else if name == "bl"@ {
        Some(RegInfo { family: RegFamily::B, width_bits: 8, class: RegClass::Gpr })
    } else if name == "rcx"@ {
        Some(RegInfo { family: RegFamily::C, width_bits: 64, class: RegClass::Gpr })
    } else if name == "ecx"@ {
        Some(RegInfo { family: RegFamily::C, width_bits: 32, class: RegClass::Gpr })
    } else if name == "cx"@ {
        Some(RegInfo { family: RegFamily::C, width_bits: 16, class: RegClass::Gpr })
    } else if name == "cl"@ {
        Some(RegInfo { family: RegFamily::C, width_bits: 8, class: RegClass::Gpr })
    } else if name == "rdx"@ {
        Some(RegInfo { family: RegFamily::D, width_bits: 64, class: RegClass::Gpr })
    } else if name == "edx"@ {
        Some(RegInfo { family: RegFamily::D, width_bits: 32, class: RegClass::Gpr })
    } else if name == "dx"@ {
        Some(RegInfo { family: RegFamily::D, width_bits: 16, class: RegClass::Gpr })
    } else if name == "dl"@ {
        Some(RegInfo { family: RegFamily::D, width_bits: 8, class: RegClass::Gpr })
    } else if name == "rsi"@ {
        Some(RegInfo { family: RegFamily::Si, width_bits: 64, class: RegClass::Gpr })
    } else if name == "esi"@ {
        Some(RegInfo { family: RegFamily::Si, width_bits: 32, class: RegClass::Gpr })
    } else if name == "si"@ {
        Some(RegInfo { family: RegFamily::Si, width_bits: 16, class: RegClass::Gpr })
    } else if name == "sil"@ {
        Some(RegInfo { family: RegFamily::Si, width_bits: 8, class: RegClass::Gpr })
    } else if name == "rdi"@ {
        Some(RegInfo { family: RegFamily::Di, width_bits: 64, class: RegClass::Gpr })
    } else if name == "edi"@ {
        Some(RegInfo { family: RegFamily::Di, width_bits: 32, class: RegClass::Gpr })
    } else if name == "di"@ {
        Some(RegInfo { family: RegFamily::Di, width_bits: 16, class: RegClass::Gpr })
    } else if name == "dil"@ {
        Some(RegInfo { family: RegFamily::Di, width_bits: 8, class: RegClass::Gpr })
    } else if name == "rbp"@ {
        Some(RegInfo { family: RegFamily::Bp, width_bits: 64, class: RegClass::Gpr })
    } else if name == "ebp"@ {
        Some(RegInfo { family: RegFamily::Bp, width_bits: 32, class: RegClass::Gpr })
    } else if name == "bp"@ {
        Some(RegInfo { family: RegFamily::Bp, width_bits: 16, class: RegClass::Gpr })
    } else if name == "bpl"@ {
        Some(RegInfo { family: RegFamily::Bp, width_bits: 8, class: RegClass::Gpr })
    } else if name == "rsp"@ {
        Some(RegInfo { family: RegFamily::Sp, width_bits: 64, class: RegClass::Gpr })
    } else if name == "esp"@ {
        Some(RegInfo { family: RegFamily::Sp, width_bits: 32, class: RegClass::Gpr })
    } else if name == "sp"@ {
        Some(RegInfo { family: RegFamily::Sp, width_bits: 16, class: RegClass::Gpr })
    } else if name == "spl"@ {
        Some(RegInfo { family: RegFamily::Sp, width_bits: 8, class: RegClass::Gpr })
    } else if name == "r8"@ {
        Some(RegInfo { family: RegFamily::R(8), width_bits: 64, class: RegClass::Gpr })
    } else if name == "r8d"@ {
        Some(RegInfo { family: RegFamily::R(8), width_bits: 32, class: RegClass::Gpr })
    } else if name == "r8w"@ {
        Some(RegInfo { family: RegFamily::R(8), width_bits: 16, class: RegClass::Gpr })
    } else if name == "r8b"@ {
        Some(RegInfo { family: RegFamily::R(8), width_bits: 8, class: RegClass::Gpr })
    } else if name == "r9"@ {
        Some(RegInfo { family: RegFamily::R(9), width_bits: 64, class: RegClass::Gpr })
    } else if name == "r9d"@ {
        Some(RegInfo { family: RegFamily::R(9), width_bits: 32, class: RegClass::Gpr })
    } else if name == "r9w"@ {
        Some(RegInfo { family: RegFamily::R(9), width_bits: 16, class: RegClass::Gpr })
    } else if name == "r9b"@ {
        Some(RegInfo { family: RegFamily::R(9), width_bits: 8, class: RegClass::Gpr })
    } else if name == "r10"@ {
        Some(RegInfo { family: RegFamily::R(10), width_bits: 64, class: RegClass::Gpr })
    } else if name == "r10d"@ {
        Some(RegInfo { family: RegFamily::R(10), width_bits: 32, class: RegClass::Gpr })
    } else if name == "r10w"@ {
        Some(RegInfo { family: RegFamily::R(10), width_bits: 16, class: RegClass::Gpr })
    } else if name == "r10b"@ {
        Some(RegInfo { family: RegFamily::R(10), width_bits: 8, class: RegClass::Gpr })
    } else if name == "r11"@ {
        Some(RegInfo { family: RegFamily::R(11), width_bits: 64, class: RegClass::Gpr })
    } else if name == "r11d"@ {
        Some(RegInfo { family: RegFamily::R(11), width_bits: 32, class: RegClass::Gpr })
    } else if name == "r11w"@ {
        Some(RegInfo { family: RegFamily::R(11), width_bits: 16, class: RegClass::Gpr })
    } else if name == "r11b"@ {
        Some(RegInfo { family: RegFamily::R(11), width_bits: 8, class: RegClass::Gpr })
    } else if name == "r12"@ {
        Some(RegInfo { family: RegFamily::R(12), width_bits: 64, class: RegClass::Gpr })
    } else if name == "r12d"@ {
        Some(RegInfo { family: RegFamily::R(12), width_bits: 32, class: RegClass::Gpr })
    } else if name == "r12w"@ {
        Some(RegInfo { family: RegFamily::R(12), width_bits: 16, class: RegClass::Gpr })
    } else if name == "r12b"@ {
        Some(RegInfo { family: RegFamily::R(12), width_bits: 8, class: RegClass::Gpr })
    } else if name == "r13"@ {
        Some(RegInfo { family: RegFamily::R(13), width_bits: 64, class: RegClass::Gpr })
    } else if name == "r13d"@ {
        Some(RegInfo { family: RegFamily::R(13), width_bits: 32, class: RegClass::Gpr })
    } else if name == "r13w"@ {
        Some(RegInfo { family: RegFamily::R(13), width_bits: 16, class: RegClass::Gpr })
    } else if name == "r13b"@ {
        Some(RegInfo { family: RegFamily::R(13), width_bits: 8, class: RegClass::Gpr })
    } else if name == "r14"@ {
        Some(RegInfo { family: RegFamily::R(14), width_bits: 64, class: RegClass::Gpr })
    } else if name == "r14d"@ {
        Some(RegInfo { family: RegFamily::R(14), width_bits: 32, class: RegClass::Gpr })
    } else if name == "r14w"@ {
        Some(RegInfo { family: RegFamily::R(14), width_bits: 16, class: RegClass::Gpr })
    } else if name == "r14b"@ {
        Some(RegInfo { family: RegFamily::R(14), width_bits: 8, class: RegClass::Gpr })
    } else if name == "r15"@ {
        Some(RegInfo { family: RegFamily::R(15), width_bits: 64, class: RegClass::Gpr })
    } else if name == "r15d"@ {
        Some(RegInfo { family: RegFamily::R(15), width_bits: 32, class: RegClass::Gpr })
    } else if name == "r15w"@ {
        Some(RegInfo { family: RegFamily::R(15), width_bits: 16, class: RegClass::Gpr })
    } else if name == "r15b"@ {
        Some(RegInfo { family: RegFamily::R(15), width_bits: 8, class: RegClass::Gpr })
    } else if name == "xmm0"@ {
        Some(RegInfo { family: RegFamily::Xmm(0), width_bits: 128, class: RegClass::Sse })
    } else if name == "xmm1"@ {
        Some(RegInfo { family: RegFamily::Xmm(1), width_bits: 128, class: RegClass::Sse })
    } else if name == "xmm2"@ {
        Some(RegInfo { family: RegFamily::Xmm(2), width_bits: 128, class: RegClass::Sse })
    } else if name == "xmm3"@ {
        Some(RegInfo { family: RegFamily::Xmm(3), width_bits: 128, class: RegClass::Sse })
    } else if name == "xmm4"@ {
        Some(RegInfo { family: RegFamily::Xmm(4), width_bits: 128, class: RegClass::Sse })
    } else if name == "xmm5"@ {
        Some(RegInfo { family: RegFamily::Xmm(5), width_bits: 128, class: RegClass::Sse })
    } else if name == "xmm6"@ {
        Some(RegInfo { family: RegFamily::Xmm(6), width_bits: 128, class: RegClass::Sse })
    } else if name == "xmm7"@ {
        Some(RegInfo { family: RegFamily::Xmm(7), width_bits: 128, class: RegClass::Sse })
    } else if name == "xmm8"@ {
        Some(RegInfo { family: RegFamily::Xmm(8), width_bits: 128, class: RegClass::Sse })
    } else if name == "xmm9"@ {
        Some(RegInfo { family: RegFamily::Xmm(9), width_bits: 128, class: RegClass::Sse })
    } else if name == "xmm10"@ {
        Some(RegInfo { family: RegFamily::Xmm(10), width_bits: 128, class: RegClass::Sse })
    } else if name == "xmm11"@ {
        Some(RegInfo { family: RegFamily::Xmm(11), width_bits: 128, class: RegClass::Sse })
    } else if name == "xmm12"@ {
        Some(RegInfo { family: RegFamily::Xmm(12), width_bits: 128, class: RegClass::Sse })
    } else if name == "xmm13"@ {
        Some(RegInfo { family: RegFamily::Xmm(13), width_bits: 128, class: RegClass::Sse })
    } else if name == "xmm14"@ {
        Some(RegInfo { family: RegFamily::Xmm(14), width_bits: 128, class: RegClass::Sse })
    } else if name == "xmm15"@ {
        Some(RegInfo { family: RegFamily::Xmm(15), width_bits: 128, class: RegClass::Sse })
    } else {
        None
    }
}

/// The registers of 32-bit x86: no `r8` to `r15`, no low bytes of the index registers, no SSE.
pub open spec fn register_32(name: Seq<char>) -> Option<RegInfo> {
    if name == "eax"@ {
        Some(RegInfo { family: RegFamily::A, width_bits: 32, class: RegClass::Gpr })
    } else if name == "ax"@ {
        Some(RegInfo { family: RegFamily::A, width_bits: 16, class: RegClass::Gpr })
    } else if name == "al"@ {
        Some(RegInfo { family: RegFamily::A, width_bits: 8, class: RegClass::Gpr })
    } else if name == "ebx"@ {
        Some(RegInfo { family: RegFamily::B, width_bits: 32, class: RegClass::Gpr })
    } else if name == "bx"@ {
        Some(RegInfo { family: RegFamily::B, width_bits: 16, class: RegClass::Gpr })
    } else if name == "bl"@ {
        Some(RegInfo { family: RegFamily::B, width_bits: 8, class: RegClass::Gpr })
    } else if name == "ecx"@ {
        Some(RegInfo { family: RegFamily::C, width_bits: 32, class: RegClass::Gpr })
    } else if name == "cx"@ {
        Some(RegInfo { family: RegFamily::C, width_bits: 16, class: RegClass::Gpr })
    } else if name == "cl"@ {
        Some(RegInfo { family: RegFamily::C, width_bits: 8, class: RegClass::Gpr })
    } else if name == "edx"@ {
        Some(RegInfo { family: RegFamily::D, width_bits: 32, class: RegClass::Gpr })
    } else if name == "dx"@ {
        Some(RegInfo { family: RegFamily::D, width_bits: 16, class: RegClass::Gpr })
    } else if name == "dl"@ {
        Some(RegInfo { family: RegFamily::D, width_bits: 8, class: RegClass::Gpr })
    } else if name == "esi"@ {
        Some(RegInfo { family: RegFamily::Si, width_bits: 32, class: RegClass::Gpr })
    } else if name == "si"@ {
        Some(RegInfo { family: RegFamily::Si, width_bits: 16, class: RegClass::Gpr })
    } else if name == "edi"@ {
        Some(RegInfo { family: RegFamily::Di, width_bits: 32, class: RegClass::Gpr })
    } else if name == "di"@ {
        Some(RegInfo { family: RegFamily::Di, width_bits: 16, class: RegClass::Gpr })
    } else if name == "ebp"@ {
        Some(RegInfo { family: RegFamily::Bp, width_bits: 32, class: RegClass::Gpr })
    } else if name == "bp"@ {
        Some(RegInfo { family: RegFamily::Bp, width_bits: 16, class: RegClass::Gpr })
    } else if name == "esp"@ {
        Some(RegInfo { family: RegFamily::Sp, width_bits: 32, class: RegClass::Gpr })
    } else if name == "sp"@ {
        Some(RegInfo { family: RegFamily::Sp, width_bits: 16, class: RegClass::Gpr })
    } else {
        None
    }
}

fn find_64(name: &str) -> (r: Option<RegInfo>)
    ensures
        r == register_64(name@),
{
    if same(name, "rax") {
        Some(RegInfo { family: RegFamily::A, width_bits: 64, class: RegClass::Gpr })
    } else if same(name, "eax") {
        Some(RegInfo { family: RegFamily::A, width_bits: 32, class: RegClass::Gpr })
    } else if same(name, "ax") {
        Some(RegInfo { family: RegFamily::A, width_bits: 16, class: RegClass::Gpr })
    } else if same(name, "al") {
        Some(RegInfo { family: RegFamily::A, width_bits: 8, class: RegClass::Gpr })
    } else if same(name, "rbx") {
        Some(RegInfo { family: RegFamily::B, width_bits: 64, class: RegClass::Gpr })
    } else if same(name, "ebx") {
        Some(RegInfo { family: RegFamily::B, width_bits: 32, class: RegClass::Gpr })
    } else if same(name, "bx") {
        Some(RegInfo { family: RegFamily::B, width_bits: 16, class: RegClass::Gpr })
    } else if same(name, "bl") {
        Some(RegInfo { family: RegFamily::B, width_bits: 8, class: RegClass::Gpr })
    } else if same(name, "rcx") {
        Some(RegInfo { family: RegFamily::C, width_bits: 64, class: RegClass::Gpr })
    } else if same(name, "ecx") {
        Some(RegInfo { family: RegFamily::C, width_bits: 32, class: RegClass::Gpr })
    } else if same(name, "cx") {
        Some(RegInfo { family: RegFamily::C, width_bits: 16, class: RegClass::Gpr })
    } else if same(name, "cl") {
        Some(RegInfo { family: RegFamily::C, width_bits: 8, class: RegClass::Gpr })
    } else if same(name, "rdx") {
        Some(RegInfo { family: RegFamily::D, width_bits: 64, class: RegClass::Gpr })
    } else if same(name, "edx") {
        Some(RegInfo { family: RegFamily::D, width_bits: 32, class: RegClass::Gpr })
    } else if same(name, "dx") {
        Some(RegInfo { family: RegFamily::D, width_bits: 16, class: RegClass::Gpr })
    } else if same(name, "dl") {
        Some(RegInfo { family: RegFamily::D, width_bits: 8, class: RegClass::Gpr })
    } else if same(name, "rsi") {
        Some(RegInfo { family: RegFamily::Si, width_bits: 64, class: RegClass::Gpr })
    } else if same(name, "esi") {
        Some(RegInfo { family: RegFamily::Si, width_bits: 32, class: RegClass::Gpr })
    } else if same(name, "si") {
        Some(RegInfo { family: RegFamily::Si, width_bits: 16, class: RegClass::Gpr })
    } else if same(name, "sil") {
        Some(RegInfo { family: RegFamily::Si, width_bits: 8, class: RegClass::Gpr })
    } else if same(name, "rdi") {
        Some(RegInfo { family: RegFamily::Di, width_bits: 64, class: RegClass::Gpr })
    } else if same(name, "edi") {
        Some(RegInfo { family: RegFamily::Di, width_bits: 32, class: RegClass::Gpr })
    } else if same(name, "di") {
        Some(RegInfo { family: RegFamily::Di, width_bits: 16, class: RegClass::Gpr })
    } else if same(name, "dil") {
        Some(RegInfo { family: RegFamily::Di, width_bits: 8, class: RegClass::Gpr })
    } else if same(name, "rbp") {
        Some(RegInfo { family: RegFamily::Bp, width_bits: 64, class: RegClass::Gpr })
    } else if same(name, "ebp") {
        Some(RegInfo { family: RegFamily::Bp, width_bits: 32, class: RegClass::Gpr })
    } else if same(name, "bp") {
        Some(RegInfo { family: RegFamily::Bp, width_bits: 16, class: RegClass::Gpr })
    } else if same(name, "bpl") {
        Some(RegInfo { family: RegFamily::Bp, width_bits: 8, class: RegClass::Gpr })
    } else if same(name, "rsp") {
        Some(RegInfo { family: RegFamily::Sp, width_bits: 64, class: RegClass::Gpr })
    } else if same(name, "esp") {
        Some(RegInfo { family: RegFamily::Sp, width_bits: 32, class: RegClass::Gpr })
    } else if same(name, "sp") {
        Some(RegInfo { family: RegFamily::Sp, width_bits: 16, class: RegClass::Gpr })
    } else if same(name, "spl") {
        Some(RegInfo { family: RegFamily::Sp, width_bits: 8, class: RegClass::Gpr })
    } else if same(name, "r8") {
        Some(RegInfo { family: RegFamily::R(8), width_bits: 64, class: RegClass::Gpr })
    } else if same(name, "r8d") {
        Some(RegInfo { family: RegFamily::R(8), width_bits: 32, class: RegClass::Gpr })
    } else if same(name, "r8w") {
        Some(RegInfo { family: RegFamily::R(8), width_bits: 16, class: RegClass::Gpr })
    } else if same(name, "r8b") {
        Some(RegInfo { family: RegFamily::R(8), width_bits: 8, class: RegClass::Gpr })
    } else if same(name, "r9") {
        Some(RegInfo { family: RegFamily::R(9), width_bits: 64, class: RegClass::Gpr })
    } else if same(name, "r9d") {
        Some(RegInfo { family: RegFamily::R(9), width_bits: 32, class: RegClass::Gpr })
    } else if same(name, "r9w") {
        Some(RegInfo { family: RegFamily::R(9), width_bits: 16, class: RegClass::Gpr })
    } else if same(name, "r9b") {
        Some(RegInfo { family: RegFamily::R(9), width_bits: 8, class: RegClass::Gpr })
    } else if same(name, "r10") {
        Some(RegInfo { family: RegFamily::R(10), width_bits: 64, class: RegClass::Gpr })
    } else if same(name, "r10d") {
        Some(RegInfo { family: RegFamily::R(10), width_bits: 32, class: RegClass::Gpr })
    } else if same(name, "r10w") {
        Some(RegInfo { family: RegFamily::R(10), width_bits: 16, class: RegClass::Gpr })
    } else if same(name, "r10b") {
        Some(RegInfo { family: RegFamily::R(10), width_bits: 8, class: RegClass::Gpr })
    } else if same(name, "r11") {
        Some(RegInfo { family: RegFamily::R(11), width_bits: 64, class: RegClass::Gpr })
    } else if same(name, "r11d") {
        Some(RegInfo { family: RegFamily::R(11), width_bits: 32, class: RegClass::Gpr })
    } else if same(name, "r11w") {
        Some(RegInfo { family: RegFamily::R(11), width_bits: 16, class: RegClass::Gpr })
    } else if same(name, "r11b") {
        Some(RegInfo { family: RegFamily::R(11), width_bits: 8, class: RegClass::Gpr })
    } else if same(name, "r12") {
        Some(RegInfo { family: RegFamily::R(12), width_bits: 64, class: RegClass::Gpr })
    } else if same(name, "r12d") {
        Some(RegInfo { family: RegFamily::R(12), width_bits: 32, class: RegClass::Gpr })
    } else if same(name, "r12w") {
        Some(RegInfo { family: RegFamily::R(12), width_bits: 16, class: RegClass::Gpr })
    } else if same(name, "r12b") {
        Some(RegInfo { family: RegFamily::R(12), width_bits: 8, class: RegClass::Gpr })
    } else if same(name, "r13") {
        Some(RegInfo { family: RegFamily::R(13), width_bits: 64, class: RegClass::Gpr })
    } else if same(name, "r13d") {
        Some(RegInfo { family: RegFamily::R(13), width_bits: 32, class: RegClass::Gpr })
    } else if same(name, "r13w") {
        Some(RegInfo { family: RegFamily::R(13), width_bits: 16, class: RegClass::Gpr })
    } else if same(name, "r13b") {
        Some(RegInfo { family: RegFamily::R(13), width_bits: 8, class: RegClass::Gpr })
    } else if same(name, "r14") {
        Some(RegInfo { family: RegFamily::R(14), width_bits: 64, class: RegClass::Gpr })
    } else if same(name, "r14d") {
        Some(RegInfo { family: RegFamily::R(14), width_bits: 32, class: RegClass::Gpr })
    } else if same(name, "r14w") {
        Some(RegInfo { family: RegFamily::R(14), width_bits: 16, class: RegClass::Gpr })
    } else if same(name, "r14b") {
        Some(RegInfo { family: RegFamily::R(14), width_bits: 8, class: RegClass::Gpr })
    } else if same(name, "r15") {
        Some(RegInfo { family: RegFamily::R(15), width_bits: 64, class: RegClass::Gpr })
    } else if same(name, "r15d") {
        Some(RegInfo { family: RegFamily::R(15), width_bits: 32, class: RegClass::Gpr })
    } else if same(name, "r15w") {
        Some(RegInfo { family: RegFamily::R(15), width_bits: 16, class: RegClass::Gpr })
    } else if same(name, "r15b") {
        Some(RegInfo { family: RegFamily::R(15), width_bits: 8, class: RegClass::Gpr })
    } else if same(name, "xmm0") {
        Some(RegInfo { family: RegFamily::Xmm(0), width_bits: 128, class: RegClass::Sse })
    } else if same(name, "xmm1") {
        Some(RegInfo { family: RegFamily::Xmm(1), width_bits: 128, class: RegClass::Sse })
    } else if same(name, "xmm2") {
        Some(RegInfo { family: RegFamily::Xmm(2), width_bits: 128, class: RegClass::Sse })
    } else if same(name, "xmm3") {
        Some(RegInfo { family: RegFamily::Xmm(3), width_bits: 128, class: RegClass::Sse })
    } else if same(name, "xmm4") {
        Some(RegInfo { family: RegFamily::Xmm(4), width_bits: 128, class: RegClass::Sse })
    } else if same(name, "xmm5") {
        Some(RegInfo { family: RegFamily::Xmm(5), width_bits: 128, class: RegClass::Sse })
    } else if same(name, "xmm6") {
        Some(RegInfo { family: RegFamily::Xmm(6), width_bits: 128, class: RegClass::Sse })
    } else if same(name, "xmm7") {
        Some(RegInfo { family: RegFamily::Xmm(7), width_bits: 128, class: RegClass::Sse })
    } else if same(name, "xmm8") {
        Some(RegInfo { family: RegFamily::Xmm(8), width_bits: 128, class: RegClass::Sse })
    } else if same(name, "xmm9") {
        Some(RegInfo { family: RegFamily::Xmm(9), width_bits: 128, class: RegClass::Sse })
    } else if same(name, "xmm10") {
        Some(RegInfo { family: RegFamily::Xmm(10), width_bits: 128, class: RegClass::Sse })
    } else if same(name, "xmm11") {
        Some(RegInfo { family: RegFamily::Xmm(11), width_bits: 128, class: RegClass::Sse })
    } else if same(name, "xmm12") {
        Some(RegInfo { family: RegFamily::Xmm(12), width_bits: 128, class: RegClass::Sse })
    } else if same(name, "xmm13") {
        Some(RegInfo { family: RegFamily::Xmm(13), width_bits: 128, class: RegClass::Sse })
    } else if same(name, "xmm14") {
        Some(RegInfo { family: RegFamily::Xmm(14), width_bits: 128, class: RegClass::Sse })
    } else if same(name, "xmm15") {
        Some(RegInfo { family: RegFamily::Xmm(15), width_bits: 128, class: RegClass::Sse })
    } else {
        None
    }
}

fn find_32(name: &str) -> (r: Option<RegInfo>)
    ensures
        r == register_32(name@),
{
    if same(name, "eax") {
        Some(RegInfo { family: RegFamily::A, width_bits: 32, class: RegClass::Gpr })
    } else if same(name, "ax") {
        Some(RegInfo { family: RegFamily::A, width_bits: 16, class: RegClass::Gpr })
    } else if same(name, "al") {
        Some(RegInfo { family: RegFamily::A, width_bits: 8, class: RegClass::Gpr })
    } else if same(name, "ebx") {
        Some(RegInfo { family: RegFamily::B, width_bits: 32, class: RegClass::Gpr })
    } else if same(name, "bx") {
        Some(RegInfo { family: RegFamily::B, width_bits: 16, class: RegClass::Gpr })
    } else if same(name, "bl") {
        Some(RegInfo { family: RegFamily::B, width_bits: 8, class: RegClass::Gpr })
    } else if same(name, "ecx") {
        Some(RegInfo { family: RegFamily::C, width_bits: 32, class: RegClass::Gpr })
    } else if same(name, "cx") {
        Some(RegInfo { family: RegFamily::C, width_bits: 16, class: RegClass::Gpr })
    } else if same(name, "cl") {
        Some(RegInfo { family: RegFamily::C, width_bits: 8, class: RegClass::Gpr })
    } else if same(name, "edx") {
        Some(RegInfo { family: RegFamily::D, width_bits: 32, class: RegClass::Gpr })
    } else if same(name, "dx") {
        Some(RegInfo { family: RegFamily::D, width_bits: 16, class: RegClass::Gpr })
    } else if same(name, "dl") {
        Some(RegInfo { family: RegFamily::D, width_bits: 8, class: RegClass::Gpr })
    } else if same(name, "esi") {
        Some(RegInfo { family: RegFamily::Si, width_bits: 32, class: RegClass::Gpr })
    } else if same(name, "si") {
        Some(RegInfo { family: RegFamily::Si, width_bits: 16, class: RegClass::Gpr })
    } else if same(name, "edi") {
        Some(RegInfo { family: RegFamily::Di, width_bits: 32, class: RegClass::Gpr })
    } else if same(name, "di") {
        Some(RegInfo { family: RegFamily::Di, width_bits: 16, class: RegClass::Gpr })
    } else if same(name, "ebp") {
        Some(RegInfo { family: RegFamily::Bp, width_bits: 32, class: RegClass::Gpr })
    } else if same(name, "bp") {
        Some(RegInfo { family: RegFamily::Bp, width_bits: 16, class: RegClass::Gpr })
    } else if same(name, "esp") {
        Some(RegInfo { family: RegFamily::Sp, width_bits: 32, class: RegClass::Gpr })
    } else if same(name, "sp") {
        Some(RegInfo { family: RegFamily::Sp, width_bits: 16, class: RegClass::Gpr })
    } else {
        None
    }
}

/// What `name` names on the architecture `arch`.
#[verifier::opaque]
pub open spec fn register(arch: Seq<char>, name: Seq<char>) -> Option<RegInfo> {
    if arch == "ARCH_X86_64"@ {
        register_64(name)
    } else if arch == "ARCH_I386"@ {
        register_32(name)
    } else {
        None
    }
}

/// What `name` names on the architecture `arch`.
pub fn lookup_register(arch: &str, name: &str) -> (r: Option<RegInfo>)
    ensures
        r == register(arch@, name@),
{
    proof {
        reveal(register);
    }
    if same(arch, "ARCH_X86_64") {
        find_64(name)
    } else if same(arch, "ARCH_I386") {
        find_32(name)
    } else {
        None
    }
}

/// The stack and frame pointers, which code generation depends on throughout.
#[verifier::allow_in_spec]
pub fn is_reserved_family(family: RegFamily) -> bool
    returns
        family == RegFamily::Sp || family == RegFamily::Bp,
{
    family == RegFamily::Sp || family == RegFamily::Bp
}

/// The width of a pointer on the architecture `arch`.
pub open spec fn pointer_bits(arch: Seq<char>) -> u32 {
    if arch == "ARCH_I386"@ {
        32
    } else {
        64
    }
}

/// The width of a pointer on the architecture `arch`.
pub fn pointer_width_bits(arch: &str) -> (r: u32)
    ensures
        r == pointer_bits(arch@),
{
    if same(arch, "ARCH_I386") {
        32
    } else {
        64
    }
}

/// The number that the digits of a name from `at` up to `end` spell.
pub open spec fn number_in(name: Seq<char>, at: int, end: int) -> int {
    if end == at + 1 {
        name[at] as int - '0' as int
    } else {
        10 * (name[at] as int - '0' as int) + (name[at + 1] as int - '0' as int)
    }
}

pub open spec fn is_digit_at(name: Seq<char>, at: int) -> bool {
    at < name.len() && '0' <= name[at] <= '9'
}

/// Where the digits of a name that begin at `at` end.
pub open spec fn digits_end(name: Seq<char>, at: int) -> int {
    if is_digit_at(name, at + 1) {
        at + 2
    } else {
        at + 1
    }
}

/// The bits that a name spells: `xmm` registers are the widest; `r` before
/// letters and a bare numbered register have 64, `e` and the suffix `d` 32, the
/// suffix `b` and a last `l` 8, and what is left has 16.
pub open spec fn spelled_bits(name: Seq<char>) -> int {
    if name[0] == 'x' {
        128
    } else if name[0] == 'r' && is_digit_at(name, 1) {
        if name.last() == 'd' {
            32
        } else if name.last() == 'w' {
            16
        } else if name.last() == 'b' {
            8
        } else {
            64
        }
    } else if name[0] == 'r' {
        64
    } else if name[0] == 'e' {
        32
    } else if name.last() == 'l' {
        8
    } else {
        16
    }
}

/// Where the letters of a register begin, behind what tells its width.
pub open spec fn core_of(name: Seq<char>) -> int {
    if name[0] == 'r' || name[0] == 'e' {
        1
    } else {
        0
    }
}

/// The register that a name spells.
pub open spec fn spelled_family(name: Seq<char>) -> RegFamily {
    let at = core_of(name);
    if name[0] == 'x' {
        RegFamily::Xmm(number_in(name, 3, name.len() as int) as u8)
    } else if name[0] == 'r' && is_digit_at(name, 1) {
        RegFamily::R(number_in(name, 1, digits_end(name, 1)) as u8)
    } else if name[at] == 'a' {
        RegFamily::A
    } else if name[at] == 'c' {
        RegFamily::C
    } else if name[at] == 'b' {
        if name[at + 1] == 'p' {
            RegFamily::Bp
        } else {
            RegFamily::B
        }
    } else if name[at] == 'd' {
        if name[at + 1] == 'i' {
            RegFamily::Di
        } else {
            RegFamily::D
        }
    } else if name[at + 1] == 'i' {
        RegFamily::Si
    } else {
        RegFamily::Sp
    }
}

/// A register is what its name spells: its width, its family and its bank.
#[verifier::rlimit(60)]
pub proof fn law_names_spell_their_register(name: Seq<char>)
    ensures
        register_64(name) matches Some(info) ==> info.width_bits == spelled_bits(name)
            && info.family == spelled_family(name) && (info.class == RegClass::Sse <==> name[0]
            == 'x'),
        register_32(name) matches Some(info) ==> info.width_bits == spelled_bits(name)
            && info.family == spelled_family(name) && (info.class == RegClass::Sse <==> name[0]
            == 'x'),
{
    reveal_strlit("rax");
    reveal_strlit("eax");
    reveal_strlit("ax");
    reveal_strlit("al");
    reveal_strlit("rbx");
    reveal_strlit("ebx");
    reveal_strlit("bx");
    reveal_strlit("bl");
    reveal_strlit("rcx");
    reveal_strlit("ecx");
    reveal_strlit("cx");
    reveal_strlit("cl");
    reveal_strlit("rdx");
    reveal_strlit("edx");
    reveal_strlit("dx");
    reveal_strlit("dl");
    reveal_strlit("rsi");
    reveal_strlit("esi");
    reveal_strlit("si");
    reveal_strlit("sil");
    reveal_strlit("rdi");
    reveal_strlit("edi");
    reveal_strlit("di");
    reveal_strlit("dil");
    reveal_strlit("rbp");
    reveal_strlit("ebp");
    reveal_strlit("bp");
    reveal_strlit("bpl");
    reveal_strlit("rsp");
    reveal_strlit("esp");
    reveal_strlit("sp");
    reveal_strlit("spl");
    reveal_strlit("r8");
    reveal_strlit("r8d");
    reveal_strlit("r8w");
    reveal_strlit("r8b");
    reveal_strlit("r9");
    reveal_strlit("r9d");
    reveal_strlit("r9w");
    reveal_strlit("r9b");
    reveal_strlit("r10");
    reveal_strlit("r10d");
    reveal_strlit("r10w");
    reveal_strlit("r10b");
    reveal_strlit("r11");
    reveal_strlit("r11d");
    reveal_strlit("r11w");
    reveal_strlit("r11b");
    reveal_strlit("r12");
    reveal_strlit("r12d");
    reveal_strlit("r12w");
    reveal_strlit("r12b");
    reveal_strlit("r13");
    reveal_strlit("r13d");
    reveal_strlit("r13w");
    reveal_strlit("r13b");
    reveal_strlit("r14");
    reveal_strlit("r14d");
    reveal_strlit("r14w");
    reveal_strlit("r14b");
    reveal_strlit("r15");
    reveal_strlit("r15d");
    reveal_strlit("r15w");
    reveal_strlit("r15b");
    reveal_strlit("xmm0");
    reveal_strlit("xmm1");
    reveal_strlit("xmm2");
    reveal_strlit("xmm3");
    reveal_strlit("xmm4");
    reveal_strlit("xmm5");
    reveal_strlit("xmm6");
    reveal_strlit("xmm7");
    reveal_strlit("xmm8");
    reveal_strlit("xmm9");
    reveal_strlit("xmm10");
    reveal_strlit("xmm11");
    reveal_strlit("xmm12");
    reveal_strlit("xmm13");
    reveal_strlit("xmm14");
    reveal_strlit("xmm15");
}

/// Every register of 32-bit x86 is one of x86-64, and those of x86-64 that fit
/// are registers of it.
proof fn lemma_older_registers(name: Seq<char>)
    ensures
        register_32(name) is Some ==> register_64(name) is Some,
        (register_64(name) matches Some(info) && info.width_bits <= 32 && info.class
            == RegClass::Gpr && !(info.family is R) && (info.width_bits == 8 ==> info.family
            == RegFamily::A || info.family == RegFamily::B || info.family == RegFamily::C
            || info.family == RegFamily::D)) ==> register_32(name) is Some,
        register_32(name) matches Some(info) ==> info.width_bits <= 32 && info.class
            == RegClass::Gpr && !(info.family is R) && (info.width_bits == 8 ==> info.family
            == RegFamily::A || info.family == RegFamily::B || info.family == RegFamily::C
            || info.family == RegFamily::D),
{
}

/// The registers of 32-bit x86 are those of x86-64 that are no wider than 32
/// bits, not numbered, and not a low byte of an index register.
pub proof fn law_the_older_registers_are_kept(name: Seq<char>)
    ensures
        register_32(name) is Some ==> register_32(name) == register_64(name),
        register_32(name) is Some <==> (register_64(name) matches Some(info) && info.width_bits
            <= 32 && info.class == RegClass::Gpr && !(info.family is R) && (info.width_bits == 8
            ==> info.family == RegFamily::A || info.family == RegFamily::B || info.family
            == RegFamily::C || info.family == RegFamily::D)),
{
    lemma_older_registers(name);
    law_names_spell_their_register(name);
}

/// Which names are registers: letters at each width, and numbers up to 15.
pub proof fn law_which_names_are_registers(name: Seq<char>)
    ensures
        name == "rax"@ || name == "eax"@ || name == "ax"@ || name == "al"@ ==> register_64(name)
            is Some,
        name == "rbx"@ || name == "ebx"@ || name == "bx"@ || name == "bl"@ ==> register_64(name)
            is Some,
        name == "rcx"@ || name == "ecx"@ || name == "cx"@ || name == "cl"@ ==> register_64(name)
            is Some,
        name == "rdx"@ || name == "edx"@ || name == "dx"@ || name == "dl"@ ==> register_64(name)
            is Some,
        name == "rsi"@ || name == "esi"@ || name == "si"@ || name == "sil"@ ==> register_64(name)
            is Some,
        name == "rdi"@ || name == "edi"@ || name == "di"@ || name == "dil"@ ==> register_64(name)
            is Some,
        name == "rbp"@ || name == "ebp"@ || name == "bp"@ || name == "bpl"@ ==> register_64(name)
            is Some,
        name == "rsp"@ || name == "esp"@ || name == "sp"@ || name == "spl"@ ==> register_64(name)
            is Some,
        name == "r8"@ || name == "r8d"@ || name == "r8w"@ || name == "r8b"@ ==> register_64(name)
            is Some,
        name == "r9"@ || name == "r9d"@ || name == "r9w"@ || name == "r9b"@ ==> register_64(name)
            is Some,
        name == "r10"@ || name == "r10d"@ || name == "r10w"@ || name == "r10b"@ ==> register_64(name)
            is Some,
        name == "r11"@ || name == "r11d"@ || name == "r11w"@ || name == "r11b"@ ==> register_64(name)
            is Some,
        name == "r12"@ || name == "r12d"@ || name == "r12w"@ || name == "r12b"@ ==> register_64(name)
            is Some,
        name == "r13"@ || name == "r13d"@ || name == "r13w"@ || name == "r13b"@ ==> register_64(name)
            is Some,
        name == "r14"@ || name == "r14d"@ || name == "r14w"@ || name == "r14b"@ ==> register_64(name)
            is Some,
        name == "r15"@ || name == "r15d"@ || name == "r15w"@ || name == "r15b"@ ==> register_64(name)
            is Some,
        name == "xmm0"@ || name == "xmm1"@ || name == "xmm2"@ || name == "xmm3"@ ==> register_64(name)
            is Some,
        name == "xmm4"@ || name == "xmm5"@ || name == "xmm6"@ || name == "xmm7"@ ==> register_64(name)
            is Some,
        name == "xmm8"@ || name == "xmm9"@ || name == "xmm10"@ || name == "xmm11"@ ==> register_64(name)
            is Some,
        name == "xmm12"@ || name == "xmm13"@ || name == "xmm14"@ || name == "xmm15"@ ==> register_64(name)
            is Some,
{
}

/// The width of an address is that of the widest general register.
pub proof fn law_addresses_fill_a_register(arch: Seq<char>, name: Seq<char>)
    requires
        arch == "ARCH_X86_64"@ || arch == "ARCH_I386"@,
        register(arch, name) is Some,
        register(arch, name)->0.class == RegClass::Gpr,
    ensures
        register(arch, name)->0.width_bits <= pointer_bits(arch),
        arch == "ARCH_X86_64"@ && name == "rax"@ ==> register(arch, name)->0.width_bits
            == pointer_bits(arch),
        arch == "ARCH_I386"@ && name == "eax"@ ==> register(arch, name)->0.width_bits
            == pointer_bits(arch),
{
    reveal(register);
    reveal_strlit("ARCH_X86_64");
    reveal_strlit("ARCH_I386");
    reveal_strlit("rax");
    reveal_strlit("eax");
    assert("ARCH_X86_64"@.len() != "ARCH_I386"@.len());
    law_the_older_registers_are_kept(name);
    law_names_spell_their_register(name);
}

} // verus!
