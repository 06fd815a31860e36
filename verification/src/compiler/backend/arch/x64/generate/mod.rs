pub mod at_and_t;
pub mod intel;

use vstd::prelude::*;

verus! {

/// The general-purpose registers of x86_64.
pub enum Registers {
    RAX,
    RCX,
    RDX,
    RBX,
    RSP,
    RBP,
    RSI,
    RDI,
    R8,
    R9,
    R10,
    R11,
    R12,
    R13,
    R14,
    R15,
}

/// The register that allocation number `num` stands for; numbers past the
/// usable registers fall back to `rdi`.
pub open spec fn ir_register(num: usize) -> Registers {
    if num == 0 {
        Registers::RDI
    } else if num == 1 {
        Registers::RSI
    } else if num == 2 {
        Registers::RDX
    } else if num == 3 {
        Registers::RCX
    } else if num == 4 {
        Registers::R8
    } else if num == 5 {
        Registers::R9
    } else if num == 6 {
        Registers::R10
    } else if num == 7 {
        Registers::R11
    } else if num == 8 {
        Registers::R12
    } else if num == 9 {
        Registers::R13
    } else if num == 10 {
        Registers::R14
    } else if num == 11 {
        Registers::R15
    } else if num == 12 {
        Registers::RAX
    } else if num == 13 {
        Registers::RBX
    } else {
        Registers::RDI
    }
}

/// The register with hardware number `num`; numbers past 15 fall back to `rax`.
pub open spec fn hw_register(num: usize) -> Registers {
    if num == 0 {
        Registers::RAX
    } else if num == 1 {
        Registers::RCX
    } else if num == 2 {
        Registers::RDX
    } else if num == 3 {
        Registers::RBX
    } else if num == 4 {
        Registers::RSP
    } else if num == 5 {
        Registers::RBP
    } else if num == 6 {
        Registers::RSI
    } else if num == 7 {
        Registers::RDI
    } else if num == 8 {
        Registers::R8
    } else if num == 9 {
        Registers::R9
    } else if num == 10 {
        Registers::R10
    } else if num == 11 {
        Registers::R11
    } else if num == 12 {
        Registers::R12
    } else if num == 13 {
        Registers::R13
    } else if num == 14 {
        Registers::R14
    } else if num == 15 {
        Registers::R15
    } else {
        Registers::RAX
    }
}

/// The register that passes argument `num` under the System V calling
/// convention; numbers past the sixth fall back to `rdi`.
pub open spec fn arg_register(num: usize) -> Registers {
    if num == 0 {
        Registers::RDI
    } else if num == 1 {
        Registers::RSI
    } else if num == 2 {
        Registers::RDX
    } else if num == 3 {
        Registers::RCX
    } else if num == 4 {
        Registers::R8
    } else if num == 5 {
        Registers::R9
    } else {
        Registers::RDI
    }
}

/// The register's name in assembly.
pub open spec fn register_text(r: Registers) -> Seq<char> {
    match r {
        Registers::RAX => "rax"@,
        Registers::RCX => "rcx"@,
        Registers::RDX => "rdx"@,
        Registers::RBX => "rbx"@,
        Registers::RSP => "rsp"@,
        Registers::RBP => "rbp"@,
        Registers::RSI => "rsi"@,
        Registers::RDI => "rdi"@,
        Registers::R8 => "r8"@,
        Registers::R9 => "r9"@,
        Registers::R10 => "r10"@,
        Registers::R11 => "r11"@,
        Registers::R12 => "r12"@,
        Registers::R13 => "r13"@,
        Registers::R14 => "r14"@,
        Registers::R15 => "r15"@,
    }
}

/// The name of the register that allocation number `num` stands for.
pub open spec fn ir_reg_text(num: usize) -> Seq<char> {
    register_text(ir_register(num))
}

impl Registers {
    /// The register that allocation number `num` stands for (see `ir_register`).
    pub fn from_number_ir(num: usize) -> (r: Self)
        ensures
            r == ir_register(num),
    {
        match num {
            0 => Self::RDI,
            1 => Self::RSI,
            2 => Self::RDX,
            3 => Self::RCX,
            4 => Self::R8,
            5 => Self::R9,
            6 => Self::R10,
            7 => Self::R11,
            8 => Self::R12,
            9 => Self::R13,
            10 => Self::R14,
            11 => Self::R15,
            12 => Self::RAX,
            13 => Self::RBX,
            _ => Self::RDI,
        }
    }

    /// The register with hardware number `num` (see `hw_register`).
    pub fn from_number(num: usize) -> (r: Self)
        ensures
            r == hw_register(num),
    {
        match num {
            0 => Self::RAX,
            1 => Self::RCX,
            2 => Self::RDX,
            3 => Self::RBX,
            4 => Self::RSP,
            5 => Self::RBP,
            6 => Self::RSI,
            7 => Self::RDI,
            8 => Self::R8,
            9 => Self::R9,
            10 => Self::R10,
            11 => Self::R11,
            12 => Self::R12,
            13 => Self::R13,
            14 => Self::R14,
            15 => Self::R15,
            _ => Self::RAX,
        }
    }

    /// The register that passes argument `num` (see `arg_register`).
    pub fn from_arg_number(num: usize) -> (r: Self)
        ensures
            r == arg_register(num),
    {
        match num {
            0 => Self::RDI,
            1 => Self::RSI,
            2 => Self::RDX,
            3 => Self::RCX,
            4 => Self::R8,
            5 => Self::R9,
            _ => Self::RDI,
        }
    }

    /// The register's name in assembly.
    pub fn to_string(&self) -> (s: String)
        ensures
            s@ == register_text(*self),
    {
        let name = match self {
            Self::RAX => "rax",
            Self::RCX => "rcx",
            Self::RDX => "rdx",
            Self::RBX => "rbx",
            Self::RSP => "rsp",
            Self::RBP => "rbp",
            Self::RSI => "rsi",
            Self::RDI => "rdi",
            Self::R8 => "r8",
            Self::R9 => "r9",
            Self::R10 => "r10",
            Self::R11 => "r11",
            Self::R12 => "r12",
            Self::R13 => "r13",
            Self::R14 => "r14",
            Self::R15 => "r15",
        };
        name.to_string()
    }
}

} // verus!
