//! MIPS register names, their numbers, and the registers that carry the
//! arguments of the synchronous backdoor and of O32 function calls.
use vstd::prelude::*;

verus! {

/// Registers of the MIPS instruction set.
#[derive(Clone, Copy, Debug, PartialEq, Eq, Structural)]
pub enum Regs {
    R0,
    At,
    V0,
    V1,
    A0,
    A1,
    A2,
    A3,
    T0,
    T1,
    T2,
    T3,
    T4,
    T5,
    T6,
    T7,
    S0,
    S1,
    S2,
    S3,
    S4,
    S5,
    S6,
    S7,
    T8,
    T9,
    K0,
    K1,
    Gp,
    Sp,
    Fp,
    Ra,
    Pc,
}

/// The number the emulator gives a register: 0 to 31 in order, and 37 for
/// the program counter.
pub open spec fn reg_number(r: Regs) -> i32 {
    match r {
        Regs::R0 => 0,
        Regs::At => 1,
        Regs::V0 => 2,
        Regs::V1 => 3,
        Regs::A0 => 4,
        Regs::A1 => 5,
        Regs::A2 => 6,
        Regs::A3 => 7,
        Regs::T0 => 8,
        Regs::T1 => 9,
        Regs::T2 => 10,
        Regs::T3 => 11,
        Regs::T4 => 12,
        Regs::T5 => 13,
        Regs::T6 => 14,
        Regs::T7 => 15,
        Regs::S0 => 16,
        Regs::S1 => 17,
        Regs::S2 => 18,
        Regs::S3 => 19,
        Regs::S4 => 20,
        Regs::S5 => 21,
        Regs::S6 => 22,
        Regs::S7 => 23,
        Regs::T8 => 24,
        Regs::T9 => 25,
        Regs::K0 => 26,
        Regs::K1 => 27,
        Regs::Gp => 28,
        Regs::Sp => 29,
        Regs::Fp => 30,
        Regs::Ra => 31,
        Regs::Pc => 37,
    }
}

impl Regs {
    /// The register's number.
    pub fn number(self) -> (r: i32)
        ensures
            r == reg_number(self),
    {
        match self {
            Regs::R0 => 0,
            Regs::At => 1,
            Regs::V0 => 2,
            Regs::V1 => 3,
            Regs::A0 => 4,
            Regs::A1 => 5,
            Regs::A2 => 6,
            Regs::A3 => 7,
            Regs::T0 => 8,
            Regs::T1 => 9,
            Regs::T2 => 10,
            Regs::T3 => 11,
            Regs::T4 => 12,
            Regs::T5 => 13,
            Regs::T6 => 14,
            Regs::T7 => 15,
            Regs::S0 => 16,
            Regs::S1 => 17,
            Regs::S2 => 18,
            Regs::S3 => 19,
            Regs::S4 => 20,
            Regs::S5 => 21,
            Regs::S6 => 22,
            Regs::S7 => 23,
            Regs::T8 => 24,
            Regs::T9 => 25,
            Regs::K0 => 26,
            Regs::K1 => 27,
            Regs::Gp => 28,
            Regs::Sp => 29,
            Regs::Fp => 30,
            Regs::Ra => 31,
            Regs::Pc => 37,
        }
    }

    /// The register with number `n`, if there is one.
    pub fn from_number(n: i32) -> (r: Option<Regs>)
        ensures
            r.is_some() ==> reg_number(r.unwrap()) == n,
            r.is_none() ==> forall|g: Regs| reg_number(g) != n,
    {
        let all: [Regs; 33] = [
            Regs::R0, Regs::At, Regs::V0, Regs::V1, Regs::A0, Regs::A1, Regs::A2, Regs::A3, Regs::T0, Regs::T1,
            Regs::T2, Regs::T3, Regs::T4, Regs::T5, Regs::T6, Regs::T7, Regs::S0, Regs::S1, Regs::S2, Regs::S3,
            Regs::S4, Regs::S5, Regs::S6, Regs::S7, Regs::T8, Regs::T9, Regs::K0, Regs::K1, Regs::Gp, Regs::Sp,
            Regs::Fp, Regs::Ra, Regs::Pc,
        ];
        let mut i: usize = 0;
        while i < 33
            invariant
                i <= 33,
                all@.len() == 33,
                forall|j: int| 0 <= j < 33 ==> reg_number(#[trigger] all@[j]) == if j < 32 { j as i32 } else { 37i32 },
                forall|j: int| 0 <= j < i ==> reg_number(#[trigger] all@[j]) != n,
            decreases 33 - i,
        {
            if all[i].number() == n {
                return Some(all[i]);
            }
            i = i + 1;
        }
        proof {
            assert forall|g: Regs| reg_number(g) != n by {
                let k = reg_number(g);
                let j: int = if k == 37 { 32 } else { k as int };
                assert(reg_number(all@[j]) == k);
            }
        }
        None
    }
}

/// The arguments of the synchronous backdoor.
#[derive(Clone, Copy, Debug, PartialEq, Eq, Structural)]
pub enum ExitArgs {
    Ret,
    Cmd,
    Arg1,
    Arg2,
    Arg3,
    Arg4,
    Arg5,
    Arg6,
}

/// The register that carries each backdoor argument.
pub fn exit_arch_reg(arg: ExitArgs) -> (r: Regs)
    ensures
        r == match arg {
            ExitArgs::Ret => Regs::V0,
            ExitArgs::Cmd => Regs::V0,
            ExitArgs::Arg1 => Regs::A0,
            ExitArgs::Arg2 => Regs::A1,
            ExitArgs::Arg3 => Regs::A2,
            ExitArgs::Arg4 => Regs::A3,
            ExitArgs::Arg5 => Regs::T0,
            ExitArgs::Arg6 => Regs::T1,
        },
{
    match arg {
        ExitArgs::Ret => Regs::V0,
        ExitArgs::Cmd => Regs::V0,
        ExitArgs::Arg1 => Regs::A0,
        ExitArgs::Arg2 => Regs::A1,
        ExitArgs::Arg3 => Regs::A2,
        ExitArgs::Arg4 => Regs::A3,
        ExitArgs::Arg5 => Regs::T0,
        ExitArgs::Arg6 => Regs::T1,
    }
}

/// The registers of all backdoor arguments, in the order of `ExitArgs`.
pub fn get_exit_arch_regs() -> (r: [Regs; 8])
    ensures
        r@ == seq![Regs::V0, Regs::V0, Regs::A0, Regs::A1, Regs::A2, Regs::A3, Regs::T0, Regs::T1],
{
    let r = [
        exit_arch_reg(ExitArgs::Ret),
        exit_arch_reg(ExitArgs::Cmd),
        exit_arch_reg(ExitArgs::Arg1),
        exit_arch_reg(ExitArgs::Arg2),
        exit_arch_reg(ExitArgs::Arg3),
        exit_arch_reg(ExitArgs::Arg4),
        exit_arch_reg(ExitArgs::Arg5),
        exit_arch_reg(ExitArgs::Arg6),
    ];
    assert(r@ =~= seq![Regs::V0, Regs::V0, Regs::A0, Regs::A1, Regs::A2, Regs::A3, Regs::T0, Regs::T1]);
    r
}

/// The register of the `idx`-th argument of an O32 call: `a0` to `a3`; the
/// later ones live on the stack, which is not supported.
pub fn function_argument_reg(idx: u8) -> (r: Option<Regs>)
    ensures
        idx == 0 ==> r == Some(Regs::A0),
        idx == 1 ==> r == Some(Regs::A1),
        idx == 2 ==> r == Some(Regs::A2),
        idx == 3 ==> r == Some(Regs::A3),
        idx > 3 ==> r.is_none(),
{
    match idx {
        0 => Some(Regs::A0),
        1 => Some(Regs::A1),
        2 => Some(Regs::A2),
        3 => Some(Regs::A3),
        _ => None,
    }
}

} // verus!
