use fuzzcore::mips::{exit_arch_reg, function_argument_reg, get_exit_arch_regs, ExitArgs, Regs};

#[test]
fn register_numbers() {
    assert_eq!(Regs::R0.number(), 0);
    assert_eq!(Regs::A0.number(), 4);
    assert_eq!(Regs::Ra.number(), 31);
    assert_eq!(Regs::Pc.number(), 37);
    for n in 0..32 {
        assert_eq!(Regs::from_number(n).unwrap().number(), n);
    }
    assert_eq!(Regs::from_number(37), Some(Regs::Pc));
    assert_eq!(Regs::from_number(32), None);
    assert_eq!(Regs::from_number(-1), None);
}

#[test]
fn backdoor_argument_registers() {
    assert_eq!(exit_arch_reg(ExitArgs::Ret), Regs::V0);
    assert_eq!(exit_arch_reg(ExitArgs::Cmd), Regs::V0);
    assert_eq!(exit_arch_reg(ExitArgs::Arg1), Regs::A0);
    assert_eq!(exit_arch_reg(ExitArgs::Arg6), Regs::T1);
}

#[test]
fn call_argument_registers() {
    assert_eq!(function_argument_reg(0), Some(Regs::A0));
    assert_eq!(function_argument_reg(3), Some(Regs::A3));
    assert_eq!(function_argument_reg(4), None);
}

#[test]
fn exit_register_table() {
    let t = get_exit_arch_regs();
    assert_eq!(t[0], Regs::V0);
    assert_eq!(t[2], Regs::A0);
    assert_eq!(t[7], Regs::T1);
}
