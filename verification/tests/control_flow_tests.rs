use cubevm::Instruction::{
    Add, Brequ, Brgrt, Brnch, Brone, Brzer, Cncat, LdReg, Pop, PushB, PushN, PushS, Retrn, SCall,
    StReg, StVar, TermP, ToNum,
};
use cubevm::{ExecEnd, NumOp, NumReply, StackValue, VmEngine, VmError};

fn host(op: NumOp) -> NumReply {
    match op {
        NumOp::Add(a, b) => NumReply::Num((f64::from_bits(a) + f64::from_bits(b)).to_bits()),
        NumOp::Sub(a, b) => NumReply::Num((f64::from_bits(a) - f64::from_bits(b)).to_bits()),
        NumOp::Mul(a, b) => NumReply::Num((f64::from_bits(a) * f64::from_bits(b)).to_bits()),
        NumOp::Div(a, b) => NumReply::Num((f64::from_bits(a) / f64::from_bits(b)).to_bits()),
        NumOp::Equal(a, b) => NumReply::Flag(f64::from_bits(a) == f64::from_bits(b)),
        NumOp::Less(a, b) => NumReply::Flag(f64::from_bits(a) < f64::from_bits(b)),
        NumOp::Greater(a, b) => NumReply::Flag(f64::from_bits(a) > f64::from_bits(b)),
        NumOp::Parse(s) => NumReply::Parsed(s.parse::<f64>().ok().map(|v| v.to_bits())),
        NumOp::Fmt(n) => NumReply::Text(f64::from_bits(n).to_string()),
    }
}

fn num(v: f64) -> StackValue {
    StackValue::Number(v.to_bits())
}

#[test]
fn greater_branch_uses_push_order() {
    // 5 is the left operand: 5 > 100 is false, so the branch falls through.
    let mut vm = VmEngine::new();
    let instructions = [
        PushN(5.0f64.to_bits()),
        PushN(100.0f64.to_bits()),
        Brgrt(4),
        PushN(7.0f64.to_bits()),
    ];
    assert_eq!(vm.execute(&instructions, &host, 100), Ok(ExecEnd::Completed));
    assert_eq!(vm.stack_top(), Some(&num(7.0)));

    // 100 > 5 is true, so the push after the branch never runs.
    let mut vm = VmEngine::new();
    let instructions = [
        PushN(100.0f64.to_bits()),
        PushN(5.0f64.to_bits()),
        Brgrt(4),
        PushN(7.0f64.to_bits()),
    ];
    assert_eq!(vm.execute(&instructions, &host, 100), Ok(ExecEnd::Completed));
    assert_eq!(vm.stack_top(), None);
}

#[test]
fn equal_branch_always_consumes_two() {
    // Unequal operands: no jump, but the stack still shrinks by two.
    let mut vm = VmEngine::new();
    let instructions = [
        PushN(1.0f64.to_bits()),
        PushN(2.0f64.to_bits()),
        Brequ(5),
        PushN(9.0f64.to_bits()),
    ];
    assert_eq!(vm.execute(&instructions, &host, 100), Ok(ExecEnd::Completed));
    assert_eq!(vm.stack_top(), Some(&num(9.0)));

    let mut vm = VmEngine::new();
    let instructions = [PushN(1.0f64.to_bits()), PushN(2.0f64.to_bits()), Brequ(5)];
    assert_eq!(vm.execute(&instructions, &host, 100), Ok(ExecEnd::Completed));
    assert_eq!(vm.stack_top(), None);

    // Values of different kinds are never equal.
    let mut vm = VmEngine::new();
    let instructions = [
        PushN(1.0f64.to_bits()),
        PushB(true),
        Brequ(5),
        PushN(9.0f64.to_bits()),
    ];
    assert_eq!(vm.execute(&instructions, &host, 100), Ok(ExecEnd::Completed));
    assert_eq!(vm.stack_top(), Some(&num(9.0)));

    // Equal strings jump.
    let mut vm = VmEngine::new();
    let instructions = [
        PushS("x".to_string()),
        PushS("x".to_string()),
        Brequ(4),
        PushN(9.0f64.to_bits()),
    ];
    assert_eq!(vm.execute(&instructions, &host, 100), Ok(ExecEnd::Completed));
    assert_eq!(vm.stack_top(), None);
}

#[test]
fn terminate_halts_before_later_instructions() {
    let mut vm = VmEngine::new();
    let instructions = [PushN(1.0f64.to_bits()), TermP, PushN(2.0f64.to_bits())];
    assert_eq!(vm.execute(&instructions, &host, 100), Ok(ExecEnd::Completed));
    assert_eq!(vm.stack_top(), Some(&num(1.0)));
}

#[test]
fn zero_branch_tests_numbers_and_bools() {
    // The number zero jumps, and negative zero equals zero.
    let mut vm = VmEngine::new();
    let instructions = [PushN(0.0f64.to_bits()), Brzer(3), PushN(8.0f64.to_bits())];
    assert_eq!(vm.execute(&instructions, &host, 100), Ok(ExecEnd::Completed));
    assert_eq!(vm.stack_top(), None);

    let mut vm = VmEngine::new();
    let instructions = [PushN((-0.0f64).to_bits()), Brzer(3), PushN(8.0f64.to_bits())];
    assert_eq!(vm.execute(&instructions, &host, 100), Ok(ExecEnd::Completed));
    assert_eq!(vm.stack_top(), None);

    // A nonzero number falls through.
    let mut vm = VmEngine::new();
    let instructions = [PushN(2.0f64.to_bits()), Brzer(3), PushN(8.0f64.to_bits())];
    assert_eq!(vm.execute(&instructions, &host, 100), Ok(ExecEnd::Completed));
    assert_eq!(vm.stack_top(), Some(&num(8.0)));

    // `false` jumps; `true` falls through.
    let mut vm = VmEngine::new();
    let instructions = [PushB(false), Brzer(3), PushN(8.0f64.to_bits())];
    assert_eq!(vm.execute(&instructions, &host, 100), Ok(ExecEnd::Completed));
    assert_eq!(vm.stack_top(), None);

    let mut vm = VmEngine::new();
    let instructions = [PushB(true), Brone(3), PushN(8.0f64.to_bits())];
    assert_eq!(vm.execute(&instructions, &host, 100), Ok(ExecEnd::Completed));
    assert_eq!(vm.stack_top(), None);

    let mut vm = VmEngine::new();
    let instructions = [PushN(1.0f64.to_bits()), Brone(3), PushN(8.0f64.to_bits())];
    assert_eq!(vm.execute(&instructions, &host, 100), Ok(ExecEnd::Completed));
    assert_eq!(vm.stack_top(), None);
}

#[test]
fn registers_store_and_load() {
    let mut vm = VmEngine::new();
    let instructions = [
        PushN(7.0f64.to_bits()),
        StReg(3),
        LdReg(3),
        LdReg(3),
        Add,
    ];
    assert_eq!(vm.execute(&instructions, &host, 100), Ok(ExecEnd::Completed));
    assert_eq!(vm.stack_top(), Some(&num(14.0)));
}

#[test]
fn pop_on_empty_stack_aborts() {
    let mut vm = VmEngine::new();
    let instructions = [Pop];
    assert_eq!(
        vm.execute(&instructions, &host, 100),
        Err(VmError::StackUnderflow)
    );
}

#[test]
fn arithmetic_on_strings_is_a_type_fault() {
    let mut vm = VmEngine::new();
    let instructions = [
        PushS("x".to_string()),
        PushN(1.0f64.to_bits()),
        Add,
    ];
    assert_eq!(
        vm.execute(&instructions, &host, 100),
        Err(VmError::TypeMismatch)
    );
}

#[test]
fn faults_carry_their_kinds() {
    let mut vm = VmEngine::new();
    assert_eq!(
        vm.execute(&[LdReg(0)], &host, 100),
        Err(VmError::UninitializedRegister)
    );

    let mut vm = VmEngine::new();
    assert_eq!(
        vm.execute(&[PushN(1.0f64.to_bits()), StReg(9)], &host, 100),
        Err(VmError::RegisterOutOfBounds)
    );

    let mut vm = VmEngine::new();
    assert_eq!(
        vm.execute(&[SCall("missing".to_string())], &host, 100),
        Err(VmError::UndefinedFunction)
    );

    let mut vm = VmEngine::new();
    assert_eq!(
        vm.execute(&[PushS("abc".to_string()), ToNum], &host, 100),
        Err(VmError::InvalidNumericLiteral)
    );

    let mut vm = VmEngine::new();
    assert_eq!(
        vm.execute(&[Retrn], &host, 100),
        Err(VmError::UnreachableOpcode)
    );

    let mut vm = VmEngine::new();
    assert_eq!(
        vm.execute(&[StVar("v".to_string())], &host, 100),
        Err(VmError::UnreachableOpcode)
    );
}

#[test]
fn fuel_interrupts_a_spinning_program() {
    let mut vm = VmEngine::new();
    let instructions = [Brnch(0)];
    assert_eq!(vm.execute(&instructions, &host, 10), Ok(ExecEnd::OutOfFuel));

    let mut vm = VmEngine::new();
    let instructions = [PushN(1.0f64.to_bits())];
    assert_eq!(vm.execute(&instructions, &host, 0), Ok(ExecEnd::OutOfFuel));
}

#[test]
fn concat_underflow_aborts() {
    let mut vm = VmEngine::new();
    let instructions = [PushS("a".to_string()), Cncat(2)];
    assert_eq!(
        vm.execute(&instructions, &host, 100),
        Err(VmError::StackUnderflow)
    );
}

#[test]
fn stepping_matches_execute() {
    let mut vm = VmEngine::new();
    let instructions = [
        PushN(2.0f64.to_bits()),
        PushN(3.0f64.to_bits()),
        Add,
    ];
    let mut ip = 0usize;
    while ip < instructions.len() {
        ip = vm.step(&instructions, &host, ip).unwrap();
    }
    assert_eq!(vm.stack_top(), Some(&num(5.0)));
}
