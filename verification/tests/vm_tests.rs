use cubevm::Instruction::{Add, Cncat, Div, Mul, PushB, PushN, PushS, SCall, Sub, ToNum};
use cubevm::{ExecEnd, NativeFn, NumOp, NumReply, StackValue, VmEngine};

fn host(op: NumOp) -> NumReply {
    match op {
        NumOp::Add(a, b) => NumReply::Num((f64::from_bits(a) + f64::from_bits(b)).to_bits()),
        NumOp::Sub(a, b) => NumReply::Num((f64::from_bits(a) - f64::from_bits(b)).to_bits()),
        NumOp::Mul(a, b) => NumReply::Num((f64::from_bits(a) * f64::from_bits(b)).to_bits()),
        NumOp::Div(a, b) => NumReply::Num((f64::from_bits(a) / f64::from_bits(b)).to_bits()),
        NumOp::Equal(a, b) => NumReply::Flag(f64::from_bits(a) == f64::from_bits(b)),
        NumOp::Less(a, b) => NumReply::Flag(f64::from_bits(a) < f64::from_bits(b)),
        NumOp::Greater(a, b) => NumReply::Flag(f64::from_bits(a) > f64::from_bits(b)),
        NumOp::Parse(s) => NumReply::Parsed(s.parse::<f64>().ok().map(|v| v.to_bits())),
        NumOp::Fmt(n) => NumReply::Text(f64::from_bits(n).to_string()),
    }
}

fn num(v: f64) -> StackValue {
    StackValue::Number(v.to_bits())
}

#[test]
fn basic_math_test() {
    let instructions = [PushN(2.0f64.to_bits()), PushN((-1.0f64).to_bits()), Add];

    let mut vm = VmEngine::new();
    assert_eq!(vm.execute(&instructions, &host, 100), Ok(ExecEnd::Completed));

    println!("{:?}", vm.stack_top());
    assert_eq!(vm.stack_top(), Some(&num(1.0)));

    let instructions = [PushN(5.0f64.to_bits()), Sub];

    assert_eq!(vm.execute(&instructions, &host, 100), Ok(ExecEnd::Completed));

    println!("{:?}", vm.stack_top());
    assert_eq!(vm.stack_top(), Some(&num(-4.0)));

    let instructions = [PushN(4.0f64.to_bits()), Mul];

    assert_eq!(vm.execute(&instructions, &host, 100), Ok(ExecEnd::Completed));

    println!("{:?}", vm.stack_top());
    assert_eq!(vm.stack_top(), Some(&num(-16.0)));

    let instructions = [PushN(5.0f64.to_bits()), Div];

    assert_eq!(vm.execute(&instructions, &host, 100), Ok(ExecEnd::Completed));

    println!("{:?}", vm.stack_top());
    assert_eq!(vm.stack_top(), Some(&num(-16.0 / 5.0)));
}

#[test]
fn test_concat() {
    let mut vm = VmEngine::new();

    let instructions = [
        PushS("Hello".to_string()),
        PushS(" ".to_string()),
        PushS("World!".to_string()),
        Cncat(3),
    ];

    assert_eq!(vm.execute(&instructions, &host, 100), Ok(ExecEnd::Completed));

    println!("{:?}", vm.stack_top());
    assert_eq!(
        vm.stack_top(),
        Some(&StackValue::String("Hello World!".to_string()))
    );
}

struct Announcer;

impl NativeFn for Announcer {
    fn call(&self, _stack: &mut Vec<StackValue>) -> Option<StackValue> {
        println!("This is a test.");
        None
    }
}

#[test]
fn test_basic_function() {
    let mut vm = VmEngine::new();

    vm.register_function("test", Box::new(Announcer));

    let instructions = [SCall("test".to_string())];

    assert_eq!(vm.execute(&instructions, &host, 100), Ok(ExecEnd::Completed));
}

struct AddNum;

impl NativeFn for AddNum {
    fn call(&self, stack: &mut Vec<StackValue>) -> Option<StackValue> {
        let rhs = match stack.pop().unwrap() {
            StackValue::Number(n) => f64::from_bits(n),
            _ => panic!("Number expected."),
        };

        let lhs = match stack.pop().unwrap() {
            StackValue::Number(n) => f64::from_bits(n),
            _ => panic!("Number expected."),
        };

        Some(StackValue::Number((lhs + rhs).to_bits()))
    }
}

#[test]
fn test_advanced_function() {
    let mut vm = VmEngine::new();

    vm.register_function("addnum", Box::new(AddNum));

    let instructions = [
        PushN(1.0f64.to_bits()),
        PushN(1.0f64.to_bits()),
        SCall("addnum".to_string()),
    ];

    assert_eq!(vm.execute(&instructions, &host, 100), Ok(ExecEnd::Completed));

    println!("{:?}", vm.stack_top());
    assert_eq!(vm.stack_top(), Some(&num(2.0)));
}

#[test]
fn subtract_is_ordered() {
    let mut vm = VmEngine::new();
    let instructions = [PushN(5.0f64.to_bits()), PushN(2.0f64.to_bits()), Sub];
    assert_eq!(vm.execute(&instructions, &host, 100), Ok(ExecEnd::Completed));
    assert_eq!(vm.stack_top(), Some(&num(3.0)));

    let mut vm = VmEngine::new();
    let instructions = [PushN(2.0f64.to_bits()), PushN(5.0f64.to_bits()), Sub];
    assert_eq!(vm.execute(&instructions, &host, 100), Ok(ExecEnd::Completed));
    assert_eq!(vm.stack_top(), Some(&num(-3.0)));
}

#[test]
fn concat_keeps_push_order() {
    let mut vm = VmEngine::new();
    let instructions = [
        PushS("a".to_string()),
        PushS("b".to_string()),
        PushS("c".to_string()),
        Cncat(3),
    ];
    assert_eq!(vm.execute(&instructions, &host, 100), Ok(ExecEnd::Completed));
    assert_eq!(vm.stack_top(), Some(&StackValue::String("abc".to_string())));
}

#[test]
fn concat_formats_numbers_and_bools() {
    let mut vm = VmEngine::new();
    let instructions = [
        PushN(1.5f64.to_bits()),
        PushB(true),
        PushS("!".to_string()),
        Cncat(3),
    ];
    assert_eq!(vm.execute(&instructions, &host, 100), Ok(ExecEnd::Completed));
    assert_eq!(
        vm.stack_top(),
        Some(&StackValue::String("1.5true!".to_string()))
    );
}

struct Doubler;

impl NativeFn for Doubler {
    fn call(&self, stack: &mut Vec<StackValue>) -> Option<StackValue> {
        let n = match stack.pop().unwrap() {
            StackValue::Number(n) => f64::from_bits(n),
            _ => panic!("Number expected."),
        };
        Some(StackValue::Number((2.0 * n).to_bits()))
    }
}

#[test]
fn native_double_end_to_end() {
    let mut vm = VmEngine::new();
    vm.register_function("double", Box::new(Doubler));
    let instructions = [PushN(21.0f64.to_bits()), SCall("double".to_string())];
    assert_eq!(vm.execute(&instructions, &host, 100), Ok(ExecEnd::Completed));
    assert_eq!(vm.stack_top(), Some(&num(42.0)));
}

#[test]
fn reregistering_replaces_binding() {
    let mut vm = VmEngine::new();
    vm.register_function("f", Box::new(Announcer));
    vm.register_function("f", Box::new(Doubler));
    let instructions = [PushN(10.0f64.to_bits()), SCall("f".to_string())];
    assert_eq!(vm.execute(&instructions, &host, 100), Ok(ExecEnd::Completed));
    assert_eq!(vm.stack_top(), Some(&num(20.0)));
}

#[test]
fn reregistering_keeps_other_bindings() {
    let mut vm = VmEngine::new();
    vm.register_function("double", Box::new(Doubler));
    vm.register_function("shout", Box::new(Announcer));
    vm.register_function("double", Box::new(AddNum));

    // The re-registered name runs its new binding...
    let instructions = [
        PushN(4.0f64.to_bits()),
        PushN(5.0f64.to_bits()),
        SCall("double".to_string()),
    ];
    assert_eq!(vm.execute(&instructions, &host, 100), Ok(ExecEnd::Completed));
    assert_eq!(vm.stack_top(), Some(&num(9.0)));

    // ...and the binding registered in between is untouched.
    let instructions = [SCall("shout".to_string())];
    assert_eq!(vm.execute(&instructions, &host, 100), Ok(ExecEnd::Completed));
    assert_eq!(vm.stack_top(), Some(&num(9.0)));
}

#[test]
fn to_number_round_trips() {
    let mut vm = VmEngine::new();
    let instructions = [PushS("3.14".to_string()), ToNum];
    assert_eq!(vm.execute(&instructions, &host, 100), Ok(ExecEnd::Completed));
    assert_eq!(vm.stack_top(), Some(&num(3.14)));

    let mut vm = VmEngine::new();
    let instructions = [PushB(true), ToNum];
    assert_eq!(vm.execute(&instructions, &host, 100), Ok(ExecEnd::Completed));
    assert_eq!(vm.stack_top(), Some(&num(1.0)));

    let mut vm = VmEngine::new();
    let instructions = [PushB(false), ToNum];
    assert_eq!(vm.execute(&instructions, &host, 100), Ok(ExecEnd::Completed));
    assert_eq!(vm.stack_top(), Some(&num(0.0)));

    let mut vm = VmEngine::new();
    let instructions = [PushN(2.5f64.to_bits()), ToNum];
    assert_eq!(vm.execute(&instructions, &host, 100), Ok(ExecEnd::Completed));
    assert_eq!(vm.stack_top(), Some(&num(2.5)));
}

#[test]
fn divide_follows_ieee_semantics() {
    let mut vm = VmEngine::new();
    let instructions = [PushN(1.0f64.to_bits()), PushN(0.0f64.to_bits()), Div];
    assert_eq!(vm.execute(&instructions, &host, 100), Ok(ExecEnd::Completed));
    assert_eq!(vm.stack_top(), Some(&num(f64::INFINITY)));
}
