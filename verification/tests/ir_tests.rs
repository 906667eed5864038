use dislang::ir::arithmetic::{
    add_variable, divide_variable, multiple_variable, rem_variable, sub_variable,
};
use dislang::ir::block::append_basic_block_in_context;
use dislang::ir::built_in::create_printf;
use dislang::ir::condition::{
    build_br, build_cond_br, build_int_eq, build_int_ne, build_int_sge, build_int_sgt,
    build_int_sle, build_int_slt, build_int_uge, build_int_ugt, build_int_ule, build_int_ult,
    create_if_else_test,
};
use dislang::ir::const_value::{const_int, const_int_signed, const_neg};
use dislang::ir::creator::{
    BinaryOp, BlockRef, Instruction, LLVMCreator, Terminator, Value,
};
use dislang::ir::function::{
    add_function, call_function, create_function, get_named_function, get_param, setup_main,
};
use dislang::ir::llvm_type::{
    function_type, function_type_var_arg, int1_type, int32_type, pointer_type, void_type,
    LLVMType,
};
use dislang::ir::machine::{execute_test_ir_function, Outcome};
use dislang::ir::operate::{
    append_basic_block, build_alloca, build_load, build_position_at_end, build_ret,
    build_ret_void, build_store, get_u64_from_llvm_value, run_function,
};

fn setup_llvm() -> LLVMCreator {
    let mut lc = LLVMCreator::new("test_module");
    setup_main(&mut lc);
    lc
}

fn int_arithmetic_assert(actual: Value, expect: Value) {
    assert!(
        actual == expect,
        "\r\nexpected: {:?} \r\nactual: {:?}",
        get_u64_from_llvm_value(actual),
        get_u64_from_llvm_value(expect)
    );
}

#[test]
fn add() {
    let mut lc = setup_llvm();
    int_arithmetic_assert(
        add_variable(&mut lc, const_int(int32_type(), 1), const_int(int32_type(), 2), ""),
        const_int(int32_type(), 3),
    );
}

#[test]
fn cond_if_true() {
    let llvm_bool_true = const_int(int1_type(), 1);
    let mut lc = LLVMCreator::new("test_module");
    let main = setup_main(&mut lc);
    create_if_else_test(&mut lc, int32_type(), main, llvm_bool_true);
    assert!(execute_test_ir_function(&lc, main) == Some(1), "failed cond_if_true");
}

#[test]
fn cond_if_false() {
    let llvm_bool_false = const_int(int1_type(), 0);
    let mut lc = LLVMCreator::new("test_module");
    let main = setup_main(&mut lc);
    create_if_else_test(&mut lc, int32_type(), main, llvm_bool_false);
    assert!(execute_test_ir_function(&lc, main) == Some(2), "failed cond_if_false");
}

#[test]
fn cond_int_cmp_true() {
    let mut lc = LLVMCreator::new("test_module");
    let main = setup_main(&mut lc);

    let llvm_bool_true =
        build_int_eq(&mut lc, const_int(int32_type(), 0), const_int(int32_type(), 0), "");
    create_if_else_test(&mut lc, int32_type(), main, llvm_bool_true);
    assert!(execute_test_ir_function(&lc, main) == Some(1), "failed cond_int_cmp_true");
}

#[test]
fn cond_int_cmp_false() {
    let mut lc = LLVMCreator::new("test_module");
    let main = setup_main(&mut lc);

    let llvm_bool_true =
        build_int_eq(&mut lc, const_int(int32_type(), 1), const_int(int32_type(), 0), "");
    create_if_else_test(&mut lc, int32_type(), main, llvm_bool_true);
    assert!(execute_test_ir_function(&lc, main) == Some(2), "failed cond_int_cmp_false");
}

#[test]
fn build_while() {
    let mut lc = LLVMCreator::new("test_module");
    let fn_type = function_type(int32_type(), vec![]);
    let main = add_function(&mut lc, fn_type, "main");

    let entry = append_basic_block(&mut lc, main, "entry");
    let loop_block = append_basic_block_in_context(&mut lc, main, "loop");
    let loop_end_block = append_basic_block_in_context(&mut lc, main, "loop_end");

    build_position_at_end(&mut lc, entry);

    let llvm_increment_ref = build_alloca(&mut lc, int32_type(), "");
    build_store(&mut lc, const_int(int32_type(), 0), llvm_increment_ref);

    build_br(&mut lc, loop_block);
    build_position_at_end(&mut lc, loop_block);
    let llvm_increment = build_load(&mut lc, int32_type(), llvm_increment_ref, "");
    let added_value = add_variable(&mut lc, const_int(int32_type(), 1), llvm_increment, "");
    build_store(&mut lc, added_value, llvm_increment_ref);

    let llvm_bool = build_int_eq(&mut lc, const_int(int32_type(), 3), llvm_increment, "");
    build_cond_br(&mut lc, llvm_bool, loop_end_block, loop_block);
    build_position_at_end(&mut lc, loop_end_block);

    build_ret(&mut lc, llvm_increment);

    assert!(execute_test_ir_function(&lc, main) == Some(3), "build_while failed",);
}

#[test]
fn call_int_func() {
    let mut lc = LLVMCreator::new("test_module");
    let test_fn_type = function_type(int32_type(), vec![int32_type()]);
    let (test_func, _) = create_function(&mut lc, test_fn_type.clone());
    build_ret(&mut lc, get_param(test_func, 0));

    let main = setup_main(&mut lc);
    let test_func_args = vec![const_int(int32_type(), 10)];
    let called = call_function(&mut lc, &test_fn_type, test_func, test_func_args, "");
    build_ret(&mut lc, called);

    let for_assert = execute_test_ir_function(&lc, main);
    let expected = Some(10);
    assert!(
        for_assert == expected,
        "test failed \r\nexpected: {:?}\r\nactual:{:?}",
        expected,
        for_assert
    );
}

#[test]
fn constants_are_reduced_to_their_width() {
    assert_eq!(const_int(int32_type(), 5), Value::ConstInt { ty: LLVMType::Int32, bits: 5 });
    assert_eq!(
        const_int(int32_type(), 0x1_0000_0007),
        Value::ConstInt { ty: LLVMType::Int32, bits: 7 }
    );
    assert_eq!(const_int(int1_type(), 3), Value::ConstInt { ty: LLVMType::Int1, bits: 1 });
    assert_eq!(const_int(void_type(), 9), Value::ConstInt { ty: LLVMType::Void, bits: 0 });
    assert_eq!(const_int_signed(int32_type(), u64::MAX), const_int(int32_type(), 0xFFFF_FFFF));
    assert_eq!(get_u64_from_llvm_value(const_int(int32_type(), 0xFFFF_FFFF)), 4294967295);
    assert_eq!(get_u64_from_llvm_value(Value::ConstInt { ty: LLVMType::Int1, bits: 6 }), 0);
}

#[test]
fn negation_wraps_in_the_type() {
    assert_eq!(const_neg(const_int(int32_type(), 1)), const_int(int32_type(), 0xFFFF_FFFF));
    assert_eq!(const_neg(const_int(int32_type(), 0)), const_int(int32_type(), 0));
    assert_eq!(const_neg(const_int(int1_type(), 1)), const_int(int1_type(), 1));
    assert_eq!(
        const_neg(Value::ConstInt { ty: LLVMType::Int32, bits: 0x1_0000_0002 }),
        const_int(int32_type(), 0xFFFF_FFFE)
    );
}

#[test]
fn constant_operands_fold() {
    let mut lc = setup_llvm();
    let before = format!("{:?}", lc);
    let c = |v: u64| const_int(int32_type(), v);
    assert_eq!(sub_variable(&mut lc, c(2), c(5), ""), c(0xFFFF_FFFD));
    assert_eq!(multiple_variable(&mut lc, c(0x10000), c(0x10001), ""), c(0x10000));
    assert_eq!(rem_variable(&mut lc, c(17), c(5), ""), c(2));
    assert_eq!(divide_variable(&mut lc, c(17), c(5), ""), c(3));
    assert_eq!(add_variable(&mut lc, c(0xFFFF_FFFF), c(1), ""), c(0));
    assert_eq!(build_int_eq(&mut lc, c(4), c(4), ""), const_int(int1_type(), 1));
    assert_eq!(build_int_ne(&mut lc, c(4), c(4), ""), const_int(int1_type(), 0));
    assert_eq!(build_int_ugt(&mut lc, c(0xFFFF_FFFF), c(1), ""), const_int(int1_type(), 1));
    assert_eq!(build_int_sgt(&mut lc, c(0xFFFF_FFFF), c(1), ""), const_int(int1_type(), 0));
    assert_eq!(build_int_slt(&mut lc, c(0xFFFF_FFFF), c(1), ""), const_int(int1_type(), 1));
    assert_eq!(build_int_sle(&mut lc, c(0x8000_0000), c(0x7FFF_FFFF), ""), const_int(int1_type(), 1));
    assert_eq!(build_int_sge(&mut lc, c(0x8000_0000), c(0x7FFF_FFFF), ""), const_int(int1_type(), 0));
    assert_eq!(build_int_uge(&mut lc, c(3), c(3), ""), const_int(int1_type(), 1));
    assert_eq!(build_int_ult(&mut lc, c(3), c(3), ""), const_int(int1_type(), 0));
    assert_eq!(build_int_ule(&mut lc, c(3), c(3), ""), const_int(int1_type(), 1));
    assert_eq!(format!("{:?}", lc), before);
}

#[test]
fn division_by_zero_is_left_to_the_run() {
    let mut lc = LLVMCreator::new("m");
    let main = setup_main(&mut lc);
    let q = divide_variable(&mut lc, const_int(int32_type(), 1), const_int(int32_type(), 0), "q");
    assert_eq!(q, Value::Register { function: 1, index: 0 });
    build_ret(&mut lc, q);
    assert_eq!(run_function(&lc, main, &vec![], 10), Outcome::Trapped);
}

#[test]
fn instructions_land_in_the_block_at_the_cursor() {
    let mut lc = LLVMCreator::new("m");
    let main = setup_main(&mut lc);
    assert_eq!(main, Value::Function { index: 1 });
    assert_eq!(lc.cursor, Some(BlockRef { function: 1, index: 0 }));
    let cell = build_alloca(&mut lc, int32_type(), "x");
    build_store(&mut lc, const_int(int32_type(), 7), cell);
    let loaded = build_load(&mut lc, int32_type(), cell, "y");
    let sum = add_variable(&mut lc, loaded, const_int(int32_type(), 1), "z");
    build_ret(&mut lc, sum);
    let f = &lc.module.functions[1];
    assert_eq!(f.name, "main");
    assert_eq!(f.blocks.len(), 1);
    assert_eq!(f.blocks[0].name, "entry");
    assert_eq!(
        f.blocks[0].instructions,
        vec![
            Instruction::Alloca { dest: 0, ty: LLVMType::Int32 },
            Instruction::Store {
                value: Value::ConstInt { ty: LLVMType::Int32, bits: 7 },
                target: Value::Register { function: 1, index: 0 }
            },
            Instruction::Load {
                dest: 1,
                ty: LLVMType::Int32,
                source: Value::Register { function: 1, index: 0 }
            },
            Instruction::Binary {
                dest: 2,
                op: BinaryOp::Add,
                left: Value::Register { function: 1, index: 1 },
                right: Value::ConstInt { ty: LLVMType::Int32, bits: 1 }
            },
        ]
    );
    assert_eq!(
        f.blocks[0].terminator,
        Some(Terminator::Ret { value: Value::Register { function: 1, index: 2 } })
    );
    assert_eq!(f.registers.len(), 3);
    assert_eq!(f.registers[0].ty, LLVMType::Pointer);
    assert_eq!(f.registers[0].name, "x");
    assert_eq!(f.registers[2].ty, LLVMType::Int32);
    assert_eq!(lc.type_of(cell), LLVMType::Pointer);
    assert_eq!(lc.type_of(sum), LLVMType::Int32);
    assert_eq!(lc.type_of(Value::Register { function: 1, index: 9 }), LLVMType::Void);
    assert!(!lc.is_open());
    assert_eq!(execute_test_ir_function(&lc, main), Some(8));
}

#[test]
fn named_functions_are_found_by_their_first_declaration() {
    let mut lc = LLVMCreator::new("m");
    assert_eq!(get_named_function(&lc, "printf"), Some(Value::Function { index: 0 }));
    assert_eq!(get_named_function(&lc, "main"), None);
    let main = setup_main(&mut lc);
    let again = add_function(&mut lc, function_type(void_type(), vec![]), "main");
    assert_eq!(again, Value::Function { index: 2 });
    assert_eq!(get_named_function(&lc, "main"), Some(main));
    let printf = create_printf(&mut lc);
    assert_eq!(printf, Value::Function { index: 3 });
    assert_eq!(lc.module.functions[3].ty, function_type_var_arg(pointer_type(), vec![pointer_type()]));
    assert_eq!(lc.module.functions[0].ty, lc.module.functions[3].ty);
    assert_eq!(get_named_function(&lc, "printf"), Some(Value::Function { index: 0 }));
}

#[test]
fn runs_end_as_the_machine_says() {
    let mut lc = LLVMCreator::new("m");
    let main = setup_main(&mut lc);
    assert_eq!(run_function(&lc, main, &vec![], 10), Outcome::Trapped);
    build_ret_void(&mut lc);
    assert_eq!(run_function(&lc, main, &vec![], 10), Outcome::ReturnedVoid);
    assert_eq!(execute_test_ir_function(&lc, main), None);
    assert_eq!(run_function(&lc, Value::Function { index: 0 }, &vec![], 10), Outcome::Trapped);
    assert_eq!(run_function(&lc, Value::Function { index: 7 }, &vec![], 10), Outcome::Trapped);
    assert_eq!(run_function(&lc, const_int(int32_type(), 1), &vec![], 10), Outcome::Trapped);

    let (spin, entry) = create_function(&mut lc, function_type(void_type(), vec![]));
    build_br(&mut lc, entry);
    assert_eq!(run_function(&lc, spin, &vec![], 1000), Outcome::OutOfFuel);

    let (twice, _) = create_function(&mut lc, function_type(int32_type(), vec![int32_type()]));
    let p = get_param(twice, 0);
    let doubled = add_variable(&mut lc, p, p, "");
    build_ret(&mut lc, doubled);
    assert_eq!(run_function(&lc, twice, &vec![21], 0), Outcome::Returned(42));
    assert_eq!(run_function(&lc, twice, &vec![0xFFFF_FFFF], 0), Outcome::Returned(0xFFFF_FFFE));
    assert_eq!(run_function(&lc, twice, &vec![], 0), Outcome::Trapped);
}

#[test]
fn a_load_before_a_store_traps() {
    let mut lc = LLVMCreator::new("m");
    let main = setup_main(&mut lc);
    let cell = build_alloca(&mut lc, int32_type(), "");
    let loaded = build_load(&mut lc, int32_type(), cell, "");
    build_ret(&mut lc, loaded);
    assert_eq!(run_function(&lc, main, &vec![], 10), Outcome::Trapped);
}
