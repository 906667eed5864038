use dislang::codegen::environment::Environment;
use dislang::codegen::eval::Eval;
use dislang::codegen::object::{BuiltIn, FunctionObject, Object};
use dislang::codegen::stack::FunctionStack;
use dislang::ir::const_value::const_int;
use dislang::ir::converter::{
    convert_llvm_type, get_llvm_type_from_object, rewrap_llvm_value_ref, unwrap_object,
    wrap_llvm_value,
};
use dislang::ir::creator::{BlockRef, Instruction, Terminator, Value};
use dislang::ir::llvm_type::{int1_type, int32_type, LLVMType};
use dislang::ir::machine::{execute_test_ir_function, Outcome};
use dislang::ir::operate::run_function;
use dislang::lexer::new_lexer;
use dislang::parser::ast::{Expr, Ident, LLVMExpressionType, Literal, Stmt};
use dislang::parser::Parser;

fn parse(source: &str) -> Vec<Stmt> {
    let mut parser = Parser::new(new_lexer(source));
    let programs = parser.parse();
    assert!(!parser.has_failed(), "refused: {}", source);
    programs[0].clone()
}

fn lower(source: &str) -> (Eval, Object) {
    let program = parse(source);
    let mut eval = Eval::new();
    let mut env = Environment::new();
    let result = eval.entry_eval_program(&program, &mut env);
    (eval, result)
}

fn run(source: &str) -> Option<u64> {
    let (eval, result) = lower(source);
    assert!(!matches!(result, Object::Error(_)), "error: {:?}", result);
    for function in eval.lc.module.functions.iter() {
        for block in function.blocks.iter() {
            assert!(block.terminator.is_some(), "a block of {} has no end", function.name);
        }
    }
    execute_test_ir_function(&eval.lc, Value::Function { index: 1 })
}

fn error_of(source: &str) -> String {
    match lower(source).1 {
        Object::Error(message) => message,
        other => panic!("no error: {:?}", other),
    }
}

#[test]
fn sum_of_two_bindings_runs_to_three() {
    assert_eq!(run("let a: int = 1; let b: int = 2; return a + b;"), Some(3));
}

#[test]
fn a_true_condition_runs_the_consequence() {
    assert_eq!(run("if (true) { return 1; } else { return 2; }"), Some(1));
}

#[test]
fn a_false_condition_runs_the_alternative() {
    assert_eq!(run("if (!true) { return 1; } else { return 2; }"), Some(2));
    assert_eq!(run("if (false) { return 1; } else { return 2; }"), Some(2));
}

#[test]
fn a_declared_function_is_called() {
    assert_eq!(
        run("func add(x: int, y: int): int { return x + y; } let r: int = add(2, 3); return r;"),
        Some(5)
    );
}

#[test]
fn an_integer_literal_is_its_own_value() {
    let mut eval = Eval::new();
    let mut env = Environment::new();
    for n in [0i64, 1, 41, 2147483647, 4294967295] {
        let object = eval.eval_expression(&Expr::Literal(Literal::Int(n)), &mut env);
        assert!(matches!(object, Object::Integer(_)));
        assert_eq!(get_value(&object), n as u64);
    }
    let wide = eval.eval_expression(&Expr::Literal(Literal::Int(4294967296 + 5)), &mut env);
    assert_eq!(get_value(&wide), 5);
    for n in [-1i64, -2, -2147483648] {
        let object = eval.eval_expression(&Expr::Literal(Literal::Int(n)), &mut env);
        assert_eq!(get_value(&object), (n + 4294967296) as u64);
        assert_eq!(get_value(&object) as u32 as i32 as i64, n);
    }
    let yes = eval.eval_expression(&Expr::Literal(Literal::Bool(true)), &mut env);
    assert_eq!(yes, Object::Boolean(const_int(int1_type(), 1)));
    let no = eval.eval_expression(&Expr::Literal(Literal::Bool(false)), &mut env);
    assert_eq!(no, Object::Boolean(const_int(int1_type(), 0)));
    assert!(eval.lc.module.functions[1].blocks[0].instructions.is_empty());
}

fn get_value(object: &Object) -> u64 {
    dislang::ir::operate::get_u64_from_llvm_value(unwrap_object(object))
}

#[test]
fn an_assignment_is_read_back_through_storage() {
    assert_eq!(run("let x: int = 1; x = 7; return x;"), Some(7));
    assert_eq!(run("let x: int = 1; x = x + x; x = x + 40; return x;"), Some(42));
    let (eval, _) = lower("let x: int = 1; x = 7; return x;");
    let entry = &eval.lc.module.functions[1].blocks[0];
    let cell = Value::Register { function: 1, index: 0 };
    assert_eq!(
        entry.instructions,
        vec![
            Instruction::Alloca { dest: 0, ty: LLVMType::Int32 },
            Instruction::Store { value: const_int(int32_type(), 1), target: cell },
            Instruction::Store { value: const_int(int32_type(), 7), target: cell },
            Instruction::Load { dest: 1, ty: LLVMType::Int32, source: cell },
        ]
    );
    assert_eq!(
        entry.terminator,
        Some(Terminator::Ret { value: Value::Register { function: 1, index: 1 } })
    );
}

#[test]
fn a_conditional_without_alternative_branches_to_merge() {
    let (eval, result) = lower("let x: int = 1; if (x == 1) { x = 2; } return x;");
    assert_eq!(result, Object::Integer(Value::Register { function: 1, index: 3 }));
    let blocks = &eval.lc.module.functions[1].blocks;
    assert_eq!(blocks.len(), 4);
    assert_eq!(
        blocks[0].terminator,
        Some(Terminator::CondBr {
            condition: Value::Register { function: 1, index: 2 },
            then_block: 1,
            else_block: 2
        })
    );
    assert_eq!(blocks[1].terminator, Some(Terminator::Br { target: 3 }));
    assert!(blocks[2].instructions.is_empty());
    assert_eq!(blocks[2].terminator, Some(Terminator::Br { target: 3 }));
    assert_eq!(eval.lc.cursor, Some(BlockRef { function: 1, index: 3 }));
    assert_eq!(run("let x: int = 1; if (x == 1) { x = 2; } return x;"), Some(2));
    assert_eq!(run("let x: int = 1; if (x == 5) { x = 2; } return x;"), Some(1));
    assert_eq!(run("if (true) { }"), Some(0));
}

#[test]
fn bindings_of_a_branch_end_with_the_branch() {
    assert_eq!(
        error_of("let x: int = 1; if (true) { let y: int = 2; x = y; } return y;"),
        "y is not found. row"
    );
    assert_eq!(run("let x: int = 1; if (true) { let y: int = 2; x = y; } return x;"), Some(2));
    assert_eq!(
        run("let x: int = 1; if (true) { let x: int = 5; x = 6; } else { x = 3; } return x;"),
        Some(1)
    );
    assert_eq!(
        run("let x: int = 1; if (false) { let x: int = 5; } else { x = 3; } return x;"),
        Some(3)
    );
    let program = parse("if (true) { let y: int = 2; }");
    let mut eval = Eval::new();
    let mut env = Environment::new();
    eval.entry_eval_program(&program, &mut env);
    assert!(matches!(env.get("y"), Object::Error(_)));
}

#[test]
fn an_unbound_name_is_an_error_with_the_name() {
    let env = Environment::new();
    match env.get("nowhere") {
        Object::Error(message) => {
            assert!(message.contains("nowhere"));
            assert_eq!(message, "nowhere is not found. row");
        }
        other => panic!("bound: {:?}", other),
    }
    assert_eq!(error_of("return z;"), "z is not found. row");
    assert_eq!(error_of("z = 1;"), "z is not found. row");
    assert_eq!(error_of("let a: int = 1 + z;"), "z is not found. row");
    assert_eq!(error_of("z;"), "z is not found. row");
}

#[test]
fn a_fresh_environment_binds_the_built_in_names() {
    let env = Environment::new();
    assert_eq!(env.get("null"), Object::Null);
    assert_eq!(env.get("void"), Object::Null);
    assert_eq!(env.get("printf"), Object::BuiltIn(BuiltIn::Printf));
    assert_eq!(env.get("length"), Object::BuiltIn(BuiltIn::Length));
}

#[test]
fn set_returns_the_value_and_the_last_binding_wins() {
    let mut env = Environment::new();
    let one = Object::Integer(const_int(int32_type(), 1));
    let two = Object::Boolean(const_int(int1_type(), 1));
    assert_eq!(env.set("x".to_string(), one.clone()), one);
    assert_eq!(env.get("x"), one);
    assert_eq!(env.set("x".to_string(), two.clone()), two);
    assert_eq!(env.get("x"), two);
    for _ in 0..3 {
        assert_eq!(env.set("x".to_string(), one.clone()), one);
        assert_eq!(env.set("x".to_string(), two.clone()), two);
    }
    assert_eq!(env.get("x"), two);
    assert_eq!(format!("{:?}", env).matches("\"x\"").count(), 1);
    assert_eq!(env.set("null".to_string(), one.clone()), one);
    assert_eq!(env.get("null"), one);
    assert_eq!(env.get("void"), Object::Null);
    let mut copy = env.clone();
    copy.set("y".to_string(), one.clone());
    copy.set("x".to_string(), one.clone());
    assert_eq!(copy.get("y"), one);
    assert!(matches!(env.get("y"), Object::Error(_)));
    assert_eq!(env.get("x"), two);
}

#[test]
fn objects_convert_to_types_and_handles() {
    let v = const_int(int32_type(), 9);
    let w = Value::Register { function: 1, index: 4 };
    assert_eq!(get_llvm_type_from_object(&Object::Integer(v)), LLVMType::Int32);
    assert_eq!(get_llvm_type_from_object(&Object::Boolean(v)), LLVMType::Int1);
    assert_eq!(convert_llvm_type(LLVMExpressionType::Integer), LLVMType::Int32);
    assert_eq!(convert_llvm_type(LLVMExpressionType::Boolean), LLVMType::Int1);
    assert_eq!(convert_llvm_type(LLVMExpressionType::Null), LLVMType::Void);
    assert_eq!(convert_llvm_type(LLVMExpressionType::Call), LLVMType::Void);
    assert_eq!(unwrap_object(&Object::Integer(v)), v);
    assert_eq!(unwrap_object(&Object::Boolean(w)), w);
    assert_eq!(wrap_llvm_value(LLVMExpressionType::Integer, w), Object::Integer(w));
    assert_eq!(wrap_llvm_value(LLVMExpressionType::Boolean, w), Object::Boolean(w));
    assert_eq!(wrap_llvm_value(LLVMExpressionType::Null, w), Object::Null);
    assert_eq!(wrap_llvm_value(LLVMExpressionType::Call, w), Object::Null);
    assert_eq!(rewrap_llvm_value_ref(Object::Integer(v), w), Object::Integer(w));
    assert_eq!(rewrap_llvm_value_ref(Object::Boolean(v), w), Object::Boolean(w));
    assert_eq!(rewrap_llvm_value_ref(Object::Null, w), Object::Null);
    let f = Object::Function(FunctionObject {
        name: "f".to_string(),
        llvm_value: Value::Function { index: 2 },
        return_type: LLVMExpressionType::Integer,
        param_types: vec![],
    });
    assert_eq!(rewrap_llvm_value_ref(f.clone(), w), f);
}

#[test]
fn the_function_stack_is_last_in_first_out() {
    let main = Value::Function { index: 1 };
    let inner = Value::Function { index: 2 };
    let mut stack = FunctionStack::new(main);
    assert_eq!(stack.last(), Some(main));
    assert_eq!(stack.depth(), 1);
    stack.push(inner);
    assert_eq!(stack.last(), Some(inner));
    assert_eq!(stack.depth(), 2);
    assert_eq!(stack.pop(), Some(inner));
    assert_eq!(stack.last(), Some(main));
    assert_eq!(stack.pop(), Some(main));
    assert_eq!(stack.pop(), None);
    assert_eq!(stack.last(), None);
}

#[test]
fn a_fresh_evaluator_stands_in_main() {
    let eval = Eval::new();
    assert_eq!(eval.lc.module.name, "main_module");
    assert_eq!(eval.lc.module.functions.len(), 2);
    assert_eq!(eval.lc.module.functions[0].name, "printf");
    assert_eq!(eval.lc.module.functions[1].name, "main");
    assert_eq!(eval.main_block, BlockRef { function: 1, index: 0 });
    assert_eq!(eval.lc.cursor, Some(eval.main_block));
    assert_eq!(eval.function_stack.last(), Some(Value::Function { index: 1 }));
    assert!(eval.lc.is_open());
}

#[test]
fn a_program_without_return_returns_zero() {
    let (_, result) = lower("let a: int = 5;");
    assert_eq!(result, Object::Null);
    assert_eq!(run("let a: int = 5;"), Some(0));
    assert_eq!(run(""), Some(0));
}

#[test]
fn statements_after_a_return_are_not_generated() {
    let (eval, result) = lower("return 4; return 5; let x: int = y;");
    assert_eq!(result, Object::Integer(const_int(int32_type(), 4)));
    assert!(eval.lc.module.functions[1].blocks[0].instructions.is_empty());
    assert_eq!(run("return 4; return 5;"), Some(4));
}

#[test]
fn operators_compute_in_thirty_two_bits() {
    assert_eq!(run("return 2 - 5;"), Some(4294967293));
    assert_eq!(run("let a: int = 2; return -a;"), Some(4294967294));
    assert_eq!(run("let a: int = 2; return +a + 1;"), Some(3));
    assert_eq!(run("let a: int = 2; let b: int = 3; if (a + 1 == b) { return 10; } return 20;"), Some(10));
    assert_eq!(run("let a: int = 2; let b: int = 3; if (a != b) { return 10; } return 20;"), Some(10));
    assert_eq!(run("let t: bool = true; if (!t) { return 10; } else { return 20; }"), Some(20));
    assert_eq!(
        run("let t: bool = true; let u: bool = false; if (t == u) { return 10; } else { return 20; }"),
        Some(20)
    );
}

#[test]
fn nested_conditionals_hand_up_what_their_branches_return() {
    let both = "let a: int = 3; if (a == 3) { if (a == 4) { return 1; } else { return 2; } } else { return 3; }";
    assert_eq!(run(both), Some(2));
    let inner = "let x: int = 0; if (true) { if (false) { return 1; } x = 5; } else { return 2; } return x + 1;";
    let (eval, result) = lower(inner);
    assert_eq!(result, Object::Integer(const_int(int32_type(), 1)));
    let blocks = &eval.lc.module.functions[1].blocks;
    assert_eq!(blocks.len(), 7);
    let one = Some(Terminator::Ret { value: const_int(int32_type(), 1) });
    assert_eq!(blocks[3].terminator, one);
    assert_eq!(blocks[4].terminator, one);
    assert_eq!(blocks[6].terminator, one);
    assert_eq!(blocks[2].terminator, Some(Terminator::Ret { value: const_int(int32_type(), 2) }));
    assert_eq!(run(inner), Some(1));
}

#[test]
fn a_conditional_hands_up_what_its_consequence_returns() {
    let (eval, result) = lower("if (true) { return 1; } return 2;");
    assert_eq!(result, Object::Integer(const_int(int32_type(), 1)));
    let blocks = &eval.lc.module.functions[1].blocks;
    assert_eq!(blocks.len(), 4);
    let one = Some(Terminator::Ret { value: const_int(int32_type(), 1) });
    assert_eq!(blocks[1].terminator, one);
    assert_eq!(blocks[2].terminator, Some(Terminator::Br { target: 3 }));
    assert_eq!(blocks[3].terminator, one);
    assert!(blocks[3].instructions.is_empty());
    assert_eq!(run("if (true) { return 1; } return 2;"), Some(1));
    assert_eq!(run("if (false) { return 1; } return 2;"), Some(1));
    assert_eq!(run("if (true) { return 1; } else { let y: int = 4; } return 2;"), Some(1));
}

#[test]
fn a_conditional_hands_up_what_only_its_alternative_returns() {
    let (eval, result) = lower("if (true) { } else { return 2; } return 3;");
    assert_eq!(result, Object::Integer(const_int(int32_type(), 2)));
    let blocks = &eval.lc.module.functions[1].blocks;
    let two = Some(Terminator::Ret { value: const_int(int32_type(), 2) });
    assert_eq!(blocks[1].terminator, Some(Terminator::Br { target: 3 }));
    assert_eq!(blocks[2].terminator, two);
    assert_eq!(blocks[3].terminator, two);
    assert_eq!(run("if (true) { } else { return 2; } return 3;"), Some(2));
    assert_eq!(run("if (false) { } else { return 2; } return 3;"), Some(2));
}

#[test]
fn a_handed_up_register_is_returned_at_merge() {
    let source = "let a: int = 1; if (a == 1) { return a + 1; } return 5;";
    let (eval, result) = lower(source);
    let sum = Value::Register { function: 1, index: 4 };
    assert_eq!(result, Object::Integer(sum));
    let blocks = &eval.lc.module.functions[1].blocks;
    assert_eq!(blocks[1].terminator, Some(Terminator::Ret { value: sum }));
    assert_eq!(blocks[3].terminator, Some(Terminator::Ret { value: sum }));
    assert_eq!(run(source), Some(2));
    let other = "let a: int = 1; if (a == 2) { return a + 1; } return 5;";
    let (eval, _) = lower(other);
    assert_eq!(
        run_function(&eval.lc, Value::Function { index: 1 }, &vec![], 100),
        Outcome::Trapped
    );
}

#[test]
fn functions_have_their_own_scope_and_storage() {
    let source = "let x: int = 10; func f(x: int): int { x = x + 1; return x; } let y: int = f(5); return x + y;";
    assert_eq!(run(source), Some(16));
    assert_eq!(
        error_of("let x: int = 10; func f(): int { return x; } return f();"),
        "x is not found. row"
    );
    assert_eq!(run("func f(): int { } return f();"), Some(0));
    assert_eq!(run("func t(b: bool): bool { return !b; } if (t(false)) { return 1; } return 2;"), Some(1));
    assert_eq!(run("func v(): void { } v(); return 3;"), Some(3));
    assert_eq!(run("func outer(a: int): int { func inner(b: int): int { return b + 1; } return inner(a) + inner(a); } return outer(4);"), Some(10));
}

#[test]
fn a_call_binds_its_result_by_its_kind() {
    assert_eq!(run("func f(): int { return 8; } let r: call = f(); r = r + 1; return r;"), Some(9));
    let (_, result) = lower("func f(): int { return 8; } let g: call = f; return g();");
    assert_eq!(result, Object::Integer(Value::Register { function: 1, index: 0 }));
}

#[test]
fn misuse_is_reported_as_an_error() {
    assert_eq!(error_of("let x: int = true;"), "the value is not of the declared type");
    assert_eq!(error_of("let x: bool = 1;"), "the value is not of the declared type");
    assert_eq!(error_of("let x: int = null;"), "the value is not of the declared type");
    assert_eq!(error_of("printf = 1;"), "the name is not bound to storage");
    assert_eq!(error_of("let x: int = 1; x = true;"), "the value is not of the kind of the name");
    assert_eq!(error_of("return null;"), "the returned object is not a value");
    assert_eq!(error_of("return printf;"), "the returned object is not a value");
    assert_eq!(error_of("if (1) { }"), "the condition is not a boolean");
    assert_eq!(error_of("return 1 + true;"), "the operands are not integers");
    assert_eq!(error_of("return 1 == true;"), "the operands are not of one kind");
    assert_eq!(error_of("return !1;"), "the operand of ! is not a boolean");
    assert_eq!(error_of("return -true;"), "the operand of - is not an integer");
    assert_eq!(error_of("return +true;"), "the operand of + is not an integer");
    assert_eq!(error_of("let x: int = 1; return x(2);"), "not a function");
    assert_eq!(error_of("func f(a: int): int { return a; } return f();"), "wrong number of arguments");
    assert_eq!(error_of("func f(a: int): int { return a; } return f(null);"), "an argument is not a value");
    assert_eq!(error_of("func f(a: thing): int { return 1; }"), "a parameter is neither an integer nor a boolean");
    assert_eq!(error_of("return length(1);"), "length takes a sequence");
    assert_eq!(error_of("if (true) { return q; }"), "q is not found. row");
    assert_eq!(error_of("if (true) { } else { return q; }"), "q is not found. row");
    assert_eq!(error_of("func f(): int { return q; }"), "q is not found. row");
}

#[test]
fn printf_is_called_in_the_module() {
    let (eval, result) = lower("printf(1, 2); return 0;");
    assert_eq!(result, Object::Integer(const_int(int32_type(), 0)));
    let main = &eval.lc.module.functions[1];
    assert_eq!(
        main.blocks[0].instructions,
        vec![Instruction::Call {
            dest: 0,
            callee: Value::Function { index: 0 },
            first_arg: 0,
            arg_count: 2
        }]
    );
    assert_eq!(main.call_args, vec![const_int(int32_type(), 1), const_int(int32_type(), 2)]);
    assert_eq!(main.registers[0].ty, LLVMType::Pointer);
    assert_eq!(
        run_function(&eval.lc, Value::Function { index: 1 }, &vec![], 100),
        Outcome::Trapped
    );
}

#[test]
fn statement_evaluators_hand_up_what_they_say() {
    let mut eval = Eval::new();
    let mut env = Environment::new();
    let one = Expr::Literal(Literal::Int(1));
    let x = Ident("x".to_string());
    assert_eq!(eval.eval_let_statement(&x, LLVMExpressionType::Integer, &one, &mut env), None);
    assert_eq!(env.get("x"), Object::Integer(Value::Register { function: 1, index: 0 }));
    assert_eq!(eval.eval_assignment_statement(&x, &one, &mut env), None);
    assert_eq!(
        eval.parse_return_statement(&one, &mut env),
        Some(Object::Integer(const_int(int32_type(), 1)))
    );
    assert_eq!(eval.eval_expression_statement(&one, &mut env), None);
    assert_eq!(eval.eval_statement(&Stmt::Blank, &mut env), None);
    assert_eq!(
        eval.eval_statement(&Stmt::Return(Expr::Ident(Ident("x".to_string()))), &mut env),
        Some(Object::Integer(Value::Register { function: 1, index: 1 }))
    );
    assert!(eval.lc.is_open());
    let both = eval.eval_if(
        &Expr::Literal(Literal::Bool(true)),
        &vec![Stmt::Return(Expr::Literal(Literal::Int(1)))],
        &Some(vec![Stmt::Return(Expr::Literal(Literal::Int(2)))]),
        &mut env,
    );
    assert_eq!(both, Some(Object::Integer(const_int(int32_type(), 1))));
    let one_arm = eval.eval_if(
        &Expr::Literal(Literal::Bool(true)),
        &vec![Stmt::Return(Expr::Literal(Literal::Int(1)))],
        &None,
        &mut env,
    );
    assert_eq!(one_arm, Some(Object::Integer(const_int(int32_type(), 1))));
    let no_return = eval.eval_if(
        &Expr::Literal(Literal::Bool(true)),
        &vec![Stmt::Expr(Expr::Literal(Literal::Int(1)))],
        &None,
        &mut env,
    );
    assert_eq!(no_return, None);
    let other_arm = eval.eval_if(
        &Expr::Literal(Literal::Bool(true)),
        &vec![],
        &Some(vec![Stmt::Return(Expr::Literal(Literal::Int(2)))]),
        &mut env,
    );
    assert_eq!(other_arm, Some(Object::Integer(const_int(int32_type(), 2))));
    assert_eq!(eval.eval_program(&vec![], &mut env), Object::Null);
    assert!(eval.lc.is_open());
}

#[test]
fn a_distributable_function_is_generated_with_either_list() {
    let mut parser = Parser::new(new_lexer("dis func d(a: int): int { return a + 1; } return d(1);"));
    let programs = parser.parse();
    for program in programs.iter() {
        let mut eval = Eval::new();
        let mut env = Environment::new();
        let result = eval.entry_eval_program(program, &mut env);
        assert!(!matches!(result, Object::Error(_)));
        assert_eq!(eval.lc.module.functions.len(), 3);
        assert_eq!(eval.lc.module.functions[2].name, "d");
        assert_eq!(
            run_function(&eval.lc, Value::Function { index: 2 }, &vec![41], 10),
            Outcome::Returned(42)
        );
    }
    assert_eq!(programs[0].len(), 2);
    assert_eq!(programs[1].len(), 1);
}

#[test]
fn a_function_without_a_type_for_each_parameter_is_refused() {
    let mut eval = Eval::new();
    let mut env = Environment::new();
    let declaration = Stmt::Func {
        name: "f".to_string(),
        distributed: false,
        params: vec![Ident("a".to_string()), Ident("b".to_string())],
        param_types: vec![LLVMExpressionType::Integer],
        return_type: LLVMExpressionType::Integer,
        body: vec![],
    };
    assert_eq!(
        eval.eval_statement(&declaration, &mut env),
        Some(Object::Error("a parameter has no type".to_string()))
    );
    assert_eq!(eval.lc.module.functions.len(), 2);
    assert!(matches!(env.get("f"), Object::Error(_)));
}

#[test]
fn calls_need_their_function_in_the_module() {
    let mut eval = Eval::new();
    let mut env = Environment::new();
    env.set(
        "ghost".to_string(),
        Object::Function(FunctionObject {
            name: "ghost".to_string(),
            llvm_value: Value::Function { index: 9 },
            return_type: LLVMExpressionType::Integer,
            param_types: vec![],
        }),
    );
    let call = Expr::Call { func: Box::new(Expr::Ident(Ident("ghost".to_string()))), args: vec![] };
    assert_eq!(
        eval.eval_expression(&call, &mut env),
        Object::Error("the function is not in the module".to_string())
    );
    eval.lc.module.functions[0].name = "other".to_string();
    let print = Expr::Call { func: Box::new(Expr::Ident(Ident("printf".to_string()))), args: vec![] };
    assert_eq!(
        eval.eval_expression(&print, &mut env),
        Object::Error("printf is not in the module".to_string())
    );
}

#[test]
fn a_name_bound_to_a_value_is_read_without_a_load() {
    let mut eval = Eval::new();
    let mut env = Environment::new();
    let five = Object::Integer(const_int(int32_type(), 5));
    env.set("five".to_string(), five.clone());
    let read = eval.eval_expression(&Expr::Ident(Ident("five".to_string())), &mut env);
    assert_eq!(read, five);
    assert!(eval.lc.module.functions[1].blocks[0].instructions.is_empty());
    assert_eq!(
        eval.eval_assignment_statement(
            &Ident("five".to_string()),
            &Expr::Literal(Literal::Int(6)),
            &mut env
        ),
        Some(Object::Error("the name is not bound to storage".to_string()))
    );
}
