use vstd::prelude::*;
use vstd::string::*;
use crate::codegen::environment::Environment;
use crate::codegen::lowering::{
    EvalView, at_alternative, at_consequence, bind_params, branches_size, declared_function_type,
    entry_program, expr_size, exprs_size, infix, invoke, lemma_exprs_size, lemma_program_size,
    lower_arguments, lower_conditional, lower_expression, lower_program, lower_statement, prefix,
    program_size, read, stmt_size,
};
use crate::codegen::object::{BuiltIn, FunctionObject, Object, ObjectView};
use crate::codegen::shape::{
    advanced, complete, complete_but_cursor, finished, lemma_extends_cell, ready, returned,
};
use crate::codegen::soundness::{
    failed, handed_up, lemma_alternative_ready, lemma_arguments, lemma_conditional,
    lemma_consequence_ready, lemma_entry_program, lemma_expression, lemma_infix, lemma_invoke,
    lemma_prefix, lemma_program, lemma_read, lemma_statement,
};
use crate::codegen::stack::FunctionStack;
use crate::ir::arithmetic::{add_variable, sub_variable};
use crate::ir::condition::{build_int_eq, build_int_ne};
use crate::ir::const_value::const_int;
use crate::ir::converter::{
    get_llvm_type_from_object, object_type, rewrap_llvm_value_ref, rewrapped, unwrap_object,
    wrap_llvm_value,
};
use crate::ir::creator::{BlockRef, LLVMCreator, Value, fresh};
use crate::codegen::environment::built_ins;
use crate::ir::block::append_basic_block_in_context;
use crate::ir::condition::{build_br, build_cond_br};
use crate::ir::converter::{convert_llvm_type, converted};

use crate::ir::function::{
    add_function, call_function, get_named_function, setup_main, with_new_function,
};
use crate::ir::llvm_type::{FunctionTypeView, LLVMType, function_type, int1_type, int32_type};
use crate::ir::operate::{
    alloca, append_basic_block, build_alloca, build_load, build_position_at_end, build_ret,
    build_ret_void, build_store, store,
};
use crate::parser::ast::{
    Expr, Ident, Infix, LLVMExpressionType, Literal, Prefix, Program, Stmt, StmtView, exprs_view,
    idents_view, program_view,
};

verus! {

/// The evaluator: it walks a program and generates its code into a module.
pub struct Eval {
    pub lc: LLVMCreator,
    pub main_block: BlockRef,
    pub function_stack: FunctionStack,
}

impl View for Eval {
    type V = EvalView;

    open spec fn view(&self) -> EvalView {
        EvalView { lc: self.lc@, stack: self.function_stack@, main_block: self.main_block }
    }
}

/// The state of a fresh evaluator: the module `main_module` with the
/// declaration of `printf` and with the function `main`, the cursor at the
/// entry block of `main`.
pub open spec fn initial() -> EvalView {
    EvalView {
        lc: with_new_function(
            fresh("main_module"@),
            FunctionTypeView {
                return_type: LLVMType::Int32,
                param_types: Seq::empty(),
                var_arg: false,
            },
            "main"@,
        ),
        stack: seq![Value::Function { index: 1 }],
        main_block: BlockRef { function: 1, index: 0 },
    }
}

impl Eval {
    /// An evaluator for a new module, ready to generate the code of `main`.
    pub fn new() -> (eval: Self)
        ensures
            eval@ == initial(),
            ready(eval@),
            complete_but_cursor(eval@.lc),
    {
        let mut lc = LLVMCreator::new("main_module");
        let (main_block, main_function) = Eval::setup_main(&mut lc);
        Eval { lc: lc, main_block: main_block, function_stack: FunctionStack::new(main_function) }
    }

    /// Gives the module the function `main` and moves the cursor to its
    /// entry block.
    pub fn setup_main(lc: &mut LLVMCreator) -> (made: (BlockRef, Value))
        ensures
            final(lc)@ == with_new_function(
                old(lc)@,
                FunctionTypeView {
                    return_type: LLVMType::Int32,
                    param_types: Seq::empty(),
                    var_arg: false,
                },
                "main"@,
            ),
            made.1 == (Value::Function { index: old(lc)@.module.functions.len() as usize }),
            made.0 == (BlockRef { function: old(lc)@.module.functions.len() as usize, index: 0 }),
            final(lc)@.open(),
    {
        let main_function = setup_main(lc);
        match main_function {
            Value::Function { index } => (BlockRef { function: index, index: 0 }, main_function),
            _ => (BlockRef { function: 0, index: 0 }, main_function),
        }
    }

    /// How many blocks the function at the cursor has.
    pub fn block_count(&self) -> (count: usize)
        requires
            self@.lc.positioned(),
        ensures
            count == self@.lc.current_function().blocks.len(),
    {
        match self.lc.cursor {
            Some(at) => self.lc.module.functions[at.function].blocks.len(),
            None => 0,
        }
    }

    /// How many registers the function at the cursor has.
    pub fn register_count(&self) -> (count: usize)
        requires
            self@.lc.positioned(),
        ensures
            count == self@.lc.current_function().registers.len(),
    {
        match self.lc.cursor {
            Some(at) => self.lc.module.functions[at.function].registers.len(),
            None => 0,
        }
    }

    /// Reads the object that a name is bound to: where it holds the address
    /// of a cell, the cell is loaded; any other object comes back as it is.
    pub fn read_variable(&mut self, object: Object, name: &str) -> (result: Object)
        requires
            ready(old(self)@),
        ensures
            (final(self)@, result@) == read(old(self)@, object@, name@),
            advanced(old(self)@, final(self)@),
            result@.same_kind(object@),
    {
        proof {
            lemma_read(self@, object@, name@);
        }
        if object.is_scalar() {
            let handle = unwrap_object(&object);
            if self.lc.type_of(handle) == LLVMType::Pointer {
                let ty = get_llvm_type_from_object(&object);
                let value = build_load(&mut self.lc, ty, handle, name);
                return rewrap_llvm_value_ref(object, value);
            }
        }
        object
    }

    /// Applies a prefix operator to the value of its operand.
    pub fn apply_prefix(&mut self, op: Prefix, operand: Object) -> (result: Object)
        requires
            ready(old(self)@),
        ensures
            (final(self)@, result@) == prefix(old(self)@, op, operand@),
            advanced(old(self)@, final(self)@),
    {
        proof {
            lemma_prefix(self@, op, operand@);
            reveal_strlit("");
            assert(""@ =~= Seq::<char>::empty());
        }
        match op {
            Prefix::Plus => match operand {
                Object::Integer(_) => operand,
                _ => Object::error("the operand of + is not an integer"),
            },
            Prefix::Minus => match operand {
                Object::Integer(value) => {
                    let zero = const_int(int32_type(), 0);
                    Object::Integer(sub_variable(&mut self.lc, zero, value, ""))
                },
                _ => Object::error("the operand of - is not an integer"),
            },
            Prefix::Not => match operand {
                Object::Boolean(value) => {
                    let no = const_int(int1_type(), 0);
                    Object::Boolean(build_int_eq(&mut self.lc, value, no, ""))
                },
                _ => Object::error("the operand of ! is not a boolean"),
            },
        }
    }

    /// Applies an infix operator to the values of its operands.
    pub fn apply_infix(&mut self, op: Infix, left: Object, right: Object) -> (result: Object)
        requires
            ready(old(self)@),
        ensures
            (final(self)@, result@) == infix(old(self)@, op, left@, right@),
            advanced(old(self)@, final(self)@),
    {
        proof {
            lemma_infix(self@, op, left@, right@);
            reveal_strlit("");
            assert(""@ =~= Seq::<char>::empty());
        }
        match op {
            Infix::Plus | Infix::Minus => match (&left, &right) {
                (Object::Integer(a), Object::Integer(b)) => {
                    match op {
                        Infix::Plus => Object::Integer(add_variable(&mut self.lc, *a, *b, "")),
                        _ => Object::Integer(sub_variable(&mut self.lc, *a, *b, "")),
                    }
                },
                _ => Object::error("the operands are not integers"),
            },
            Infix::Equal | Infix::NotEqual => {
                if left.is_scalar() && left.same_kind(&right) {
                    let a = unwrap_object(&left);
                    let b = unwrap_object(&right);
                    match op {
                        Infix::Equal => Object::Boolean(build_int_eq(&mut self.lc, a, b, "")),
                        _ => Object::Boolean(build_int_ne(&mut self.lc, a, b, "")),
                    }
                } else {
                    Object::error("the operands are not of one kind")
                }
            },
        }
    }

    /// Builds the call of `callee` on the values `args`.
    pub fn invoke(&mut self, callee: &Object, args: Vec<Value>) -> (result: Object)
        requires
            ready(old(self)@),
        ensures
            (final(self)@, result@) == invoke(old(self)@, callee@, args@),
            advanced(old(self)@, final(self)@),
    {
        proof {
            lemma_invoke(self@, callee@, args@);
            reveal_strlit("");
            assert(""@ =~= Seq::<char>::empty());
        }
        match callee {
            Object::Function(function) => {
                if args.len() != function.param_types.len() {
                    return Object::error("wrong number of arguments");
                }
                match function.llvm_value {
                    Value::Function { index } => {
                        if index >= self.lc.module.functions.len() {
                            return Object::error("the function is not in the module");
                        }
                        let ty = self.lc.module.functions[index].ty.clone();
                        let value = call_function(&mut self.lc, &ty, function.llvm_value, args, "");
                        wrap_llvm_value(function.return_type, value)
                    },
                    _ => Object::error("the function is not in the module"),
                }
            },
            Object::BuiltIn(BuiltIn::Printf) => {
                match get_named_function(&self.lc, "printf") {
                    Some(printf) => {
                        match printf {
                            Value::Function { index } => {
                                let ty = self.lc.module.functions[index].ty.clone();
                                call_function(&mut self.lc, &ty, printf, args, "");
                                Object::Null
                            },
                            _ => Object::Null,
                        }
                    },
                    None => Object::error("printf is not in the module"),
                }
            },
            Object::BuiltIn(BuiltIn::Length) => Object::error("length takes a sequence"),
            _ => Object::error("not a function"),
        }
    }

    /// Gives a scalar a storage cell of its own, writes `llvm_value` to the
    /// cell, and binds `name` to an object of the same kind that holds the
    /// cell's address.
    pub fn set_value_to_identify(
        &mut self,
        llvm_value: Value,
        object: Object,
        name: &str,
        env: &mut Environment,
    )
        requires
            ready(old(self)@),
            object@.scalar(),
        ensures
            final(self)@ == old(self)@.with(
                store(
                    alloca(old(self)@.lc, object_type(object@), name@).0,
                    llvm_value,
                    alloca(old(self)@.lc, object_type(object@), name@).1,
                ),
            ),
            final(env)@ == old(env)@.insert(
                name@,
                rewrapped(object@, alloca(old(self)@.lc, object_type(object@), name@).1),
            ),
            advanced(old(self)@, final(self)@),
    {
        proof {
            lemma_extends_cell(self@.lc, object_type(object@), name@, llvm_value);
        }
        let llvm_type = get_llvm_type_from_object(&object);
        let llvm_value_ref = build_alloca(&mut self.lc, llvm_type, name);
        build_store(&mut self.lc, llvm_value, llvm_value_ref);
        let rewraped_object = rewrap_llvm_value_ref(object, llvm_value_ref);
        env.set(name.to_string(), rewraped_object);
    }
}

/// The mathematical value of an optional statement list.
pub open spec fn alternative_view(alternative: &Option<Program>) -> Option<Seq<StmtView>> {
    match alternative {
        Some(statements) => Some(program_view(statements)),
        None => None,
    }
}

/// The mathematical value of an optional object.
pub open spec fn object_of(result: Option<Object>) -> Option<ObjectView> {
    match result {
        Some(object) => Some(object@),
        None => None,
    }
}

impl Eval {
    /// Generates the code of a whole program into `main` and ends `main` by
    /// a return of zero where the program does not return.
    ///
    /// The result is the returned object, `Null` where the program does not
    /// return, or the error that stopped the generation. Unless it is an
    /// error, every block of the module is finished when every block but
    /// the cursor's was finished before.
    pub fn entry_eval_program(&mut self, program: &Program, env: &mut Environment) -> (result:
        Object)
        requires
            ready(old(self)@),
        ensures
            (final(self)@, final(env)@, result@) == entry_program(
                old(self)@,
                program_view(program),
                old(env)@,
            ),
            !(result@ is Error) ==> finished(old(self)@, final(self)@),
            !(result@ is Error) && complete_but_cursor(old(self)@.lc) ==> complete(
                final(self)@.lc.module,
            ),
            result@ is Null || result@.scalar() || result@ is Error,
    {
        proof {
            lemma_entry_program(self@, program_view(program), env@);
        }
        let result = self.eval_program(program, env);
        if result.is_null() {
            build_ret(&mut self.lc, const_int(int32_type(), 0));
        }
        result
    }

    /// Generates the code of a statement list, up to the first statement
    /// that returns or fails.
    ///
    /// The result is `Null` where every statement has run, the returned
    /// object where one returns (the cursor's block is then ended by a
    /// return of its value), or the error that one has yielded.
    #[verifier::loop_isolation(false)]
    pub fn eval_program(&mut self, program: &Program, env: &mut Environment) -> (result: Object)
        requires
            ready(old(self)@),
        ensures
            (final(self)@, final(env)@, result@) == lower_program(
                old(self)@,
                program_view(program),
                old(env)@,
                0,
            ),
            result@ is Null ==> advanced(old(self)@, final(self)@),
            result@.scalar() ==> finished(old(self)@, final(self)@),
            result@ is Null || result@.scalar() || result@ is Error,
        decreases program_size(program_view(program), 0), 1nat,
    {
        proof {
            lemma_program(self@, program_view(program), env@, 0);
            reveal(lower_program);
            reveal(lower_statement);
        }
        let ghost start = self@;
        let ghost env0 = env@;
        let ghost statements = program_view(program);
        let mut i: usize = 0;
        while i < program.len()
            invariant
                i <= program.len(),
                ready(self@),
                lower_program(self@, statements, env@, i as nat) == lower_program(
                    start,
                    statements,
                    env0,
                    0,
                ),
            decreases program.len() - i,
        {
            proof {
                lemma_program_size(statements, 0, i as nat);
            }
            match self.eval_statement(&program[i], env) {
                Some(object) => {
                    if object.is_error() {
                        return object;
                    }
                    build_ret(&mut self.lc, unwrap_object(&object));
                    return object;
                },
                None => {
                },
            }
            i += 1;
        }
        Object::Null
    }

    /// Generates the code of one statement.
    ///
    /// The result is the object that a `return` hands up (the caller ends
    /// the block), an error, or nothing where the next statement runs.
    pub fn eval_statement(&mut self, statement: &Stmt, env: &mut Environment) -> (result: Option<
        Object,
    >)
        requires
            ready(old(self)@),
        ensures
            (final(self)@, final(env)@, object_of(result)) == lower_statement(
                old(self)@,
                statement@,
                old(env)@,
            ),
            !failed(object_of(result)) ==> advanced(old(self)@, final(self)@),
            handed_up(object_of(result)),
        decreases stmt_size(statement@), 0nat,
    {
        proof {
            lemma_statement(self@, statement@, env@);
            reveal(lower_statement);
            reveal(lower_expression);
            reveal(lower_conditional);
            reveal(lower_program);
        }
        match statement {
            Stmt::Assignment(ident, expr) => self.eval_assignment_statement(ident, expr, env),
            Stmt::Let(ident, expr, llvm_type) => self.eval_let_statement(
                ident,
                *llvm_type,
                expr,
                env,
            ),
            Stmt::Return(expr) => self.parse_return_statement(expr, env),
            Stmt::Expr(expr) => self.eval_expression_statement(expr, env),
            Stmt::Func { name, distributed, params, param_types, return_type, body } => {
                self.eval_function_declaration(name, params, param_types, *return_type, body, env)
            },
            Stmt::Blank => None,
        }
    }

    /// Generates the code of `name = expr`: the value of `expr` is written
    /// to the cell that `name` is bound to.
    pub fn eval_assignment_statement(&mut self, ident: &Ident, expr: &Expr, env: &mut Environment) -> (result: Option<Object>)
        requires
            ready(old(self)@),
        ensures
            (final(self)@, final(env)@, object_of(result)) == lower_statement(
                old(self)@,
                StmtView::Assignment(ident@, expr@),
                old(env)@,
            ),
            !failed(object_of(result)) ==> advanced(old(self)@, final(self)@),
            handed_up(object_of(result)),
        decreases expr_size(expr@), 1nat,
    {
        proof {
            lemma_statement(self@, StmtView::Assignment(ident@, expr@), env@);
            reveal(lower_statement);
            reveal(lower_expression);
        }
        let identify_object = env.get(ident.0.as_str());
        if identify_object.is_error() {
            return Some(identify_object);
        }
        if !identify_object.is_scalar() {
            return Some(Object::error("the name is not bound to storage"));
        }
        let llvm_value_ref = unwrap_object(&identify_object);
        if self.lc.type_of(llvm_value_ref) != LLVMType::Pointer {
            return Some(Object::error("the name is not bound to storage"));
        }
        let object = self.eval_expression(expr, env);
        if object.is_error() {
            return Some(object);
        }
        if !object.same_kind(&identify_object) {
            return Some(Object::error("the value is not of the kind of the name"));
        }
        let llvm_value = unwrap_object(&object);
        build_store(&mut self.lc, llvm_value, llvm_value_ref);
        None
    }

    /// Generates the code of `let name: type = expr`.
    pub fn eval_let_statement(&mut self, ident: &Ident, expr_type: LLVMExpressionType, expr: &Expr, env: &mut Environment) -> (result: Option<Object>)
        requires
            ready(old(self)@),
        ensures
            (final(self)@, final(env)@, object_of(result)) == lower_statement(
                old(self)@,
                StmtView::Let(ident@, expr@, expr_type),
                old(env)@,
            ),
            !failed(object_of(result)) ==> advanced(old(self)@, final(self)@),
            handed_up(object_of(result)),
        decreases expr_size(expr@), 1nat,
    {
        proof {
            lemma_statement(self@, StmtView::Let(ident@, expr@, expr_type), env@);
            reveal(lower_statement);
            reveal(lower_expression);
        }
        let object = self.eval_expression(expr, env);
        if object.is_error() {
            return Some(object);
        }
        let fits = match expr_type {
            LLVMExpressionType::Integer => matches!(object, Object::Integer(_)),
            LLVMExpressionType::Boolean => matches!(object, Object::Boolean(_)),
            _ => true,
        };
        if !fits {
            return Some(Object::error("the value is not of the declared type"));
        }
        if object.is_scalar() {
            if self.register_count() == usize::MAX {
                return Some(Object::error("the function has too many values"));
            }
            let value = unwrap_object(&object);
            self.set_value_to_identify(value, object, ident.0.as_str(), env);
        } else {
            env.set(ident.0.clone(), object);
        }
        None
    }

    /// Generates the code of the statement `expr`. A conditional hands up
    /// what it yields; of any other expression only an error is handed up.
    pub fn eval_expression_statement(&mut self, expr: &Expr, env: &mut Environment) -> (result: Option<Object>)
        requires
            ready(old(self)@),
        ensures
            (final(self)@, final(env)@, object_of(result)) == lower_statement(
                old(self)@,
                StmtView::Expr(expr@),
                old(env)@,
            ),
            !failed(object_of(result)) ==> advanced(old(self)@, final(self)@),
            handed_up(object_of(result)),
        decreases expr_size(expr@), 1nat,
    {
        proof {
            reveal(lower_statement);
            reveal(lower_expression);
            reveal(lower_conditional);
        }
        match expr {
            Expr::If { cond, consequence, alternative } => {
                self.eval_if(cond, consequence, alternative, env)
            },
            _ => {
                let obj = self.eval_expression(expr, env);
                if obj.is_error() {
                    Some(obj)
                } else {
                    None
                }
            },
        }
    }

    /// Generates the code of `return expr`: the value of `expr` is handed
    /// up, and the caller ends the block by returning it.
    pub fn parse_return_statement(&mut self, expr: &Expr, env: &mut Environment) -> (result: Option<Object>)
        requires
            ready(old(self)@),
        ensures
            (final(self)@, final(env)@, object_of(result)) == lower_statement(
                old(self)@,
                StmtView::Return(expr@),
                old(env)@,
            ),
            !failed(object_of(result)) ==> advanced(old(self)@, final(self)@),
            handed_up(object_of(result)),
        decreases expr_size(expr@), 1nat,
    {
        proof {
            reveal(lower_statement);
            reveal(lower_expression);
        }
        let object = self.eval_expression(expr, env);
        if object.is_error() || object.is_scalar() {
            Some(object)
        } else {
            Some(Object::error("the returned object is not a value"))
        }
    }

    /// Generates the code of a conditional.
    ///
    /// The result is an error where the condition or a branch yields one.
    /// Otherwise it is the object that the consequence returns; where the
    /// consequence does not return, the object that the alternative
    /// returns; nothing where neither returns. The caller ends the block
    /// at "merge" by a return of what is handed up, as for a `return`. The
    /// bindings are left as they were.
    pub fn eval_if(
        &mut self,
        cond: &Expr,
        consequence: &Program,
        alternative: &Option<Program>,
        env: &mut Environment,
    ) -> (result: Option<Object>)
        requires
            ready(old(self)@),
        ensures
            (final(self)@, object_of(result)) == lower_conditional(
                old(self)@,
                cond@,
                program_view(consequence),
                alternative_view(alternative),
                old(env)@,
            ),
            final(env)@ == old(env)@,
            !failed(object_of(result)) ==> advanced(old(self)@, final(self)@),
            handed_up(object_of(result)),
        decreases branches_size(cond@, program_view(consequence), alternative_view(alternative)),
            0nat,
    {
        proof {
            reveal(lower_conditional);
            reveal(lower_expression);
            reveal(lower_program);
            reveal_strlit("");
            assert(""@ =~= Seq::<char>::empty());
            lemma_conditional(
                self@,
                cond@,
                program_view(consequence),
                alternative_view(alternative),
                env@,
            );
        }
        let ghost start = self@;
        let test = self.eval_expression(cond, env);
        if test.is_error() {
            return Some(test);
        }
        let boolean = match test {
            Object::Boolean(value) => value,
            _ => {
                return Some(Object::error("the condition is not a boolean"));
            },
        };
        if self.block_count() > usize::MAX - 3 {
            return Some(Object::error("the function has too many blocks"));
        }
        let current_function = match self.function_stack.last() {
            Some(function) => function,
            None => {
                return None;
            },
        };
        let left_block = append_basic_block_in_context(&mut self.lc, current_function, "");
        let right_block = append_basic_block_in_context(&mut self.lc, current_function, "");
        let end_block = append_basic_block_in_context(&mut self.lc, current_function, "");
        build_cond_br(&mut self.lc, boolean, left_block, right_block);
        build_position_at_end(&mut self.lc, left_block);
        proof {
            lemma_consequence_ready(start, cond@, env@);
            assert(self@ == at_consequence(start, cond@, env@));
        }

        let mut scope = env.clone();
        let r1 = self.eval_program(consequence, &mut scope);
        if r1.is_error() {
            return Some(r1);
        }
        if r1.is_null() {
            build_br(&mut self.lc, end_block);
        }
        build_position_at_end(&mut self.lc, right_block);
        proof {
            lemma_alternative_ready(start, cond@, program_view(consequence), env@);
            assert(self@ == at_alternative(start, cond@, program_view(consequence), env@));
        }

        let r2 = match alternative {
            Some(statements) => {
                let mut scope = env.clone();
                let r = self.eval_program(statements, &mut scope);
                if r.is_error() {
                    return Some(r);
                }
                r
            },
            None => Object::Null,
        };
        if r2.is_null() {
            build_br(&mut self.lc, end_block);
        }
        build_position_at_end(&mut self.lc, end_block);
        if !r1.is_null() {
            Some(r1)
        } else if !r2.is_null() {
            Some(r2)
        } else {
            None
        }
    }

    /// Generates the code of an expression and returns the object that it
    /// yields: a scalar that holds a value, a function, a built-in
    /// function, `Null`, or an error. The bindings are left as they were.
    pub fn eval_expression(&mut self, expr: &Expr, env: &mut Environment) -> (object: Object)
        requires
            ready(old(self)@),
        ensures
            (final(self)@, object@) == lower_expression(old(self)@, expr@, old(env)@),
            final(env)@ == old(env)@,
            !(object@ is Error) ==> advanced(old(self)@, final(self)@),
        decreases expr_size(expr@), 0nat,
    {
        proof {
            lemma_expression(self@, expr@, env@);
            reveal(lower_expression);
            reveal(lower_conditional);
            reveal(lower_arguments);
        }
        match expr {
            Expr::Literal(literal) => match literal {
                Literal::Int(value) => Object::Integer(
                    const_int(int32_type(), #[verifier::truncate] (*value as u64)),
                ),
                Literal::Bool(value) => Object::Boolean(
                    const_int(
                        int1_type(),
                        if *value {
                            1
                        } else {
                            0
                        },
                    ),
                ),
            },
            Expr::Ident(ident) => {
                let bound = env.get(ident.0.as_str());
                self.read_variable(bound, ident.0.as_str())
            },
            Expr::Prefix(op, operand) => {
                let value = self.eval_expression(operand, env);
                if value.is_error() {
                    return value;
                }
                self.apply_prefix(*op, value)
            },
            Expr::Infix(op, left, right) => {
                let a = self.eval_expression(left, env);
                if a.is_error() {
                    return a;
                }
                let b = self.eval_expression(right, env);
                if b.is_error() {
                    return b;
                }
                self.apply_infix(*op, a, b)
            },
            Expr::If { cond, consequence, alternative } => {
                match self.eval_if(cond, consequence, alternative, env) {
                    Some(object) => object,
                    None => Object::Null,
                }
            },
            Expr::Call { func, args } => {
                let callee = self.eval_expression(func, env);
                if callee.is_error() {
                    return callee;
                }
                let can = match callee {
                    Object::Function(_) | Object::BuiltIn(_) => true,
                    _ => false,
                };
                if !can {
                    return Object::error("not a function");
                }
                let (values, error) = self.eval_arguments(args, env);
                match error {
                    Some(e) => e,
                    None => {
                        self.invoke(&callee, values)
                    },
                }
            },
        }
    }

    /// Generates the code of the arguments of a call, from left to right,
    /// and returns their values; the second part is the error that ended
    /// the evaluation, if one did.
    #[verifier::loop_isolation(false)]
    pub fn eval_arguments(&mut self, args: &Vec<Expr>, env: &mut Environment) -> (result: (
        Vec<Value>,
        Option<Object>,
    ))
        requires
            ready(old(self)@),
        ensures
            (final(self)@, result.0@, object_of(result.1)) == lower_arguments(
                old(self)@,
                exprs_view(args),
                old(env)@,
                0,
                Seq::empty(),
            ),
            final(env)@ == old(env)@,
            result.1 is None ==> advanced(old(self)@, final(self)@),
            result.1 matches Some(e) ==> e@ is Error,
        decreases exprs_size(exprs_view(args), 0), 1nat,
    {
        proof {
            lemma_arguments(self@, exprs_view(args), env@, 0, Seq::empty());
            reveal(lower_arguments);
            reveal(lower_expression);
        }
        let ghost start = self@;
        let ghost list = exprs_view(args);
        let mut values: Vec<Value> = Vec::new();
        let mut i: usize = 0;
        while i < args.len()
            invariant
                i <= args.len(),
                ready(self@),
                env@ == old(env)@,
                lower_arguments(self@, list, env@, i as nat, values@) == lower_arguments(
                    start,
                    list,
                    env@,
                    0,
                    Seq::empty(),
                ),
            decreases args.len() - i,
        {
            proof {
                lemma_exprs_size(list, 0, i as nat);
            }
            let value = self.eval_expression(&args[i], env);
            if value.is_error() {
                return (values, Some(value));
            }
            if !value.is_scalar() {
                return (values, Some(Object::error("an argument is not a value")));
            }
            values.push(unwrap_object(&value));
            i += 1;
        }
        (values, None)
    }

    /// Generates the code of a function declaration: a new function of the
    /// module with a storage cell for each parameter and the code of the
    /// body, ended by a return of zero (or of nothing) where the body does
    /// not return. The name is bound to the function, and the cursor comes
    /// back to where it was.
    #[verifier::loop_isolation(false)]
    pub fn eval_function_declaration(
        &mut self,
        name: &String,
        params: &Vec<Ident>,
        param_types: &Vec<LLVMExpressionType>,
        return_type: LLVMExpressionType,
        body: &Program,
        env: &mut Environment,
    ) -> (result: Option<Object>)
        requires
            ready(old(self)@),
        ensures
            (final(self)@, final(env)@, object_of(result)) == lower_statement(
                old(self)@,
                StmtView::Func {
                    name: name@,
                    distributed: false,
                    params: idents_view(params),
                    param_types: param_types@,
                    return_type,
                    body: program_view(body),
                },
                old(env)@,
            ),
            !failed(object_of(result)) ==> advanced(old(self)@, final(self)@),
            handed_up(object_of(result)),
        decreases program_size(program_view(body), 0), 2nat,
    {
        proof {
            reveal(lower_statement);
            reveal(lower_program);
            lemma_statement(
                self@,
                StmtView::Func {
                    name: name@,
                    distributed: false,
                    params: idents_view(params),
                    param_types: param_types@,
                    return_type,
                    body: program_view(body),
                },
                env@,
            );
        }
        let ghost start = self@;
        if params.len() != param_types.len() {
            return Some(Object::error("a parameter has no type"));
        }
        if self.lc.module.functions.len() == usize::MAX {
            return Some(Object::error("the module has too many functions"));
        }
        let saved = match self.lc.cursor {
            Some(block) => block,
            None => {
                return None;
            },
        };
        let mut types: Vec<LLVMType> = Vec::new();
        let mut k: usize = 0;
        while k < param_types.len()
            invariant
                k <= param_types.len(),
                types.len() == k,
                forall|j: int| 0 <= j < k ==> types[j] == converted(param_types[j]),
            decreases param_types.len() - k,
        {
            types.push(convert_llvm_type(param_types[k]));
            k += 1;
        }
        let fn_type = function_type(convert_llvm_type(return_type), types);
        proof {
            assert(fn_type@.param_types =~= declared_function_type(
                param_types@,
                return_type,
            ).param_types);
        }
        let function = add_function(&mut self.lc, fn_type, name.as_str());
        let block = append_basic_block(&mut self.lc, function, "entry");
        build_position_at_end(&mut self.lc, block);
        self.function_stack.push(function);
        let ghost entered = self@;

        let mut inner = Environment::new();
        let mut i: usize = 0;
        while i < params.len()
            invariant
                i <= params.len(),
                params.len() == param_types.len(),
                ready(self@),
                self@.stack == entered.stack,
                self@.main_block == entered.main_block,
                self@.lc.cursor == entered.lc.cursor,
                bind_params(self@, idents_view(params), param_types@, inner@, i as nat)
                    == bind_params(entered, idents_view(params), param_types@, built_ins(), 0),
            decreases params.len() - i,
        {
            let ty = param_types[i];
            match ty {
                LLVMExpressionType::Integer | LLVMExpressionType::Boolean => {},
                _ => {
                    return Some(Object::error("a parameter is neither an integer nor a boolean"));
                },
            }
            if self.register_count() == usize::MAX || i == usize::MAX {
                return Some(Object::error("the function has too many values"));
            }
            let ghost before = self@.lc;
            let llvm_type = convert_llvm_type(ty);
            proof {
                lemma_extends_cell(
                    before,
                    llvm_type,
                    params[i as int]@,
                    Value::Param { function: before.cursor.unwrap().function, index: i as usize },
                );
            }
            let cell = build_alloca(&mut self.lc, llvm_type, params[i].0.as_str());
            build_store(
                &mut self.lc,
                Value::Param { function: block.function, index: i },
                cell,
            );
            inner.set(params[i].0.clone(), wrap_llvm_value(ty, cell));
            i += 1;
        }

        let result = self.eval_program(body, &mut inner);
        if result.is_error() {
            return Some(result);
        }
        if result.is_null() {
            match return_type {
                LLVMExpressionType::Integer => build_ret(&mut self.lc, const_int(int32_type(), 0)),
                LLVMExpressionType::Boolean => build_ret(&mut self.lc, const_int(int1_type(), 0)),
                _ => build_ret_void(&mut self.lc),
            }
        }
        self.function_stack.pop();
        build_position_at_end(&mut self.lc, saved);
        proof {
            assert(self@.stack =~= start.stack);
            assert(self@.lc == returned(start.lc, self@.lc));
        }
        let mut types_copy: Vec<LLVMExpressionType> = crate::parser::ast::clone_types(param_types);
        env.set(
            name.clone(),
            Object::Function(
                FunctionObject {
                    name: name.clone(),
                    llvm_value: function,
                    return_type,
                    param_types: types_copy,
                },
            ),
        );
        None
    }
}

} // verus!
